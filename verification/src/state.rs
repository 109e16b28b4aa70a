//! The executable interpreter state and the instructions that act on it.
//!
//! A [`State`] holds the loaded program, the cells written while running, the
//! stack, the cursor, the direction and the mode. Its view is a
//! [`Machine`], and every function here does to the state what the function
//! of the same name does to the machine.
//!
//! The interpreter itself neither reads nor writes: an instruction that needs
//! the outside world says so in the [`Effect`] it returns, and the caller
//! carries it out.

use crate::arith::{difference, divided, product, remaining, sum};
use crate::input::{first_char, parse_integer};
use crate::location::{Direction, Location};
use crate::machine::{longest, padded, Effect, Machine, Mode};
use crate::source::{lines_of, source_lines, texts};
use crate::stack::{lemma_drop_top_twice, Stack};
use crate::util::{char_to_i64, coordinate, hex_value, i64_to_char};
use std::collections::HashMap;
use vstd::prelude::*;

verus! {

/// The key under which a written cell is kept: column and row side by side
/// in one number.
spec fn cell_key(loc: Location) -> u128 {
    (loc.x as int * 0x1_0000_0000_0000_0000 + loc.y as int) as u128
}

/// Different cells have different keys.
proof fn lemma_cell_key_injective(a: Location, b: Location)
    ensures
        cell_key(a) == cell_key(b) <==> a == b,
{
}

fn key_of(loc: Location) -> (key: u128)
    ensures
        key == cell_key(loc),
{
    (loc.x as u128) * 0x1_0000_0000_0000_0000u128 + (loc.y as u128)
}

/// The cells that a table of keys stands for.
spec fn cells(table: Map<u128, char>) -> Map<Location, char> {
    Map::new(
        |loc: Location| table.contains_key(cell_key(loc)),
        |loc: Location| table[cell_key(loc)],
    )
}

/// The state of one program being interpreted.
pub struct State {
    /// The program as loaded, padded to a rectangle.
    initial_grid: Vec<Vec<char>>,
    /// The cells written while running.
    grid_updates: HashMap<u128, char>,
    /// The values pushed while running.
    stack: Stack,
    /// The position of the instruction pointer.
    cursor: Location,
    /// The direction in which the cursor moves.
    direction: Direction,
    /// How the characters under the cursor are treated.
    execution_mode: Mode,
}

impl View for State {
    type V = Machine;

    closed spec fn view(&self) -> Machine {
        Machine {
            rows: texts(self.initial_grid@),
            overlay: cells(self.grid_updates@),
            stack: self.stack@,
            cursor: self.cursor,
            direction: self.direction,
            mode: self.execution_mode,
        }
    }
}

/// The length of the longest of the given lines.
fn longest_line(lines: &Vec<Vec<char>>) -> (width: usize)
    ensures
        width == longest(texts(lines@)),
        forall|i: int| 0 <= i < lines@.len() ==> lines@[i]@.len() <= width,
{
    let mut width: usize = 0;
    let mut i: usize = 0;
    assert(texts(lines@).subrange(0, 0) =~= Seq::<Seq<char>>::empty());
    while i < lines.len()
        invariant
            i <= lines.len(),
            width == longest(texts(lines@).subrange(0, i as int)),
            forall|j: int| 0 <= j < i ==> lines@[j]@.len() <= width,
        decreases lines.len() - i,
    {
        let ghost so_far = texts(lines@).subrange(0, i as int);
        let ghost further = texts(lines@).subrange(0, i + 1);
        assert(further.drop_last() =~= so_far);
        assert(further.last() == lines@[i as int]@);
        if lines[i].len() > width {
            width = lines[i].len();
        }
        i += 1;
    }
    assert(texts(lines@).subrange(0, i as int) =~= texts(lines@));
    width
}

/// A copy of `line`, filled up with spaces to `width` characters.
fn pad(line: &Vec<char>, width: usize) -> (row: Vec<char>)
    requires
        line@.len() <= width,
    ensures
        row@ == padded(line@, width as nat),
        row@.len() == width,
{
    let mut row: Vec<char> = Vec::new();
    let mut i: usize = 0;
    while i < width
        invariant
            i <= width,
            line@.len() <= width,
            row@.len() == i,
            forall|j: int| 0 <= j < i ==> row@[j] == padded(line@, width as nat)[j],
        decreases width - i,
    {
        if i < line.len() {
            row.push(line[i]);
        } else {
            row.push(' ');
        }
        i += 1;
    }
    assert(row@ =~= padded(line@, width as nat));
    row
}

impl State {
    /// Whether this state is one that the interpreter can reach: its view is
    /// a well-formed machine.
    pub open spec fn wf(&self) -> bool {
        self@.wf()
    }

    /// Makes the state of the empty program.
    pub fn empty_state() -> (state: State)
        ensures
            state.wf(),
            state@ == Machine::load(Seq::empty()),
    {
        let lines: Vec<Vec<char>> = Vec::new();
        assert(texts(lines@) =~= Seq::<Seq<char>>::empty());
        State::new_from_lines(lines)
    }

    /// Makes the state that a program starts in. Each line becomes one row of
    /// the grid, filled up with spaces to the length of the longest line.
    pub fn new_from_lines(lines: Vec<Vec<char>>) -> (state: State)
        ensures
            state.wf(),
            state@ == Machine::load(texts(lines@)),
    {
        broadcast use vstd::std_specs::hash::group_hash_axioms;

        let width = longest_line(&lines);
        let mut grid: Vec<Vec<char>> = Vec::new();
        let mut i: usize = 0;
        while i < lines.len()
            invariant
                i <= lines.len(),
                grid@.len() == i,
                width == longest(texts(lines@)),
                forall|j: int| 0 <= j < lines@.len() ==> lines@[j]@.len() <= width,
                forall|j: int|
                    0 <= j < i ==> (#[trigger] grid@[j])@ == padded(lines@[j]@, width as nat)
                        && grid@[j]@.len() == width,
            decreases lines.len() - i,
        {
            let row = pad(&lines[i], width);
            grid.push(row);
            i += 1;
        }
        let state = State {
            initial_grid: grid,
            grid_updates: HashMap::new(),
            stack: Stack::new(),
            cursor: Location::new(0, 0),
            direction: Direction::Right,
            execution_mode: Mode::Normal,
        };
        assert(state@.rows =~= Machine::load(texts(lines@)).rows);
        assert(state@.overlay =~= Map::<Location, char>::empty());
        state
    }

    /// Makes the state that the program with the given text starts in: one
    /// row of the grid for each line of the text.
    pub fn new_from_source(text: &str) -> (state: State)
        ensures
            state.wf(),
            state@ == Machine::load(source_lines(text@)),
    {
        State::new_from_lines(lines_of(text))
    }

    /// The number of columns of the grid.
    pub fn width(&self) -> (width: usize)
        ensures
            width == self@.width(),
    {
        if self.initial_grid.len() == 0 {
            0
        } else {
            self.initial_grid[0].len()
        }
    }

    /// The number of rows of the grid.
    pub fn height(&self) -> (height: usize)
        ensures
            height == self@.height(),
    {
        self.initial_grid.len()
    }

    /// The position of the cursor.
    pub fn cursor(&self) -> (cursor: Location)
        ensures
            cursor == self@.cursor,
    {
        self.cursor
    }

    /// The direction in which the cursor moves.
    pub fn direction(&self) -> (direction: Direction)
        ensures
            direction == self@.direction,
    {
        self.direction
    }

    /// The mode that the interpreter is in.
    pub fn mode(&self) -> (mode: Mode)
        ensures
            mode == self@.mode,
    {
        self.execution_mode
    }

    /// The values on the stack, bottom first.
    pub fn stack(&self) -> (values: Vec<i64>)
        ensures
            values@ == self@.stack,
    {
        self.stack.values()
    }

    /// The character at `loc`: the one written there while running, else the
    /// one loaded there, else none.
    pub fn value_at(&self, loc: Location) -> (value: Option<char>)
        ensures
            value == self@.value_at(loc),
    {
        broadcast use vstd::std_specs::hash::group_hash_axioms;

        let key = key_of(loc);
        match self.grid_updates.get(&key) {
            Some(ch) => Some(*ch),
            None => {
                if loc.y < self.initial_grid.len() {
                    let row = &self.initial_grid[loc.y];
                    if loc.x < row.len() {
                        Some(row[loc.x])
                    } else {
                        None
                    }
                } else {
                    None
                }
            },
        }
    }

    /// The character under the cursor.
    pub fn current_value(&self) -> (value: Option<char>)
        ensures
            value == self@.current_value(),
    {
        self.value_at(self.cursor)
    }

    /// Writes `ch` at `loc`. The write shows in every later read of that
    /// cell and changes nothing else.
    pub fn set_value(&mut self, loc: Location, ch: char)
        ensures
            final(self)@ == old(self)@.set_value(loc, ch),
            old(self).wf() ==> final(self).wf(),
    {
        broadcast use vstd::std_specs::hash::group_hash_axioms;

        let key = key_of(loc);
        self.grid_updates.insert(key, ch);
        proof {
            assert forall|other: Location| cell_key(other) == cell_key(loc) implies other == loc by {
                lemma_cell_key_injective(other, loc);
            }
            assert(cells(self.grid_updates@) =~= cells(old(self).grid_updates@).insert(loc, ch));
        }
    }

    /// Moves the cursor one cell in the current direction, around the edge
    /// if need be, and returns its new position.
    pub fn increment_cursor(&mut self) -> (cursor: Location)
        requires
            old(self).wf(),
        ensures
            final(self).wf(),
            final(self)@ == old(self)@.advance(),
            cursor == final(self)@.cursor,
    {
        let width = self.width();
        let height = self.height();
        proof {
            self.cursor.lemma_step_stays_within(self.direction, width, height);
        }
        self.cursor.step_mut(self.direction, width, height)
    }

    /// Moves the cursor one cell and returns the character found there.
    pub fn next_value(&mut self) -> (value: Option<char>)
        requires
            old(self).wf(),
        ensures
            final(self).wf(),
            final(self)@ == old(self)@.advance(),
            value == final(self)@.current_value(),
    {
        self.increment_cursor();
        self.current_value()
    }

    /// Moves the cursor to the next instruction: one cell on, and further
    /// while there is no character under it. Returns whether it came to rest
    /// on a character; it gives up when it is back where it started.
    pub fn step_cursor(&mut self) -> (found: bool)
        requires
            old(self).wf(),
        ensures
            final(self).wf(),
            final(self)@ == old(self)@.step_cursor(),
            found == (!(old(self)@.mode is Exited) && final(self)@.current_value() is Some),
    {
        if self.execution_mode == Mode::Exited {
            return false;
        }
        let start = self.cursor;
        let ghost origin = self@;
        let ghost width = origin.width() as usize;
        let ghost height = origin.height() as usize;
        let ghost mut taken: nat = 0;
        proof {
            start.lemma_travel_step(origin.direction, 0, width, height);
        }
        loop
            invariant
                self.wf(),
                origin == old(self)@,
                origin.wf(),
                origin.cursor == start,
                !(origin.mode is Exited),
                width == origin.width(),
                height == origin.height(),
                self@ == (Machine { cursor: self@.cursor, ..origin }),
                taken < origin.span(),
                self@.cursor == start.travel(origin.direction, taken, width, height),
                origin.step_cursor() == self@.seek(start, (origin.span() - taken) as nat),
            decreases origin.span() - taken,
        {
            let value = self.next_value();
            proof {
                start.lemma_travel_step(origin.direction, taken, width, height);
                start.lemma_travel_around(origin.direction, width, height);
                taken = taken + 1;
            }
            if value.is_some() {
                return true;
            }
            if start == self.cursor {
                return false;
            }
        }
    }

    /// Handles a character met in quoted mode: the closing quote returns to
    /// normal mode, any other character is pushed as its code.
    pub fn process_quoted(&mut self, ch: char)
        ensures
            final(self)@ == old(self)@.process_quoted(ch),
            old(self).wf() ==> final(self).wf(),
    {
        if ch == '"' {
            self.execution_mode = Mode::Normal;
            return ;
        }
        self.stack.push(char_to_i64(ch));
    }

    /// Handles a character met in normal mode, with `turn` as the direction
    /// that a random turn takes. Returns what the instruction asks of the
    /// outside world.
    pub fn process_normal_with(&mut self, ch: char, turn: Direction) -> (effect: Effect)
        requires
            old(self).wf(),
        ensures
            final(self).wf(),
            (final(self)@, effect) == old(self)@.process_normal(ch, turn),
    {
        if ('0' <= ch && ch <= '9') || ('a' <= ch && ch <= 'f') {
            push_digit(self, ch);
            return Effect::Silent;
        }
        match ch {
            '"' => {
                self.execution_mode = Mode::Quoted;
            },
            '#' => {
                self.step_cursor();
            },
            '+' => addition(self),
            '-' => subtraction(self),
            '*' => multiply(self),
            '/' => divide(self),
            '%' => modulo(self),
            '!' => logical_negation(self),
            '`' => greater_than(self),
            '>' => {
                self.direction = Direction::Right;
            },
            '<' => {
                self.direction = Direction::Left;
            },
            '^' => {
                self.direction = Direction::Up;
            },
            'v' => {
                self.direction = Direction::Down;
            },
            '?' => {
                self.direction = turn;
            },
            '|' => veritical_if(self),
            '_' => horizontal_if(self),
            '$' => {
                self.stack.pop();
            },
            ':' => self.stack.duplicate_top(),
            '\\' => {
                self.stack.swap_top();
            },
            '&' => {
                return Effect::ReadInteger;
            },
            '~' => {
                return Effect::ReadChar;
            },
            '.' => {
                return Effect::WriteInteger(print_digit(self));
            },
            ',' => {
                return Effect::WriteChar(print_char(self));
            },
            'p' => put(self),
            'g' => get(self),
            '@' => end_program(self),
            _ => {},
        }
        Effect::Silent
    }

    /// Handles a character met in normal mode. A random turn draws its
    /// direction here; every other instruction does what
    /// [`State::process_normal_with`] does.
    pub fn process_normal(&mut self, ch: char) -> (effect: Effect)
        requires
            old(self).wf(),
        ensures
            final(self).wf(),
            exists|turn: Direction|
                (final(self)@, effect) == #[trigger] old(self)@.process_normal(ch, turn),
    {
        let turn = if ch == '?' {
            Direction::rand()
        } else {
            Direction::Right
        };
        self.process_normal_with(ch, turn)
    }

    /// Takes one turn of the run loop, with `turn` as the direction that a
    /// random turn takes: processes the character under the cursor and moves
    /// the cursor on. Returns what the instruction asks of the outside world
    /// and whether the program goes on.
    pub fn cycle_with(&mut self, turn: Direction) -> (outcome: (Effect, bool))
        requires
            old(self).wf(),
        ensures
            final(self).wf(),
            (final(self)@, outcome.0, outcome.1) == old(self)@.cycle(turn),
    {
        if self.execution_mode == Mode::Exited {
            return (Effect::Silent, false);
        }
        let ch = match self.current_value() {
            Some(ch) => ch,
            None => {
                return (Effect::Silent, false);
            },
        };
        let effect = if self.execution_mode == Mode::Quoted {
            self.process_quoted(ch);
            Effect::Silent
        } else {
            self.process_normal_with(ch, turn)
        };
        if self.execution_mode == Mode::Exited {
            return (effect, false);
        }
        let found = self.step_cursor();
        (effect, found)
    }

    /// Takes one turn of the run loop: processes the character under the
    /// cursor and moves the cursor on. Returns what the instruction asks of
    /// the outside world and whether the program goes on.
    pub fn cycle(&mut self) -> (outcome: (Effect, bool))
        requires
            old(self).wf(),
        ensures
            final(self).wf(),
            exists|turn: Direction|
                (final(self)@, outcome.0, outcome.1) == #[trigger] old(self)@.cycle(turn),
    {
        let random = match self.current_value() {
            Some(ch) => self.execution_mode == Mode::Normal && ch == '?',
            None => false,
        };
        let turn = if random {
            Direction::rand()
        } else {
            Direction::Right
        };
        self.cycle_with(turn)
    }
}

impl Default for State {
    fn default() -> (state: State)
        ensures
            state.wf(),
            state@ == Machine::load(Seq::empty()),
    {
        State::empty_state()
    }
}

/// Answers `~` with a line of input: pushes the code of its first character,
/// or 0 if the line is empty.
pub fn read_char(state: &mut State, line: &str)
    ensures
        final(state)@ == old(state)@.read_char(line@),
        old(state).wf() ==> final(state).wf(),
{
    let ch = match first_char(line) {
        Some(ch) => ch,
        None => '\0',
    };
    state.stack.push(char_to_i64(ch));
}

/// Answers `&` with a line of input: pushes the integer written on it, or 0
/// if the line is not a decimal integer.
pub fn read_integer(state: &mut State, line: &str)
    ensures
        final(state)@ == old(state)@.read_integer(line@),
        old(state).wf() ==> final(state).wf(),
{
    match parse_integer(line) {
        Some(value) => {
            state.stack.push(value);
        },
        None => {
            state.stack.push(0);
        },
    }
}

/// `p`: pops a row `y`, a column `x` and a value `v`, and writes the
/// character of `v` at `(x, y)`.
pub fn put(state: &mut State)
    ensures
        final(state)@ == old(state)@.put(),
        old(state).wf() ==> final(state).wf(),
{
    let y = state.stack.pop();
    let x = state.stack.pop();
    let v = state.stack.pop();
    proof {
        lemma_drop_top_twice(old(state)@.stack, 1, 1);
        lemma_drop_top_twice(old(state)@.stack, 2, 1);
    }
    state.set_value(Location::new(coordinate(x), coordinate(y)), i64_to_char(v));
}

/// `g`: pops a row `y` and a column `x`, and pushes the code of the
/// character at `(x, y)`, or 0 if there is none.
pub fn get(state: &mut State)
    ensures
        final(state)@ == old(state)@.get(),
        old(state).wf() ==> final(state).wf(),
{
    let y = state.stack.pop();
    let x = state.stack.pop();
    proof {
        lemma_drop_top_twice(old(state)@.stack, 1, 1);
    }
    let v = match state.value_at(Location::new(coordinate(x), coordinate(y))) {
        Some(ch) => char_to_i64(ch),
        None => 0,
    };
    state.stack.push(v);
}

/// `` ` ``: pops `a`, then `b`, and pushes 1 if `b > a`, else 0.
pub fn greater_than(state: &mut State)
    ensures
        final(state)@ == old(state)@.greater_than(),
        old(state).wf() ==> final(state).wf(),
{
    let a = state.stack.pop();
    let b = state.stack.pop();
    proof {
        lemma_drop_top_twice(old(state)@.stack, 1, 1);
    }
    let mut result: i64 = 0;
    if b > a {
        result = 1;
    }
    state.stack.push(result);
}

/// `!`: pops a value and pushes 1 if it is 0, else 0.
pub fn logical_negation(state: &mut State)
    ensures
        final(state)@ == old(state)@.logical_negation(),
        old(state).wf() ==> final(state).wf(),
{
    let mut negation: i64 = 0;
    if state.stack.pop() == 0 {
        negation = 1;
    }
    state.stack.push(negation);
}

/// `.`: pops the value that is to be written as an integer.
pub fn print_digit(state: &mut State) -> (value: i64)
    ensures
        (final(state)@, value) == old(state)@.print_digit(),
        old(state).wf() ==> final(state).wf(),
{
    state.stack.pop()
}

/// `,`: pops the value that is to be written as a character.
pub fn print_char(state: &mut State) -> (ch: char)
    ensures
        (final(state)@, ch) == old(state)@.print_char(),
        old(state).wf() ==> final(state).wf(),
{
    i64_to_char(state.stack.pop())
}

/// Pushes the value of `ch` read as a hexadecimal digit. A character that
/// is no such digit pushes nothing.
pub fn push_digit(state: &mut State, ch: char)
    ensures
        final(state)@ == old(state)@.push_digit(ch),
        old(state).wf() ==> final(state).wf(),
{
    if let Some(v) = hex_value(ch) {
        state.stack.push(v);
    }
}

/// `+`: pops `a`, then `b`, and pushes `b + a`.
pub fn addition(state: &mut State)
    ensures
        final(state)@ == old(state)@.addition(),
        old(state).wf() ==> final(state).wf(),
{
    let a = state.stack.pop();
    let b = state.stack.pop();
    proof {
        lemma_drop_top_twice(old(state)@.stack, 1, 1);
    }
    state.stack.push(sum(b, a));
}

/// `-`: pops `a`, then `b`, and pushes `b - a`.
pub fn subtraction(state: &mut State)
    ensures
        final(state)@ == old(state)@.subtraction(),
        old(state).wf() ==> final(state).wf(),
{
    let a = state.stack.pop();
    let b = state.stack.pop();
    proof {
        lemma_drop_top_twice(old(state)@.stack, 1, 1);
    }
    state.stack.push(difference(b, a));
}

/// `*`: pops `a`, then `b`, and pushes `b * a`.
pub fn multiply(state: &mut State)
    ensures
        final(state)@ == old(state)@.multiply(),
        old(state).wf() ==> final(state).wf(),
{
    let a = state.stack.pop();
    let b = state.stack.pop();
    proof {
        lemma_drop_top_twice(old(state)@.stack, 1, 1);
    }
    state.stack.push(product(b, a));
}

/// `/`: pops `a`, then `b`, and pushes `b / a` rounded towards zero, or 0 if
/// `a` is 0.
pub fn divide(state: &mut State)
    ensures
        final(state)@ == old(state)@.divide(),
        old(state).wf() ==> final(state).wf(),
{
    let a = state.stack.pop();
    let b = state.stack.pop();
    proof {
        lemma_drop_top_twice(old(state)@.stack, 1, 1);
    }
    state.stack.push(divided(b, a));
}

/// `%`: pops `a`, then `b`, and pushes the remainder of `b / a`, or 0 if `a`
/// is 0.
pub fn modulo(state: &mut State)
    ensures
        final(state)@ == old(state)@.modulo(),
        old(state).wf() ==> final(state).wf(),
{
    let a = state.stack.pop();
    let b = state.stack.pop();
    proof {
        lemma_drop_top_twice(old(state)@.stack, 1, 1);
    }
    state.stack.push(remaining(b, a));
}

/// `@`: ends the program.
pub fn end_program(state: &mut State)
    ensures
        final(state)@ == old(state)@.end_program(),
        old(state).wf() ==> final(state).wf(),
{
    state.execution_mode = Mode::Exited;
}

/// `_`: pops a value and heads left if it is not 0, right if it is.
pub fn horizontal_if(state: &mut State)
    ensures
        final(state)@ == old(state)@.horizontal_if(),
        old(state).wf() ==> final(state).wf(),
{
    state.direction = Direction::Left;
    if state.stack.pop() == 0 {
        state.direction = Direction::Right;
    }
}

/// `|`: pops a value and heads up if it is not 0, down if it is.
pub fn veritical_if(state: &mut State)
    ensures
        final(state)@ == old(state)@.vertical_if(),
        old(state).wf() ==> final(state).wf(),
{
    state.direction = Direction::Up;
    if state.stack.pop() == 0 {
        state.direction = Direction::Down;
    }
}

} // verus!
