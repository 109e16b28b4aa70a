//! The interpreter as a mathematical object.
//!
//! A [`Machine`] is what an interpreter state looks like to a proof: the rows
//! of the loaded program, the cells written since, the stack, the cursor, the
//! direction of travel and the mode. Every instruction is a function from one
//! machine to the next, and the executable interpreter is specified by them.

use crate::arith::{quotient, remainder, wrap};
use crate::input::{char_of_line, integer_of_line};
use crate::location::{Direction, Location};
use crate::stack::{drop_top, lemma_drop_top_twice, lemma_push_then_peek, peek};
use crate::util::{spec_char_to_i64, spec_coordinate, spec_hex_value, spec_i64_to_char};
use vstd::prelude::*;

verus! {

/// What the interpreter does with the characters it meets.
#[derive(Copy, Clone, PartialEq, Eq, Structural, Debug)]
pub enum Mode {
    /// Characters are instructions.
    Normal,
    /// The program has ended; nothing more is executed.
    Exited,
    /// Characters are pushed as numbers until the closing quote.
    Quoted,
}

impl Default for Mode {
    fn default() -> (mode: Mode)
        ensures
            mode == Mode::Normal,
    {
        Mode::Normal
    }
}

/// What an instruction asks of the world outside the interpreter.
#[derive(Copy, Clone, PartialEq, Eq, Structural, Debug)]
pub enum Effect {
    /// Nothing to read or write.
    Silent,
    /// Write this integer to the output.
    WriteInteger(i64),
    /// Write this character to the output.
    WriteChar(char),
    /// Read a line of input and hand it to `read_integer`.
    ReadInteger,
    /// Read a line of input and hand it to `read_char`.
    ReadChar,
}

/// The row length of a loaded program: the length of its longest line.
pub open spec fn longest(lines: Seq<Seq<char>>) -> nat
    decreases lines.len(),
{
    if lines.len() == 0 {
        0
    } else if lines.last().len() > longest(lines.drop_last()) {
        lines.last().len()
    } else {
        longest(lines.drop_last())
    }
}

/// A line filled up with spaces to the given width.
pub open spec fn padded(line: Seq<char>, width: nat) -> Seq<char> {
    Seq::new(
        if width > line.len() {
            width
        } else {
            line.len()
        },
        |i: int|
            if i < line.len() {
                line[i]
            } else {
                ' '
            },
    )
}

/// The mathematical state of an interpreter.
pub struct Machine {
    /// The program as loaded, row by row, every row of the same length.
    pub rows: Seq<Seq<char>>,
    /// The cells written while running. They take precedence over `rows`.
    pub overlay: Map<Location, char>,
    /// The stack, bottom first.
    pub stack: Seq<i64>,
    /// Where the next instruction is read.
    pub cursor: Location,
    /// Where the cursor goes next.
    pub direction: Direction,
    /// How characters are treated.
    pub mode: Mode,
}

impl Machine {
    /// The machine right after loading a program from its lines: the lines
    /// padded to a rectangle, nothing written, an empty stack, the cursor in
    /// the top left corner heading right.
    pub open spec fn load(lines: Seq<Seq<char>>) -> Machine {
        Machine {
            rows: Seq::new(lines.len(), |i: int| padded(lines[i], longest(lines))),
            overlay: Map::empty(),
            stack: Seq::empty(),
            cursor: Location { x: 0, y: 0 },
            direction: Direction::Right,
            mode: Mode::Normal,
        }
    }

    /// The number of rows; the height of the torus.
    pub open spec fn height(self) -> nat {
        self.rows.len()
    }

    /// The length of the rows; the width of the torus.
    pub open spec fn width(self) -> nat {
        if self.rows.len() == 0 {
            0
        } else {
            self.rows[0].len()
        }
    }

    /// What every reachable machine satisfies: the rows form a rectangle
    /// whose sides fit a machine word, and the cursor is on the torus.
    pub open spec fn wf(self) -> bool {
        &&& self.height() <= usize::MAX
        &&& self.width() <= usize::MAX
        &&& forall|i: int| 0 <= i < self.rows.len() ==> (#[trigger] self.rows[i]).len() == self.width()
        &&& self.cursor.within(self.width() as usize, self.height() as usize)
    }

    /// The character at `loc`: the one written there, else the one loaded
    /// there, else none.
    pub open spec fn value_at(self, loc: Location) -> Option<char> {
        if self.overlay.contains_key(loc) {
            Some(self.overlay[loc])
        } else if loc.y < self.rows.len() && loc.x < self.rows[loc.y as int].len() {
            Some(self.rows[loc.y as int][loc.x as int])
        } else {
            None
        }
    }

    /// The character under the cursor.
    pub open spec fn current_value(self) -> Option<char> {
        self.value_at(self.cursor)
    }

    /// This machine after `ch` is written at `loc`.
    pub open spec fn set_value(self, loc: Location, ch: char) -> Machine {
        Machine { overlay: self.overlay.insert(loc, ch), ..self }
    }

    /// This machine with the cursor one cell further along its direction.
    pub open spec fn advance(self) -> Machine {
        Machine {
            cursor: self.cursor.spec_step(
                self.direction,
                self.width() as usize,
                self.height() as usize,
            ),
            ..self
        }
    }

    /// The number of cells on the line that the cursor travels along, counting
    /// a line without cells as one place.
    pub open spec fn span(self) -> nat {
        let cells = match self.direction {
            Direction::Left | Direction::Right => self.width(),
            Direction::Up | Direction::Down => self.height(),
        };
        if cells == 0 {
            1
        } else {
            cells
        }
    }

    /// This machine after the cursor has moved on to the next cell that holds
    /// a character, giving up when it is back at `start` or has taken `limit`
    /// steps.
    pub open spec fn seek(self, start: Location, limit: nat) -> Machine
        decreases limit,
    {
        let next = self.advance();
        if limit <= 1 || next.current_value() is Some || next.cursor == start {
            next
        } else {
            next.seek(start, (limit - 1) as nat)
        }
    }

    /// This machine after the cursor has moved to the next instruction: at
    /// least one step, and on past cells without a character, at most once
    /// around the torus. A machine that has exited stays as it is.
    pub open spec fn step_cursor(self) -> Machine {
        if self.mode is Exited {
            self
        } else {
            self.seek(self.cursor, self.span())
        }
    }

    /// This machine with another stack.
    pub open spec fn with_stack(self, stack: Seq<i64>) -> Machine {
        Machine { stack, ..self }
    }

    /// This machine with `value` pushed.
    pub open spec fn push(self, value: i64) -> Machine {
        self.with_stack(self.stack.push(value))
    }

    /// This machine with `count` values popped.
    pub open spec fn pop(self, count: nat) -> Machine {
        self.with_stack(drop_top(self.stack, count))
    }

    /// The operand popped first: the top of the stack.
    pub open spec fn a(self) -> i64 {
        peek(self.stack, 0)
    }

    /// The operand popped second: the value below the top.
    pub open spec fn b(self) -> i64 {
        peek(self.stack, 1)
    }

    /// The operand popped third.
    pub open spec fn c(self) -> i64 {
        peek(self.stack, 2)
    }

    /// Digit instruction: pushes the value of a hexadecimal digit; any other
    /// character changes nothing.
    pub open spec fn push_digit(self, ch: char) -> Machine {
        match spec_hex_value(ch) {
            Some(value) => self.push(value),
            None => self,
        }
    }

    /// `+`: replaces the two operands with `b + a`.
    pub open spec fn addition(self) -> Machine {
        self.pop(2).push(wrap(self.b() + self.a()))
    }

    /// `-`: replaces the two operands with `b - a`.
    pub open spec fn subtraction(self) -> Machine {
        self.pop(2).push(wrap(self.b() - self.a()))
    }

    /// `*`: replaces the two operands with `b * a`.
    pub open spec fn multiply(self) -> Machine {
        self.pop(2).push(wrap(self.b() * self.a()))
    }

    /// `/`: replaces the two operands with `b / a`, rounded towards zero; with
    /// 0 when `a` is 0.
    pub open spec fn divide(self) -> Machine {
        self.pop(2).push(wrap(quotient(self.b() as int, self.a() as int)))
    }

    /// `%`: replaces the two operands with the remainder of `b / a`; with 0
    /// when `a` is 0.
    pub open spec fn modulo(self) -> Machine {
        self.pop(2).push(remainder(self.b() as int, self.a() as int) as i64)
    }

    /// `!`: replaces the top with 1 if it is 0, and with 0 otherwise.
    pub open spec fn logical_negation(self) -> Machine {
        self.pop(1).push(
            if self.a() == 0 {
                1i64
            } else {
                0i64
            },
        )
    }

    /// `` ` ``: replaces the two operands with 1 if `b > a`, and with 0
    /// otherwise.
    pub open spec fn greater_than(self) -> Machine {
        self.pop(2).push(
            if self.b() > self.a() {
                1i64
            } else {
                0i64
            },
        )
    }

    /// `_`: pops a value and heads left if it is not 0, right if it is.
    pub open spec fn horizontal_if(self) -> Machine {
        Machine {
            direction: if self.a() == 0 {
                Direction::Right
            } else {
                Direction::Left
            },
            ..self.pop(1)
        }
    }

    /// `|`: pops a value and heads up if it is not 0, down if it is.
    pub open spec fn vertical_if(self) -> Machine {
        Machine {
            direction: if self.a() == 0 {
                Direction::Down
            } else {
                Direction::Up
            },
            ..self.pop(1)
        }
    }

    /// `:`: pushes a second copy of the top.
    pub open spec fn duplicate_top(self) -> Machine {
        self.pop(1).push(self.a()).push(self.a())
    }

    /// `\`: exchanges the two topmost values.
    pub open spec fn swap_top(self) -> Machine {
        self.pop(2).push(self.a()).push(self.b())
    }

    /// The cell that the store and load instructions address: column `b`,
    /// row `a`.
    pub open spec fn target(self) -> Location {
        Location { x: spec_coordinate(self.b()), y: spec_coordinate(self.a()) }
    }

    /// `p`: pops a row, a column and a value, and writes the value's
    /// character at that column and row.
    pub open spec fn put(self) -> Machine {
        self.pop(3).set_value(self.target(), spec_i64_to_char(self.c()))
    }

    /// `g`: pops a row and a column and pushes the code of the character at
    /// that column and row, or 0 if there is none.
    pub open spec fn get(self) -> Machine {
        self.pop(2).push(
            match self.value_at(self.target()) {
                Some(ch) => spec_char_to_i64(ch),
                None => 0,
            },
        )
    }

    /// `@`: ends the program.
    pub open spec fn end_program(self) -> Machine {
        Machine { mode: Mode::Exited, ..self }
    }

    /// `.`: pops the value to write as an integer.
    pub open spec fn print_digit(self) -> (Machine, i64) {
        (self.pop(1), self.a())
    }

    /// `,`: pops the value to write as a character.
    pub open spec fn print_char(self) -> (Machine, char) {
        (self.pop(1), spec_i64_to_char(self.a()))
    }

    /// The answer to `&`: pushes the integer that a line of input denotes.
    pub open spec fn read_integer(self, line: Seq<char>) -> Machine {
        self.push(integer_of_line(line))
    }

    /// The answer to `~`: pushes the code of the first character of a line
    /// of input.
    pub open spec fn read_char(self, line: Seq<char>) -> Machine {
        self.push(char_of_line(line))
    }

    /// A character met in quoted mode: the closing quote returns to normal
    /// mode, any other character is pushed as its code.
    pub open spec fn process_quoted(self, ch: char) -> Machine {
        if ch == '"' {
            Machine { mode: Mode::Normal, ..self }
        } else {
            self.push(spec_char_to_i64(ch))
        }
    }

    /// A character met in normal mode: the machine after the instruction
    /// that `ch` stands for, and what the instruction asks of the outside.
    /// `turn` is the direction that the random turn takes. A character that
    /// is no instruction changes nothing.
    pub open spec fn process_normal(self, ch: char, turn: Direction) -> (Machine, Effect) {
        if ('0' <= ch <= '9') || ('a' <= ch <= 'f') {
            (self.push_digit(ch), Effect::Silent)
        } else if ch == '"' {
            (Machine { mode: Mode::Quoted, ..self }, Effect::Silent)
        } else if ch == '#' {
            (self.step_cursor(), Effect::Silent)
        } else if ch == '+' {
            (self.addition(), Effect::Silent)
        } else if ch == '-' {
            (self.subtraction(), Effect::Silent)
        } else if ch == '*' {
            (self.multiply(), Effect::Silent)
        } else if ch == '/' {
            (self.divide(), Effect::Silent)
        } else if ch == '%' {
            (self.modulo(), Effect::Silent)
        } else if ch == '!' {
            (self.logical_negation(), Effect::Silent)
        } else if ch == '`' {
            (self.greater_than(), Effect::Silent)
        } else if ch == '>' {
            (Machine { direction: Direction::Right, ..self }, Effect::Silent)
        } else if ch == '<' {
            (Machine { direction: Direction::Left, ..self }, Effect::Silent)
        } else if ch == '^' {
            (Machine { direction: Direction::Up, ..self }, Effect::Silent)
        } else if ch == 'v' {
            (Machine { direction: Direction::Down, ..self }, Effect::Silent)
        } else if ch == '?' {
            (Machine { direction: turn, ..self }, Effect::Silent)
        } else if ch == '|' {
            (self.vertical_if(), Effect::Silent)
        } else if ch == '_' {
            (self.horizontal_if(), Effect::Silent)
        } else if ch == '$' {
            (self.pop(1), Effect::Silent)
        } else if ch == ':' {
            (self.duplicate_top(), Effect::Silent)
        } else if ch == '\\' {
            (self.swap_top(), Effect::Silent)
        } else if ch == '&' {
            (self, Effect::ReadInteger)
        } else if ch == '~' {
            (self, Effect::ReadChar)
        } else if ch == '.' {
            (self.print_digit().0, Effect::WriteInteger(self.print_digit().1))
        } else if ch == ',' {
            (self.print_char().0, Effect::WriteChar(self.print_char().1))
        } else if ch == 'p' {
            (self.put(), Effect::Silent)
        } else if ch == 'g' {
            (self.get(), Effect::Silent)
        } else if ch == '@' {
            (self.end_program(), Effect::Silent)
        } else {
            (self, Effect::Silent)
        }
    }

    /// One turn of the run loop: the machine afterwards, what the instruction
    /// asks of the outside, and whether there is another turn to take.
    ///
    /// A machine that has exited, or whose cursor is on no character, stops
    /// as it is. Otherwise the character under the cursor is processed in the
    /// machine's mode; if that ends the program the machine stops, else the
    /// cursor moves to the next instruction, and the machine stops if there
    /// is none.
    pub open spec fn cycle(self, turn: Direction) -> (Machine, Effect, bool) {
        if self.mode is Exited {
            (self, Effect::Silent, false)
        } else {
            match self.current_value() {
                None => (self, Effect::Silent, false),
                Some(ch) => {
                    let (after, effect) = if self.mode is Quoted {
                        (self.process_quoted(ch), Effect::Silent)
                    } else {
                        self.process_normal(ch, turn)
                    };
                    if after.mode is Exited {
                        (after, effect, false)
                    } else {
                        (after.step_cursor(), effect, after.step_cursor().current_value() is Some)
                    }
                },
            }
        }
    }

    /// No line of a program is longer than the longest.
    pub proof fn lemma_longest_bounds(lines: Seq<Seq<char>>, i: int)
        requires
            0 <= i < lines.len(),
        ensures
            lines[i].len() <= longest(lines),
        decreases lines.len(),
    {
        if i < lines.len() - 1 {
            Machine::lemma_longest_bounds(lines.drop_last(), i);
        }
    }

    /// A freshly loaded program is a rectangle as high as the program has
    /// lines and as wide as its longest line. Inside it every cell holds a
    /// character, the one of the program or a space past the end of a short
    /// line; outside it no cell holds any.
    pub proof fn lemma_load_value_at(lines: Seq<Seq<char>>, loc: Location)
        ensures
            Machine::load(lines).height() == lines.len(),
            Machine::load(lines).width() == longest(lines),
            lines.len() <= usize::MAX && longest(lines) <= usize::MAX ==> Machine::load(lines).wf(),
            Machine::load(lines).value_at(loc) == if loc.y < lines.len() && loc.x < longest(lines) {
                if loc.x < lines[loc.y as int].len() {
                    Some(lines[loc.y as int][loc.x as int])
                } else {
                    Some(' ')
                }
            } else {
                None
            },
    {
        let loaded = Machine::load(lines);
        assert forall|i: int| 0 <= i < lines.len() implies (#[trigger] loaded.rows[i]).len()
            == longest(lines) by {
            Machine::lemma_longest_bounds(lines, i);
        }
    }

    /// A write shows at once in what is read from the cell written, and in
    /// no other cell.
    pub proof fn lemma_write_shows(self, loc: Location, ch: char, other: Location)
        ensures
            self.set_value(loc, ch).value_at(loc) == Some(ch),
            other != loc ==> self.set_value(loc, ch).value_at(other) == self.value_at(other),
    {
    }

    /// Moving the cursor to the next instruction changes nothing but the
    /// cursor, and leaves it on the torus.
    pub proof fn lemma_seek_moves_cursor_only(self, start: Location, limit: nat)
        requires
            self.wf(),
        ensures
            self.seek(start, limit).wf(),
            self.seek(start, limit) == (Machine { cursor: self.seek(start, limit).cursor, ..self }),
        decreases limit,
    {
        let next = self.advance();
        self.cursor.lemma_step_stays_within(
            self.direction,
            self.width() as usize,
            self.height() as usize,
        );
        if !(limit <= 1 || next.current_value() is Some || next.cursor == start) {
            next.lemma_seek_moves_cursor_only(start, (limit - 1) as nat);
        }
    }

    /// On a grid that has cells, the next instruction is always exactly one
    /// step away: every cell of the torus holds a character.
    pub proof fn lemma_step_cursor_on_grid(self)
        requires
            self.wf(),
            self.width() > 0,
            self.height() > 0,
            !(self.mode is Exited),
        ensures
            self.step_cursor() == self.advance(),
            self.step_cursor().current_value() is Some,
            self.step_cursor().wf(),
    {
        self.cursor.lemma_step_stays_within(
            self.direction,
            self.width() as usize,
            self.height() as usize,
        );
        let next = self.advance();
        assert(next.rows[next.cursor.y as int].len() == self.width());
    }

    /// Every instruction leaves the loaded program as it was, and the cursor
    /// on the torus: a well-formed machine stays well formed.
    pub proof fn lemma_process_keeps_wf(self, ch: char, turn: Direction)
        requires
            self.wf(),
        ensures
            self.process_quoted(ch).wf(),
            self.process_quoted(ch).rows == self.rows,
            self.process_normal(ch, turn).0.wf(),
            self.process_normal(ch, turn).0.rows == self.rows,
    {
        let after = self.process_normal(ch, turn).0;
        if ch == '#' {
            self.lemma_seek_moves_cursor_only(self.cursor, self.span());
        } else {
            assert(after.rows == self.rows);
            assert(after.cursor == self.cursor);
        }
    }

    /// A turn of the run loop leaves a well-formed machine well formed.
    pub proof fn lemma_cycle_keeps_wf(self, turn: Direction)
        requires
            self.wf(),
        ensures
            self.cycle(turn).0.wf(),
            self.cycle(turn).0.rows == self.rows,
    {
        if !(self.mode is Exited) {
            match self.current_value() {
                Some(ch) => {
                    self.lemma_process_keeps_wf(ch, turn);
                    let after = if self.mode is Quoted {
                        self.process_quoted(ch)
                    } else {
                        self.process_normal(ch, turn).0
                    };
                    after.lemma_seek_moves_cursor_only(after.cursor, after.span());
                },
                None => {},
            }
        }
    }

    /// Only the random turn depends on the direction that was drawn.
    pub proof fn lemma_turn_is_for_random_only(self, ch: char, first: Direction, second: Direction)
        requires
            ch != '?',
        ensures
            self.process_normal(ch, first) == self.process_normal(ch, second),
    {
    }

    /// Operand order: with `b` pushed first and `a` on top, `+` leaves `b + a`,
    /// `-` leaves `b - a`, and the comparison leaves 1 exactly if `b > a`. The
    /// results are the true sum and difference whenever these fit in 64 bits.
    pub proof fn lemma_operand_order(self, b: i64, a: i64)
        ensures
            self.push(b).push(a).addition() == self.push(wrap(b + a)),
            self.push(b).push(a).subtraction() == self.push(wrap(b - a)),
            self.push(b).push(a).greater_than() == self.push(
                if b > a {
                    1i64
                } else {
                    0i64
                },
            ),
            i64::MIN <= b + a <= i64::MAX ==> wrap(b + a) == b + a,
            i64::MIN <= b - a <= i64::MAX ==> wrap(b - a) == b - a,
    {
        let pushed = self.stack.push(b).push(a);
        lemma_push_then_peek(self.stack.push(b), a);
        lemma_push_then_peek(self.stack, b);
        lemma_drop_top_twice(pushed, 1, 1);
        assert(drop_top(pushed, 2) == self.stack);
        assert(peek(pushed, 1) == b);
    }

    /// Store, then load: a value written with `p` at a column and row is what
    /// `g` reads at the same column and row, whatever the program holds in
    /// that cell. What is read is the character's code, which is the value
    /// itself if it lies between 0 and 255, and its low byte otherwise.
    pub proof fn lemma_put_then_get(self, x: i64, y: i64, v: i64)
        ensures
            self.push(v).push(x).push(y).put() == self.set_value(
                Location { x: spec_coordinate(x), y: spec_coordinate(y) },
                spec_i64_to_char(v),
            ),
            self.push(v).push(x).push(y).put().push(x).push(y).get() == self.push(v).push(x).push(
                y,
            ).put().push(spec_char_to_i64(spec_i64_to_char(v))),
            spec_char_to_i64(spec_i64_to_char(v)) == (v as int) % 256,
            0 <= v < 256 ==> spec_char_to_i64(spec_i64_to_char(v)) == v,
    {
        let full = self.stack.push(v).push(x).push(y);
        lemma_push_then_peek(self.stack.push(v).push(x), y);
        lemma_push_then_peek(self.stack.push(v), x);
        lemma_push_then_peek(self.stack, v);
        lemma_drop_top_twice(full, 1, 1);
        lemma_drop_top_twice(full, 2, 1);
        assert(drop_top(full, 3) == self.stack);
        assert(peek(full, 1) == x);
        assert(peek(full, 2) == v);
        let written = self.push(v).push(x).push(y).put();
        let again = written.stack.push(x).push(y);
        lemma_push_then_peek(written.stack.push(x), y);
        lemma_push_then_peek(written.stack, x);
        lemma_drop_top_twice(again, 1, 1);
        assert(drop_top(again, 2) == written.stack);
        assert(peek(again, 1) == x);
    }

    /// Loading is only reading: `g` changes nothing but the stack, so what it
    /// reads at a column and row stays the same however often it is read.
    pub proof fn lemma_get_is_stable(self, x: i64, y: i64)
        ensures
            self.push(x).push(y).get() == self.push(
                match self.value_at(Location { x: spec_coordinate(x), y: spec_coordinate(y) }) {
                    Some(ch) => spec_char_to_i64(ch),
                    None => 0,
                },
            ),
            self.push(x).push(y).get().pop(1) == self,
            self.push(x).push(y).get().pop(1).push(x).push(y).get() == self.push(x).push(y).get(),
    {
        let full = self.stack.push(x).push(y);
        lemma_push_then_peek(self.stack.push(x), y);
        lemma_push_then_peek(self.stack, x);
        lemma_drop_top_twice(full, 1, 1);
        assert(drop_top(full, 2) == self.stack);
        assert(peek(full, 1) == x);
        let read = self.push(x).push(y).get();
        lemma_push_then_peek(self.stack, peek(read.stack, 0));
        assert(read.pop(1) == self);
    }
}

} // verus!
