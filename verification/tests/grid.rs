use befunge::location::{Direction, Location};
use befunge::machine::{Effect, Mode};
use befunge::state::State;

fn load(lines: &[&str]) -> State {
    State::new_from_lines(lines.iter().map(|line| line.chars().collect()).collect())
}

#[test]
fn empty_state_has_nothing_in_it() {
    let state = State::empty_state();
    assert_eq!(state.width(), 0);
    assert_eq!(state.height(), 0);
    assert_eq!(state.cursor(), Location::new(0, 0));
    assert_eq!(state.direction(), Direction::Right);
    assert_eq!(state.mode(), Mode::Normal);
    assert_eq!(state.stack(), Vec::<i64>::new());
    assert_eq!(state.value_at(Location::new(0, 0)), None);
    assert_eq!(state.current_value(), None);
}

#[test]
fn default_state_is_the_empty_state() {
    let state = State::default();
    assert_eq!(state.width(), 0);
    assert_eq!(state.height(), 0);
    assert_eq!(state.current_value(), None);
    assert_eq!(state.mode(), Mode::Normal);
    assert_eq!(state.direction(), Direction::Right);
}

#[test]
fn loading_starts_in_the_top_left_corner_heading_right() {
    let state = load(&["12+.@"]);
    assert_eq!(state.cursor(), Location::new(0, 0));
    assert_eq!(state.direction(), Direction::Right);
    assert_eq!(state.mode(), Mode::Normal);
    assert_eq!(state.stack(), Vec::<i64>::new());
    assert_eq!(state.current_value(), Some('1'));
}

#[test]
fn loading_takes_the_longest_line_as_width() {
    let state = load(&["ab", "cdef", "", "g"]);
    assert_eq!(state.width(), 4);
    assert_eq!(state.height(), 4);
}

#[test]
fn loading_pads_short_lines_with_spaces() {
    let state = load(&["ab", "c", ""]);
    assert_eq!(state.value_at(Location::new(0, 0)), Some('a'));
    assert_eq!(state.value_at(Location::new(1, 0)), Some('b'));
    assert_eq!(state.value_at(Location::new(0, 1)), Some('c'));
    assert_eq!(state.value_at(Location::new(1, 1)), Some(' '));
    assert_eq!(state.value_at(Location::new(0, 2)), Some(' '));
    assert_eq!(state.value_at(Location::new(1, 2)), Some(' '));
}

#[test]
fn value_at_the_edges_of_the_grid() {
    let state = load(&["abc", "def"]);
    assert_eq!(state.value_at(Location::new(0, 0)), Some('a'));
    assert_eq!(state.value_at(Location::new(2, 0)), Some('c'));
    assert_eq!(state.value_at(Location::new(3, 0)), None);
    assert_eq!(state.value_at(Location::new(0, 1)), Some('d'));
    assert_eq!(state.value_at(Location::new(2, 1)), Some('f'));
    assert_eq!(state.value_at(Location::new(3, 1)), None);
    assert_eq!(state.value_at(Location::new(0, 2)), None);
    assert_eq!(state.value_at(Location::new(usize::MAX, 0)), None);
    assert_eq!(state.value_at(Location::new(0, usize::MAX)), None);
    assert_eq!(state.value_at(Location::new(usize::MAX, usize::MAX)), None);
}

#[test]
fn lines_without_characters_make_rows_without_cells() {
    let state = load(&["", "", ""]);
    assert_eq!(state.width(), 0);
    assert_eq!(state.height(), 3);
    assert_eq!(state.value_at(Location::new(0, 0)), None);
    assert_eq!(state.value_at(Location::new(0, 2)), None);
}

#[test]
fn set_value_overrides_the_loaded_character() {
    let mut state = load(&["abc"]);
    state.set_value(Location::new(1, 0), 'Z');
    assert_eq!(state.value_at(Location::new(1, 0)), Some('Z'));
    assert_eq!(state.value_at(Location::new(0, 0)), Some('a'));
    assert_eq!(state.value_at(Location::new(2, 0)), Some('c'));
}

#[test]
fn set_value_overwrites_an_earlier_write() {
    let mut state = load(&["abc"]);
    state.set_value(Location::new(1, 0), 'Y');
    state.set_value(Location::new(1, 0), 'Z');
    assert_eq!(state.value_at(Location::new(1, 0)), Some('Z'));
}

#[test]
fn set_value_outside_the_grid_is_read_back_and_leaves_the_size() {
    let mut state = load(&["abc"]);
    state.set_value(Location::new(10, 20), 'x');
    assert_eq!(state.value_at(Location::new(10, 20)), Some('x'));
    assert_eq!(state.value_at(Location::new(20, 10)), None);
    assert_eq!(state.value_at(Location::new(10, 19)), None);
    assert_eq!(state.width(), 3);
    assert_eq!(state.height(), 1);
}

#[test]
fn set_value_keeps_column_and_row_apart() {
    let mut state = State::empty_state();
    state.set_value(Location::new(1, 0), 'p');
    state.set_value(Location::new(0, 1), 'q');
    state.set_value(Location::new(usize::MAX, 0), 'r');
    state.set_value(Location::new(0, usize::MAX), 's');
    state.set_value(Location::new(usize::MAX, usize::MAX), 't');
    assert_eq!(state.value_at(Location::new(1, 0)), Some('p'));
    assert_eq!(state.value_at(Location::new(0, 1)), Some('q'));
    assert_eq!(state.value_at(Location::new(usize::MAX, 0)), Some('r'));
    assert_eq!(state.value_at(Location::new(0, usize::MAX)), Some('s'));
    assert_eq!(state.value_at(Location::new(usize::MAX, usize::MAX)), Some('t'));
    assert_eq!(state.value_at(Location::new(0, 0)), None);
    assert_eq!(state.value_at(Location::new(1, 1)), None);
}

#[test]
fn reading_a_cell_twice_gives_the_same() {
    let state = load(&["ab", "c"]);
    for x in 0..4 {
        for y in 0..4 {
            let loc = Location::new(x, y);
            let first = state.value_at(loc);
            assert_eq!(state.value_at(loc), first);
            assert_eq!(state.value_at(loc), first);
        }
    }
    assert_eq!(state.cursor(), Location::new(0, 0));
    assert_eq!(state.stack(), Vec::<i64>::new());
}

#[test]
fn increment_cursor_moves_one_cell_and_wraps() {
    let mut state = load(&["abc"]);
    assert_eq!(state.increment_cursor(), Location::new(1, 0));
    assert_eq!(state.increment_cursor(), Location::new(2, 0));
    assert_eq!(state.increment_cursor(), Location::new(0, 0));
    assert_eq!(state.cursor(), Location::new(0, 0));
}

#[test]
fn next_value_moves_and_reads() {
    let mut state = load(&["abc"]);
    assert_eq!(state.next_value(), Some('b'));
    assert_eq!(state.next_value(), Some('c'));
    assert_eq!(state.next_value(), Some('a'));
}

#[test]
fn step_cursor_moves_to_the_next_cell() {
    let mut state = load(&["ab", "cd"]);
    assert!(state.step_cursor());
    assert_eq!(state.cursor(), Location::new(1, 0));
    assert!(state.step_cursor());
    assert_eq!(state.cursor(), Location::new(0, 0));
    state.process_normal_with('v', Direction::Right);
    assert!(state.step_cursor());
    assert_eq!(state.cursor(), Location::new(0, 1));
    state.process_normal_with('<', Direction::Right);
    assert!(state.step_cursor());
    assert_eq!(state.cursor(), Location::new(1, 1));
    state.process_normal_with('^', Direction::Right);
    assert!(state.step_cursor());
    assert_eq!(state.cursor(), Location::new(1, 0));
}

#[test]
fn step_cursor_lands_on_padding() {
    let mut state = load(&["abc", "d"]);
    state.process_normal_with('v', Direction::Right);
    assert!(state.step_cursor());
    state.process_normal_with('>', Direction::Right);
    assert!(state.step_cursor());
    assert_eq!(state.cursor(), Location::new(1, 1));
    assert_eq!(state.current_value(), Some(' '));
}

#[test]
fn step_cursor_on_a_single_cell_finds_that_cell() {
    let mut state = load(&["x"]);
    assert!(state.step_cursor());
    assert_eq!(state.cursor(), Location::new(0, 0));
}

#[test]
fn step_cursor_on_the_empty_grid_finds_nothing() {
    let mut state = State::empty_state();
    assert!(!state.step_cursor());
    assert_eq!(state.cursor(), Location::new(0, 0));
}

#[test]
fn step_cursor_on_the_empty_grid_finds_a_written_cell() {
    let mut state = State::empty_state();
    state.set_value(Location::new(0, 0), '@');
    assert!(state.step_cursor());
    assert_eq!(state.cursor(), Location::new(0, 0));
    assert_eq!(state.current_value(), Some('@'));
}

#[test]
fn step_cursor_skips_rows_without_cells() {
    let mut state = load(&["", "", "", ""]);
    state.set_value(Location::new(0, 2), '!');
    state.process_normal_with('v', Direction::Right);
    assert!(state.step_cursor());
    assert_eq!(state.cursor(), Location::new(0, 2));
    assert!(state.step_cursor());
    assert_eq!(state.cursor(), Location::new(0, 2));
    state.process_normal_with('^', Direction::Right);
    assert!(state.step_cursor());
    assert_eq!(state.cursor(), Location::new(0, 2));
}

#[test]
fn step_cursor_gives_up_after_one_round() {
    let mut state = load(&["", "", "", ""]);
    state.process_normal_with('v', Direction::Right);
    assert!(!state.step_cursor());
    assert_eq!(state.cursor(), Location::new(0, 0));
    state.process_normal_with('>', Direction::Right);
    assert!(!state.step_cursor());
    assert_eq!(state.cursor(), Location::new(0, 0));
}

#[test]
fn step_cursor_does_nothing_once_exited() {
    let mut state = load(&["ab"]);
    state.process_normal_with('@', Direction::Right);
    assert_eq!(state.mode(), Mode::Exited);
    assert!(!state.step_cursor());
    assert_eq!(state.cursor(), Location::new(0, 0));
}

#[test]
fn cycle_on_the_empty_grid_stops_at_once() {
    let mut state = State::empty_state();
    assert_eq!(state.cycle(), (Effect::Silent, false));
    assert_eq!(state.mode(), Mode::Normal);
    assert_eq!(state.cursor(), Location::new(0, 0));
    assert_eq!(state.stack(), Vec::<i64>::new());
}
