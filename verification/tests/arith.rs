use befunge::arith::{difference, divided, product, remaining, sum};
use befunge::util::{char_to_i64, coordinate, hex_value, i64_to_char};

#[test]
fn sum_adds_and_wraps() {
    assert_eq!(sum(2, 3), 5);
    assert_eq!(sum(-2, -3), -5);
    assert_eq!(sum(i64::MAX, 1), i64::MIN);
    assert_eq!(sum(i64::MIN, -1), i64::MAX);
}

#[test]
fn difference_subtracts_and_wraps() {
    assert_eq!(difference(7, 10), -3);
    assert_eq!(difference(10, 7), 3);
    assert_eq!(difference(i64::MIN, 1), i64::MAX);
    assert_eq!(difference(0, i64::MIN), i64::MIN);
}

#[test]
fn product_multiplies_and_wraps() {
    assert_eq!(product(6, 7), 42);
    assert_eq!(product(-6, 7), -42);
    assert_eq!(product(i64::MAX, 2), -2);
    assert_eq!(product(i64::MIN, -1), i64::MIN);
}

#[test]
fn divided_rounds_towards_zero() {
    assert_eq!(divided(7, 2), 3);
    assert_eq!(divided(-7, 2), -3);
    assert_eq!(divided(7, -2), -3);
    assert_eq!(divided(-7, -2), 3);
    assert_eq!(divided(0, 5), 0);
    assert_eq!(divided(1, 5), 0);
}

#[test]
fn divided_by_zero_is_zero() {
    assert_eq!(divided(5, 0), 0);
    assert_eq!(divided(-5, 0), 0);
    assert_eq!(divided(0, 0), 0);
    assert_eq!(divided(i64::MIN, 0), 0);
}

#[test]
fn divided_wraps_the_one_quotient_that_does_not_fit() {
    assert_eq!(divided(i64::MIN, -1), i64::MIN);
    assert_eq!(divided(i64::MIN, 1), i64::MIN);
    assert_eq!(divided(i64::MAX, -1), -i64::MAX);
}

#[test]
fn remaining_has_the_sign_of_the_dividend() {
    assert_eq!(remaining(7, 2), 1);
    assert_eq!(remaining(-7, 2), -1);
    assert_eq!(remaining(7, -2), 1);
    assert_eq!(remaining(-7, -2), -1);
    assert_eq!(remaining(6, 3), 0);
}

#[test]
fn remaining_by_zero_is_zero() {
    assert_eq!(remaining(5, 0), 0);
    assert_eq!(remaining(-5, 0), 0);
    assert_eq!(remaining(0, 0), 0);
}

#[test]
fn remaining_at_the_edge_of_the_range() {
    assert_eq!(remaining(i64::MIN, -1), 0);
    assert_eq!(remaining(i64::MIN, 10), -8);
    assert_eq!(remaining(i64::MAX, i64::MIN), i64::MAX);
}

#[test]
fn quotient_and_remainder_rebuild_the_dividend() {
    for b in [-17i64, -5, -1, 0, 1, 5, 17, 1000] {
        for a in [-7i64, -2, -1, 1, 2, 7] {
            assert_eq!(divided(b, a) * a + remaining(b, a), b);
        }
    }
}

#[test]
fn i64_to_char_keeps_the_low_byte() {
    assert_eq!(i64_to_char(65), 'A');
    assert_eq!(i64_to_char(0), '\0');
    assert_eq!(i64_to_char(255), '\u{ff}');
    assert_eq!(i64_to_char(256), '\0');
    assert_eq!(i64_to_char(256 + 66), 'B');
    assert_eq!(i64_to_char(-1), '\u{ff}');
    assert_eq!(i64_to_char(i64::MIN), '\0');
}

#[test]
fn char_to_i64_keeps_the_low_byte() {
    assert_eq!(char_to_i64('A'), 65);
    assert_eq!(char_to_i64('\0'), 0);
    assert_eq!(char_to_i64('\u{ff}'), 255);
    assert_eq!(char_to_i64('\u{100}'), 0);
    assert_eq!(char_to_i64('\u{20ac}'), 0xac);
    assert_eq!(char_to_i64('\u{10ffff}'), 255);
}

#[test]
fn char_round_trip_on_every_code() {
    for v in 0..256i64 {
        assert_eq!(char_to_i64(i64_to_char(v)), v);
    }
    assert_eq!(char_to_i64(i64_to_char(1000)), 1000 % 256);
    assert_eq!(char_to_i64(i64_to_char(-3)), 253);
}

#[test]
fn coordinate_is_the_value_where_it_fits() {
    assert_eq!(coordinate(0), 0);
    assert_eq!(coordinate(17), 17);
    assert_eq!(coordinate(-1), usize::MAX);
}

#[test]
fn hex_value_reads_digits_in_either_case() {
    assert_eq!(hex_value('0'), Some(0));
    assert_eq!(hex_value('9'), Some(9));
    assert_eq!(hex_value('a'), Some(10));
    assert_eq!(hex_value('f'), Some(15));
    assert_eq!(hex_value('A'), Some(10));
    assert_eq!(hex_value('F'), Some(15));
}

#[test]
fn hex_value_refuses_everything_else() {
    for ch in ['g', 'G', '/', ':', '@', '`', ' ', '\u{663}', '\u{ff11}'] {
        assert_eq!(hex_value(ch), None);
    }
}
