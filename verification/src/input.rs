//! Reading the answers to the two input instructions out of a line of text.
//!
//! The integer instruction takes a line, strips the white space around it and
//! reads what is left as a decimal number. The character instruction takes
//! the first character of the line.

use vstd::prelude::*;
use vstd::std_specs::iter::IteratorSpec;

verus! {

/// Whether `ch` is white space: one of the code points that Unicode classes
/// as white space.
pub open spec fn spec_is_space(ch: char) -> bool {
    let code = ch as int;
    ||| 0x09 <= code <= 0x0d
    ||| code == 0x20
    ||| code == 0x85
    ||| code == 0xa0
    ||| code == 0x1680
    ||| 0x2000 <= code <= 0x200a
    ||| code == 0x2028
    ||| code == 0x2029
    ||| code == 0x202f
    ||| code == 0x205f
    ||| code == 0x3000
}

/// `text` without the white space at its front.
pub open spec fn trim_start(text: Seq<char>) -> Seq<char>
    decreases text.len(),
{
    if text.len() > 0 && spec_is_space(text[0]) {
        trim_start(text.drop_first())
    } else {
        text
    }
}

/// `text` without the white space at its end.
pub open spec fn trim_end(text: Seq<char>) -> Seq<char>
    decreases text.len(),
{
    if text.len() > 0 && spec_is_space(text.last()) {
        trim_end(text.drop_last())
    } else {
        text
    }
}

/// `text` without the white space at either end.
pub open spec fn trimmed(text: Seq<char>) -> Seq<char> {
    trim_end(trim_start(text))
}

/// Whether `ch` is one of the ten decimal digits.
pub open spec fn is_decimal_digit(ch: char) -> bool {
    '0' <= ch <= '9'
}

/// Whether `text` is made of decimal digits only.
pub open spec fn all_decimal_digits(text: Seq<char>) -> bool {
    forall|i: int| 0 <= i < text.len() ==> is_decimal_digit(#[trigger] text[i])
}

/// The number that a string of decimal digits denotes; the empty string
/// denotes 0.
pub open spec fn decimal(digits: Seq<char>) -> int
    decreases digits.len(),
{
    if digits.len() == 0 {
        0
    } else {
        10 * decimal(digits.drop_last()) + (digits.last() as int - '0' as int)
    }
}

/// The 64-bit integer that `text` denotes: an optional `+` or `-`, then at
/// least one decimal digit and nothing else, with a value that fits in 64
/// bits. Any other text denotes no integer.
pub open spec fn spec_parse_integer(text: Seq<char>) -> Option<i64> {
    let signed = text.len() > 0 && (text[0] == '-' || text[0] == '+');
    let digits = if signed {
        text.drop_first()
    } else {
        text
    };
    let value = if signed && text[0] == '-' {
        -decimal(digits)
    } else {
        decimal(digits)
    };
    if digits.len() > 0 && all_decimal_digits(digits) && i64::MIN <= value <= i64::MAX {
        Some(value as i64)
    } else {
        None
    }
}

/// The value that the integer instruction pushes for a line of input: the
/// integer that the line denotes once trimmed, or 0 if it denotes none.
pub open spec fn integer_of_line(line: Seq<char>) -> i64 {
    match spec_parse_integer(trimmed(line)) {
        Some(value) => value,
        None => 0,
    }
}

/// The value that the character instruction pushes for a line of input: the
/// code of its first character, or 0 for an empty line.
pub open spec fn char_of_line(line: Seq<char>) -> i64 {
    if line.len() > 0 {
        crate::util::spec_char_to_i64(line[0])
    } else {
        0
    }
}

/// A string of digits denotes at least as much as any of its prefixes, and
/// never less than zero.
proof fn lemma_decimal_grows(digits: Seq<char>, shorter: int)
    requires
        all_decimal_digits(digits),
        0 <= shorter <= digits.len(),
    ensures
        0 <= decimal(digits.subrange(0, shorter)) <= decimal(digits),
    decreases digits.len(),
{
    if shorter == digits.len() {
        assert(digits.subrange(0, shorter) =~= digits);
        if digits.len() > 0 {
            assert(is_decimal_digit(digits[digits.len() - 1]));
            assert(digits.drop_last().subrange(0, digits.len() - 1) =~= digits.drop_last());
            lemma_decimal_grows(digits.drop_last(), digits.len() - 1);
        } else {
            assert(decimal(digits) == 0);
        }
    } else {
        assert(is_decimal_digit(digits[digits.len() - 1]));
        assert(digits.drop_last().subrange(0, shorter) =~= digits.subrange(0, shorter));
        lemma_decimal_grows(digits.drop_last(), shorter);
    }
}

/// Whether `ch` is white space.
#[verifier::when_used_as_spec(spec_is_space)]
pub fn is_space(ch: char) -> (space: bool)
    ensures
        space == spec_is_space(ch),
{
    let code: u32 = ch as u32;
    (0x09 <= code && code <= 0x0d) || code == 0x20 || code == 0x85 || code == 0xa0 || code
        == 0x1680 || (0x2000 <= code && code <= 0x200a) || code == 0x2028 || code == 0x2029
        || code == 0x202f || code == 0x205f || code == 0x3000
}

/// The value of `ch` as a decimal digit, if it is one.
fn decimal_digit(ch: char) -> (digit: Option<i64>)
    ensures
        digit == if is_decimal_digit(ch) {
            Some((ch as int - '0' as int) as i64)
        } else {
            None
        },
        digit matches Some(d) ==> 0 <= d <= 9,
{
    let code: u32 = ch as u32;
    if 48 <= code && code <= 57 {
        Some((code - 48) as i64)
    } else {
        None
    }
}

/// The characters of `text`, in order.
pub fn characters(text: &str) -> (chars: Vec<char>)
    ensures
        chars@ == text@,
{
    broadcast use vstd::string::group_string_axioms;

    let mut chars: Vec<char> = Vec::new();
    let mut rest = text.chars();
    loop
        invariant
            chars@ + rest.remaining() == text@,
            rest.decrease() is Some,
        ensures
            chars@ == text@,
        decreases rest.decrease()->0,
    {
        match rest.next() {
            Some(ch) => {
                chars.push(ch);
            },
            None => {
                break ;
            },
        }
    }
    chars
}

/// Reads the characters from `start` up to `end` as a signed decimal number.
fn parse_span(chars: &Vec<char>, start: usize, end: usize) -> (value: Option<i64>)
    requires
        start <= end <= chars.len(),
    ensures
        value == spec_parse_integer(chars@.subrange(start as int, end as int)),
{
    let ghost text = chars@.subrange(start as int, end as int);
    if start == end {
        return None;
    }
    let first = chars[start];
    let negative = first == '-';
    let from: usize = if first == '-' || first == '+' {
        start + 1
    } else {
        start
    };
    let ghost digits = chars@.subrange(from as int, end as int);
    assert(text[0] == first);
    assert(digits =~= if from > start {
        text.drop_first()
    } else {
        text
    });
    if from == end {
        return None;
    }
    let mut value: i64 = 0;
    let mut i: usize = from;
    assert(digits.subrange(0, 0) =~= Seq::<char>::empty());
    while i < end
        invariant
            start <= from <= i <= end <= chars.len(),
            text == chars@.subrange(start as int, end as int),
            digits == chars@.subrange(from as int, end as int),
            digits == if text[0] == '-' || text[0] == '+' {
                text.drop_first()
            } else {
                text
            },
            negative == (text[0] == '-'),
            all_decimal_digits(digits.subrange(0, i - from)),
            value == if negative {
                -decimal(digits.subrange(0, i - from))
            } else {
                decimal(digits.subrange(0, i - from))
            },
        decreases end - i,
    {
        let ch = chars[i];
        assert(digits[i - from] == ch);
        let digit: i64 = match decimal_digit(ch) {
            Some(digit) => digit,
            None => {
                return None;
            },
        };
        let ghost before = digits.subrange(0, i - from);
        let ghost after = digits.subrange(0, i - from + 1);
        proof {
            assert(after.drop_last() =~= before);
            assert(after.last() == ch);
            assert forall|k: int| 0 <= k < after.len() implies is_decimal_digit(
                #[trigger] after[k],
            ) by {
                if k < before.len() {
                    assert(after[k] == before[k]);
                } else {
                    assert(after[k] == ch);
                }
            }
            assert(decimal(after) == 10 * decimal(before) + digit);
            if all_decimal_digits(digits) {
                lemma_decimal_grows(digits, i - from + 1);
                lemma_decimal_grows(digits, i - from);
            }
        }
        let scaled = value.checked_mul(10);
        let next = match scaled {
            Some(tens) => if negative {
                tens.checked_sub(digit)
            } else {
                tens.checked_add(digit)
            },
            None => None,
        };
        match next {
            Some(more) => {
                value = more;
            },
            None => {
                return None;
            },
        }
        i += 1;
    }
    assert(digits.subrange(0, i - from) =~= digits);
    Some(value)
}

/// Reads a line of input as a decimal integer, ignoring white space around
/// the number.
pub fn parse_integer(line: &str) -> (value: Option<i64>)
    ensures
        value == spec_parse_integer(trimmed(line@)),
{
    let chars = characters(line);
    let mut start: usize = 0;
    assert(chars@.subrange(0, chars.len() as int) =~= chars@);
    while start < chars.len() && is_space(chars[start])
        invariant
            start <= chars.len(),
            trim_start(chars@) == trim_start(chars@.subrange(start as int, chars.len() as int)),
        decreases chars.len() - start,
    {
        assert(chars@.subrange(start as int, chars.len() as int).drop_first()
            =~= chars@.subrange(start + 1, chars.len() as int));
        start += 1;
    }
    let ghost front = chars@.subrange(start as int, chars.len() as int);
    assert(trim_start(chars@) == front);
    let mut end: usize = chars.len();
    while end > start && is_space(chars[end - 1])
        invariant
            start <= end <= chars.len(),
            front == chars@.subrange(start as int, chars.len() as int),
            trim_end(front) == trim_end(chars@.subrange(start as int, end as int)),
        decreases end - start,
    {
        assert(chars@.subrange(start as int, end as int).drop_last() =~= chars@.subrange(
            start as int,
            end - 1,
        ));
        end -= 1;
    }
    assert(trim_end(front) == chars@.subrange(start as int, end as int));
    parse_span(&chars, start, end)
}

/// The first character of a line of input, if it has one.
pub fn first_char(line: &str) -> (first: Option<char>)
    ensures
        first == if line@.len() > 0 {
            Some(line@[0])
        } else {
            None
        },
{
    broadcast use vstd::string::group_string_axioms;

    let mut chars = line.chars();
    chars.next()
}

} // verus!
