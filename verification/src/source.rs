//! Program text: how the text of a program falls into the lines that become
//! the rows of the grid.
//!
//! A line ends at a line feed. The line feed is not part of the line, and
//! neither is a carriage return that stands right before it. Text after the
//! last line feed is a line of its own, unless there is none.

use crate::input::characters;
use vstd::prelude::*;

verus! {

/// The number of characters before the first line feed of `text`, or the
/// length of `text` if it has no line feed.
pub open spec fn line_end(text: Seq<char>) -> int
    decreases text.len(),
{
    if text.len() == 0 || text[0] == '\n' {
        0
    } else {
        1 + line_end(text.drop_first())
    }
}

/// `line` without the carriage return at its end, if it ends in one.
pub open spec fn without_return(line: Seq<char>) -> Seq<char> {
    if line.len() > 0 && line.last() == '\r' {
        line.drop_last()
    } else {
        line
    }
}

/// The lines of `text`, in order.
pub open spec fn source_lines(text: Seq<char>) -> Seq<Seq<char>>
    decreases text.len(),
{
    if text.len() == 0 {
        Seq::empty()
    } else {
        let end = line_end(text);
        if 0 <= end < text.len() {
            seq![without_return(text.subrange(0, end))] + source_lines(
                text.subrange(end + 1, text.len() as int),
            )
        } else {
            seq![text]
        }
    }
}

/// The texts of the given lines.
pub open spec fn texts(lines: Seq<Vec<char>>) -> Seq<Seq<char>> {
    Seq::new(lines.len(), |i: int| lines[i]@)
}

/// Counting up to the first line feed can start anywhere before it.
proof fn lemma_line_end_skips(text: Seq<char>, skipped: int)
    requires
        0 <= skipped <= text.len(),
        forall|i: int| 0 <= i < skipped ==> text[i] != '\n',
    ensures
        line_end(text) == skipped + line_end(text.subrange(skipped, text.len() as int)),
    decreases skipped,
{
    if skipped == 0 {
        assert(text.subrange(0, text.len() as int) =~= text);
    } else {
        let rest = text.drop_first();
        assert(rest.subrange(skipped - 1, rest.len() as int) =~= text.subrange(
            skipped,
            text.len() as int,
        ));
        lemma_line_end_skips(rest, skipped - 1);
    }
}

/// A copy of the characters of `chars` from `from` up to `to`.
fn copy_of(chars: &Vec<char>, from: usize, to: usize) -> (line: Vec<char>)
    requires
        from <= to <= chars.len(),
    ensures
        line@ == chars@.subrange(from as int, to as int),
{
    let mut line: Vec<char> = Vec::new();
    let mut i: usize = from;
    while i < to
        invariant
            from <= i <= to <= chars.len(),
            line@ == chars@.subrange(from as int, i as int),
        decreases to - i,
    {
        line.push(chars[i]);
        assert(line@ =~= chars@.subrange(from as int, i + 1));
        i += 1;
    }
    line
}

/// Splits the text of a program into its lines.
pub fn lines_of(text: &str) -> (lines: Vec<Vec<char>>)
    ensures
        texts(lines@) == source_lines(text@),
{
    let chars = characters(text);
    let mut lines: Vec<Vec<char>> = Vec::new();
    let mut begin: usize = 0;
    let mut i: usize = 0;
    assert(chars@.subrange(0, chars.len() as int) =~= chars@);
    assert(texts(lines@) + source_lines(chars@) =~= source_lines(chars@));
    while i < chars.len()
        invariant
            begin <= i <= chars.len(),
            chars@ == text@,
            forall|k: int| begin <= k < i ==> chars@[k] != '\n',
            source_lines(chars@) == texts(lines@) + source_lines(
                chars@.subrange(begin as int, chars.len() as int),
            ),
        decreases chars.len() - i,
    {
        if chars[i] == '\n' {
            let ghost rest = chars@.subrange(begin as int, chars.len() as int);
            let ghost before = texts(lines@);
            proof {
                lemma_line_end_skips(rest, i - begin);
                assert(rest.subrange(i - begin, rest.len() as int)[0] == '\n');
                assert(line_end(rest) == i - begin);
                assert(rest.subrange(0, i - begin) =~= chars@.subrange(begin as int, i as int));
                assert(rest.subrange(i - begin + 1, rest.len() as int) =~= chars@.subrange(
                    i + 1,
                    chars.len() as int,
                ));
            }
            let end = if i > begin && chars[i - 1] == '\r' {
                i - 1
            } else {
                i
            };
            let line = copy_of(&chars, begin, end);
            proof {
                let whole = chars@.subrange(begin as int, i as int);
                assert(line@ =~= without_return(whole));
            }
            lines.push(line);
            proof {
                assert(texts(lines@) =~= before + seq![line@]);
                assert(before + (seq![line@] + source_lines(
                    chars@.subrange(i + 1, chars.len() as int),
                )) =~= (before + seq![line@]) + source_lines(
                    chars@.subrange(i + 1, chars.len() as int),
                ));
            }
            begin = i + 1;
        }
        i += 1;
    }
    if begin < chars.len() {
        let ghost rest = chars@.subrange(begin as int, chars.len() as int);
        let ghost before = texts(lines@);
        proof {
            lemma_line_end_skips(rest, rest.len() as int);
            assert(rest.subrange(rest.len() as int, rest.len() as int) =~= Seq::<char>::empty());
            assert(line_end(rest) == rest.len());
        }
        let line = copy_of(&chars, begin, chars.len());
        lines.push(line);
        assert(texts(lines@) =~= before + seq![rest]);
    } else {
        assert(chars@.subrange(begin as int, chars.len() as int) =~= Seq::<char>::empty());
        assert(texts(lines@) + Seq::<Seq<char>>::empty() =~= texts(lines@));
    }
    lines
}

} // verus!
