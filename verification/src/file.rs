//! What stands at a path, as far as the parsers need to know it, and the
//! division of a file's text into lines.

use crate::text::{
    chars_of, find_char, first_index_of, lemma_first_index_of, lemma_first_index_of_finds,
};
use vstd::prelude::*;

verus! {

/// What was found at the path of a configuration or credentials file.
pub enum FileContents {
    /// The path could not be examined.
    Missing,
    /// Something is there, and it is not a regular file.
    NotAFile,
    /// A regular file, with its text.
    Text(String),
}

/// `line` without a carriage return at its end.
pub open spec fn without_carriage_return(line: Seq<char>) -> Seq<char> {
    if line.len() > 0 && line.last() == '\r' {
        line.drop_last()
    } else {
        line
    }
}

/// The lines of `text`. A line ends at a line feed, which is not part of it,
/// nor is a carriage return just before the line feed. What follows the last
/// line feed is a line too, unless nothing follows it.
pub open spec fn lines_of(text: Seq<char>) -> Seq<Seq<char>>
    decreases text.len(),
{
    if text.len() == 0 {
        Seq::empty()
    } else {
        let end = first_index_of(text, '\n');
        if end < text.len() {
            seq![without_carriage_return(text.take(end as int))] + lines_of(
                text.skip(end as int + 1),
            )
        } else {
            seq![text]
        }
    }
}

/// No line holds a line feed.
pub proof fn lemma_lines_hold_no_line_feed(text: Seq<char>)
    ensures
        forall|i: int, j: int|
            0 <= i < lines_of(text).len() && 0 <= j < lines_of(text)[i].len() ==> #[trigger] lines_of(
                text,
            )[i][j] != '\n',
    decreases text.len(),
{
    if text.len() > 0 {
        lemma_first_index_of_finds(text, '\n');
        let end = first_index_of(text, '\n') as int;
        if end < text.len() {
            let first = without_carriage_return(text.take(end));
            let rest = lines_of(text.skip(end + 1));
            lemma_lines_hold_no_line_feed(text.skip(end + 1));
            assert forall|i: int, j: int|
                0 <= i < lines_of(text).len() && 0 <= j < lines_of(text)[i].len() implies #[trigger] lines_of(
                text,
            )[i][j] != '\n' by {
                if i == 0 {
                    assert(lines_of(text)[0] == first);
                    assert(first[j] == text[j]);
                } else {
                    assert(lines_of(text)[i] == rest[i - 1]);
                }
            }
        }
    }
}

/// A text without a line feed is one line, unless it is empty.
pub proof fn lemma_one_line(text: Seq<char>)
    requires
        text.len() > 0,
        forall|i: int| 0 <= i < text.len() ==> #[trigger] text[i] != '\n',
    ensures
        lines_of(text) == seq![text],
{
    lemma_first_index_of(text, '\n', text.len() as int);
}

/// The lines of `text`.
pub fn split_lines(text: &str) -> (lines: Vec<String>)
    ensures
        lines.deep_view() == lines_of(text@),
{
    let chars = chars_of(text);
    let n = chars.len();
    let mut lines: Vec<String> = Vec::new();
    let mut start: usize = 0;
    proof {
        assert(text@.skip(0) == text@);
        assert(lines.deep_view() == Seq::<Seq<char>>::empty());
        assert(Seq::<Seq<char>>::empty() + lines_of(text@) == lines_of(text@));
    }
    while start < n
        invariant
            start <= n,
            n == chars.len(),
            chars@ == text@,
            lines.deep_view() + lines_of(text@.skip(start as int)) == lines_of(text@),
        decreases n - start,
    {
        let ghost rest = text@.skip(start as int);
        let ghost before = lines.deep_view();
        assert(chars@.subrange(start as int, n as int) == rest);
        let end = start + find_char(&chars, start, n, '\n');
        if end < n {
            let stop = if end > start && chars[end - 1] == '\r' {
                end - 1
            } else {
                end
            };
            let line = text.substring_char(start, stop).to_owned();
            proof {
                assert(rest.take(end - start) == text@.subrange(start as int, end as int));
                assert(line@ == without_carriage_return(rest.take(end - start)));
                assert(rest.skip(end - start + 1) == text@.skip(end + 1));
            }
            lines.push(line);
            start = end + 1;
            proof {
                assert(lines.deep_view() == before.push(line@));
                assert(before.push(line@) + lines_of(text@.skip(start as int)) == before + lines_of(
                    rest,
                ));
            }
        } else {
            let line = text.substring_char(start, n).to_owned();
            proof {
                assert(line@ == rest);
            }
            lines.push(line);
            start = n;
            proof {
                assert(lines.deep_view() == before.push(line@));
                assert(text@.skip(n as int).len() == 0);
                assert(before.push(line@) + lines_of(text@.skip(n as int)) == before + lines_of(
                    rest,
                ));
            }
        }
    }
    proof {
        assert(text@.skip(start as int).len() == 0);
        assert(lines.deep_view() + Seq::<Seq<char>>::empty() == lines.deep_view());
    }
    lines
}

} // verus!
