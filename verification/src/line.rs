//! Classification of the lines of an AWS configuration or credentials file,
//! and the name that a profile header carries.

use crate::text::{chars_are_blank, chars_of, is_blank, is_whitespace, starts_with};
use vstd::prelude::*;

verus! {

/// The prefix that a configuration file puts before a profile's name.
pub const PROFILE_PREFIX: &'static str = "profile ";

/// What a line of the file is.
#[derive(Clone, Copy, Debug, PartialEq, Eq, Structural)]
pub enum LineKind {
    /// Nothing but whitespace.
    Blank,
    /// Starts with `#`.
    Comment,
    /// `[name]` or `[profile name]`.
    ProfileHeader,
    /// Anything else.
    Data,
}

/// A comment line starts with `#`, with nothing before it.
pub open spec fn is_comment_line(line: Seq<char>) -> bool {
    line.len() > 0 && line[0] == '#'
}

/// A profile header is one or more characters other than `]`, wrapped in
/// square brackets, with nothing before or after.
pub open spec fn is_profile_header(line: Seq<char>) -> bool {
    &&& line.len() >= 3
    &&& line[0] == '['
    &&& line.last() == ']'
    &&& forall|i: int| 1 <= i < line.len() - 1 ==> #[trigger] line[i] != ']'
}

/// The name between the brackets of a profile header: what stands there,
/// less a leading `profile ` where something follows it.
pub open spec fn header_name(line: Seq<char>) -> Seq<char> {
    let inner = line.subrange(1, line.len() - 1);
    let prefix = PROFILE_PREFIX@;
    if inner.len() > prefix.len() && starts_with(inner, prefix) {
        inner.skip(prefix.len() as int)
    } else {
        inner
    }
}

/// The name that `line` gives a profile, if `line` is a profile header.
pub open spec fn profile_name_of(line: Seq<char>) -> Option<Seq<char>> {
    if is_profile_header(line) {
        Some(header_name(line))
    } else {
        None
    }
}

/// The kind of `line`.
pub open spec fn line_kind(line: Seq<char>) -> LineKind {
    if is_blank(line) {
        LineKind::Blank
    } else if is_comment_line(line) {
        LineKind::Comment
    } else if is_profile_header(line) {
        LineKind::ProfileHeader
    } else {
        LineKind::Data
    }
}

/// Whether `line` is skipped: blank, or a comment.
pub open spec fn is_skipped(line: Seq<char>) -> bool {
    is_blank(line) || is_comment_line(line)
}

/// Whether no line of `lines` is a profile header, so that all of them
/// belong to the profile that is open before them.
pub open spec fn within_one_profile(lines: Seq<Seq<char>>) -> bool {
    forall|i: int| 0 <= i < lines.len() ==> !is_profile_header(#[trigger] lines[i])
}

/// Whether one of `lines` is a header that opens the profile `name`.
pub open spec fn opens_profile(lines: Seq<Seq<char>>, name: Seq<char>) -> bool {
    exists|at: int|
        0 <= at < lines.len() && is_profile_header(#[trigger] lines[at]) && header_name(lines[at])
            == name
}

/// A profile that some of the lines open is open in all of them.
pub proof fn lemma_opened_stays_opened(lines: Seq<Seq<char>>, line: Seq<char>, name: Seq<char>)
    requires
        opens_profile(lines, name),
    ensures
        opens_profile(lines.push(line), name),
{
    let at = choose|at: int|
        0 <= at < lines.len() && is_profile_header(#[trigger] lines[at]) && header_name(lines[at])
            == name;
    assert(lines.push(line)[at] == lines[at]);
}

/// No line is of two kinds: a blank line is neither a comment nor a header,
/// and a comment is no header. The kind of a line therefore does not depend
/// on the order in which the three tests are made.
pub proof fn lemma_line_kinds_exclusive(line: Seq<char>)
    ensures
        !(is_blank(line) && is_comment_line(line)),
        !(is_blank(line) && is_profile_header(line)),
        !(is_comment_line(line) && is_profile_header(line)),
        line_kind(line) == LineKind::Blank <==> is_blank(line),
        line_kind(line) == LineKind::Comment <==> is_comment_line(line),
        line_kind(line) == LineKind::ProfileHeader <==> is_profile_header(line),
{
    if line.len() > 0 && is_blank(line) {
        assert(is_whitespace(line[0]));
    }
}

/// Blank lines and comments open no profile.
pub proof fn lemma_skipped_lines_open_no_profile(lines: Seq<Seq<char>>)
    requires
        forall|i: int| 0 <= i < lines.len() ==> is_skipped(#[trigger] lines[i]),
    ensures
        within_one_profile(lines),
{
    assert forall|i: int| 0 <= i < lines.len() implies !is_profile_header(#[trigger] lines[i]) by {
        assert(is_skipped(lines[i]));
        lemma_line_kinds_exclusive(lines[i]);
    }
}

/// The name of a profile header is never empty and holds no `]`.
pub proof fn lemma_header_name_shape(line: Seq<char>)
    requires
        is_profile_header(line),
    ensures
        header_name(line).len() > 0,
        forall|i: int| 0 <= i < header_name(line).len() ==> #[trigger] header_name(line)[i] != ']',
{
    let inner = line.subrange(1, line.len() - 1);
    let prefix = PROFILE_PREFIX@;
    let name = header_name(line);
    assert forall|i: int| 0 <= i < name.len() implies #[trigger] name[i] != ']' by {
        if inner.len() > prefix.len() && starts_with(inner, prefix) {
            assert(name[i] == line[1 + prefix.len() + i]);
        } else {
            assert(name[i] == line[1 + i]);
        }
    }
}

/// The header that names a profile in a credentials file: the name in
/// square brackets.
pub open spec fn bracketed(name: Seq<char>) -> Seq<char> {
    seq!['['] + name + seq![']']
}

/// A name in square brackets is a profile header if the name is not empty
/// and holds no `]`, and only then.
pub proof fn lemma_bracketed_is_header(name: Seq<char>)
    ensures
        is_profile_header(bracketed(name)) <==> name.len() > 0 && forall|i: int|
            0 <= i < name.len() ==> #[trigger] name[i] != ']',
        bracketed(name).subrange(1, bracketed(name).len() - 1) == name,
{
    let line = bracketed(name);
    assert(line.subrange(1, line.len() - 1) =~= name);
    if is_profile_header(line) {
        assert forall|i: int| 0 <= i < name.len() implies #[trigger] name[i] != ']' by {
            assert(line[i + 1] == name[i]);
        }
    }
    if name.len() > 0 && forall|i: int| 0 <= i < name.len() ==> #[trigger] name[i] != ']' {
        assert forall|i: int| 1 <= i < line.len() - 1 implies #[trigger] line[i] != ']' by {
            assert(line[i] == name[i - 1]);
        }
    }
}

/// A header gives back the name that it was written with: `[name]` names
/// `name`, unless `name` itself begins with the prefix `profile ` and goes on
/// after it, and `[profile name]` names `name`.
pub proof fn lemma_header_names_what_it_was_written_with(name: Seq<char>)
    requires
        name.len() > 0,
        forall|i: int| 0 <= i < name.len() ==> #[trigger] name[i] != ']',
    ensures
        !(name.len() > PROFILE_PREFIX@.len() && starts_with(name, PROFILE_PREFIX@))
            ==> profile_name_of(bracketed(name)) == Some(name),
        profile_name_of(bracketed(PROFILE_PREFIX@ + name)) == Some(name),
{
    let prefix = PROFILE_PREFIX@;
    lemma_bracketed_is_header(name);
    let longer = prefix + name;
    assert forall|i: int| 0 <= i < longer.len() implies #[trigger] longer[i] != ']' by {
        reveal_strlit("profile ");
        if i >= prefix.len() {
            assert(longer[i] == name[i - prefix.len()]);
        }
    }
    lemma_bracketed_is_header(longer);
    assert(longer.take(prefix.len() as int) =~= prefix);
    assert(longer.skip(prefix.len() as int) =~= name);
}

/// Whether `to_check` is a comment line.
pub fn is_comment(to_check: &str) -> (comment: bool)
    ensures
        comment == is_comment_line(to_check@),
{
    let chars = chars_of(to_check);
    chars.len() > 0 && chars[0] == '#'
}

/// Whether `line` is skipped by both parsers: blank, or a comment.
pub fn is_comment_or_empty(line: &str) -> (skipped: bool)
    ensures
        skipped == is_skipped(line@),
{
    let chars = chars_of(line);
    chars_are_blank(&chars) || (chars.len() > 0 && chars[0] == '#')
}

/// Whether `chars` is a profile header.
fn chars_are_profile_header(chars: &Vec<char>) -> (header: bool)
    ensures
        header == is_profile_header(chars@),
{
    let n = chars.len();
    if n < 3 || chars[0] != '[' || chars[n - 1] != ']' {
        return false;
    }
    let mut i: usize = 1;
    while i < n - 1
        invariant
            n == chars.len(),
            n >= 3,
            1 <= i <= n - 1,
            forall|j: int| 1 <= j < i ==> #[trigger] chars@[j] != ']',
        decreases n - i,
    {
        if chars[i] == ']' {
            return false;
        }
        i += 1;
    }
    true
}

/// Whether `line` is a profile header.
pub fn is_profile(line: &str) -> (header: bool)
    ensures
        header == is_profile_header(line@),
{
    let chars = chars_of(line);
    chars_are_profile_header(&chars)
}

/// Whether `chars[from..]` starts with `prefix`.
fn has_prefix_at(chars: &Vec<char>, from: usize, prefix: &Vec<char>) -> (found: bool)
    requires
        from <= chars.len(),
    ensures
        found == starts_with(chars@.skip(from as int), prefix@),
{
    let ghost rest = chars@.skip(from as int);
    if prefix.len() > chars.len() - from {
        return false;
    }
    let mut k: usize = 0;
    while k < prefix.len()
        invariant
            from <= chars.len(),
            prefix.len() <= chars.len() - from,
            k <= prefix.len(),
            rest == chars@.skip(from as int),
            forall|j: int| 0 <= j < k ==> rest[j] == #[trigger] prefix@[j],
        decreases prefix.len() - k,
    {
        if chars[from + k] != prefix[k] {
            proof {
                assert(rest.take(prefix.len() as int)[k as int] == rest[k as int]);
            }
            return false;
        }
        k += 1;
    }
    proof {
        assert(rest.take(prefix.len() as int) =~= prefix@);
    }
    true
}

/// The name of the profile that `line` opens; `None` when `line` is no
/// profile header.
pub fn get_profile_name_from(line: &str) -> (name: Option<String>)
    ensures
        name.deep_view() == profile_name_of(line@),
{
    let chars = chars_of(line);
    if !chars_are_profile_header(&chars) {
        return None;
    }
    let prefix = chars_of(PROFILE_PREFIX);
    let n = chars.len();
    let ghost inner = line@.subrange(1, n - 1);
    let mut start: usize = 1;
    if n - 2 > prefix.len() && has_prefix_at(&chars, 1, &prefix) {
        start = 1 + prefix.len();
        proof {
            assert(inner.take(prefix.len() as int) =~= chars@.skip(1).take(prefix.len() as int));
            assert(inner.skip(prefix.len() as int) =~= line@.subrange(start as int, n - 1));
        }
    } else {
        proof {
            if inner.len() > prefix.len() {
                assert(inner.take(prefix.len() as int) =~= chars@.skip(1).take(
                    prefix.len() as int,
                ));
            }
        }
    }
    Some(line.substring_char(start, n - 1).to_owned())
}

/// The kind of `line`.
pub fn classify(line: &str) -> (kind: LineKind)
    ensures
        kind == line_kind(line@),
{
    let chars = chars_of(line);
    if chars_are_blank(&chars) {
        LineKind::Blank
    } else if chars[0] == '#' {
        LineKind::Comment
    } else if chars_are_profile_header(&chars) {
        LineKind::ProfileHeader
    } else {
        LineKind::Data
    }
}

} // verus!
