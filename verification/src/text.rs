//! Vocabulary for lines of text, seen as sequences of characters.
//!
//! The spec functions say what trimming, splitting and searching mean; the
//! executable functions compute them on a `Vec<char>` and are proved against
//! those statements.

use vstd::prelude::*;

verus! {

/// The whitespace characters of Unicode (`White_Space`).
pub open spec fn is_whitespace(c: char) -> bool {
    let u = c as u32;
    ||| 0x09 <= u <= 0x0D
    ||| u == 0x20
    ||| u == 0x85
    ||| u == 0xA0
    ||| u == 0x1680
    ||| 0x2000 <= u <= 0x200A
    ||| u == 0x2028
    ||| u == 0x2029
    ||| u == 0x202F
    ||| u == 0x205F
    ||| u == 0x3000
}

/// What counts as padding around a value.
#[derive(Clone, Copy, Debug, PartialEq, Eq, Structural)]
pub enum Padding {
    /// Any whitespace character.
    Whitespace,
    /// The space character only.
    Spaces,
}

/// Whether `c` is padding of the given kind.
pub open spec fn is_padding(c: char, padding: Padding) -> bool {
    match padding {
        Padding::Whitespace => is_whitespace(c),
        Padding::Spaces => c == ' ',
    }
}

/// A blank line holds nothing but whitespace; the empty line is blank.
pub open spec fn is_blank(s: Seq<char>) -> bool {
    forall|i: int| 0 <= i < s.len() ==> is_whitespace(#[trigger] s[i])
}

/// How many padding characters `s` starts with.
pub open spec fn leading_padding(s: Seq<char>, padding: Padding) -> nat
    decreases s.len(),
{
    if s.len() > 0 && is_padding(s[0], padding) {
        1 + leading_padding(s.drop_first(), padding)
    } else {
        0
    }
}

/// How many padding characters `s` ends with.
pub open spec fn trailing_padding(s: Seq<char>, padding: Padding) -> nat
    decreases s.len(),
{
    if s.len() > 0 && is_padding(s.last(), padding) {
        1 + trailing_padding(s.drop_last(), padding)
    } else {
        0
    }
}

/// `s` without its leading padding.
pub open spec fn trimmed_start(s: Seq<char>, padding: Padding) -> Seq<char> {
    s.skip(leading_padding(s, padding) as int)
}

/// `s` without its leading and trailing padding.
pub open spec fn trimmed(s: Seq<char>, padding: Padding) -> Seq<char> {
    let rest = trimmed_start(s, padding);
    rest.take(rest.len() - trailing_padding(rest, padding))
}

/// The position of the first `c` in `s`, or `s.len()` when `s` holds none.
pub open spec fn first_index_of(s: Seq<char>, c: char) -> nat
    decreases s.len(),
{
    if s.len() == 0 || s[0] == c {
        0
    } else {
        1 + first_index_of(s.drop_first(), c)
    }
}

/// The ASCII capitals map to their small letters, every other character to itself.
pub open spec fn ascii_lowercase(c: char) -> char {
    if 0x41 <= c as u32 <= 0x5A {
        ((c as u32) + 32) as char
    } else {
        c
    }
}

/// `s` with every character mapped by [`ascii_lowercase`].
pub open spec fn lowercase(s: Seq<char>) -> Seq<char> {
    Seq::new(s.len(), |i: int| ascii_lowercase(s[i]))
}

/// Whether `s` starts with `prefix`.
pub open spec fn starts_with(s: Seq<char>, prefix: Seq<char>) -> bool {
    prefix.len() <= s.len() && s.take(prefix.len() as int) == prefix
}

/// Whether `needle` stands in `hay` at position `at`.
pub open spec fn occurs_at(hay: Seq<char>, needle: Seq<char>, at: int) -> bool {
    &&& 0 <= at
    &&& at + needle.len() <= hay.len()
    &&& hay.subrange(at, at + needle.len()) == needle
}

/// Whether `needle` stands somewhere in `hay`.
pub open spec fn contains(hay: Seq<char>, needle: Seq<char>) -> bool {
    exists|at: int| occurs_at(hay, needle, at)
}

/// A position up to which everything is padding, and where that stops, is
/// the count of leading padding.
pub proof fn lemma_leading_padding(s: Seq<char>, padding: Padding, n: int)
    requires
        0 <= n <= s.len(),
        forall|i: int| 0 <= i < n ==> is_padding(#[trigger] s[i], padding),
        n < s.len() ==> !is_padding(s[n], padding),
    ensures
        leading_padding(s, padding) == n,
    decreases n,
{
    if n > 0 {
        let rest = s.drop_first();
        assert forall|i: int| 0 <= i < n - 1 implies is_padding(#[trigger] rest[i], padding) by {
            assert(rest[i] == s[i + 1]);
        }
        lemma_leading_padding(rest, padding, n - 1);
    }
}

/// A position from which everything is padding, and before which it is not,
/// leaves `s.len() - n` characters of trailing padding.
pub proof fn lemma_trailing_padding(s: Seq<char>, padding: Padding, n: int)
    requires
        0 <= n <= s.len(),
        forall|i: int| n <= i < s.len() ==> is_padding(#[trigger] s[i], padding),
        n > 0 ==> !is_padding(s[n - 1], padding),
    ensures
        trailing_padding(s, padding) == s.len() - n,
    decreases s.len() - n,
{
    if n < s.len() {
        let rest = s.drop_last();
        assert forall|i: int| n <= i < rest.len() implies is_padding(#[trigger] rest[i], padding) by {
            assert(rest[i] == s[i]);
        }
        lemma_trailing_padding(rest, padding, n);
    }
}

/// A position before which no `c` stands, and which holds one or is the end,
/// is the first index of `c`.
pub proof fn lemma_first_index_of(s: Seq<char>, c: char, n: int)
    requires
        0 <= n <= s.len(),
        forall|i: int| 0 <= i < n ==> #[trigger] s[i] != c,
        n < s.len() ==> s[n] == c,
    ensures
        first_index_of(s, c) == n,
    decreases n,
{
    if n > 0 {
        let rest = s.drop_first();
        assert forall|i: int| 0 <= i < n - 1 implies #[trigger] rest[i] != c by {
            assert(rest[i] == s[i + 1]);
        }
        lemma_first_index_of(rest, c, n - 1);
    }
}

/// What the count of leading padding counts: it stays within `s`, all
/// before it is padding, and what stands at it is not.
pub proof fn lemma_leading_padding_counts(s: Seq<char>, padding: Padding)
    ensures
        leading_padding(s, padding) <= s.len(),
        forall|i: int| 0 <= i < leading_padding(s, padding) ==> is_padding(#[trigger] s[i], padding),
        leading_padding(s, padding) < s.len() ==> !is_padding(
            s[leading_padding(s, padding) as int],
            padding,
        ),
    decreases s.len(),
{
    if s.len() > 0 && is_padding(s[0], padding) {
        let rest = s.drop_first();
        lemma_leading_padding_counts(rest, padding);
        assert forall|i: int| 0 <= i < leading_padding(s, padding) implies is_padding(
            #[trigger] s[i],
            padding,
        ) by {
            if i > 0 {
                assert(s[i] == rest[i - 1]);
            }
        }
    }
}

/// What the count of trailing padding counts: it stays within `s`, all of
/// the last that many characters is padding, and what stands before them is
/// not.
pub proof fn lemma_trailing_padding_counts(s: Seq<char>, padding: Padding)
    ensures
        trailing_padding(s, padding) <= s.len(),
        forall|i: int|
            s.len() - trailing_padding(s, padding) <= i < s.len() ==> is_padding(
                #[trigger] s[i],
                padding,
            ),
        trailing_padding(s, padding) < s.len() ==> !is_padding(
            s[s.len() - trailing_padding(s, padding) - 1],
            padding,
        ),
    decreases s.len(),
{
    if s.len() > 0 && is_padding(s.last(), padding) {
        let rest = s.drop_last();
        lemma_trailing_padding_counts(rest, padding);
        assert forall|i: int|
            s.len() - trailing_padding(s, padding) <= i < s.len() implies is_padding(
            #[trigger] s[i],
            padding,
        ) by {
            if i < s.len() - 1 {
                assert(s[i] == rest[i]);
            }
        }
    }
}

/// What trimming leaves is a part of `s` that neither begins nor ends with
/// padding, and all that it leaves out is padding.
pub proof fn lemma_trimmed_is_bare(s: Seq<char>, padding: Padding)
    ensures
        ({
            let from = leading_padding(s, padding) as int;
            let to = from + trimmed(s, padding).len();
            &&& 0 <= from <= to <= s.len()
            &&& trimmed(s, padding) == s.subrange(from, to)
            &&& forall|i: int| 0 <= i < from ==> is_padding(#[trigger] s[i], padding)
            &&& forall|i: int| to <= i < s.len() ==> is_padding(#[trigger] s[i], padding)
        }),
        trimmed(s, padding).len() > 0 ==> !is_padding(trimmed(s, padding)[0], padding)
            && !is_padding(trimmed(s, padding).last(), padding),
{
    let from = leading_padding(s, padding) as int;
    lemma_leading_padding_counts(s, padding);
    let rest = trimmed_start(s, padding);
    lemma_trailing_padding_counts(rest, padding);
    let to = from + trimmed(s, padding).len();
    assert(trimmed(s, padding) == s.subrange(from, to));
    assert forall|i: int| to <= i < s.len() implies is_padding(#[trigger] s[i], padding) by {
        assert(s[i] == rest[i - from]);
    }
    if trimmed(s, padding).len() > 0 {
        assert(trimmed(s, padding)[0] == s[from]);
        assert(trimmed(s, padding).last() == rest[rest.len() - trailing_padding(rest, padding) - 1]);
    }
}

/// What the first index of `c` is: it lies within `s` or at its end, nothing
/// before it is `c`, and within `s` it holds `c`.
pub proof fn lemma_first_index_of_finds(s: Seq<char>, c: char)
    ensures
        first_index_of(s, c) <= s.len(),
        forall|i: int| 0 <= i < first_index_of(s, c) ==> #[trigger] s[i] != c,
        first_index_of(s, c) < s.len() ==> s[first_index_of(s, c) as int] == c,
    decreases s.len(),
{
    if s.len() > 0 && s[0] != c {
        let rest = s.drop_first();
        lemma_first_index_of_finds(rest, c);
        assert forall|i: int| 0 <= i < first_index_of(s, c) implies #[trigger] s[i] != c by {
            if i > 0 {
                assert(s[i] == rest[i - 1]);
            }
        }
    }
}

/// The characters of `text`, in order.
pub fn chars_of(text: &str) -> (chars: Vec<char>)
    ensures
        chars@ == text@,
{
    let mut chars: Vec<char> = Vec::new();
    for c in it: text.chars()
        invariant
            it.seq() == text@,
            chars@ == it.seq().take(it.index() as int),
    {
        chars.push(c);
    }
    chars
}

/// Whether `c` is a whitespace character.
pub fn char_is_whitespace(c: char) -> (whitespace: bool)
    ensures
        whitespace == is_whitespace(c),
{
    let u: u32 = c as u32;
    (0x09 <= u && u <= 0x0D) || u == 0x20 || u == 0x85 || u == 0xA0 || u == 0x1680 || (0x2000 <= u
        && u <= 0x200A) || u == 0x2028 || u == 0x2029 || u == 0x202F || u == 0x205F || u == 0x3000
}

/// Whether `c` is padding of the given kind.
pub fn char_is_padding(c: char, padding: Padding) -> (pads: bool)
    ensures
        pads == is_padding(c, padding),
{
    match padding {
        Padding::Whitespace => char_is_whitespace(c),
        Padding::Spaces => c == ' ',
    }
}

/// Whether `chars` holds nothing but whitespace.
pub fn chars_are_blank(chars: &Vec<char>) -> (blank: bool)
    ensures
        blank == is_blank(chars@),
{
    let mut i: usize = 0;
    while i < chars.len()
        invariant
            i <= chars.len(),
            forall|j: int| 0 <= j < i ==> is_whitespace(#[trigger] chars@[j]),
        decreases chars.len() - i,
    {
        if !char_is_whitespace(chars[i]) {
            return false;
        }
        i += 1;
    }
    true
}

/// The bounds of what trimming leaves of `chars[from..to]`: the result is
/// `(start, end)` with `chars[start..end]` the trimmed part. Where all of
/// the range is padding, both are `to`.
pub fn trim_bounds(chars: &Vec<char>, from: usize, to: usize, padding: Padding) -> (bounds: (
    usize,
    usize,
))
    requires
        from <= to <= chars.len(),
    ensures
        from <= bounds.0 <= bounds.1 <= to,
        bounds.0 == from + leading_padding(chars@.subrange(from as int, to as int), padding),
        bounds.1 == to - trailing_padding(
            trimmed_start(chars@.subrange(from as int, to as int), padding),
            padding,
        ),
        chars@.subrange(bounds.0 as int, bounds.1 as int) == trimmed(
            chars@.subrange(from as int, to as int),
            padding,
        ),
{
    let ghost part = chars@.subrange(from as int, to as int);
    let mut start: usize = from;
    while start < to && char_is_padding(chars[start], padding)
        invariant
            from <= start <= to <= chars.len(),
            forall|j: int| from <= j < start ==> is_padding(#[trigger] chars@[j], padding),
        decreases to - start,
    {
        start += 1;
    }
    let mut end: usize = to;
    while end > start && char_is_padding(chars[end - 1], padding)
        invariant
            start <= end <= to <= chars.len(),
            forall|j: int| end <= j < to ==> is_padding(#[trigger] chars@[j], padding),
        decreases end - start,
    {
        end -= 1;
    }
    proof {
        assert forall|i: int| 0 <= i < start - from implies is_padding(
            #[trigger] part[i],
            padding,
        ) by {
            assert(part[i] == chars@[from + i]);
        }
        lemma_leading_padding(part, padding, start - from);
        let rest = trimmed_start(part, padding);
        assert(rest == chars@.subrange(start as int, to as int));
        assert forall|i: int| end - start <= i < rest.len() implies is_padding(
            #[trigger] rest[i],
            padding,
        ) by {
            assert(rest[i] == chars@[start + i]);
        }
        lemma_trailing_padding(rest, padding, end - start);
        assert(rest.take(end - start) == chars@.subrange(start as int, end as int));
    }
    (start, end)
}

/// The position of the first `c` in `chars[from..to]`, counted from `from`;
/// `to - from` when there is none.
pub fn find_char(chars: &Vec<char>, from: usize, to: usize, c: char) -> (at: usize)
    requires
        from <= to <= chars.len(),
    ensures
        at == first_index_of(chars@.subrange(from as int, to as int), c),
        at <= to - from,
{
    let ghost part = chars@.subrange(from as int, to as int);
    let mut i: usize = from;
    while i < to && chars[i] != c
        invariant
            from <= i <= to <= chars.len(),
            forall|j: int| from <= j < i ==> #[trigger] chars@[j] != c,
        decreases to - i,
    {
        i += 1;
    }
    proof {
        assert forall|j: int| 0 <= j < i - from implies #[trigger] part[j] != c by {
            assert(part[j] == chars@[from + j]);
        }
        lemma_first_index_of(part, c, i - from);
    }
    i - from
}

/// Whether `c`, mapped to lower case, is `small`.
pub fn lowercase_is(c: char, small: char) -> (same: bool)
    ensures
        same == (ascii_lowercase(c) == small),
{
    let u: u32 = c as u32;
    if 0x41 <= u && u <= 0x5A {
        u + 32 == small as u32
    } else {
        c == small
    }
}

/// Whether `needle` stands somewhere in `hay` once `hay` is mapped to lower case.
pub fn lowercase_contains(hay: &Vec<char>, needle: &Vec<char>) -> (found: bool)
    ensures
        found == contains(lowercase(hay@), needle@),
{
    let ghost low = lowercase(hay@);
    if needle.len() > hay.len() {
        assert forall|at: int| !occurs_at(low, needle@, at) by {}
        return false;
    }
    let last: usize = hay.len() - needle.len();
    let mut at: usize = 0;
    while at <= last
        invariant
            at <= last + 1,
            last == hay.len() - needle.len(),
            needle.len() <= hay.len(),
            low == lowercase(hay@),
            forall|p: int| 0 <= p < at ==> !occurs_at(low, needle@, p),
        decreases last + 1 - at,
    {
        let mut k: usize = 0;
        while k < needle.len() && lowercase_is(hay[at + k], needle[k])
            invariant
                at <= last,
                last == hay.len() - needle.len(),
                needle.len() <= hay.len(),
                k <= needle.len(),
                low == lowercase(hay@),
                forall|j: int| 0 <= j < k ==> low[at + j] == #[trigger] needle@[j],
            decreases needle.len() - k,
        {
            k += 1;
        }
        if k == needle.len() {
            proof {
                assert(low.subrange(at as int, at + needle.len()) =~= needle@);
                assert(occurs_at(low, needle@, at as int));
            }
            return true;
        }
        proof {
            assert(low[at + k] != needle@[k as int]);
            assert(low.subrange(at as int, at + needle.len())[k as int] == low[at + k]);
        }
        at += 1;
    }
    assert forall|p: int| !occurs_at(low, needle@, p) by {}
    false
}

} // verus!
