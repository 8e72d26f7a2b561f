//! Text as a sequence of characters: reading a string into a vector, testing
//! for a fixed piece of text at a position, and cutting text into lines.

use vstd::prelude::*;
use crate::scan::first_position;
use crate::scan::lemma_first_position;
use crate::scan::lemma_first_position_is;

verus! {

/// Whether `pat` stands in `s` at position `at`.
pub open spec fn has_at(s: Seq<char>, at: int, pat: Seq<char>) -> bool {
    0 <= at && at + pat.len() <= s.len() && s.subrange(at, at + pat.len()) == pat
}

/// Whether the character `c` occurs in `s`.
pub open spec fn has_char(s: Seq<char>, c: char) -> bool {
    exists|i: int| 0 <= i < s.len() && s[i] == c
}

/// `line` without the carriage return at its end, if it has one.
pub open spec fn without_trailing_cr(line: Seq<char>) -> Seq<char> {
    if line.len() > 0 && line.last() == '\r' {
        line.drop_last()
    } else {
        line
    }
}

/// The lines of `text`. A line ends at a line feed; the line feed, and a
/// carriage return directly before it, belong to no line. What follows the
/// last line feed is a line of its own unless it is empty, and keeps a
/// carriage return at its end.
pub open spec fn lines_of(text: Seq<char>) -> Seq<Seq<char>>
    decreases text.len(),
{
    if text.len() == 0 {
        Seq::empty()
    } else {
        let n = first_position(text, '\n');
        if n >= text.len() {
            seq![text]
        } else {
            seq![without_trailing_cr(text.take(n as int))] + lines_of(text.skip(n as int + 1))
        }
    }
}

/// No line holds a line feed.
pub proof fn lemma_lines_hold_no_line_feed(text: Seq<char>, k: int)
    requires
        0 <= k < lines_of(text).len(),
    ensures
        !has_char(lines_of(text)[k], '\n'),
    decreases text.len(),
{
    lemma_first_position(text, '\n');
    let n = first_position(text, '\n') as int;
    if text.len() == 0 {
    } else if n >= text.len() {
    } else if k == 0 {
        let line = without_trailing_cr(text.take(n));
        assert forall|i: int| 0 <= i < line.len() implies line[i] != '\n' by {}
    } else {
        lemma_lines_hold_no_line_feed(text.skip(n + 1), k - 1);
    }
}

/// The characters of `s`, in order.
pub fn chars_of(s: &str) -> (v: Vec<char>)
    ensures
        v@ == s@,
{
    let mut v: Vec<char> = Vec::new();
    for c in it: s.chars()
        invariant
            it.seq() == s@,
            v@ == it.seq().take(it.index()),
    {
        v.push(c);
    }
    v
}

/// Tests whether `pat` stands in `chars` at position `at`.
pub fn matches_at(chars: &[char], at: usize, pat: &str) -> (r: bool)
    ensures
        r == has_at(chars@, at as int, pat@),
{
    let p = chars_of(pat);
    let n = chars.len();
    if at > n || p.len() > n - at {
        return false;
    }
    let mut i: usize = 0;
    while i < p.len()
        invariant
            0 <= i <= p.len(),
            n == chars@.len(),
            at + p.len() <= n,
            p@ == pat@,
            forall|j: int| 0 <= j < i ==> chars@[at + j] == #[trigger] p@[j],
        decreases p.len() - i,
    {
        if chars[at + i] != p[i] {
            return false;
        }
        i += 1;
    }
    assert(chars@.subrange(at as int, at + p.len()) =~= p@);
    true
}

/// Tests whether the character `c` occurs in `chars[from..]`.
pub fn contains_from(chars: &[char], from: usize, c: char) -> (r: bool)
    requires
        from <= chars@.len(),
    ensures
        r == has_char(chars@.skip(from as int), c),
{
    let mut i: usize = from;
    while i < chars.len()
        invariant
            from <= i <= chars@.len(),
            forall|j: int| from <= j < i ==> #[trigger] chars@[j] != c,
        decreases chars@.len() - i,
    {
        if chars[i] == c {
            assert(chars@.skip(from as int)[i - from] == c);
            return true;
        }
        i += 1;
    }
    false
}

/// Where each line of `chars` begins and ends: for every line, in order, the
/// position of its first character and the position after its last.
pub fn line_ranges(chars: &[char]) -> (ranges: Vec<(usize, usize)>)
    ensures
        ranges@.len() == lines_of(chars@).len(),
        forall|k: int|
            0 <= k < ranges@.len() ==> {
                &&& (#[trigger] ranges@[k]).0 <= ranges@[k].1 <= chars@.len()
                &&& chars@.subrange(ranges@[k].0 as int, ranges@[k].1 as int) == lines_of(
                    chars@,
                )[k]
            },
{
    let mut ranges: Vec<(usize, usize)> = Vec::new();
    let n = chars.len();
    let mut start: usize = 0;
    let ghost mut done: Seq<Seq<char>> = Seq::empty();
    assert(chars@.skip(0) =~= chars@);
    while start < n
        invariant
            n == chars@.len(),
            0 <= start <= n,
            lines_of(chars@) == done + lines_of(chars@.skip(start as int)),
            ranges@.len() == done.len(),
            forall|k: int|
                0 <= k < ranges@.len() ==> {
                    &&& (#[trigger] ranges@[k]).0 <= ranges@[k].1 <= chars@.len()
                    &&& chars@.subrange(ranges@[k].0 as int, ranges@[k].1 as int) == done[k]
                },
        decreases n - start,
    {
        let ghost rest = chars@.skip(start as int);
        let mut end: usize = start;
        while end < n && chars[end] != '\n'
            invariant
                n == chars@.len(),
                start <= end <= n,
                forall|j: int| start <= j < end ==> #[trigger] chars@[j] != '\n',
            decreases n - end,
        {
            end += 1;
        }
        proof {
            assert forall|i: int| 0 <= i < end - start implies #[trigger] rest[i] != '\n' by {}
            lemma_first_position_is(rest, '\n', end - start);
        }
        if end == n {
            ranges.push((start, end));
            proof {
                done = done.push(rest);
            }
            start = n;
        } else {
            let line_end = if end > start && chars[end - 1] == '\r' {
                end - 1
            } else {
                end
            };
            ranges.push((start, line_end));
            proof {
                assert(rest.skip(end - start + 1) =~= chars@.skip(end + 1));
                done = done.push(without_trailing_cr(rest.take(end - start)));
            }
            start = end + 1;
        }
    }
    ranges
}

/// Tests whether `a` and `b` are the same text.
pub fn same_text(a: &str, b: &str) -> (r: bool)
    ensures
        r == (a@ == b@),
{
    let x = chars_of(a);
    let y = chars_of(b);
    if x.len() != y.len() {
        return false;
    }
    let r = matches_at(x.as_slice(), 0, b);
    assert(x@.subrange(0, x@.len() as int) =~= x@);
    r
}

} // verus!
