//! Match spans and capture groups.

use vstd::prelude::*;
use crate::chars::byte_index_of;
use crate::chars::char_pos_of_byte;
use crate::chars::is_byte_span;
use crate::chars::lemma_byte_index_mono;
use crate::chars::lemma_byte_len_full;
use crate::chars::str_byte_len;
use crate::chars::str_eq;
use crate::chars::utf8_len;

verus! {

use vstd::string::StrSliceExecFns;
use vstd::string::StringSliceAdditionalSpecFns;

/// A single match within the text: a half-open span of byte offsets lying on
/// character boundaries.
#[derive(Debug, Clone, Copy, PartialEq, Eq, Structural)]
pub struct Match {
    /// The byte index where the match starts (inclusive).
    pub start: usize,
    /// The byte index where the match ends (exclusive).
    pub end: usize,
}

impl Match {
    /// The length of the match in bytes.
    pub fn len(&self) -> (r: usize)
        requires
            self.start <= self.end,
        ensures
            r == self.end - self.start,
    {
        self.end - self.start
    }

    /// True if the match has a length of zero.
    pub fn is_empty(&self) -> (r: bool)
        ensures
            r == (self.start == self.end),
    {
        self.start == self.end
    }

    /// The substring of the original text covered by this match. The span
    /// must lie within the text, on character boundaries.
    pub fn as_str<'a>(&self, text: &'a str) -> (r: &'a str)
        requires
            is_byte_span(text@, self.start as int, self.end as int),
        ensures
            r@ == text@.subrange(
                char_pos_of_byte(text@, self.start as int),
                char_pos_of_byte(text@, self.end as int),
            ),
    {
        let ghost t = text@;
        let total = str_byte_len(text);
        proof {
            lemma_byte_len_full(t);
        }
        let n = text.unicode_len();
        let i = scan_to_byte(text, 0, 0, self.start);
        proof {
            let (ci, cj) = choose|ci: int, cj: int|
                0 <= ci <= cj <= t.len() && byte_index_of(t, ci) == self.start as int
                    && byte_index_of(t, cj) == self.end as int;
            lemma_byte_index_mono(t, ci, cj);
            if ci != i as int {
                lemma_byte_index_mono(
                    t,
                    if ci < i as int { ci } else { i as int },
                    if ci < i as int { i as int } else { ci },
                );
            }
            assert(i as int <= cj <= t.len() && byte_index_of(t, cj) == self.end as int);
        }
        let j = scan_to_byte(text, i, self.start, self.end);
        proof {
            let ci = char_pos_of_byte(t, self.start as int);
            let cj = char_pos_of_byte(t, self.end as int);
            assert(0 <= ci <= t.len() && byte_index_of(t, ci) == self.start as int);
            assert(0 <= cj <= t.len() && byte_index_of(t, cj) == self.end as int);
            if ci != i as int {
                lemma_byte_index_mono(t, if ci < i as int { ci } else { i as int }, if ci < i as int { i as int } else { ci });
            }
            if cj != j as int {
                lemma_byte_index_mono(t, if cj < j as int { cj } else { j as int }, if cj < j as int { j as int } else { cj });
            }
        }
        text.substring_char(i, j)
    }
}

/// Walks forward from character index `from` (at byte offset `from_byte`)
/// to the character index whose byte offset is `target`, which must exist.
fn scan_to_byte(text: &str, from: usize, from_byte: usize, target: usize) -> (r: usize)
    requires
        0 <= from <= text@.len(),
        from_byte == byte_index_of(text@, from as int),
        from_byte <= target,
        exists|j: int|
            from <= j <= text@.len() && byte_index_of(text@, j) == target,
    ensures
        from <= r <= text@.len(),
        byte_index_of(text@, r as int) == target,
{
    let ghost t = text@;
    proof {
        lemma_byte_len_full(t);
    }
    let total = str_byte_len(text);
    let n = text.unicode_len();
    let mut k = from;
    let mut acc = from_byte;
    while acc < target
        invariant
            from <= k <= t.len(),
            t == text@,
            n == t.len(),
            total == byte_index_of(t, t.len() as int),
            total == text.spec_bytes().len(),
            acc == byte_index_of(t, k as int),
            acc <= target,
            exists|j: int| k <= j <= t.len() && byte_index_of(t, j) == target,
        decreases t.len() - k,
    {
        proof {
            let j = choose|j: int| k <= j <= t.len() && byte_index_of(t, j) == target;
            assert(j > k) by {
                if j == k {
                    assert(byte_index_of(t, j) == acc);
                }
            }
            lemma_byte_index_mono(t, k as int, j);
            lemma_byte_index_mono(t, k as int + 1, j);
            lemma_byte_index_mono(t, j, t.len() as int);
        }
        let c = text.get_char(k);
        let step: usize = char_len_utf8(c);
        acc = acc + step;
        k = k + 1;
    }
    proof {
        let j = choose|j: int| k <= j <= t.len() && byte_index_of(t, j) == target;
        if j > k as int {
            lemma_byte_index_mono(t, k as int, j);
        }
    }
    k
}

/// The length in bytes of the UTF-8 encoding of `c`.
pub(crate) fn char_len_utf8(c: char) -> (r: usize)
    ensures
        r == utf8_len(c),
{
    let v = c as u32;
    if v <= 0x7F {
        1
    } else if v <= 0x7FF {
        2
    } else if v <= 0xFFFF {
        3
    } else {
        4
    }
}

/// The span of the capture group at `index`: the full match for zero,
/// otherwise the group's entry, when present.
pub open spec fn spec_get(c: Captures, index: int) -> Option<Match> {
    if index == 0 {
        Some(c.full_match)
    } else if 1 <= index <= c.groups@.len() {
        c.groups@[index - 1]
    } else {
        None
    }
}

/// The entry of the first named group called `name`, when one exists,
/// searching from position `i` of the list.
pub open spec fn spec_get_named_from(pairs: Seq<(String, Match)>, name: Seq<char>, i: int) -> Option<
    Match,
>
    decreases pairs.len() - i,
{
    if 0 <= i < pairs.len() {
        if pairs[i].0@ == name {
            Some(pairs[i].1)
        } else {
            spec_get_named_from(pairs, name, i + 1)
        }
    } else {
        None
    }
}

/// The entry of the first named group called `name`, when one exists.
pub open spec fn spec_get_named(c: Captures, name: Seq<char>) -> Option<Match> {
    spec_get_named_from(c.named@, name, 0)
}

/// The result of a successful match: the full-match span, the optional span
/// of every capture group, and the spans of the named groups.
#[derive(Debug)]
pub struct Captures {
    /// The match corresponding to the entire pattern (group 0).
    pub full_match: Match,
    /// Ordered list of capture groups (group 1, group 2, ...). `None` means
    /// the group exists in the pattern but did not participate in the match.
    pub groups: Vec<Option<Match>>,
    /// The named capture groups and their spans, in pattern order.
    pub named: Vec<(String, Match)>,
}

impl Captures {
    /// The match of the capture group at `index`: zero is the entire match,
    /// one and up are the parenthesized groups. `None` if the index is out
    /// of bounds or the group did not participate in the match.
    pub fn get(&self, index: usize) -> (r: Option<&Match>)
        ensures
            match r {
                Some(m) => spec_get(*self, index as int) == Some(*m),
                None => spec_get(*self, index as int) is None,
            },
    {
        if index == 0 {
            Some(&self.full_match)
        } else if index - 1 < self.groups.len() {
            match &self.groups[index - 1] {
                Some(m) => Some(m),
                None => None,
            }
        } else {
            None
        }
    }

    /// The match of the named capture group called `name`, if any.
    pub fn get_named(&self, name: &str) -> (r: Option<&Match>)
        ensures
            match r {
                Some(m) => spec_get_named(*self, name@) == Some(*m),
                None => spec_get_named(*self, name@) is None,
            },
    {
        let mut i: usize = 0;
        while i < self.named.len()
            invariant
                0 <= i <= self.named@.len(),
                spec_get_named_from(self.named@, name@, 0) == spec_get_named_from(
                    self.named@,
                    name@,
                    i as int,
                ),
            decreases self.named@.len() - i,
        {
            if str_eq(self.named[i].0.as_str(), name) {
                return Some(&self.named[i].1);
            }
            i += 1;
        }
        None
    }

    /// The substring of the original text for the capture group at `index`.
    /// Present spans must lie within the text, on character boundaries.
    pub fn as_str<'a>(&self, text: &'a str, index: usize) -> (r: Option<&'a str>)
        requires
            match spec_get(*self, index as int) {
                Some(m) => is_byte_span(text@, m.start as int, m.end as int),
                None => true,
            },
        ensures
            match spec_get(*self, index as int) {
                Some(m) => r matches Some(s) && s@ == text@.subrange(
                    char_pos_of_byte(text@, m.start as int),
                    char_pos_of_byte(text@, m.end as int),
                ),
                None => r is None,
            },
    {
        match self.get(index) {
            Some(m) => Some(m.as_str(text)),
            None => None,
        }
    }

    /// The substring of the original text for the named capture group.
    /// Present spans must lie within the text, on character boundaries.
    pub fn as_str_named<'a>(&self, text: &'a str, name: &str) -> (r: Option<&'a str>)
        requires
            match spec_get_named(*self, name@) {
                Some(m) => is_byte_span(text@, m.start as int, m.end as int),
                None => true,
            },
        ensures
            match spec_get_named(*self, name@) {
                Some(m) => r matches Some(s) && s@ == text@.subrange(
                    char_pos_of_byte(text@, m.start as int),
                    char_pos_of_byte(text@, m.end as int),
                ),
                None => r is None,
            },
    {
        match self.get_named(name) {
            Some(m) => Some(m.as_str(text)),
            None => None,
        }
    }
}

} // verus!
