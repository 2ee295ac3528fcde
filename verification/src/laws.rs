//! The laws the library states of itself, over the same spec functions its
//! contracts use.

use vstd::prelude::*;
use crate::captures::Captures;
use crate::captures::Match;
use crate::captures::spec_get;
use crate::chars::byte_index_of;
use crate::chars::is_byte_span;
use crate::chars::lemma_byte_index_mono;
use crate::flags::Flags;
use crate::semantics::end_anchor_holds;
use crate::semantics::start_anchor_holds;
use crate::semantics::word_at;
use crate::semantics::word_before;
use crate::semantics::word_boundary;

verus! {

/// A pattern matches exactly when a match can be found: whatever one call
/// of the engine concluded, `is_match` and `find` agree.
pub proof fn lemma_is_match_iff_find(
    matched: bool,
    found: Option<Match>,
    outcome: Option<(int, int, crate::semantics::MCtx)>,
)
    requires
        matched == (outcome is Some),
        (found is Some) == (outcome is Some),
    ensures
        matched == (found is Some),
{
}

/// A reported span lies within the text, both offsets on character
/// boundaries; when the reported start does not pass the reported end (as
/// always, unless a `\ze` fired before a `\zs`), the span is forward.
pub proof fn lemma_find_span_bounds(t: Seq<char>, cs: int, ce: int, m: Match)
    requires
        0 <= cs <= t.len(),
        0 <= ce <= t.len(),
        m.start == byte_index_of(t, cs),
        m.end == byte_index_of(t, ce),
    ensures
        0 <= m.start <= byte_index_of(t, t.len() as int),
        0 <= m.end <= byte_index_of(t, t.len() as int),
        is_byte_span(t, m.start as int, m.start as int),
        is_byte_span(t, m.end as int, m.end as int),
        cs <= ce ==> m.start <= m.end && is_byte_span(t, m.start as int, m.end as int),
{
    lemma_byte_index_mono(t, 0, cs);
    lemma_byte_index_mono(t, 0, ce);
    lemma_byte_index_mono(t, cs, t.len() as int);
    lemma_byte_index_mono(t, ce, t.len() as int);
    assert(is_byte_span(t, m.start as int, m.start as int)) by {
        assert(0 <= cs <= cs <= t.len() && byte_index_of(t, cs) == m.start as int);
    }
    assert(is_byte_span(t, m.end as int, m.end as int)) by {
        assert(0 <= ce <= ce <= t.len() && byte_index_of(t, ce) == m.end as int);
    }
    if cs <= ce {
        lemma_byte_index_mono(t, cs, ce);
        assert(is_byte_span(t, m.start as int, m.end as int)) by {
            assert(0 <= cs <= ce <= t.len() && byte_index_of(t, cs) == m.start as int
                && byte_index_of(t, ce) == m.end as int);
        }
    }
}

/// The zeroth capture group is the full match, and it is the span that
/// `find` reports for the same text.
pub proof fn lemma_captures_group_zero(t: Seq<char>, c: Captures, m: Match, cs: int, ce: int)
    requires
        c.full_match.start == byte_index_of(t, cs),
        c.full_match.end == byte_index_of(t, ce),
        m.start == byte_index_of(t, cs),
        m.end == byte_index_of(t, ce),
    ensures
        spec_get(c, 0) == Some(c.full_match),
        c.full_match == m,
{
}

/// `^` holds exactly at the start of the text and, in multiline mode,
/// right after every newline; `$` exactly at the end and, in multiline
/// mode, right before every newline.
pub proof fn lemma_anchor_laws(t: Seq<char>, f: Flags, pos: int)
    ensures
        !f.multiline ==> (start_anchor_holds(t, f, pos) <==> pos == 0),
        !f.multiline ==> (end_anchor_holds(t, f, pos) <==> pos == t.len()),
        f.multiline ==> (start_anchor_holds(t, f, pos) <==> (pos == 0 || (0 < pos <= t.len()
            && t[pos - 1] == '\n'))),
        f.multiline ==> (end_anchor_holds(t, f, pos) <==> (pos == t.len() || (0 <= pos < t.len()
            && t[pos] == '\n'))),
{
}

/// `.` admits every character except newline, and newline too with dotall
/// on.
pub proof fn lemma_dot_law(f: Flags, c: char)
    ensures
        crate::semantics::class_member(f, crate::ast::CharClass::Dot, c) <==> (f.dotall || c
            != '\n'),
{
}

/// `\b` holds exactly where word-character membership changes across the
/// position, out-of-string counting as non-word.
pub proof fn lemma_word_boundary_law(t: Seq<char>, pos: int)
    ensures
        word_boundary(t, pos) <==> (word_before(t, pos) != word_at(t, pos)),
        pos == 0 ==> (word_boundary(t, pos) <==> word_at(t, pos)),
        pos == t.len() ==> (word_boundary(t, pos) <==> word_before(t, pos)),
{
}

} // verus!
