//! The meaning of a compiled pattern: a backtracking interpretation of the
//! syntax tree over a sequence of characters.
//!
//! These spec functions define, position by position, what the match engine
//! returns: leftmost match, left-biased alternation, greedy and lazy
//! quantifiers with a zero-width guard, capture bookkeeping, anchors, word
//! boundaries, match-boundary overrides, back-references and lookaround.
//! The executable engine is proved to return exactly these results.
//!
//! Positions are character indices into the text. A match attempt carries a
//! context: the capture table and the `\zs` / `\ze` overrides. Speculative
//! work (alternation branches, quantifier forks, lookaround probes) runs on
//! a copy of the context and is committed only when it succeeds.

use vstd::prelude::*;
use crate::ast::AstNode;
use crate::ast::CharClass;
use crate::ast::CharRange;
use crate::ast::alts_size_from;
use crate::ast::node_size;
use crate::ast::nodes_size_from;
use crate::chars::fold_eq;
use crate::chars::spec_ascii_digit;
use crate::chars::spec_ascii_punct;
use crate::chars::spec_hex_digit;
use crate::chars::spec_octal_digit;
use crate::chars::unicode_alphabetic;
use crate::chars::unicode_alphanumeric;
use crate::chars::unicode_lowercase;
use crate::chars::unicode_uppercase;
use crate::chars::unicode_whitespace;
use crate::flags::Flags;

verus! {

broadcast use crate::ast::lemma_nodes_size_unfold, crate::ast::lemma_alts_size_unfold;

/// The context of one match attempt: the capture table (1-based; entry zero
/// is unused) and the reported-boundary overrides, all in character indices.
#[verifier::ext_equal]
pub struct MCtx {
    /// Capture spans by group index.
    pub caps: Seq<Option<(usize, usize)>>,
    /// Override of the reported match start, set by `\zs`.
    pub zs: Option<usize>,
    /// Override of the reported match end, set by `\ze`.
    pub ze: Option<usize>,
}

/// Every capture span and override lies within the text, in order.
pub open spec fn ctx_wf(c: MCtx, t: Seq<char>) -> bool {
    &&& forall|k: int|
        0 <= k < c.caps.len() ==> match #[trigger] c.caps[k] {
            Some(sp) => sp.0 <= sp.1 <= t.len(),
            None => true,
        }
    &&& match c.zs {
        Some(p) => p <= t.len(),
        None => true,
    }
    &&& match c.ze {
        Some(p) => p <= t.len(),
        None => true,
    }
}

/// Case-insensitive matching is on: the resolved flag says so.
pub open spec fn flag_insensitive(f: Flags) -> bool {
    f.ignore_case == Some(true)
}

/// A word character: alphanumeric or underscore.
pub open spec fn word_char(c: char) -> bool {
    unicode_alphanumeric(c) || c == '_'
}

/// The character before `pos` is a word character (out of string counts as
/// non-word).
pub open spec fn word_before(t: Seq<char>, pos: int) -> bool {
    0 < pos <= t.len() && word_char(t[pos - 1])
}

/// The character at `pos` is a word character (out of string counts as
/// non-word).
pub open spec fn word_at(t: Seq<char>, pos: int) -> bool {
    0 <= pos < t.len() && word_char(t[pos])
}

/// `\b` holds at `pos`: word-character membership changes across the
/// position.
pub open spec fn word_boundary(t: Seq<char>, pos: int) -> bool {
    word_before(t, pos) != word_at(t, pos)
}

/// `^` holds at `pos`: start of text, or, in multiline mode, right after a
/// newline.
pub open spec fn start_anchor_holds(t: Seq<char>, f: Flags, pos: int) -> bool {
    pos == 0 || (f.multiline && 0 < pos <= t.len() && t[pos - 1] == '\n')
}

/// `$` holds at `pos`: end of text, or, in multiline mode, right before a
/// newline.
pub open spec fn end_anchor_holds(t: Seq<char>, f: Flags, pos: int) -> bool {
    pos == t.len() || (f.multiline && 0 <= pos < t.len() && t[pos] == '\n')
}

/// A pattern character matches a text character: equal, or, when the
/// case-insensitive flag is resolved on, equal under the lowercase fold.
pub open spec fn lit_matches(f: Flags, pc: char, tc: char) -> bool {
    if flag_insensitive(f) {
        fold_eq(pc, tc)
    } else {
        pc == tc
    }
}

/// Membership of `c` in one of the ranges of a custom set, from index `i`.
pub open spec fn set_member_from(v: Vec<CharRange>, i: int, c: char) -> bool
    decreases v.len() - i,
{
    if 0 <= i < v.len() {
        (v[i].start <= c && c <= v[i].end) || set_member_from(v, i + 1, c)
    } else {
        false
    }
}

/// Membership of a character in a character class. `.` excludes newline
/// unless dotall is on; custom sets test their ranges, then negate.
pub open spec fn class_member(f: Flags, k: CharClass, c: char) -> bool {
    match k {
        CharClass::Digit => spec_ascii_digit(c),
        CharClass::NonDigit => !spec_ascii_digit(c),
        CharClass::Word => word_char(c),
        CharClass::NonWord => !word_char(c),
        CharClass::Whitespace => unicode_whitespace(c),
        CharClass::NonWhitespace => !unicode_whitespace(c),
        CharClass::Lowercase => unicode_lowercase(c),
        CharClass::NonLowercase => !unicode_lowercase(c),
        CharClass::Uppercase => unicode_uppercase(c),
        CharClass::NonUppercase => !unicode_uppercase(c),
        CharClass::Hex => spec_hex_digit(c),
        CharClass::NonHex => !spec_hex_digit(c),
        CharClass::Octal => spec_octal_digit(c),
        CharClass::NonOctal => !spec_octal_digit(c),
        CharClass::Alphanumeric => unicode_alphanumeric(c),
        CharClass::NonAlphanumeric => !unicode_alphanumeric(c),
        CharClass::Punctuation => spec_ascii_punct(c),
        CharClass::NonPunctuation => !spec_ascii_punct(c),
        CharClass::WordStart => unicode_alphabetic(c) || c == '_',
        CharClass::NonWordStart => !(unicode_alphabetic(c) || c == '_'),
        CharClass::CharSet { chars, negated } => {
            let found = set_member_from(chars, 0, c);
            if negated {
                !found
            } else {
                found
            }
        },
        CharClass::Dot => f.dotall || c != '\n',
    }
}

/// Stores a capture span when the group captures and its index is in range.
pub open spec fn store_capture(
    c: MCtx,
    capture: bool,
    index: Option<usize>,
    start: int,
    end: int,
) -> MCtx {
    match index {
        Some(idx) => {
            if capture && (idx as int) < c.caps.len() {
                MCtx {
                    caps: c.caps.update(idx as int, Some((start as usize, end as usize))),
                    ..c
                }
            } else {
                c
            }
        },
        None => c,
    }
}

/// One less of an optional budget; `None` stays unbounded.
pub open spec fn dec_budget(b: Option<int>) -> Option<int> {
    match b {
        Some(n) => Some(n - 1),
        None => None,
    }
}

/// One less of an optional maximum, not below zero; `None` stays unbounded.
pub open spec fn dec_max(b: Option<int>) -> Option<int> {
    match b {
        Some(n) => Some(
            if n > 0 {
                n - 1
            } else {
                0
            },
        ),
        None => None,
    }
}

/// Matches the nodes of `nodes` from index `i` on, at position `pos`.
/// Returns the end position on success, and the context as the attempt left
/// it (also on failure: only forked work is rolled back).
pub open spec fn m_seq(
    t: Seq<char>,
    f: Flags,
    nodes: Vec<AstNode>,
    i: int,
    pos: int,
    c: MCtx,
) -> (Option<int>, MCtx)
    decreases nodes_size_from(nodes, i), 0int, t.len() - pos, 2int,
    when 0 <= pos <= t.len() && 0 <= i
{
    if i >= nodes.len() {
        (Some(pos), c)
    } else {
        match nodes[i] {
            AstNode::Literal(pc) => {
                if pos < t.len() && lit_matches(f, pc, t[pos]) {
                    m_seq(t, f, nodes, i + 1, pos + 1, c)
                } else {
                    (None, c)
                }
            },
            AstNode::CharClass(k) => {
                if pos < t.len() && class_member(f, k, t[pos]) {
                    m_seq(t, f, nodes, i + 1, pos + 1, c)
                } else {
                    (None, c)
                }
            },
            AstNode::StartAnchor => {
                if start_anchor_holds(t, f, pos) {
                    m_seq(t, f, nodes, i + 1, pos, c)
                } else {
                    (None, c)
                }
            },
            AstNode::EndAnchor => {
                if end_anchor_holds(t, f, pos) {
                    m_seq(t, f, nodes, i + 1, pos, c)
                } else {
                    (None, c)
                }
            },
            AstNode::WordBoundary => {
                if word_boundary(t, pos) {
                    m_seq(t, f, nodes, i + 1, pos, c)
                } else {
                    (None, c)
                }
            },
            AstNode::StartWord => {
                if word_boundary(t, pos) && word_at(t, pos) {
                    m_seq(t, f, nodes, i + 1, pos, c)
                } else {
                    (None, c)
                }
            },
            AstNode::EndWord => {
                if word_boundary(t, pos) && !word_at(t, pos) {
                    m_seq(t, f, nodes, i + 1, pos, c)
                } else {
                    (None, c)
                }
            },
            AstNode::SetMatchStart => m_seq(
                t,
                f,
                nodes,
                i + 1,
                pos,
                MCtx { zs: Some(pos as usize), ..c },
            ),
            AstNode::SetMatchEnd => m_seq(t, f, nodes, i + 1, pos, MCtx { ze: Some(pos as usize), ..c }),
            AstNode::Alternation(alts) => m_alts(t, f, alts, 0, nodes, i + 1, pos, c),
            AstNode::Group { nodes: body, capture, index, .. } => {
                let (r, c1) = m_seq(t, f, body, 0, pos, c);
                match r {
                    Some(np) => {
                        if pos <= np <= t.len() {
                            let c2 = store_capture(c1, capture, index, pos, np);
                            m_seq(t, f, nodes, i + 1, np, c2)
                        } else {
                            (None, c1)
                        }
                    },
                    None => (None, c1),
                }
            },
            AstNode::Backref(idx) => {
                if idx < c.caps.len() {
                    match c.caps[idx as int] {
                        Some(sp) => {
                            if sp.0 <= sp.1 <= t.len() && pos + (sp.1 - sp.0) <= t.len()
                                && t.subrange(pos, pos + (sp.1 - sp.0)) == t.subrange(
                                sp.0 as int,
                                sp.1 as int,
                            ) {
                                m_seq(t, f, nodes, i + 1, pos + (sp.1 - sp.0), c)
                            } else {
                                (None, c)
                            }
                        },
                        None => (None, c),
                    }
                } else {
                    (None, c)
                }
            },
            AstNode::LookAhead { nodes: body, positive } => {
                let (r, _) = m_seq(t, f, body, 0, pos, c);
                if (r is Some) == positive {
                    m_seq(t, f, nodes, i + 1, pos, c)
                } else {
                    (None, c)
                }
            },
            AstNode::LookBehind { nodes: body, positive } => {
                if m_lookbehind(t, f, body, 0, pos, c) == positive {
                    m_seq(t, f, nodes, i + 1, pos, c)
                } else {
                    (None, c)
                }
            },
            AstNode::ZeroOrMore { node, greedy } => m_quant(
                t,
                f,
                *node,
                0,
                None,
                greedy,
                nodes,
                i + 1,
                pos,
                c,
            ),
            AstNode::OneOrMore { node, greedy } => m_quant(
                t,
                f,
                *node,
                1,
                None,
                greedy,
                nodes,
                i + 1,
                pos,
                c,
            ),
            AstNode::Optional { node, greedy } => m_quant(
                t,
                f,
                *node,
                0,
                Some(1),
                greedy,
                nodes,
                i + 1,
                pos,
                c,
            ),
            AstNode::Exact { node, count } => m_quant(
                t,
                f,
                *node,
                count as int,
                Some(count as int),
                true,
                nodes,
                i + 1,
                pos,
                c,
            ),
            AstNode::Range { node, min, max, greedy } => m_quant(
                t,
                f,
                *node,
                min as int,
                match max {
                    Some(m) => Some(m as int),
                    None => None,
                },
                greedy,
                nodes,
                i + 1,
                pos,
                c,
            ),
        }
    }
}

/// Tries the branches of an alternation in order at `pos`; the first branch
/// after which the continuation also succeeds wins, and its context is
/// committed.
pub open spec fn m_alts(
    t: Seq<char>,
    f: Flags,
    alts: Vec<Vec<AstNode>>,
    ai: int,
    cont: Vec<AstNode>,
    ci: int,
    pos: int,
    c: MCtx,
) -> (Option<int>, MCtx)
    decreases alts_size_from(alts, ai) + nodes_size_from(cont, ci) + 1, 0int, t.len() - pos, 0int,
    when 0 <= pos <= t.len() && 0 <= ci
{
    if ai < 0 || ai >= alts.len() {
        (None, c)
    } else {
        let (r, c1) = m_seq(t, f, alts[ai], 0, pos, c);
        match r {
            Some(np) => {
                if pos <= np <= t.len() {
                    let (r2, c2) = m_seq(t, f, cont, ci, np, c1);
                    if r2 is Some {
                        (r2, c2)
                    } else {
                        m_alts(t, f, alts, ai + 1, cont, ci, pos, c)
                    }
                } else {
                    m_alts(t, f, alts, ai + 1, cont, ci, pos, c)
                }
            },
            None => m_alts(t, f, alts, ai + 1, cont, ci, pos, c),
        }
    }
}

/// True when some start position in `start..=pos` matches the lookbehind
/// body ending exactly at `pos`. Probes run on copies; captures are
/// discarded.
pub open spec fn m_lookbehind(
    t: Seq<char>,
    f: Flags,
    body: Vec<AstNode>,
    start: int,
    pos: int,
    c: MCtx,
) -> bool
    decreases nodes_size_from(body, 0) + 1, 0int, pos + 1 - start, 0int,
    when 0 <= start && 0 <= pos <= t.len()
{
    if start > pos {
        false
    } else {
        let (r, _) = m_seq(t, f, body, 0, start, c);
        if r == Some(pos) {
            true
        } else {
            m_lookbehind(t, f, body, start + 1, pos, c)
        }
    }
}

/// The mandatory phase of a quantifier: the inner node must match `min`
/// more times (zero-width iterations allowed), then the optional phase runs
/// with the remaining budget.
pub open spec fn m_quant(
    t: Seq<char>,
    f: Flags,
    inner: AstNode,
    min: int,
    max: Option<int>,
    greedy: bool,
    cont: Vec<AstNode>,
    ci: int,
    pos: int,
    c: MCtx,
) -> (Option<int>, MCtx)
    decreases node_size(inner) + nodes_size_from(cont, ci) + 1, if min > 0 { min } else { 0 }, t.len() - pos, 1int,
    when 0 <= pos <= t.len() && 0 <= ci
{
    if min > 0 {
        let (r, c1) = m_one(t, f, inner, pos, c);
        match r {
            Some(np) => {
                if 0 <= np <= t.len() {
                    m_quant(t, f, inner, min - 1, dec_max(max), greedy, cont, ci, np, c1)
                } else {
                    (None, c1)
                }
            },
            None => (None, c1),
        }
    } else {
        m_quant_opt(t, f, inner, max, greedy, cont, ci, pos, c)
    }
}

/// The optional phase of a quantifier. Greedy: take one more (non
/// zero-width) iteration if the rest still succeeds, else fall back to the
/// continuation. Lazy: try the continuation first, else take one more
/// iteration. Failed forks are rolled back.
pub open spec fn m_quant_opt(
    t: Seq<char>,
    f: Flags,
    inner: AstNode,
    budget: Option<int>,
    greedy: bool,
    cont: Vec<AstNode>,
    ci: int,
    pos: int,
    c: MCtx,
) -> (Option<int>, MCtx)
    decreases node_size(inner) + nodes_size_from(cont, ci) + 1, 0int, t.len() - pos, 0int,
    when 0 <= pos <= t.len() && 0 <= ci
{
    if budget == Some(0int) {
        m_seq(t, f, cont, ci, pos, c)
    } else if greedy {
        let (r, c1) = m_one(t, f, inner, pos, c);
        match r {
            Some(np) => {
                if pos < np <= t.len() {
                    let (r2, c2) = m_quant_opt(t, f, inner, dec_budget(budget), greedy, cont, ci, np, c1);
                    if r2 is Some {
                        (r2, c2)
                    } else {
                        m_seq(t, f, cont, ci, pos, c)
                    }
                } else {
                    m_seq(t, f, cont, ci, pos, c)
                }
            },
            None => m_seq(t, f, cont, ci, pos, c),
        }
    } else {
        let (r, c1) = m_seq(t, f, cont, ci, pos, c);
        if r is Some {
            (r, c1)
        } else {
            let (r2, c2) = m_one(t, f, inner, pos, c);
            match r2 {
                Some(np) => {
                    if pos < np <= t.len() {
                        m_quant_opt(t, f, inner, dec_budget(budget), greedy, cont, ci, np, c2)
                    } else {
                        (None, c2)
                    }
                },
                None => (None, c2),
            }
        }
    }
}

/// Matches a single node at `pos` with nothing after it: what the engine
/// does with a quantifier's inner node.
pub open spec fn m_one(t: Seq<char>, f: Flags, node: AstNode, pos: int, c: MCtx) -> (
    Option<int>,
    MCtx,
)
    decreases node_size(node), 0int, t.len() - pos, 2int,
    when 0 <= pos <= t.len()
{
    match node {
        AstNode::Literal(pc) => {
            if pos < t.len() && lit_matches(f, pc, t[pos]) {
                (Some(pos + 1), c)
            } else {
                (None, c)
            }
        },
        AstNode::CharClass(k) => {
            if pos < t.len() && class_member(f, k, t[pos]) {
                (Some(pos + 1), c)
            } else {
                (None, c)
            }
        },
        AstNode::StartAnchor => {
            if start_anchor_holds(t, f, pos) {
                (Some(pos), c)
            } else {
                (None, c)
            }
        },
        AstNode::EndAnchor => {
            if end_anchor_holds(t, f, pos) {
                (Some(pos), c)
            } else {
                (None, c)
            }
        },
        AstNode::WordBoundary => {
            if word_boundary(t, pos) {
                (Some(pos), c)
            } else {
                (None, c)
            }
        },
        AstNode::StartWord => {
            if word_boundary(t, pos) && word_at(t, pos) {
                (Some(pos), c)
            } else {
                (None, c)
            }
        },
        AstNode::EndWord => {
            if word_boundary(t, pos) && !word_at(t, pos) {
                (Some(pos), c)
            } else {
                (None, c)
            }
        },
        AstNode::SetMatchStart => (Some(pos), MCtx { zs: Some(pos as usize), ..c }),
        AstNode::SetMatchEnd => (Some(pos), MCtx { ze: Some(pos as usize), ..c }),
        AstNode::Alternation(alts) => m_one_alts(t, f, alts, 0, pos, c),
        AstNode::Group { nodes: body, capture, index, .. } => {
            let (r, c1) = m_seq(t, f, body, 0, pos, c);
            match r {
                Some(np) => {
                    if pos <= np <= t.len() {
                        (Some(np), store_capture(c1, capture, index, pos, np))
                    } else {
                        (None, c1)
                    }
                },
                None => (None, c1),
            }
        },
        AstNode::Backref(idx) => {
            if idx < c.caps.len() {
                match c.caps[idx as int] {
                    Some(sp) => {
                        if sp.0 <= sp.1 <= t.len() && pos + (sp.1 - sp.0) <= t.len() && t.subrange(
                            pos,
                            pos + (sp.1 - sp.0),
                        ) == t.subrange(sp.0 as int, sp.1 as int) {
                            (Some(pos + (sp.1 - sp.0)), c)
                        } else {
                            (None, c)
                        }
                    },
                    None => (None, c),
                }
            } else {
                (None, c)
            }
        },
        AstNode::LookAhead { nodes: body, positive } => {
            let (r, _) = m_seq(t, f, body, 0, pos, c);
            if (r is Some) == positive {
                (Some(pos), c)
            } else {
                (None, c)
            }
        },
        AstNode::LookBehind { nodes: body, positive } => {
            if m_lookbehind(t, f, body, 0, pos, c) == positive {
                (Some(pos), c)
            } else {
                (None, c)
            }
        },
        AstNode::ZeroOrMore { node, greedy } => m_one_quant(t, f, *node, 0, None, greedy, pos, c),
        AstNode::OneOrMore { node, greedy } => m_one_quant(t, f, *node, 1, None, greedy, pos, c),
        AstNode::Optional { node, greedy } => m_one_quant(t, f, *node, 0, Some(1), greedy, pos, c),
        AstNode::Exact { node, count } => m_one_quant(
            t,
            f,
            *node,
            count as int,
            Some(count as int),
            true,
            pos,
            c,
        ),
        AstNode::Range { node, min, max, greedy } => m_one_quant(
            t,
            f,
            *node,
            min as int,
            match max {
                Some(m) => Some(m as int),
                None => None,
            },
            greedy,
            pos,
            c,
        ),
    }
}

/// Tries the branches of a bare alternation in order; the first branch that
/// matches wins.
pub open spec fn m_one_alts(
    t: Seq<char>,
    f: Flags,
    alts: Vec<Vec<AstNode>>,
    ai: int,
    pos: int,
    c: MCtx,
) -> (Option<int>, MCtx)
    decreases alts_size_from(alts, ai) + 1, 0int, t.len() - pos, 0int,
    when 0 <= pos <= t.len()
{
    if ai < 0 || ai >= alts.len() {
        (None, c)
    } else {
        let (r, c1) = m_seq(t, f, alts[ai], 0, pos, c);
        if r is Some {
            (r, c1)
        } else {
            m_one_alts(t, f, alts, ai + 1, pos, c)
        }
    }
}

/// A bare quantifier: the mandatory iterations, then, when greedy, as many
/// further non zero-width iterations as the budget allows; when lazy, none.
pub open spec fn m_one_quant(
    t: Seq<char>,
    f: Flags,
    inner: AstNode,
    min: int,
    max: Option<int>,
    greedy: bool,
    pos: int,
    c: MCtx,
) -> (Option<int>, MCtx)
    decreases node_size(inner) + 1, if min > 0 { min } else { 0 }, t.len() - pos, 1int,
    when 0 <= pos <= t.len()
{
    if min > 0 {
        let (r, c1) = m_one(t, f, inner, pos, c);
        match r {
            Some(np) => {
                if 0 <= np <= t.len() {
                    m_one_quant(t, f, inner, min - 1, dec_max(max), greedy, np, c1)
                } else {
                    (None, c1)
                }
            },
            None => (None, c1),
        }
    } else if greedy {
        m_one_iter(t, f, inner, max, pos, c)
    } else {
        (Some(pos), c)
    }
}

/// The highest capture-group index mentioned by a node.
pub open spec fn gc_node(n: AstNode) -> int
    decreases n, 0int,
{
    match n {
        AstNode::Group { nodes, index, .. } => {
            let a = match index {
                Some(ix) => ix as int,
                None => 0,
            };
            let b = gc_from(nodes, 0);
            if a > b {
                a
            } else {
                b
            }
        },
        AstNode::Alternation(alts) => gc_alts(alts, 0),
        AstNode::ZeroOrMore { node, .. } => gc_node(*node),
        AstNode::OneOrMore { node, .. } => gc_node(*node),
        AstNode::Optional { node, .. } => gc_node(*node),
        AstNode::Exact { node, .. } => gc_node(*node),
        AstNode::Range { node, .. } => gc_node(*node),
        AstNode::LookAhead { nodes, .. } => gc_from(nodes, 0),
        AstNode::LookBehind { nodes, .. } => gc_from(nodes, 0),
        _ => 0,
    }
}

/// The highest capture-group index mentioned from index `i` of `v` on.
pub open spec fn gc_from(v: Vec<AstNode>, i: int) -> int
    decreases v, v.len() - i,
{
    if 0 <= i < v.len() {
        let a = gc_node(v[i]);
        let b = gc_from(v, i + 1);
        if a > b {
            a
        } else {
            b
        }
    } else {
        0
    }
}

/// The highest capture-group index mentioned by the branches of `v` from
/// index `ai` on.
pub open spec fn gc_alts(v: Vec<Vec<AstNode>>, ai: int) -> int
    decreases v, v.len() - ai,
{
    if 0 <= ai < v.len() {
        let a = gc_from(v[ai], 0);
        let b = gc_alts(v, ai + 1);
        if a > b {
            a
        } else {
            b
        }
    } else {
        0
    }
}

/// The size of the capture table for a pattern whose highest group index is
/// `g`: one more entry (index zero is unused), capped at the machine limit.
pub open spec fn cap_table_len(g: int) -> int {
    if g == usize::MAX {
        g
    } else {
        g + 1
    }
}

/// The fresh context a match attempt starts from.
pub open spec fn empty_ctx(g: int) -> MCtx {
    MCtx {
        caps: Seq::new(cap_table_len(g) as nat, |k: int| None::<(usize, usize)>),
        zs: None,
        ze: None,
    }
}

/// The engine's top loop from start position `start` on: the first position
/// whose attempt succeeds wins, and the `\zs` / `\ze` overrides replace the
/// reported bounds. One attempt is made at the end-of-text position, so
/// empty matches and pure anchors at the end are reachable.
pub open spec fn m_find_from(t: Seq<char>, f: Flags, nodes: Vec<AstNode>, start: int) -> Option<
    (int, int, MCtx),
>
    decreases t.len() + 1 - start,
    when 0 <= start
{
    if start > t.len() {
        None
    } else {
        let (r, c) = m_seq(t, f, nodes, 0, start, empty_ctx(gc_from(nodes, 0)));
        match r {
            Some(e) => {
                let rs = match c.zs {
                    Some(p) => p as int,
                    None => start,
                };
                let re = match c.ze {
                    Some(p) => p as int,
                    None => e,
                };
                Some((rs, re, c))
            },
            None => m_find_from(t, f, nodes, start + 1),
        }
    }
}

/// The first match of the pattern in the text, in character indices, with
/// the final context.
pub open spec fn m_find(t: Seq<char>, f: Flags, nodes: Vec<AstNode>) -> Option<(int, int, MCtx)> {
    m_find_from(t, f, nodes, 0)
}

/// Greedy iteration of a bare quantifier's optional phase: keep taking non
/// zero-width iterations while the budget lasts; always succeeds at the
/// last position reached.
pub open spec fn m_one_iter(
    t: Seq<char>,
    f: Flags,
    inner: AstNode,
    budget: Option<int>,
    pos: int,
    c: MCtx,
) -> (Option<int>, MCtx)
    decreases node_size(inner) + 1, 0int, t.len() - pos, 0int,
    when 0 <= pos <= t.len()
{
    if budget == Some(0int) {
        (Some(pos), c)
    } else {
        let (r, c1) = m_one(t, f, inner, pos, c);
        match r {
            Some(np) => {
                if pos < np <= t.len() {
                    m_one_iter(t, f, inner, dec_budget(budget), np, c1)
                } else {
                    (Some(pos), c)
                }
            },
            None => (Some(pos), c),
        }
    }
}

} // verus!
