//! The backtracking match engine: walks the syntax tree against input text.
//!
//! Every function returns exactly what the corresponding spec function of
//! [`crate::semantics`] defines. Positions handled here are character
//! indices; the public [`Matcher::find`] converts the winning span to byte
//! offsets.

use vstd::prelude::*;
use crate::ast::AstNode;
use crate::ast::CharClass;
use crate::ast::CharRange;
use crate::ast::alts_size_from;
use crate::ast::node_size;
use crate::ast::nodes_size_from;
use crate::captures::Match;
use crate::captures::char_len_utf8;
use crate::chars::byte_index_of;
use crate::chars::chars_eq_insensitive;
use crate::chars::is_alphabetic_char;
use crate::chars::is_alphanumeric_char;
use crate::chars::is_ascii_digit_char;
use crate::chars::is_ascii_punct_char;
use crate::chars::is_hex_digit_char;
use crate::chars::is_lowercase_char;
use crate::chars::is_octal_digit_char;
use crate::chars::is_uppercase_char;
use crate::chars::is_whitespace_char;
use crate::chars::lemma_byte_index_mono;
use crate::chars::str_to_chars;
use crate::flags::Flags;
use crate::semantics::MCtx;
use crate::semantics::class_member;
use crate::semantics::ctx_wf;
use crate::semantics::end_anchor_holds;
use crate::semantics::lit_matches;
use crate::semantics::m_seq;
use crate::semantics::set_member_from;
use crate::semantics::start_anchor_holds;
use crate::semantics::word_at;
use crate::semantics::word_before;
use crate::semantics::word_boundary;
use crate::semantics::word_char;

verus! {

broadcast use crate::ast::lemma_nodes_size_unfold, crate::ast::lemma_alts_size_unfold;

/// Per-attempt mutable state: the capture table and the match-boundary
/// overrides, in character indices.
pub(crate) struct MatchContext {
    /// Capture spans by 1-based group index (entry zero unused).
    pub(crate) captures: Vec<Option<(usize, usize)>>,
    /// Reported match start override, set by `\zs`.
    pub(crate) match_start_override: Option<usize>,
    /// Reported match end override, set by `\ze`.
    pub(crate) match_end_override: Option<usize>,
}

/// The context as the model sees it.
pub(crate) open spec fn ctx_view(c: MatchContext) -> MCtx {
    MCtx {
        caps: c.captures@,
        zs: c.match_start_override,
        ze: c.match_end_override,
    }
}

impl MatchContext {
    /// A fresh context with room for `group_count` capture groups (1-based,
    /// so one more entry).
    pub(crate) fn new(group_count: usize) -> (r: MatchContext)
        requires
            group_count < usize::MAX,
        ensures
            ctx_view(r) == (MCtx {
                caps: Seq::new((group_count + 1) as nat, |k: int| None::<(usize, usize)>),
                zs: None::<usize>,
                ze: None::<usize>,
            }),
    {
        let n = group_count + 1;
        let mut captures: Vec<Option<(usize, usize)>> = Vec::new();
        let mut k: usize = 0;
        while k < n
            invariant
                0 <= k <= n,
                captures@.len() == k,
                forall|j: int| 0 <= j < k ==> captures@[j] is None,
            decreases n - k,
        {
            captures.push(None);
            k += 1;
        }
        let r = MatchContext { captures, match_start_override: None, match_end_override: None };
        proof {
            assert(ctx_view(r).caps =~= Seq::new(
                (group_count + 1) as nat,
                |j: int| None::<(usize, usize)>,
            ));
            assert(ctx_view(r) =~= MCtx {
                caps: Seq::new((group_count + 1) as nat, |j: int| None::<(usize, usize)>),
                zs: None::<usize>,
                ze: None::<usize>,
            });
        }
        r
    }

    /// A copy of this context, taken before speculative work.
    pub(crate) fn snapshot(&self) -> (r: MatchContext)
        ensures
            ctx_view(r) == ctx_view(*self),
    {
        let mut captures: Vec<Option<(usize, usize)>> = Vec::new();
        let mut k: usize = 0;
        while k < self.captures.len()
            invariant
                0 <= k <= self.captures@.len(),
                captures@.len() == k,
                forall|j: int| 0 <= j < k ==> captures@[j] == self.captures@[j],
            decreases self.captures@.len() - k,
        {
            captures.push(self.captures[k]);
            k += 1;
        }
        let r = MatchContext {
            captures,
            match_start_override: self.match_start_override,
            match_end_override: self.match_end_override,
        };
        proof {
            assert(ctx_view(r).caps =~= ctx_view(*self).caps);
            assert(ctx_view(r) =~= ctx_view(*self));
        }
        r
    }
}

/// The model result of one engine step, paired for the contracts below.
pub(crate) open spec fn opt_int(o: Option<usize>) -> Option<int> {
    match o {
        Some(p) => Some(p as int),
        None => None,
    }
}

/// The executable result agrees with the model result.
pub(crate) open spec fn res_ok(res: (Option<usize>, MatchContext), m: (Option<int>, MCtx)) -> bool {
    opt_int(res.0) == m.0 && ctx_view(res.1) == m.1
}

/// Tests whether the resolved flags ask for case-insensitive matching.
fn insensitive(f: &Flags) -> (r: bool)
    ensures
        r == crate::semantics::flag_insensitive(*f),
{
    match f.ignore_case {
        Some(b) => b,
        None => false,
    }
}

/// Tests a pattern character against a text character under the flags.
fn lit_matches_exec(f: &Flags, pc: char, tc: char) -> (r: bool)
    ensures
        r == lit_matches(*f, pc, tc),
{
    if insensitive(f) {
        chars_eq_insensitive(pc, tc)
    } else {
        pc == tc
    }
}

/// A word character: alphanumeric or underscore.
fn word_char_exec(c: char) -> (r: bool)
    ensures
        r == word_char(c),
{
    is_alphanumeric_char(c) || c == '_'
}

/// The character before `pos` is a word character.
fn word_before_exec(t: &Vec<char>, pos: usize) -> (r: bool)
    requires
        pos <= t@.len(),
    ensures
        r == word_before(t@, pos as int),
{
    if pos > 0 {
        word_char_exec(t[pos - 1])
    } else {
        false
    }
}

/// The character at `pos` is a word character.
fn word_at_exec(t: &Vec<char>, pos: usize) -> (r: bool)
    requires
        pos <= t@.len(),
    ensures
        r == word_at(t@, pos as int),
{
    if pos < t.len() {
        word_char_exec(t[pos])
    } else {
        false
    }
}

/// `\b` holds at `pos`.
fn word_boundary_exec(t: &Vec<char>, pos: usize) -> (r: bool)
    requires
        pos <= t@.len(),
    ensures
        r == word_boundary(t@, pos as int),
{
    let before = word_before_exec(t, pos);
    let at = word_at_exec(t, pos);
    before != at
}

/// `^` holds at `pos` under the flags.
fn start_anchor_exec(t: &Vec<char>, f: &Flags, pos: usize) -> (r: bool)
    requires
        pos <= t@.len(),
    ensures
        r == start_anchor_holds(t@, *f, pos as int),
{
    pos == 0 || (f.multiline && pos > 0 && t[pos - 1] == '\n')
}

/// `$` holds at `pos` under the flags.
fn end_anchor_exec(t: &Vec<char>, f: &Flags, pos: usize) -> (r: bool)
    requires
        pos <= t@.len(),
    ensures
        r == end_anchor_holds(t@, *f, pos as int),
{
    pos == t.len() || (f.multiline && pos < t.len() && t[pos] == '\n')
}

/// Membership of `c` in the ranges of a custom set, from index `i` on.
fn set_member_exec(v: &Vec<CharRange>, i: usize, c: char) -> (r: bool)
    requires
        i <= v@.len(),
    ensures
        r == set_member_from(*v, i as int, c),
    decreases v@.len() - i,
{
    if i < v.len() {
        let rg = v[i];
        (rg.start <= c && c <= rg.end) || set_member_exec(v, i + 1, c)
    } else {
        false
    }
}

/// Membership of a character in a character class under the flags.
fn class_member_exec(f: &Flags, k: &CharClass, c: char) -> (r: bool)
    ensures
        r == class_member(*f, *k, c),
{
    match k {
        CharClass::Digit => is_ascii_digit_char(c),
        CharClass::NonDigit => !is_ascii_digit_char(c),
        CharClass::Word => word_char_exec(c),
        CharClass::NonWord => !word_char_exec(c),
        CharClass::Whitespace => is_whitespace_char(c),
        CharClass::NonWhitespace => !is_whitespace_char(c),
        CharClass::Lowercase => is_lowercase_char(c),
        CharClass::NonLowercase => !is_lowercase_char(c),
        CharClass::Uppercase => is_uppercase_char(c),
        CharClass::NonUppercase => !is_uppercase_char(c),
        CharClass::Hex => is_hex_digit_char(c),
        CharClass::NonHex => !is_hex_digit_char(c),
        CharClass::Octal => is_octal_digit_char(c),
        CharClass::NonOctal => !is_octal_digit_char(c),
        CharClass::Alphanumeric => is_alphanumeric_char(c),
        CharClass::NonAlphanumeric => !is_alphanumeric_char(c),
        CharClass::Punctuation => is_ascii_punct_char(c),
        CharClass::NonPunctuation => !is_ascii_punct_char(c),
        CharClass::WordStart => is_alphabetic_char(c) || c == '_',
        CharClass::NonWordStart => !(is_alphabetic_char(c) || c == '_'),
        CharClass::CharSet { chars, negated } => {
            let found = set_member_exec(chars, 0, c);
            if *negated {
                !found
            } else {
                found
            }
        },
        CharClass::Dot => f.dotall || c != '\n',
    }
}

/// Compares `t[p .. p + (b - a)]` with `t[a .. b]`.
fn subranges_equal(t: &Vec<char>, p: usize, a: usize, b: usize) -> (r: bool)
    requires
        a <= b,
        b <= t@.len(),
        p + (b - a) <= t@.len(),
    ensures
        r == (t@.subrange(p as int, p + (b - a)) == t@.subrange(a as int, b as int)),
{
    let l = b - a;
    let n = t.len();
    let mut k: usize = 0;
    while k < l
        invariant
            0 <= k <= l,
            l == b - a,
            a <= b <= t@.len(),
            p + l <= t@.len(),
            n == t@.len(),
            forall|j: int| 0 <= j < k ==> #[trigger] t@[p + j] == t@[a + j],
        decreases l - k,
    {
        if t[p + k] != t[a + k] {
            proof {
                let s1 = t@.subrange(p as int, p + l);
                let s2 = t@.subrange(a as int, b as int);
                assert(s1[k as int] == t@[p + k]);
                assert(s2[k as int] == t@[a + k]);
            }
            return false;
        }
        k += 1;
    }
    proof {
        let s1 = t@.subrange(p as int, p + l);
        let s2 = t@.subrange(a as int, b as int);
        assert forall|j: int| 0 <= j < l implies s1[j] == s2[j] by {
            assert(t@[p + j] == t@[a + j]);
        }
        assert(s1 =~= s2);
    }
    true
}

/// One less of an optional maximum, not below zero.
fn dec_max_exec(max: Option<usize>) -> (r: Option<usize>)
    ensures
        opt_int(r) == crate::semantics::dec_max(opt_int(max)),
{
    match max {
        Some(m) => {
            if m > 0 {
                Some(m - 1)
            } else {
                Some(0)
            }
        },
        None => None,
    }
}

/// One less of a non-exhausted budget.
fn dec_budget_exec(budget: Option<usize>) -> (r: Option<usize>)
    requires
        budget matches Some(n) ==> n >= 1,
    ensures
        opt_int(r) == crate::semantics::dec_budget(opt_int(budget)),
{
    match budget {
        Some(n) => Some(n - 1),
        None => None,
    }
}

/// Stores a capture span when the group captures and its index is in range.
fn store_capture_exec(
    ctx: MatchContext,
    capture: bool,
    index: Option<usize>,
    start: usize,
    end: usize,
) -> (r: MatchContext)
    ensures
        ctx_view(r) == crate::semantics::store_capture(
            ctx_view(ctx),
            capture,
            index,
            start as int,
            end as int,
        ),
{
    let mut ctx = ctx;
    match index {
        Some(idx) => {
            if capture && idx < ctx.captures.len() {
                ctx.captures[idx] = Some((start, end));
                ctx
            } else {
                ctx
            }
        },
        None => ctx,
    }
}

/// Matches the nodes of `nodes` from index `i` on, at position `pos`:
/// returns exactly what [`m_seq`] defines, with the end position between
/// `pos` and the end of the text.
fn match_seq(
    t: &Vec<char>,
    f: &Flags,
    nodes: &Vec<AstNode>,
    i: usize,
    pos: usize,
    ctx: MatchContext,
) -> (res: (Option<usize>, MatchContext))
    requires
        i <= nodes@.len(),
        pos <= t@.len(),
        ctx_wf(ctx_view(ctx), t@),
    ensures
        res_ok(res, m_seq(t@, *f, *nodes, i as int, pos as int, ctx_view(ctx))),
        res.0 matches Some(e) ==> pos <= e <= t@.len(),
        ctx_wf(ctx_view(res.1), t@),
    decreases nodes_size_from(*nodes, i as int), 0int, t@.len() - pos, 2int,
{
    if i >= nodes.len() {
        return (Some(pos), ctx);
    }
    match &nodes[i] {
        AstNode::Literal(pc) => {
            if pos < t.len() && lit_matches_exec(f, *pc, t[pos]) {
                match_seq(t, f, nodes, i + 1, pos + 1, ctx)
            } else {
                (None, ctx)
            }
        },
        AstNode::CharClass(k) => {
            if pos < t.len() && class_member_exec(f, k, t[pos]) {
                match_seq(t, f, nodes, i + 1, pos + 1, ctx)
            } else {
                (None, ctx)
            }
        },
        AstNode::StartAnchor => {
            if start_anchor_exec(t, f, pos) {
                match_seq(t, f, nodes, i + 1, pos, ctx)
            } else {
                (None, ctx)
            }
        },
        AstNode::EndAnchor => {
            if end_anchor_exec(t, f, pos) {
                match_seq(t, f, nodes, i + 1, pos, ctx)
            } else {
                (None, ctx)
            }
        },
        AstNode::WordBoundary => {
            if word_boundary_exec(t, pos) {
                match_seq(t, f, nodes, i + 1, pos, ctx)
            } else {
                (None, ctx)
            }
        },
        AstNode::StartWord => {
            if word_boundary_exec(t, pos) && word_at_exec(t, pos) {
                match_seq(t, f, nodes, i + 1, pos, ctx)
            } else {
                (None, ctx)
            }
        },
        AstNode::EndWord => {
            if word_boundary_exec(t, pos) && !word_at_exec(t, pos) {
                match_seq(t, f, nodes, i + 1, pos, ctx)
            } else {
                (None, ctx)
            }
        },
        AstNode::SetMatchStart => {
            let mut c = ctx;
            c.match_start_override = Some(pos);
            match_seq(t, f, nodes, i + 1, pos, c)
        },
        AstNode::SetMatchEnd => {
            let mut c = ctx;
            c.match_end_override = Some(pos);
            match_seq(t, f, nodes, i + 1, pos, c)
        },
        AstNode::Alternation(alts) => match_alts(t, f, alts, 0, nodes, i + 1, pos, ctx),
        AstNode::Group { nodes: body, capture, index, .. } => {
            let (r, c1) = match_seq(t, f, body, 0, pos, ctx);
            match r {
                Some(np) => {
                    let c2 = store_capture_exec(c1, *capture, *index, pos, np);
                    match_seq(t, f, nodes, i + 1, np, c2)
                },
                None => (None, c1),
            }
        },
        AstNode::Backref(idx) => {
            let idx = *idx;
            if idx < ctx.captures.len() {
                match ctx.captures[idx] {
                    Some(sp) => {
                        let (a, b) = sp;
                        if a <= b && b <= t.len() && b - a <= t.len() - pos && subranges_equal(
                            t,
                            pos,
                            a,
                            b,
                        ) {
                            match_seq(t, f, nodes, i + 1, pos + (b - a), ctx)
                        } else {
                            (None, ctx)
                        }
                    },
                    None => (None, ctx),
                }
            } else {
                (None, ctx)
            }
        },
        AstNode::LookAhead { nodes: body, positive } => {
            let probe = ctx.snapshot();
            let (r, _probe_out) = match_seq(t, f, body, 0, pos, probe);
            let matched = match r {
                Some(_) => true,
                None => false,
            };
            if matched == *positive {
                match_seq(t, f, nodes, i + 1, pos, ctx)
            } else {
                (None, ctx)
            }
        },
        AstNode::LookBehind { nodes: body, positive } => {
            let matched = match_lookbehind(t, f, body, 0, pos, &ctx);
            if matched == *positive {
                match_seq(t, f, nodes, i + 1, pos, ctx)
            } else {
                (None, ctx)
            }
        },
        AstNode::ZeroOrMore { node, greedy } => {
            match_quant(t, f, &**node, 0, None, *greedy, nodes, i + 1, pos, ctx)
        },
        AstNode::OneOrMore { node, greedy } => {
            match_quant(t, f, &**node, 1, None, *greedy, nodes, i + 1, pos, ctx)
        },
        AstNode::Optional { node, greedy } => {
            match_quant(t, f, &**node, 0, Some(1), *greedy, nodes, i + 1, pos, ctx)
        },
        AstNode::Exact { node, count } => {
            match_quant(t, f, &**node, *count, Some(*count), true, nodes, i + 1, pos, ctx)
        },
        AstNode::Range { node, min, max, greedy } => {
            match_quant(t, f, &**node, *min, *max, *greedy, nodes, i + 1, pos, ctx)
        },
    }
}

/// Tries the branches of an alternation in order at `pos`: returns exactly
/// what [`m_alts`] defines.
fn match_alts(
    t: &Vec<char>,
    f: &Flags,
    alts: &Vec<Vec<AstNode>>,
    ai: usize,
    cont: &Vec<AstNode>,
    ci: usize,
    pos: usize,
    ctx: MatchContext,
) -> (res: (Option<usize>, MatchContext))
    requires
        ci <= cont@.len(),
        pos <= t@.len(),
        ctx_wf(ctx_view(ctx), t@),
    ensures
        res_ok(
            res,
            crate::semantics::m_alts(
                t@,
                *f,
                *alts,
                ai as int,
                *cont,
                ci as int,
                pos as int,
                ctx_view(ctx),
            ),
        ),
        res.0 matches Some(e) ==> pos <= e <= t@.len(),
        ctx_wf(ctx_view(res.1), t@),
    decreases alts_size_from(*alts, ai as int) + nodes_size_from(*cont, ci as int) + 1, 0int, t@.len()
        - pos, 0int,
{
    if ai >= alts.len() {
        return (None, ctx);
    }
    let fork = ctx.snapshot();
    let (r, c1) = match_seq(t, f, &alts[ai], 0, pos, fork);
    match r {
        Some(np) => {
            let (r2, c2) = match_seq(t, f, cont, ci, np, c1);
            let committed = match r2 {
                Some(_) => true,
                None => false,
            };
            if committed {
                (r2, c2)
            } else {
                match_alts(t, f, alts, ai + 1, cont, ci, pos, ctx)
            }
        },
        None => match_alts(t, f, alts, ai + 1, cont, ci, pos, ctx),
    }
}

/// Scans the start positions `start..=pos` for one where the lookbehind
/// body matches ending exactly at `pos`: returns what [`m_lookbehind`]
/// defines.
fn match_lookbehind(
    t: &Vec<char>,
    f: &Flags,
    body: &Vec<AstNode>,
    start: usize,
    pos: usize,
    ctx: &MatchContext,
) -> (r: bool)
    requires
        pos <= t@.len(),
        ctx_wf(ctx_view(*ctx), t@),
    ensures
        r == crate::semantics::m_lookbehind(
            t@,
            *f,
            *body,
            start as int,
            pos as int,
            ctx_view(*ctx),
        ),
    decreases nodes_size_from(*body, 0) + 1, 0int, pos + 1 - start, 0int,
{
    if start > pos {
        return false;
    }
    let probe = ctx.snapshot();
    let (r, _probe_out) = match_seq(t, f, body, 0, start, probe);
    let hit = match r {
        Some(e) => e == pos,
        None => false,
    };
    if hit {
        true
    } else if start < pos {
        match_lookbehind(t, f, body, start + 1, pos, ctx)
    } else {
        proof {
            assert(crate::semantics::m_lookbehind(
                t@,
                *f,
                *body,
                start as int + 1,
                pos as int,
                ctx_view(*ctx),
            ) == false);
        }
        false
    }
}

/// The mandatory phase of a quantifier: returns what [`m_quant`] defines.
fn match_quant(
    t: &Vec<char>,
    f: &Flags,
    inner: &AstNode,
    min: usize,
    max: Option<usize>,
    greedy: bool,
    cont: &Vec<AstNode>,
    ci: usize,
    pos: usize,
    ctx: MatchContext,
) -> (res: (Option<usize>, MatchContext))
    requires
        ci <= cont@.len(),
        pos <= t@.len(),
        ctx_wf(ctx_view(ctx), t@),
    ensures
        res_ok(
            res,
            crate::semantics::m_quant(
                t@,
                *f,
                *inner,
                min as int,
                opt_int(max),
                greedy,
                *cont,
                ci as int,
                pos as int,
                ctx_view(ctx),
            ),
        ),
        res.0 matches Some(e) ==> pos <= e <= t@.len(),
        ctx_wf(ctx_view(res.1), t@),
    decreases node_size(*inner) + nodes_size_from(*cont, ci as int) + 1, if min > 0 {
        min as int
    } else {
        0
    }, t@.len() - pos, 1int,
{
    if min > 0 {
        let (r, c1) = match_one(t, f, inner, pos, ctx);
        match r {
            Some(np) => match_quant(t, f, inner, min - 1, dec_max_exec(max), greedy, cont, ci, np, c1),
            None => (None, c1),
        }
    } else {
        match_quant_opt(t, f, inner, max, greedy, cont, ci, pos, ctx)
    }
}

/// The optional phase of a quantifier: returns what [`m_quant_opt`]
/// defines.
fn match_quant_opt(
    t: &Vec<char>,
    f: &Flags,
    inner: &AstNode,
    budget: Option<usize>,
    greedy: bool,
    cont: &Vec<AstNode>,
    ci: usize,
    pos: usize,
    ctx: MatchContext,
) -> (res: (Option<usize>, MatchContext))
    requires
        ci <= cont@.len(),
        pos <= t@.len(),
        ctx_wf(ctx_view(ctx), t@),
    ensures
        res_ok(
            res,
            crate::semantics::m_quant_opt(
                t@,
                *f,
                *inner,
                opt_int(budget),
                greedy,
                *cont,
                ci as int,
                pos as int,
                ctx_view(ctx),
            ),
        ),
        res.0 matches Some(e) ==> pos <= e <= t@.len(),
        ctx_wf(ctx_view(res.1), t@),
    decreases node_size(*inner) + nodes_size_from(*cont, ci as int) + 1, 0int, t@.len() - pos, 0int,
{
    let exhausted = match budget {
        Some(n) => n == 0,
        None => false,
    };
    if exhausted {
        return match_seq(t, f, cont, ci, pos, ctx);
    }
    if greedy {
        let fork = ctx.snapshot();
        let (r, c1) = match_one(t, f, inner, pos, fork);
        match r {
            Some(np) => {
                if np > pos {
                    let (r2, c2) = match_quant_opt(
                        t,
                        f,
                        inner,
                        dec_budget_exec(budget),
                        greedy,
                        cont,
                        ci,
                        np,
                        c1,
                    );
                    let committed = match r2 {
                        Some(_) => true,
                        None => false,
                    };
                    if committed {
                        (r2, c2)
                    } else {
                        match_seq(t, f, cont, ci, pos, ctx)
                    }
                } else {
                    match_seq(t, f, cont, ci, pos, ctx)
                }
            },
            None => match_seq(t, f, cont, ci, pos, ctx),
        }
    } else {
        let fork = ctx.snapshot();
        let (r, c1) = match_seq(t, f, cont, ci, pos, fork);
        let committed = match r {
            Some(_) => true,
            None => false,
        };
        if committed {
            (r, c1)
        } else {
            let (r2, c2) = match_one(t, f, inner, pos, ctx);
            match r2 {
                Some(np) => {
                    if np > pos {
                        match_quant_opt(t, f, inner, dec_budget_exec(budget), greedy, cont, ci, np, c2)
                    } else {
                        (None, c2)
                    }
                },
                None => (None, c2),
            }
        }
    }
}

/// Matches a single node at `pos` with nothing after it: returns what
/// [`m_one`] defines.
fn match_one(t: &Vec<char>, f: &Flags, node: &AstNode, pos: usize, ctx: MatchContext) -> (res: (
    Option<usize>,
    MatchContext,
))
    requires
        pos <= t@.len(),
        ctx_wf(ctx_view(ctx), t@),
    ensures
        res_ok(res, crate::semantics::m_one(t@, *f, *node, pos as int, ctx_view(ctx))),
        res.0 matches Some(e) ==> pos <= e <= t@.len(),
        ctx_wf(ctx_view(res.1), t@),
    decreases node_size(*node), 0int, t@.len() - pos, 2int,
{
    match node {
        AstNode::Literal(pc) => {
            if pos < t.len() && lit_matches_exec(f, *pc, t[pos]) {
                (Some(pos + 1), ctx)
            } else {
                (None, ctx)
            }
        },
        AstNode::CharClass(k) => {
            if pos < t.len() && class_member_exec(f, k, t[pos]) {
                (Some(pos + 1), ctx)
            } else {
                (None, ctx)
            }
        },
        AstNode::StartAnchor => {
            if start_anchor_exec(t, f, pos) {
                (Some(pos), ctx)
            } else {
                (None, ctx)
            }
        },
        AstNode::EndAnchor => {
            if end_anchor_exec(t, f, pos) {
                (Some(pos), ctx)
            } else {
                (None, ctx)
            }
        },
        AstNode::WordBoundary => {
            if word_boundary_exec(t, pos) {
                (Some(pos), ctx)
            } else {
                (None, ctx)
            }
        },
        AstNode::StartWord => {
            if word_boundary_exec(t, pos) && word_at_exec(t, pos) {
                (Some(pos), ctx)
            } else {
                (None, ctx)
            }
        },
        AstNode::EndWord => {
            if word_boundary_exec(t, pos) && !word_at_exec(t, pos) {
                (Some(pos), ctx)
            } else {
                (None, ctx)
            }
        },
        AstNode::SetMatchStart => {
            let mut c = ctx;
            c.match_start_override = Some(pos);
            (Some(pos), c)
        },
        AstNode::SetMatchEnd => {
            let mut c = ctx;
            c.match_end_override = Some(pos);
            (Some(pos), c)
        },
        AstNode::Alternation(alts) => match_one_alts(t, f, alts, 0, pos, ctx),
        AstNode::Group { nodes: body, capture, index, .. } => {
            let (r, c1) = match_seq(t, f, body, 0, pos, ctx);
            match r {
                Some(np) => {
                    let c2 = store_capture_exec(c1, *capture, *index, pos, np);
                    (Some(np), c2)
                },
                None => (None, c1),
            }
        },
        AstNode::Backref(idx) => {
            let idx = *idx;
            if idx < ctx.captures.len() {
                match ctx.captures[idx] {
                    Some(sp) => {
                        let (a, b) = sp;
                        if a <= b && b <= t.len() && b - a <= t.len() - pos && subranges_equal(
                            t,
                            pos,
                            a,
                            b,
                        ) {
                            (Some(pos + (b - a)), ctx)
                        } else {
                            (None, ctx)
                        }
                    },
                    None => (None, ctx),
                }
            } else {
                (None, ctx)
            }
        },
        AstNode::LookAhead { nodes: body, positive } => {
            let probe = ctx.snapshot();
            let (r, _probe_out) = match_seq(t, f, body, 0, pos, probe);
            let matched = match r {
                Some(_) => true,
                None => false,
            };
            if matched == *positive {
                (Some(pos), ctx)
            } else {
                (None, ctx)
            }
        },
        AstNode::LookBehind { nodes: body, positive } => {
            let matched = match_lookbehind(t, f, body, 0, pos, &ctx);
            if matched == *positive {
                (Some(pos), ctx)
            } else {
                (None, ctx)
            }
        },
        AstNode::ZeroOrMore { node, greedy } => {
            match_one_quant(t, f, &**node, 0, None, *greedy, pos, ctx)
        },
        AstNode::OneOrMore { node, greedy } => {
            match_one_quant(t, f, &**node, 1, None, *greedy, pos, ctx)
        },
        AstNode::Optional { node, greedy } => {
            match_one_quant(t, f, &**node, 0, Some(1), *greedy, pos, ctx)
        },
        AstNode::Exact { node, count } => {
            match_one_quant(t, f, &**node, *count, Some(*count), true, pos, ctx)
        },
        AstNode::Range { node, min, max, greedy } => {
            match_one_quant(t, f, &**node, *min, *max, *greedy, pos, ctx)
        },
    }
}

/// Tries the branches of a bare alternation in order: returns what
/// [`m_one_alts`] defines.
fn match_one_alts(
    t: &Vec<char>,
    f: &Flags,
    alts: &Vec<Vec<AstNode>>,
    ai: usize,
    pos: usize,
    ctx: MatchContext,
) -> (res: (Option<usize>, MatchContext))
    requires
        pos <= t@.len(),
        ctx_wf(ctx_view(ctx), t@),
    ensures
        res_ok(
            res,
            crate::semantics::m_one_alts(t@, *f, *alts, ai as int, pos as int, ctx_view(ctx)),
        ),
        res.0 matches Some(e) ==> pos <= e <= t@.len(),
        ctx_wf(ctx_view(res.1), t@),
    decreases alts_size_from(*alts, ai as int) + 1, 0int, t@.len() - pos, 0int,
{
    if ai >= alts.len() {
        return (None, ctx);
    }
    let fork = ctx.snapshot();
    let (r, c1) = match_seq(t, f, &alts[ai], 0, pos, fork);
    let committed = match r {
        Some(_) => true,
        None => false,
    };
    if committed {
        (r, c1)
    } else {
        match_one_alts(t, f, alts, ai + 1, pos, ctx)
    }
}

/// A bare quantifier's mandatory phase: returns what [`m_one_quant`]
/// defines.
fn match_one_quant(
    t: &Vec<char>,
    f: &Flags,
    inner: &AstNode,
    min: usize,
    max: Option<usize>,
    greedy: bool,
    pos: usize,
    ctx: MatchContext,
) -> (res: (Option<usize>, MatchContext))
    requires
        pos <= t@.len(),
        ctx_wf(ctx_view(ctx), t@),
    ensures
        res_ok(
            res,
            crate::semantics::m_one_quant(
                t@,
                *f,
                *inner,
                min as int,
                opt_int(max),
                greedy,
                pos as int,
                ctx_view(ctx),
            ),
        ),
        res.0 matches Some(e) ==> pos <= e <= t@.len(),
        ctx_wf(ctx_view(res.1), t@),
    decreases node_size(*inner) + 1, if min > 0 {
        min as int
    } else {
        0
    }, t@.len() - pos, 1int,
{
    if min > 0 {
        let (r, c1) = match_one(t, f, inner, pos, ctx);
        match r {
            Some(np) => match_one_quant(t, f, inner, min - 1, dec_max_exec(max), greedy, np, c1),
            None => (None, c1),
        }
    } else if greedy {
        match_one_iter(t, f, inner, max, pos, ctx)
    } else {
        (Some(pos), ctx)
    }
}

/// Greedy iteration of a bare quantifier: returns what [`m_one_iter`]
/// defines.
fn match_one_iter(
    t: &Vec<char>,
    f: &Flags,
    inner: &AstNode,
    budget: Option<usize>,
    pos: usize,
    ctx: MatchContext,
) -> (res: (Option<usize>, MatchContext))
    requires
        pos <= t@.len(),
        ctx_wf(ctx_view(ctx), t@),
    ensures
        res_ok(
            res,
            crate::semantics::m_one_iter(
                t@,
                *f,
                *inner,
                opt_int(budget),
                pos as int,
                ctx_view(ctx),
            ),
        ),
        res.0 matches Some(e) ==> pos <= e <= t@.len(),
        ctx_wf(ctx_view(res.1), t@),
    decreases node_size(*inner) + 1, 0int, t@.len() - pos, 0int,
{
    let exhausted = match budget {
        Some(n) => n == 0,
        None => false,
    };
    if exhausted {
        return (Some(pos), ctx);
    }
    let fork = ctx.snapshot();
    let (r, c1) = match_one(t, f, inner, pos, fork);
    match r {
        Some(np) => {
            if np > pos {
                match_one_iter(t, f, inner, dec_budget_exec(budget), np, c1)
            } else {
                (Some(pos), ctx)
            }
        },
        None => (Some(pos), ctx),
    }
}

/// The highest capture-group index mentioned by a node.
fn gc_node_exec(n: &AstNode) -> (r: usize)
    ensures
        r as int == crate::semantics::gc_node(*n),
    decreases node_size(*n), 0int,
{
    match n {
        AstNode::Group { nodes, index, .. } => {
            let a = match index {
                Some(ix) => *ix,
                None => 0,
            };
            let b = gc_from_exec(nodes, 0);
            if a > b {
                a
            } else {
                b
            }
        },
        AstNode::Alternation(alts) => gc_alts_exec(alts, 0),
        AstNode::ZeroOrMore { node, .. } => gc_node_exec(&**node),
        AstNode::OneOrMore { node, .. } => gc_node_exec(&**node),
        AstNode::Optional { node, .. } => gc_node_exec(&**node),
        AstNode::Exact { node, .. } => gc_node_exec(&**node),
        AstNode::Range { node, .. } => gc_node_exec(&**node),
        AstNode::LookAhead { nodes, .. } => gc_from_exec(nodes, 0),
        AstNode::LookBehind { nodes, .. } => gc_from_exec(nodes, 0),
        _ => 0,
    }
}

/// The highest capture-group index mentioned from index `i` of `v` on.
fn gc_from_exec(v: &Vec<AstNode>, i: usize) -> (r: usize)
    requires
        i <= v@.len(),
    ensures
        r as int == crate::semantics::gc_from(*v, i as int),
    decreases nodes_size_from(*v, i as int), 1int,
{
    if i < v.len() {
        let a = gc_node_exec(&v[i]);
        let b = gc_from_exec(v, i + 1);
        if a > b {
            a
        } else {
            b
        }
    } else {
        0
    }
}

/// The highest capture-group index mentioned by the branches from `ai` on.
fn gc_alts_exec(v: &Vec<Vec<AstNode>>, ai: usize) -> (r: usize)
    requires
        ai <= v@.len(),
    ensures
        r as int == crate::semantics::gc_alts(*v, ai as int),
    decreases alts_size_from(*v, ai as int), 1int,
{
    if ai < v.len() {
        let a = gc_from_exec(&v[ai], 0);
        let b = gc_alts_exec(v, ai + 1);
        if a > b {
            a
        } else {
            b
        }
    } else {
        0
    }
}

/// The number of capture groups a pattern mentions: the size of its capture
/// table, less the unused zero entry.
pub(crate) fn count_groups(nodes: &Vec<AstNode>) -> (r: usize)
    ensures
        r as int == crate::semantics::gc_from(*nodes, 0),
{
    gc_from_exec(nodes, 0)
}

/// Runs the engine's top loop: the match at the leftmost possible start
/// position, as character indices, together with the final context.
pub(crate) fn find_spans(t: &Vec<char>, f: &Flags, nodes: &Vec<AstNode>) -> (res: Option<
    ((usize, usize), MatchContext),
>)
    ensures
        match res {
            Some(v) => {
                &&& crate::semantics::m_find(t@, *f, *nodes) matches Some((ms, me, mc))
                    && ms == v.0.0 as int && me == v.0.1 as int && ctx_view(v.1) == mc
                &&& v.0.0 <= t@.len()
                &&& v.0.1 <= t@.len()
                &&& ctx_wf(ctx_view(v.1), t@)
            },
            None => crate::semantics::m_find(t@, *f, *nodes) is None,
        },
{
    let gc = count_groups(nodes);
    let cap_groups = if gc == usize::MAX {
        gc - 1
    } else {
        gc
    };
    proof {
        assert(cap_groups + 1 == crate::semantics::cap_table_len(gc as int));
    }
    let n = t.len();
    let mut start: usize = 0;
    loop
        invariant
            start <= n,
            n == t@.len(),
            cap_groups < usize::MAX,
            cap_groups + 1 == crate::semantics::cap_table_len(crate::semantics::gc_from(*nodes, 0)),
            crate::semantics::m_find(t@, *f, *nodes) == crate::semantics::m_find_from(
                t@,
                *f,
                *nodes,
                start as int,
            ),
        decreases n - start,
    {
        let ctx = MatchContext::new(cap_groups);
        proof {
            assert(ctx_view(ctx) =~= crate::semantics::empty_ctx(
                crate::semantics::gc_from(*nodes, 0),
            ));
        }
        let (r, c) = match_seq(t, f, nodes, 0, start, ctx);
        match r {
            Some(e) => {
                let rs = match c.match_start_override {
                    Some(p) => p,
                    None => start,
                };
                let re = match c.match_end_override {
                    Some(p) => p,
                    None => e,
                };
                return Some(((rs, re), c));
            },
            None => {
                if start == n {
                    proof {
                        assert(crate::semantics::m_find_from(t@, *f, *nodes, start as int + 1)
                            is None);
                    }
                    return None;
                }
                start += 1;
            },
        }
    }
}

/// The byte offset of character index `i` of `t`.
pub(crate) fn byte_offset(t: &Vec<char>, i: usize) -> (r: usize)
    requires
        i <= t@.len(),
        byte_index_of(t@, t@.len() as int) <= usize::MAX,
    ensures
        r == byte_index_of(t@, i as int),
{
    let mut k: usize = 0;
    let mut acc: usize = 0;
    while k < i
        invariant
            0 <= k <= i <= t@.len(),
            acc == byte_index_of(t@, k as int),
            byte_index_of(t@, t@.len() as int) <= usize::MAX,
        decreases i - k,
    {
        proof {
            lemma_byte_index_mono(t@, k as int + 1, t@.len() as int);
        }
        let c = t[k];
        let step = char_len_utf8(c);
        acc = acc + step;
        k += 1;
    }
    acc
}

/// The matching engine: a compiled pattern, its flags, and the text it runs
/// over.
pub struct Matcher {
    /// The compiled syntax tree.
    pub nodes: Vec<AstNode>,
    /// The flags the pattern was compiled with, case sensitivity resolved.
    pub flags: Flags,
    /// The text to search.
    pub text: String,
}

impl Matcher {
    /// Creates a new matching engine over the given tree, flags and text.
    pub fn new(nodes: Vec<AstNode>, flags: Flags, text: &str) -> (r: Matcher)
        ensures
            r.nodes == nodes,
            r.flags == flags,
            r.text@ == text@,
    {
        Matcher { nodes, flags, text: text.to_owned() }
    }

    /// Finds the first match in the text: the leftmost start position whose
    /// attempt succeeds, reported as byte offsets, with the `\zs` / `\ze`
    /// overrides applied.
    pub fn find(&self) -> (res: Option<Match>)
        ensures
            match res {
                Some(m) => crate::semantics::m_find(self.text@, self.flags, self.nodes)
                    matches Some(v) && m.start == byte_index_of(self.text@, v.0)
                    && m.end == byte_index_of(self.text@, v.1),
                None => crate::semantics::m_find(self.text@, self.flags, self.nodes) is None,
            },
    {
        let chars = str_to_chars(self.text.as_str());
        let ghost t = self.text@;
        proof {
            crate::chars::lemma_byte_len_full(t);
        }
        let total = crate::chars::str_byte_len(self.text.as_str());
        match find_spans(&chars, &self.flags, &self.nodes) {
            Some(v) => {
                let ((s, e), _c) = v;
                let bs = byte_offset(&chars, s);
                let be = byte_offset(&chars, e);
                Some(Match { start: bs, end: be })
            },
            None => None,
        }
    }
}

} // verus!
