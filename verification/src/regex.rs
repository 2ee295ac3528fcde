//! A compiled regular expression: the façade over parser and engine.

use vstd::prelude::*;
use crate::ast::AstNode;
use crate::ast::GNode;
use crate::ast::view_nodes_from;
use crate::captures::Captures;
use crate::captures::Match;
use crate::chars::byte_index_of;
use crate::chars::chars_to_string;
use crate::chars::lemma_byte_index_mono;
use crate::chars::lemma_byte_len_full;
use crate::chars::str_byte_len;
use crate::chars::str_to_chars;
use crate::engine::MatchContext;
use crate::engine::byte_offset;
use crate::engine::ctx_view;
use crate::engine::find_spans;
use crate::errors::CompileError;
use crate::errors::GCErr;
use crate::errors::cerr_view;
use crate::flags::Flags;
use crate::parser::GErr;
use crate::parser::ParseError;
use crate::parser::Parser;
use crate::parser::spec_parse;
use crate::parsing::resolve_smartcase;
use crate::semantics::MCtx;
use crate::semantics::ctx_wf;
use crate::semantics::m_find;

verus! {

use vstd::string::StrSliceExecFns;

broadcast use crate::ast::lemma_nodes_size_unfold, crate::ast::lemma_alts_size_unfold;

/// A compile error standing for each parse error: quantifier, group,
/// escape and duplicate-name errors keep their kind, the rest become
/// `InvalidPattern`.
pub open spec fn lower_err(g: GErr) -> GCErr {
    match g {
        GErr::UnexpectedChar(c, p) => GCErr::InvalidPattern(seq![c]),
        GErr::UnexpectedEof => GCErr::InvalidPattern("unexpected end of pattern"@),
        GErr::InvalidQuantifier(s) => GCErr::InvalidQuantifier(s),
        GErr::UnmatchedParen => GCErr::UnmatchedParen,
        GErr::InvalidGroupName(s) => GCErr::InvalidGroup(s),
        GErr::InvalidEscape(c) => GCErr::InvalidEscape(seq![c]),
        GErr::InvalidCharClass => GCErr::InvalidPattern("invalid character class"@),
        GErr::DuplicateGroupName(s) => GCErr::DuplicateGroupName(s),
        GErr::InvalidBackref(n) => GCErr::InvalidPattern("invalid backreference"@),
        GErr::InvalidLineNumber(s) => GCErr::InvalidPattern(s),
        GErr::InvalidGroup(s) => GCErr::InvalidGroup(s),
    }
}

/// Maps a parse error to the compile error that stands for it.
fn compile_error_of(e: ParseError) -> (r: CompileError)
    ensures
        cerr_view(r) == lower_err(crate::parser::err_view(e)),
{
    match e {
        ParseError::UnexpectedChar(c, _p) => {
            let mut v: Vec<char> = Vec::new();
            v.push(c);
            CompileError::InvalidPattern(chars_to_string(&v))
        },
        ParseError::UnexpectedEof => {
            CompileError::InvalidPattern("unexpected end of pattern".to_owned())
        },
        ParseError::InvalidQuantifier(s) => CompileError::InvalidQuantifier(s),
        ParseError::UnmatchedParen => CompileError::UnmatchedParen,
        ParseError::InvalidGroupName(s) => CompileError::InvalidGroup(s),
        ParseError::InvalidEscape(c) => {
            let mut v: Vec<char> = Vec::new();
            v.push(c);
            CompileError::InvalidEscape(chars_to_string(&v))
        },
        ParseError::InvalidCharClass => {
            CompileError::InvalidPattern("invalid character class".to_owned())
        },
        ParseError::DuplicateGroupName(s) => CompileError::DuplicateGroupName(s),
        ParseError::InvalidBackref(_n) => {
            CompileError::InvalidPattern("invalid backreference".to_owned())
        },
        ParseError::InvalidLineNumber(s) => CompileError::InvalidPattern(s),
        ParseError::InvalidGroup(s) => CompileError::InvalidGroup(s),
    }
}

/// The non-overlapping matches of a pattern over a text, each with its
/// context and the offset its attempt ran from: matching steps through the
/// text from `last` on, searching the remaining suffix, and advances past
/// each match by at least one character (so empty matches make progress).
pub open spec fn m_all(t: Seq<char>, f: Flags, ast: Vec<AstNode>, last: int) -> Seq<
    (int, int, MCtx, int),
>
    decreases t.len() + 1 - last,
    when 0 <= last
{
    if last > t.len() {
        Seq::empty()
    } else {
        match m_find(t.skip(last), f, ast) {
            Some(v) => {
                if 0 <= v.0 <= t.len() - last && 0 <= v.1 <= t.len() - last {
                    let s = last + v.0;
                    let e = last + v.1;
                    let step = if e >= s + 1 {
                        e
                    } else {
                        s + 1
                    };
                    seq![(s, e, v.2, last)] + m_all(t, f, ast, step)
                } else {
                    Seq::empty()
                }
            },
            None => Seq::empty(),
        }
    }
}

/// The splice of a replacement over every match: the text between matches
/// is kept, each match is replaced by the replacement, and the tail after
/// the last match is kept. `last` is where the next search starts,
/// `spliced` is how much of the text has been emitted.
pub open spec fn m_replace_all(
    t: Seq<char>,
    f: Flags,
    ast: Vec<AstNode>,
    last: int,
    spliced: int,
    repl: Seq<char>,
) -> Seq<char>
    decreases t.len() + 1 - last,
    when 0 <= spliced <= last
{
    if last > t.len() {
        t.skip(spliced)
    } else {
        match m_find(t.skip(last), f, ast) {
            Some(v) => {
                if 0 <= v.0 <= t.len() - last && 0 <= v.1 <= t.len() - last {
                    let s = last + v.0;
                    let e = last + v.1;
                    let step = if e >= s + 1 {
                        e
                    } else {
                        s + 1
                    };
                    t.subrange(spliced, s) + repl + m_replace_all(t, f, ast, step, e, repl)
                } else {
                    t.skip(spliced)
                }
            },
            None => t.skip(spliced),
        }
    }
}

/// A compiled regular expression: the pattern, its flags with case
/// sensitivity resolved, and the compiled syntax tree.
pub struct Regex {
    pattern: String,
    flags: Flags,
    ast: Vec<AstNode>,
}

impl Regex {
    /// The pattern this expression was compiled from.
    pub closed spec fn spec_pattern(&self) -> Seq<char> {
        self.pattern@
    }

    /// The flags matching runs under, case sensitivity resolved.
    pub closed spec fn spec_flags(&self) -> Flags {
        self.flags
    }

    /// The compiled syntax tree.
    pub closed spec fn spec_ast(&self) -> Vec<AstNode> {
        self.ast
    }

    /// The tree as contracts see it.
    pub open spec fn spec_tree(&self) -> Seq<GNode> {
        view_nodes_from(self.spec_ast(), 0)
    }

    /// The first match of this expression in a text, as character spans
    /// with the final capture context.
    pub open spec fn spec_find(&self, t: Seq<char>) -> Option<(int, int, MCtx)> {
        m_find(t, self.spec_flags(), self.spec_ast())
    }

    /// All non-overlapping matches of this expression in a text.
    pub open spec fn spec_find_all(&self, t: Seq<char>) -> Seq<(int, int, MCtx, int)> {
        m_all(t, self.spec_flags(), self.spec_ast(), 0)
    }

    /// Compiles a pattern with the given flags. The tree is exactly what
    /// the pattern grammar yields; parse errors come back as compile
    /// errors, kind for kind. Case sensitivity left unset resolves by
    /// smartcase over the pattern.
    pub fn new(pattern: &str, flags: Flags) -> (r: Result<Regex, CompileError>)
        ensures
            match spec_parse(pattern@, flags) {
                Ok(v) => r matches Ok(re) && re.spec_tree() == v.0 && re.spec_pattern()
                    == pattern@ && re.spec_flags() == resolve_smartcase(flags, pattern@),
                Err(ge) => r matches Err(e) && cerr_view(e) == lower_err(ge),
            },
    {
        let mut parser = Parser::new(pattern, flags);
        let ast = match parser.parse() {
            Ok(v) => v,
            Err(e) => {
                return Err(compile_error_of(e));
            },
        };
        let resolved = match flags.ignore_case {
            Some(_b) => flags,
            None => {
                let chars = str_to_chars(pattern);
                let up = crate::parsing::str_has_upper(&chars, chars.len());
                proof {
                    assert(chars@.take(chars@.len() as int) =~= pattern@);
                }
                Flags { ignore_case: Some(!up), ..flags }
            },
        };
        Ok(Regex { pattern: pattern.to_owned(), flags: resolved, ast })
    }

    /// The original pattern string.
    pub fn pattern(&self) -> (r: &str)
        ensures
            r@ == self.spec_pattern(),
    {
        self.pattern.as_str()
    }

    /// The flags this expression runs under, case sensitivity resolved.
    pub fn flags(&self) -> (r: &Flags)
        ensures
            *r == self.spec_flags(),
    {
        &self.flags
    }

    /// Finds the first occurrence of the expression in the text: the
    /// leftmost match, reported as byte offsets, with the `\zs` / `\ze`
    /// overrides applied.
    pub fn find(&self, text: &str) -> (r: Option<Match>)
        ensures
            match r {
                Some(m) => self.spec_find(text@) matches Some(v) && 0 <= v.0 <= text@.len() && 0
                    <= v.1 <= text@.len() && m.start == byte_index_of(text@, v.0) && m.end
                    == byte_index_of(text@, v.1),
                None => self.spec_find(text@) is None,
            },
    {
        let chars = str_to_chars(text);
        let total = str_byte_len(text);
        proof {
            lemma_byte_len_full(text@);
        }
        match find_spans(&chars, &self.flags, &self.ast) {
            Some(v) => {
                let ((s, e), _c) = v;
                let bs = byte_offset(&chars, s);
                let be = byte_offset(&chars, e);
                Some(Match { start: bs, end: be })
            },
            None => None,
        }
    }

    /// True when the expression matches anywhere in the text: exactly when
    /// [`Regex::find`] returns a match.
    pub fn is_match(&self, text: &str) -> (r: bool)
        ensures
            r == (self.spec_find(text@) is Some),
    {
        match self.find(text) {
            Some(_) => true,
            None => false,
        }
    }

    /// All non-overlapping matches in the text, leftmost first, as byte
    /// offsets. Spans come in strictly increasing start order, no span
    /// starts before an earlier one ends, and there are at most as many
    /// matches as character positions.
    pub fn find_all(&self, text: &str) -> (r: Vec<Match>)
        ensures
            ({
                let ms = self.spec_find_all(text@);
                &&& r@.len() == ms.len()
                &&& forall|i: int|
                    0 <= i < ms.len() ==> (#[trigger] r@[i]).start == byte_index_of(
                        text@,
                        ms[i].0,
                    ) && r@[i].end == byte_index_of(text@, ms[i].1)
            }),
            forall|i: int, j: int|
                0 <= i < j < r@.len() ==> (#[trigger] r@[i]).start < (#[trigger] r@[j]).start
                    && r@[i].end <= r@[j].start,
            r@.len() <= text@.len() + 1,
    {
        let ghost t = text@;
        let chars = str_to_chars(text);
        let total = str_byte_len(text);
        proof {
            lemma_byte_len_full(t);
        }
        let n = chars.len();
        let mut out: Vec<Match> = Vec::new();
        let ghost mut done: Seq<(int, int, MCtx, int)> = Seq::empty();
        let mut last: usize = 0;
        loop
            invariant_except_break
                0 <= last <= n + 1,
                n == t.len(),
                chars@ == t,
                t == text@,
                byte_index_of(t, t.len() as int) <= usize::MAX,
                self.spec_find_all(t) == done + m_all(t, self.spec_flags(), self.spec_ast(), last as int),
                out@.len() == done.len(),
                out@.len() <= last,
                forall|i: int|
                    0 <= i < done.len() ==> 0 <= (#[trigger] done[i]).0 < last && 0 <= done[i].1
                        <= last && done[i].1 <= t.len() && done[i].0 <= t.len(),
                forall|i: int|
                    0 <= i < done.len() ==> (#[trigger] out@[i]).start == byte_index_of(
                        t,
                        done[i].0,
                    ) && out@[i].end == byte_index_of(t, done[i].1),
                forall|i: int, j: int|
                    0 <= i < j < out@.len() ==> (#[trigger] out@[i]).start < (#[trigger] out@[j]).start
                        && out@[i].end <= out@[j].start,
            ensures
                self.spec_find_all(t) == done,
                out@.len() == done.len(),
                out@.len() <= t.len() + 1,
                forall|i: int|
                    0 <= i < done.len() ==> (#[trigger] out@[i]).start == byte_index_of(
                        t,
                        done[i].0,
                    ) && out@[i].end == byte_index_of(t, done[i].1),
                forall|i: int, j: int|
                    0 <= i < j < out@.len() ==> (#[trigger] out@[i]).start < (#[trigger] out@[j]).start
                        && out@[i].end <= out@[j].start,
            decreases n + 1 - last,
        {
            if last > n {
                break ;
            }
            let suffix = suffix_chars(&chars, last);
            match find_spans(&suffix, &self.flags, &self.ast) {
                Some(v) => {
                    let ((s, e), _c) = v;
                    let abs_s = last + s;
                    let abs_e = last + e;
                    proof {
                        assert forall|i: int| 0 <= i < done.len() implies byte_index_of(
                            t,
                            (#[trigger] done[i]).0,
                        ) < byte_index_of(t, abs_s as int) && byte_index_of(t, done[i].1)
                            <= byte_index_of(t, abs_s as int) by {
                            lemma_byte_index_mono(t, done[i].0, abs_s as int);
                            lemma_byte_index_mono(t, done[i].1, abs_s as int);
                        }
                    }
                    let bs = byte_offset(&chars, abs_s);
                    let be = byte_offset(&chars, abs_e);
                    out.push(Match { start: bs, end: be });
                    let ghost step_model: int = if abs_e as int >= abs_s as int + 1 {
                        abs_e as int
                    } else {
                        abs_s as int + 1
                    };
                    proof {
                        done = done + seq![(abs_s as int, abs_e as int, ctx_view(v.1), last as int)];
                        assert(self.spec_find_all(t) == done + m_all(
                            t,
                            self.spec_flags(),
                            self.spec_ast(),
                            step_model,
                        ));
                    }
                    if abs_e > abs_s {
                        last = abs_e;
                    } else if abs_s < n {
                        last = abs_s + 1;
                    } else {
                        proof {
                            assert(m_all(t, self.spec_flags(), self.spec_ast(), step_model)
                                =~= Seq::<(int, int, MCtx, int)>::empty());
                            assert(self.spec_find_all(t) =~= done);
                        }
                        break ;
                    }
                },
                None => {
                    proof {
                        assert(m_all(t, self.spec_flags(), self.spec_ast(), last as int)
                            =~= Seq::<(int, int, MCtx, int)>::empty());
                        assert(self.spec_find_all(t) =~= done);
                    }
                    break ;
                },
            }
        }
        out
    }
}

impl Regex {
    /// Replaces the first match in the text with the replacement string,
    /// spliced in literally; without a match the text comes back unchanged.
    pub fn replace(&self, text: &str, replacement: &str) -> (r: String)
        ensures
            match self.spec_find(text@) {
                Some(v) => r@ == text@.take(v.0) + replacement@ + text@.skip(v.1),
                None => r@ == text@,
            },
    {
        let chars = str_to_chars(text);
        match find_spans(&chars, &self.flags, &self.ast) {
            Some(v) => {
                let ((s, e), _c) = v;
                let n = text.unicode_len();
                let prefix = text.substring_char(0, s);
                let suffix = text.substring_char(e, n);
                let mut out = prefix.to_owned();
                out.append(replacement);
                out.append(suffix);
                proof {
                    assert(out@ =~= text@.take(s as int) + replacement@ + text@.skip(e as int));
                }
                out
            },
            None => text.to_owned(),
        }
    }

    /// Replaces every non-overlapping match in the text with the
    /// replacement string: exactly the splice that [`m_replace_all`]
    /// defines.
    pub fn replace_all(&self, text: &str, replacement: &str) -> (r: String)
        ensures
            r@ == m_replace_all(text@, self.spec_flags(), self.spec_ast(), 0, 0, replacement@),
    {
        let ghost t = text@;
        let chars = str_to_chars(text);
        let n = chars.len();
        let nn = text.unicode_len();
        let mut out = String::new();
        let mut last: usize = 0;
        let mut spliced: usize = 0;
        loop
            invariant_except_break
                0 <= spliced <= last,
                last <= n + 1,
                spliced <= n,
                n == t.len(),
                nn == n,
                chars@ == t,
                t == text@,
                m_replace_all(t, self.spec_flags(), self.spec_ast(), 0, 0, replacement@) == out@
                    + m_replace_all(
                    t,
                    self.spec_flags(),
                    self.spec_ast(),
                    last as int,
                    spliced as int,
                    replacement@,
                ),
            ensures
                out@ == m_replace_all(t, self.spec_flags(), self.spec_ast(), 0, 0, replacement@),
            decreases n + 1 - last,
        {
            if last > n {
                let tail = text.substring_char(spliced, nn);
                out.append(tail);
                proof {
                    assert(out@ =~= m_replace_all(
                        t,
                        self.spec_flags(),
                        self.spec_ast(),
                        0,
                        0,
                        replacement@,
                    ));
                }
                break ;
            }
            let suffix = suffix_chars(&chars, last);
            match find_spans(&suffix, &self.flags, &self.ast) {
                Some(v) => {
                    let ((s, e), _c) = v;
                    let abs_s = last + s;
                    let abs_e = last + e;
                    let piece = text.substring_char(spliced, abs_s);
                    out.append(piece);
                    out.append(replacement);
                    spliced = abs_e;
                    if abs_e > abs_s {
                        last = abs_e;
                    } else if abs_s < n {
                        last = abs_s + 1;
                    } else {
                        proof {
                            assert(m_replace_all(
                                t,
                                self.spec_flags(),
                                self.spec_ast(),
                                abs_s as int + 1,
                                spliced as int,
                                replacement@,
                            ) == t.skip(spliced as int));
                        }
                        let tail = text.substring_char(spliced, nn);
                        out.append(tail);
                        proof {
                            assert(out@ =~= m_replace_all(
                                t,
                                self.spec_flags(),
                                self.spec_ast(),
                                0,
                                0,
                                replacement@,
                            ));
                        }
                        break ;
                    }
                },
                None => {
                    let tail = text.substring_char(spliced, nn);
                    out.append(tail);
                    proof {
                        assert(out@ =~= m_replace_all(
                            t,
                            self.spec_flags(),
                            self.spec_ast(),
                            0,
                            0,
                            replacement@,
                        ));
                    }
                    break ;
                },
            }
        }
        out
    }
}

/// The named groups a node mentions, with their capture indices, in
/// pattern order.
pub open spec fn gnames_node(n: AstNode) -> Seq<(Seq<char>, int)>
    decreases n, 0int,
{
    match n {
        AstNode::Group { nodes, name, index, .. } => {
            let own: Seq<(Seq<char>, int)> = match (name, index) {
                (Some(nm), Some(ix)) => seq![(nm@, ix as int)],
                _ => Seq::empty(),
            };
            own + gnames_from(nodes, 0)
        },
        AstNode::Alternation(alts) => gnames_alts(alts, 0),
        AstNode::ZeroOrMore { node, .. } => gnames_node(*node),
        AstNode::OneOrMore { node, .. } => gnames_node(*node),
        AstNode::Optional { node, .. } => gnames_node(*node),
        AstNode::Exact { node, .. } => gnames_node(*node),
        AstNode::Range { node, .. } => gnames_node(*node),
        AstNode::LookAhead { nodes, .. } => gnames_from(nodes, 0),
        AstNode::LookBehind { nodes, .. } => gnames_from(nodes, 0),
        _ => Seq::empty(),
    }
}

/// The named groups mentioned from index `i` of `v` on.
pub open spec fn gnames_from(v: Vec<AstNode>, i: int) -> Seq<(Seq<char>, int)>
    decreases v, v.len() - i,
{
    if 0 <= i < v.len() {
        gnames_node(v[i]) + gnames_from(v, i + 1)
    } else {
        Seq::empty()
    }
}

/// The named groups mentioned by the branches of `v` from index `ai` on.
pub open spec fn gnames_alts(v: Vec<Vec<AstNode>>, ai: int) -> Seq<(Seq<char>, int)>
    decreases v, v.len() - ai,
{
    if 0 <= ai < v.len() {
        gnames_from(v[ai], 0) + gnames_alts(v, ai + 1)
    } else {
        Seq::empty()
    }
}

/// A list of named groups as contracts see it.
pub open spec fn pairs_view(v: Vec<(String, usize)>) -> Seq<(Seq<char>, int)> {
    Seq::new(v@.len(), |i: int| (v@[i].0@, v@[i].1 as int))
}

/// The named groups that participated in a match: each named group whose
/// capture slot is set, with its span, in pattern order.
pub open spec fn named_spans(
    ps: Seq<(Seq<char>, int)>,
    caps: Seq<Option<(usize, usize)>>,
    i: int,
) -> Seq<(Seq<char>, (usize, usize))>
    decreases ps.len() - i,
    when 0 <= i
{
    if i >= ps.len() {
        Seq::empty()
    } else {
        let rest = named_spans(ps, caps, i + 1);
        if 0 <= ps[i].1 < caps.len() {
            match caps[ps[i].1] {
                Some(sp) => seq![(ps[i].0, sp)] + rest,
                None => rest,
            }
        } else {
            rest
        }
    }
}

/// How a `Captures` value reports one match: the full span and every
/// capture span as byte offsets (group and named spans shifted by the
/// offset the attempt ran from), the group list as long as the capture
/// table, the named list exactly the named groups that participated.
pub open spec fn captures_ok(
    c: Captures,
    t: Seq<char>,
    ast: Vec<AstNode>,
    mc: MCtx,
    ofs: int,
    s: int,
    e: int,
) -> bool {
    &&& c.full_match.start == byte_index_of(t, s)
    &&& c.full_match.end == byte_index_of(t, e)
    &&& c.groups@.len() == if mc.caps.len() >= 1 {
        mc.caps.len() - 1
    } else {
        0
    }
    &&& forall|k: int|
        0 <= k < c.groups@.len() ==> match mc.caps[k + 1] {
            Some(sp) => (#[trigger] c.groups@[k]) matches Some(m) && m.start == byte_index_of(
                t,
                ofs + sp.0,
            ) && m.end == byte_index_of(t, ofs + sp.1),
            None => c.groups@[k] is None,
        }
    &&& ({
        let ns = named_spans(gnames_from(ast, 0), mc.caps, 0);
        &&& c.named@.len() == ns.len()
        &&& forall|i: int|
            0 <= i < ns.len() ==> (#[trigger] c.named@[i]).0@ == ns[i].0 && c.named@[i].1.start
                == byte_index_of(t, ofs + ns[i].1.0) && c.named@[i].1.end == byte_index_of(
                t,
                ofs + ns[i].1.1,
            )
    })
}

/// The named groups a node mentions, in pattern order.
fn named_of_node(n: &AstNode) -> (r: Vec<(String, usize)>)
    ensures
        pairs_view(r) == gnames_node(*n),
    decreases crate::ast::node_size(*n), 0int,
{
    match n {
        AstNode::Group { nodes, name, index, .. } => {
            let mut own: Vec<(String, usize)> = Vec::new();
            match (name, index) {
                (Some(nm), Some(ix)) => {
                    own.push((nm.clone(), *ix));
                },
                _ => {},
            }
            let mut rest = named_of_list(nodes, 0);
            let ghost own0 = own;
            let ghost rest0 = rest;
            own.append(&mut rest);
            proof {
                assert(pairs_view(own) =~= pairs_view(own0) + pairs_view(rest0));
                assert(pairs_view(own) =~= gnames_node(*n));
            }
            own
        },
        AstNode::Alternation(alts) => named_of_alts(alts, 0),
        AstNode::ZeroOrMore { node, .. } => named_of_node(&**node),
        AstNode::OneOrMore { node, .. } => named_of_node(&**node),
        AstNode::Optional { node, .. } => named_of_node(&**node),
        AstNode::Exact { node, .. } => named_of_node(&**node),
        AstNode::Range { node, .. } => named_of_node(&**node),
        AstNode::LookAhead { nodes, .. } => named_of_list(nodes, 0),
        AstNode::LookBehind { nodes, .. } => named_of_list(nodes, 0),
        _ => {
            let r: Vec<(String, usize)> = Vec::new();
            proof {
                assert(pairs_view(r) =~= gnames_node(*n));
            }
            r
        },
    }
}

/// The named groups mentioned from index `i` of `v` on.
fn named_of_list(v: &Vec<AstNode>, i: usize) -> (r: Vec<(String, usize)>)
    requires
        i <= v@.len(),
    ensures
        pairs_view(r) == gnames_from(*v, i as int),
    decreases crate::ast::nodes_size_from(*v, i as int), 1int,
{
    if i < v.len() {
        let mut own = named_of_node(&v[i]);
        let mut rest = named_of_list(v, i + 1);
        let ghost own0 = own;
        let ghost rest0 = rest;
        own.append(&mut rest);
        proof {
            assert(pairs_view(own) =~= pairs_view(own0) + pairs_view(rest0));
        }
        own
    } else {
        let r: Vec<(String, usize)> = Vec::new();
        proof {
            assert(pairs_view(r) =~= gnames_from(*v, i as int));
        }
        r
    }
}

/// The named groups mentioned by the branches from `ai` on.
fn named_of_alts(v: &Vec<Vec<AstNode>>, ai: usize) -> (r: Vec<(String, usize)>)
    requires
        ai <= v@.len(),
    ensures
        pairs_view(r) == gnames_alts(*v, ai as int),
    decreases crate::ast::alts_size_from(*v, ai as int), 1int,
{
    if ai < v.len() {
        let mut own = named_of_list(&v[ai], 0);
        let mut rest = named_of_alts(v, ai + 1);
        let ghost own0 = own;
        let ghost rest0 = rest;
        own.append(&mut rest);
        proof {
            assert(pairs_view(own) =~= pairs_view(own0) + pairs_view(rest0));
        }
        own
    } else {
        let r: Vec<(String, usize)> = Vec::new();
        proof {
            assert(pairs_view(r) =~= gnames_alts(*v, ai as int));
        }
        r
    }
}

/// Builds the `Captures` record for one match: the full span, the group
/// spans and the named-group spans, all as byte offsets into the text.
fn build_captures(
    chars: &Vec<char>,
    ast: &Vec<AstNode>,
    ctx: &MatchContext,
    ofs: usize,
    s_abs: usize,
    e_abs: usize,
) -> (c: Captures)
    requires
        ofs <= chars@.len(),
        s_abs <= chars@.len(),
        e_abs <= chars@.len(),
        byte_index_of(chars@, chars@.len() as int) <= usize::MAX,
        ctx_wf(ctx_view(*ctx), chars@.skip(ofs as int)),
    ensures
        captures_ok(c, chars@, *ast, ctx_view(*ctx), ofs as int, s_abs as int, e_abs as int),
{
    let ghost t = chars@;
    proof {
        lemma_byte_index_mono(t, 0, t.len() as int);
    }
    let bs = byte_offset(chars, s_abs);
    let be = byte_offset(chars, e_abs);
    let full_match = Match { start: bs, end: be };
    let cap_len = ctx.captures.len();
    let mut groups: Vec<Option<Match>> = Vec::new();
    let mut k: usize = 1;
    while k < cap_len
        invariant
            1 <= k,
            k <= cap_len || k == 1,
            cap_len == ctx_view(*ctx).caps.len(),
            ofs <= t.len(),
            t == chars@,
            byte_index_of(t, t.len() as int) <= usize::MAX,
            ctx_wf(ctx_view(*ctx), t.skip(ofs as int)),
            groups@.len() == k - 1,
            forall|j: int|
                0 <= j < groups@.len() ==> match ctx_view(*ctx).caps[j + 1] {
                    Some(sp) => (#[trigger] groups@[j]) matches Some(m) && m.start
                        == byte_index_of(t, ofs + sp.0) && m.end == byte_index_of(t, ofs + sp.1),
                    None => groups@[j] is None,
                },
        decreases cap_len - k,
    {
        match ctx.captures[k] {
            Some(sp) => {
                let (a, b) = sp;
                proof {
                    assert(ctx_view(*ctx).caps[k as int] == Some((a, b)));
                    assert(a <= b <= t.skip(ofs as int).len());
                    lemma_byte_index_mono(t, 0, t.len() as int);
                }
                let ga = byte_offset(chars, ofs + a);
                let gb = byte_offset(chars, ofs + b);
                groups.push(Some(Match { start: ga, end: gb }));
            },
            None => {
                groups.push(None);
            },
        }
        k += 1;
    }
    let pairs = named_of_list(ast, 0);
    let ghost ps = pairs_view(pairs);
    let mut named: Vec<(String, Match)> = Vec::new();
    let ghost mut done_ns: Seq<(Seq<char>, (usize, usize))> = Seq::empty();
    let mut i: usize = 0;
    while i < pairs.len()
        invariant
            0 <= i <= pairs@.len(),
            ps == pairs_view(pairs),
            ps == gnames_from(*ast, 0),
            ofs <= t.len(),
            t == chars@,
            byte_index_of(t, t.len() as int) <= usize::MAX,
            ctx_wf(ctx_view(*ctx), t.skip(ofs as int)),
            named_spans(ps, ctx_view(*ctx).caps, 0) == done_ns + named_spans(
                ps,
                ctx_view(*ctx).caps,
                i as int,
            ),
            named@.len() == done_ns.len(),
            forall|j: int|
                0 <= j < named@.len() ==> (#[trigger] named@[j]).0@ == done_ns[j].0
                    && named@[j].1.start == byte_index_of(t, ofs + done_ns[j].1.0)
                    && named@[j].1.end == byte_index_of(t, ofs + done_ns[j].1.1),
        decreases pairs@.len() - i,
    {
        let (name, idx) = &pairs[i];
        let idx = *idx;
        proof {
            assert(ps[i as int] == (pairs@[i as int].0@, pairs@[i as int].1 as int));
        }
        if idx < ctx.captures.len() {
            match ctx.captures[idx] {
                Some(sp) => {
                    let (a, b) = sp;
                    proof {
                        assert(ctx_view(*ctx).caps[idx as int] == Some((a, b)));
                        assert(a <= b <= t.skip(ofs as int).len());
                        lemma_byte_index_mono(t, 0, t.len() as int);
                    }
                    let ga = byte_offset(chars, ofs + a);
                    let gb = byte_offset(chars, ofs + b);
                    named.push((name.clone(), Match { start: ga, end: gb }));
                    proof {
                        done_ns = done_ns + seq![(pairs@[i as int].0@, (a, b))];
                    }
                },
                None => {},
            }
        }
        i += 1;
    }
    proof {
        assert(named_spans(ps, ctx_view(*ctx).caps, i as int) =~= Seq::<
            (Seq<char>, (usize, usize)),
        >::empty());
        assert(named_spans(ps, ctx_view(*ctx).caps, 0) =~= done_ns);
    }
    Captures { full_match, groups, named }
}

impl Regex {
    /// Finds the first match and returns its capture groups: the full
    /// match, every group's span, and the named groups, all as byte
    /// offsets.
    pub fn captures(&self, text: &str) -> (r: Option<Captures>)
        ensures
            match r {
                Some(c) => self.spec_find(text@) matches Some(v) && 0 <= v.0 <= text@.len() && 0
                    <= v.1 <= text@.len() && captures_ok(
                    c,
                    text@,
                    self.spec_ast(),
                    v.2,
                    0,
                    v.0,
                    v.1,
                ),
                None => self.spec_find(text@) is None,
            },
    {
        let chars = str_to_chars(text);
        let total = str_byte_len(text);
        proof {
            lemma_byte_len_full(text@);
        }
        match find_spans(&chars, &self.flags, &self.ast) {
            Some(v) => {
                let ((s, e), c) = v;
                proof {
                    assert(chars@.skip(0) =~= chars@);
                }
                Some(build_captures(&chars, &self.ast, &c, 0, s, e))
            },
            None => None,
        }
    }

    /// All non-overlapping matches with their capture groups, leftmost
    /// first, stepping exactly as [`Regex::find_all`] does.
    pub fn captures_all(&self, text: &str) -> (r: Vec<Captures>)
        ensures
            ({
                let ms = self.spec_find_all(text@);
                &&& r@.len() == ms.len()
                &&& forall|i: int|
                    0 <= i < ms.len() ==> captures_ok(
                        #[trigger] r@[i],
                        text@,
                        self.spec_ast(),
                        ms[i].2,
                        ms[i].3,
                        ms[i].0,
                        ms[i].1,
                    )
            }),
    {
        let ghost t = text@;
        let chars = str_to_chars(text);
        let total = str_byte_len(text);
        proof {
            lemma_byte_len_full(t);
        }
        let n = chars.len();
        let mut out: Vec<Captures> = Vec::new();
        let ghost mut done: Seq<(int, int, MCtx, int)> = Seq::empty();
        let mut last: usize = 0;
        loop
            invariant_except_break
                0 <= last <= n + 1,
                n == t.len(),
                chars@ == t,
                t == text@,
                byte_index_of(t, t.len() as int) <= usize::MAX,
                self.spec_find_all(t) == done + m_all(
                    t,
                    self.spec_flags(),
                    self.spec_ast(),
                    last as int,
                ),
                out@.len() == done.len(),
                forall|i: int|
                    0 <= i < done.len() ==> captures_ok(
                        #[trigger] out@[i],
                        t,
                        self.spec_ast(),
                        done[i].2,
                        done[i].3,
                        done[i].0,
                        done[i].1,
                    ),
            ensures
                self.spec_find_all(t) == done,
                out@.len() == done.len(),
                forall|i: int|
                    0 <= i < done.len() ==> captures_ok(
                        #[trigger] out@[i],
                        t,
                        self.spec_ast(),
                        done[i].2,
                        done[i].3,
                        done[i].0,
                        done[i].1,
                    ),
            decreases n + 1 - last,
        {
            if last > n {
                break ;
            }
            let suffix = suffix_chars(&chars, last);
            match find_spans(&suffix, &self.flags, &self.ast) {
                Some(v) => {
                    let ((s, e), c) = v;
                    let abs_s = last + s;
                    let abs_e = last + e;
                    let caps = build_captures(&chars, &self.ast, &c, last, abs_s, abs_e);
                    out.push(caps);
                    let ghost step_model: int = if abs_e as int >= abs_s as int + 1 {
                        abs_e as int
                    } else {
                        abs_s as int + 1
                    };
                    proof {
                        done = done + seq![(abs_s as int, abs_e as int, ctx_view(v.1), last as int)];
                        assert(self.spec_find_all(t) == done + m_all(
                            t,
                            self.spec_flags(),
                            self.spec_ast(),
                            step_model,
                        ));
                    }
                    if abs_e > abs_s {
                        last = abs_e;
                    } else if abs_s < n {
                        last = abs_s + 1;
                    } else {
                        proof {
                            assert(m_all(t, self.spec_flags(), self.spec_ast(), step_model)
                                =~= Seq::<(int, int, MCtx, int)>::empty());
                            assert(self.spec_find_all(t) =~= done);
                        }
                        break ;
                    }
                },
                None => {
                    proof {
                        assert(m_all(t, self.spec_flags(), self.spec_ast(), last as int) =~= Seq::<
                            (int, int, MCtx, int),
                        >::empty());
                        assert(self.spec_find_all(t) =~= done);
                    }
                    break ;
                },
            }
        }
        out
    }
}

/// Replacing every match with the very text it covered leaves the text
/// unchanged: when each span of the remaining match list is forward and
/// covers exactly the replacement, the splice from `spliced` on
/// reproduces the text from `spliced` on.
pub proof fn lemma_replace_identity_from(
    t: Seq<char>,
    f: Flags,
    ast: Vec<AstNode>,
    repl: Seq<char>,
    last: int,
    spliced: int,
)
    requires
        0 <= spliced <= last,
        forall|i: int|
            0 <= i < m_all(t, f, ast, last).len() ==> (#[trigger] m_all(t, f, ast, last)[i]).0
                <= m_all(t, f, ast, last)[i].1 && t.subrange(
                m_all(t, f, ast, last)[i].0,
                m_all(t, f, ast, last)[i].1,
            ) == repl,
    ensures
        m_replace_all(t, f, ast, last, spliced, repl) == t.skip(spliced),
    decreases t.len() + 1 - last,
{
    if last > t.len() {
    } else {
        match m_find(t.skip(last), f, ast) {
            Some(v) => {
                if 0 <= v.0 <= t.len() - last && 0 <= v.1 <= t.len() - last {
                    let s = last + v.0;
                    let e = last + v.1;
                    let step = if e >= s + 1 {
                        e
                    } else {
                        s + 1
                    };
                    let ms = m_all(t, f, ast, last);
                    assert(ms == seq![(s, e, v.2, last)] + m_all(t, f, ast, step));
                    assert(ms[0] == (s, e, v.2, last));
                    assert(s <= e && t.subrange(s, e) == repl);
                    assert forall|i: int|
                        0 <= i < m_all(t, f, ast, step).len() implies (#[trigger] m_all(
                        t,
                        f,
                        ast,
                        step,
                    )[i]).0 <= m_all(t, f, ast, step)[i].1 && t.subrange(
                        m_all(t, f, ast, step)[i].0,
                        m_all(t, f, ast, step)[i].1,
                    ) == repl by {
                        assert(ms[i + 1] == m_all(t, f, ast, step)[i]);
                    }
                    lemma_replace_identity_from(t, f, ast, repl, step, e);
                    assert(t.skip(spliced) =~= t.subrange(spliced, s) + t.subrange(s, e) + t.skip(
                        e,
                    ));
                    assert(m_replace_all(t, f, ast, last, spliced, repl) =~= t.skip(spliced));
                } else {
                }
            },
            None => {},
        }
    }
}

/// Replacing every match with its own matched substring leaves the text
/// unchanged.
pub proof fn lemma_replace_all_identity(t: Seq<char>, f: Flags, ast: Vec<AstNode>, repl: Seq<char>)
    requires
        forall|i: int|
            0 <= i < m_all(t, f, ast, 0).len() ==> (#[trigger] m_all(t, f, ast, 0)[i]).0 <= m_all(
                t,
                f,
                ast,
                0,
            )[i].1 && t.subrange(m_all(t, f, ast, 0)[i].0, m_all(t, f, ast, 0)[i].1) == repl,
    ensures
        m_replace_all(t, f, ast, 0, 0, repl) == t,
{
    lemma_replace_identity_from(t, f, ast, repl, 0, 0);
    assert(t.skip(0) =~= t);
}

/// The characters of `v` from index `from` on, as their own vector.
pub(crate) fn suffix_chars(v: &Vec<char>, from: usize) -> (r: Vec<char>)
    requires
        from <= v@.len(),
    ensures
        r@ == v@.skip(from as int),
{
    let mut r: Vec<char> = Vec::new();
    let mut i: usize = from;
    while i < v.len()
        invariant
            from <= i <= v@.len(),
            r@.len() == i - from,
            forall|j: int| 0 <= j < r@.len() ==> r@[j] == v@[from + j],
        decreases v@.len() - i,
    {
        r.push(v[i]);
        i += 1;
    }
    proof {
        assert(r@ =~= v@.skip(from as int));
    }
    r
}

} // verus!
