//! The recursive-descent pattern parser: pattern string to syntax tree.
//!
//! The grammar, lowest precedence first:
//!
//! ```text
//! alternation := sequence ('|' sequence)*
//! sequence    := (atom quantifier?)*            until '|', ')' or the end
//! atom        := '.' | '^' | '$' | set | group | escape | LITERAL
//! quantifier  := ('*' | '+' | '?' | bounded) '?'?
//! bounded     := '{' number? (',' number?)? '}'
//! set         := '[' '^'? setItem+ ']'
//! group       := '(' ( '?' extGroup | alternation ) ')'
//! extGroup    := ':' alternation | '<' '=' alternation | '<' '!' alternation
//!              | '<' NAME '>' alternation | '>' '=' alternation | '>' '!' alternation
//! ```
//!
//! The spec functions named `p_*` define, character by character, what the
//! parser produces; [`Parser::parse`] is proved to return exactly that. The
//! parser carries a position, a running group counter, and the group names
//! seen so far (a duplicate name is an error).

use vstd::prelude::*;
use crate::ast::AstNode;
use crate::ast::CharClass;
use crate::ast::CharRange;
use crate::ast::GClass;
use crate::ast::GNode;
use crate::ast::lemma_view_alts_agree;
use crate::ast::lemma_view_nodes_agree;
use crate::ast::view_node;
use crate::ast::view_nodes_from;
use crate::ast::view_alts_from;
use crate::chars::spec_ascii_digit;
use crate::chars::spec_ascii_lower;
use crate::chars::spec_ascii_upper;
use crate::chars::spec_ascii_alnum;
use crate::chars::unicode_whitespace;
use crate::flags::Flags;
use crate::semantics::flag_insensitive;

verus! {

broadcast use
    crate::ast::lemma_view_literal,
    crate::ast::lemma_view_backref,
    crate::ast::lemma_view_charclass,
    crate::ast::lemma_view_group,
    crate::ast::lemma_view_alternation,
    crate::ast::lemma_view_lookaround,
    crate::ast::lemma_view_quant,
    crate::ast::lemma_view_nodes_len,
    crate::ast::lemma_view_alts_len,
;

/// Errors that can occur during parsing.
#[derive(Debug)]
pub enum ParseError {
    /// An unexpected character, with its position.
    UnexpectedChar(char, usize),
    /// The pattern ended where more input was required.
    UnexpectedEof,
    /// A malformed `{ ... }` quantifier.
    InvalidQuantifier(String),
    /// A group without its closing parenthesis.
    UnmatchedParen,
    /// A malformed or empty group name.
    InvalidGroupName(String),
    /// An invalid escape sequence.
    InvalidEscape(char),
    /// A malformed character class.
    InvalidCharClass,
    /// Two named groups sharing a name.
    DuplicateGroupName(String),
    /// An invalid backreference.
    InvalidBackref(usize),
    /// A number where digits were expected but missing or malformed.
    InvalidLineNumber(String),
    /// An unknown `(? ...)` extension or malformed lookaround.
    InvalidGroup(String),
}

/// A parse error as contracts see it: strings as character sequences.
pub enum GErr {
    /// An unexpected character, with its position.
    UnexpectedChar(char, int),
    /// The pattern ended early.
    UnexpectedEof,
    /// A malformed quantifier.
    InvalidQuantifier(Seq<char>),
    /// A missing closing parenthesis.
    UnmatchedParen,
    /// A malformed group name.
    InvalidGroupName(Seq<char>),
    /// An invalid escape.
    InvalidEscape(char),
    /// A malformed character class.
    InvalidCharClass,
    /// A duplicate group name.
    DuplicateGroupName(Seq<char>),
    /// An invalid backreference.
    InvalidBackref(int),
    /// Missing digits in a bound.
    InvalidLineNumber(Seq<char>),
    /// An unknown group extension.
    InvalidGroup(Seq<char>),
}

/// A parse error as contracts see it.
pub open spec fn err_view(e: ParseError) -> GErr {
    match e {
        ParseError::UnexpectedChar(c, p) => GErr::UnexpectedChar(c, p as int),
        ParseError::UnexpectedEof => GErr::UnexpectedEof,
        ParseError::InvalidQuantifier(s) => GErr::InvalidQuantifier(s@),
        ParseError::UnmatchedParen => GErr::UnmatchedParen,
        ParseError::InvalidGroupName(s) => GErr::InvalidGroupName(s@),
        ParseError::InvalidEscape(c) => GErr::InvalidEscape(c),
        ParseError::InvalidCharClass => GErr::InvalidCharClass,
        ParseError::DuplicateGroupName(s) => GErr::DuplicateGroupName(s@),
        ParseError::InvalidBackref(n) => GErr::InvalidBackref(n as int),
        ParseError::InvalidLineNumber(s) => GErr::InvalidLineNumber(s@),
        ParseError::InvalidGroup(s) => GErr::InvalidGroup(s@),
    }
}

/// The parser's running state: the position in the pattern, the group
/// counter, and the group names seen so far.
#[verifier::ext_equal]
pub struct PState {
    /// Position in the pattern, as a character index.
    pub pos: int,
    /// Number of capture groups opened so far.
    pub gc: int,
    /// Names of the named groups seen so far.
    pub names: Seq<Seq<char>>,
}

/// A name is already among the group names seen.
pub open spec fn name_in(names: Seq<Seq<char>>, n: Seq<char>) -> bool {
    exists|i: int| 0 <= i < names.len() && names[i] == n
}

/// The position after a run of whitespace and `#...` comments, when verbose
/// mode is on; the same position otherwise.
pub open spec fn p_skip(inp: Seq<char>, f: Flags, pos: int) -> int
    decreases inp.len() - pos, 1int,
    when 0 <= pos <= inp.len()
{
    if !f.verbose || pos >= inp.len() {
        pos
    } else if unicode_whitespace(inp[pos]) {
        p_skip(inp, f, pos + 1)
    } else if inp[pos] == '#' {
        let q = p_line_end(inp, pos + 1);
        if pos < q <= inp.len() {
            p_skip(inp, f, q)
        } else {
            pos
        }
    } else {
        pos
    }
}

/// The position of the next newline at or after `pos`, or the end.
pub open spec fn p_line_end(inp: Seq<char>, pos: int) -> int
    decreases inp.len() - pos, 0int,
    when 0 <= pos <= inp.len()
{
    if pos >= inp.len() || inp[pos] == '\n' {
        pos
    } else {
        p_line_end(inp, pos + 1)
    }
}

/// Skipping moves forward, never past the end.
pub proof fn lemma_line_end_bounds(inp: Seq<char>, pos: int)
    requires
        0 <= pos <= inp.len(),
    ensures
        pos <= p_line_end(inp, pos) <= inp.len(),
    decreases inp.len() - pos,
{
    if pos < inp.len() && inp[pos] != '\n' {
        lemma_line_end_bounds(inp, pos + 1);
    }
}

/// Skipping moves forward, never past the end.
pub proof fn lemma_skip_bounds(inp: Seq<char>, f: Flags, pos: int)
    requires
        0 <= pos <= inp.len(),
    ensures
        pos <= p_skip(inp, f, pos) <= inp.len(),
    decreases inp.len() - pos,
{
    if f.verbose && pos < inp.len() {
        if unicode_whitespace(inp[pos]) {
            lemma_skip_bounds(inp, f, pos + 1);
        } else if inp[pos] == '#' {
            lemma_line_end_bounds(inp, pos + 1);
            let q = p_line_end(inp, pos + 1);
            lemma_skip_bounds(inp, f, q);
        }
    }
}

/// One digit of a bound; the count saturates at the machine limit rather
/// than overflowing.
pub open spec fn num_step(acc: int, d: int) -> int {
    if acc * 10 + d <= usize::MAX {
        acc * 10 + d
    } else {
        usize::MAX as int
    }
}

/// A decimal number at `pos`: its value (saturated at the machine limit)
/// and the position after it. A missing digit makes the quantifier bound
/// malformed, so the error is `InvalidQuantifier`.
pub open spec fn p_number(inp: Seq<char>, pos: int, acc: int, found: bool) -> Result<
    (int, int),
    GErr,
>
    decreases inp.len() - pos, 1int,
    when 0 <= pos <= inp.len()
{
    if pos < inp.len() && spec_ascii_digit(inp[pos]) {
        let d = inp[pos] as u32 - '0' as u32;
        p_number(inp, pos + 1, num_step(acc, d as int), true)
    } else if found {
        Ok((acc, pos))
    } else {
        Err(GErr::InvalidQuantifier("expected digits"@))
    }
}

/// The ranges one set item contributes: itself and, when the
/// case-insensitive flag was given, its ASCII case-swapped counterpart.
pub open spec fn expand_one(f: Flags, s: char, e: char) -> Seq<CharRange> {
    let base = seq![CharRange { start: s, end: e }];
    if flag_insensitive(f) {
        if 'a' <= s && s <= 'z' && 'a' <= e && e <= 'z' {
            base.push(CharRange { start: spec_ascii_upper(s), end: spec_ascii_upper(e) })
        } else if 'A' <= s && s <= 'Z' && 'A' <= e && e <= 'Z' {
            base.push(CharRange { start: spec_ascii_lower(s), end: spec_ascii_lower(e) })
        } else {
            base
        }
    } else {
        base
    }
}

/// The items of a character set from `pos` on, up to the closing `]`: the
/// ranges they denote and the position after the `]`.
pub open spec fn p_set_items(inp: Seq<char>, f: Flags, pos: int) -> Result<
    (Seq<CharRange>, int),
    GErr,
>
    decreases inp.len() - pos, 1int,
    when 0 <= pos <= inp.len()
{
    if pos >= inp.len() {
        Err(GErr::UnexpectedEof)
    } else if inp[pos] == ']' {
        Ok((Seq::empty(), pos + 1))
    } else if inp[pos] == '\\' {
        if pos + 1 < inp.len() {
            match p_set_items(inp, f, pos + 2) {
                Ok((rest, q)) => Ok((expand_one(f, inp[pos + 1], inp[pos + 1]) + rest, q)),
                Err(e) => Err(e),
            }
        } else {
            Err(GErr::UnexpectedEof)
        }
    } else {
        let c = inp[pos];
        if pos + 1 < inp.len() && inp[pos + 1] == '-' && pos + 2 < inp.len() && inp[pos + 2]
            != ']' {
            match p_set_items(inp, f, pos + 3) {
                Ok((rest, q)) => Ok((expand_one(f, c, inp[pos + 2]) + rest, q)),
                Err(e) => Err(e),
            }
        } else {
            match p_set_items(inp, f, pos + 1) {
                Ok((rest, q)) => Ok((expand_one(f, c, c) + rest, q)),
                Err(e) => Err(e),
            }
        }
    }
}

/// A character class `[...]` at `pos` (on the `[`): the set node and the
/// position after the `]`.
pub open spec fn p_char_class(inp: Seq<char>, f: Flags, st: PState) -> Result<(GNode, PState), GErr>
    decreases inp.len() - st.pos, 2int,
    when 0 <= st.pos <= inp.len()
{
    let negated = st.pos + 1 < inp.len() && inp[st.pos + 1] == '^';
    let items_from = if negated {
        st.pos + 2
    } else {
        st.pos + 1
    };
    if items_from > inp.len() {
        Err(GErr::UnexpectedEof)
    } else {
        match p_set_items(inp, f, items_from) {
            Ok((ranges, q)) => Ok(
                (
                    GNode::CharClass(GClass::CharSet { chars: ranges, negated }),
                    PState { pos: q, ..st },
                ),
            ),
            Err(e) => Err(e),
        }
    }
}

/// The end of a run of name characters (ASCII alphanumeric or `_`) from
/// `pos`: a group name admits no other character.
pub open spec fn p_name_end(inp: Seq<char>, pos: int) -> int
    decreases inp.len() - pos, 0int,
    when 0 <= pos <= inp.len()
{
    if pos < inp.len() && (spec_ascii_alnum(inp[pos]) || inp[pos] == '_') {
        p_name_end(inp, pos + 1)
    } else {
        pos
    }
}

/// A name never retreats, never passes the end.
pub proof fn lemma_name_end_bounds(inp: Seq<char>, pos: int)
    requires
        0 <= pos <= inp.len(),
    ensures
        pos <= p_name_end(inp, pos) <= inp.len(),
    decreases inp.len() - pos,
{
    if pos < inp.len() && (spec_ascii_alnum(inp[pos]) || inp[pos] == '_') {
        lemma_name_end_bounds(inp, pos + 1);
    }
}

/// A group name at `pos`: the name and the position after it, or an error
/// when it is empty.
pub open spec fn p_group_name(inp: Seq<char>, pos: int) -> Result<(Seq<char>, int), GErr> {
    let q = p_name_end(inp, pos);
    if q == pos {
        Err(GErr::InvalidGroupName("empty name"@))
    } else {
        Ok((inp.subrange(pos, q), q))
    }
}

/// The escape sequence at `pos` (on the backslash): the node it denotes and
/// the state after it.
pub open spec fn p_escape(inp: Seq<char>, st: PState) -> Result<(GNode, PState), GErr>
    decreases inp.len() - st.pos, 2int,
    when 0 <= st.pos <= inp.len()
{
    let p = st.pos + 1;
    if p >= inp.len() {
        Err(GErr::UnexpectedEof)
    } else {
        let c = inp[p];
        let two = PState { pos: p + 1, ..st };
        if c == 'd' {
            Ok((GNode::CharClass(GClass::Digit), two))
        } else if c == 'D' {
            Ok((GNode::CharClass(GClass::NonDigit), two))
        } else if c == 'w' {
            Ok((GNode::CharClass(GClass::Word), two))
        } else if c == 'W' {
            Ok((GNode::CharClass(GClass::NonWord), two))
        } else if c == 's' {
            Ok((GNode::CharClass(GClass::Whitespace), two))
        } else if c == 'S' {
            Ok((GNode::CharClass(GClass::NonWhitespace), two))
        } else if c == 'l' {
            Ok((GNode::CharClass(GClass::Lowercase), two))
        } else if c == 'L' {
            Ok((GNode::CharClass(GClass::NonLowercase), two))
        } else if c == 'u' {
            Ok((GNode::CharClass(GClass::Uppercase), two))
        } else if c == 'U' {
            Ok((GNode::CharClass(GClass::NonUppercase), two))
        } else if c == 'x' {
            Ok((GNode::CharClass(GClass::Hex), two))
        } else if c == 'X' {
            Ok((GNode::CharClass(GClass::NonHex), two))
        } else if c == 'o' {
            Ok((GNode::CharClass(GClass::Octal), two))
        } else if c == 'O' {
            Ok((GNode::CharClass(GClass::NonOctal), two))
        } else if c == 'h' {
            Ok((GNode::CharClass(GClass::WordStart), two))
        } else if c == 'H' {
            Ok((GNode::CharClass(GClass::NonWordStart), two))
        } else if c == 'p' {
            Ok((GNode::CharClass(GClass::Punctuation), two))
        } else if c == 'P' {
            Ok((GNode::CharClass(GClass::NonPunctuation), two))
        } else if c == 'a' {
            Ok((GNode::CharClass(GClass::Alphanumeric), two))
        } else if c == 'A' {
            Ok((GNode::CharClass(GClass::NonAlphanumeric), two))
        } else if c == 'b' {
            Ok((GNode::WordBoundary, two))
        } else if c == '<' {
            Ok((GNode::StartWord, two))
        } else if c == '>' {
            Ok((GNode::EndWord, two))
        } else if c == 'z' {
            if p + 1 < inp.len() && inp[p + 1] == 's' {
                Ok((GNode::SetMatchStart, PState { pos: p + 2, ..st }))
            } else if p + 1 < inp.len() && inp[p + 1] == 'e' {
                Ok((GNode::SetMatchEnd, PState { pos: p + 2, ..st }))
            } else {
                Err(GErr::InvalidEscape('z'))
            }
        } else if spec_ascii_digit(c) {
            Ok((GNode::Backref((c as u32 - '0' as u32) as usize), two))
        } else if c == 'n' {
            Ok((GNode::Literal('\n'), two))
        } else if c == 't' {
            Ok((GNode::Literal('\t'), two))
        } else if c == 'r' {
            Ok((GNode::Literal('\r'), two))
        } else if c == 'f' {
            Ok((GNode::Literal('\x0C'), two))
        } else if c == 'v' {
            Ok((GNode::Literal('\x0B'), two))
        } else {
            Ok((GNode::Literal(c), two))
        }
    }
}

/// Closes a group: requires `)` at the state's position.
pub open spec fn p_close(inp: Seq<char>, st: PState) -> Result<PState, GErr> {
    if st.pos < inp.len() && inp[st.pos] == ')' {
        Ok(PState { pos: st.pos + 1, ..st })
    } else {
        Err(GErr::UnmatchedParen)
    }
}

/// A group `( ... )` at `pos` (on the `(`): a capturing group, or the
/// extended form behind `(?`.
pub open spec fn p_group(inp: Seq<char>, f: Flags, st: PState) -> Result<(GNode, PState), GErr>
    decreases inp.len() - st.pos, 2int,
    when 0 <= st.pos <= inp.len()
{
    let p = st.pos + 1;
    if p < inp.len() && inp[p] == '?' {
        p_ext_group(inp, f, PState { pos: p + 1, ..st })
    } else if p > inp.len() {
        Err(GErr::UnexpectedEof)
    } else {
        let idx = st.gc + 1;
        match p_alternation(inp, f, PState { pos: p, gc: st.gc + 1, ..st }) {
            Ok((nodes, st2)) => {
                if 0 <= st2.pos <= inp.len() {
                    match p_close(inp, st2) {
                        Ok(st3) => Ok(
                            (
                                GNode::Group {
                                    nodes,
                                    name: None,
                                    capture: true,
                                    index: Some(idx as usize),
                                },
                                st3,
                            ),
                        ),
                        Err(e) => Err(e),
                    }
                } else {
                    Err(GErr::UnexpectedEof)
                }
            },
            Err(e) => Err(e),
        }
    }
}

/// A parenthesized body ending in `)`, as lookaround or non-capturing
/// group content: the nodes and the state after the `)`.
pub open spec fn p_body(inp: Seq<char>, f: Flags, st: PState) -> Result<(Seq<GNode>, PState), GErr>
    decreases inp.len() - st.pos, 7int,
    when 0 <= st.pos <= inp.len()
{
    match p_alternation(inp, f, st) {
        Ok((nodes, st2)) => {
            if 0 <= st2.pos <= inp.len() {
                match p_close(inp, st2) {
                    Ok(st3) => Ok((nodes, st3)),
                    Err(e) => Err(e),
                }
            } else {
                Err(GErr::UnexpectedEof)
            }
        },
        Err(e) => Err(e),
    }
}

/// The extended group forms behind `(?`: non-capturing `:`, lookbehind
/// `<=` / `<!`, named capture `<name>`, lookahead `>=` / `>!`.
pub open spec fn p_ext_group(inp: Seq<char>, f: Flags, st: PState) -> Result<(GNode, PState), GErr>
    decreases inp.len() - st.pos, 1int,
    when 0 <= st.pos <= inp.len()
{
    if st.pos >= inp.len() {
        Err(GErr::InvalidGroup("Unknown extension ?"@))
    } else if inp[st.pos] == ':' {
        match p_body(inp, f, PState { pos: st.pos + 1, ..st }) {
            Ok((nodes, st2)) => Ok(
                (GNode::Group { nodes, name: None, capture: false, index: None }, st2),
            ),
            Err(e) => Err(e),
        }
    } else if inp[st.pos] == '<' {
        let p = st.pos + 1;
        if p < inp.len() && inp[p] == '=' {
            match p_body(inp, f, PState { pos: p + 1, ..st }) {
                Ok((nodes, st2)) => Ok((GNode::LookBehind { nodes, positive: true }, st2)),
                Err(e) => Err(e),
            }
        } else if p < inp.len() && inp[p] == '!' {
            match p_body(inp, f, PState { pos: p + 1, ..st }) {
                Ok((nodes, st2)) => Ok((GNode::LookBehind { nodes, positive: false }, st2)),
                Err(e) => Err(e),
            }
        } else if p > inp.len() {
            Err(GErr::InvalidGroupName("empty name"@))
        } else {
            match p_group_name(inp, p) {
                Ok((nm, q)) => {
                    if !(p <= q <= inp.len()) {
                        Err(GErr::UnexpectedEof)
                    } else if q < inp.len() && inp[q] == '>' {
                        if name_in(st.names, nm) {
                            Err(GErr::DuplicateGroupName(nm))
                        } else {
                            let idx = st.gc + 1;
                            let st1 = PState {
                                pos: q + 1,
                                gc: st.gc + 1,
                                names: st.names.push(nm),
                            };
                            if st1.pos <= inp.len() {
                                match p_body(inp, f, st1) {
                                    Ok((nodes, st2)) => Ok(
                                        (
                                            GNode::Group {
                                                nodes,
                                                name: Some(nm),
                                                capture: true,
                                                index: Some(idx as usize),
                                            },
                                            st2,
                                        ),
                                    ),
                                    Err(e) => Err(e),
                                }
                            } else {
                                Err(GErr::UnexpectedEof)
                            }
                        }
                    } else {
                        Err(GErr::InvalidGroupName("expected '>'"@))
                    }
                },
                Err(e) => Err(e),
            }
        }
    } else if inp[st.pos] == '>' {
        let p = st.pos + 1;
        if p < inp.len() && inp[p] == '=' {
            match p_body(inp, f, PState { pos: p + 1, ..st }) {
                Ok((nodes, st2)) => Ok((GNode::LookAhead { nodes, positive: true }, st2)),
                Err(e) => Err(e),
            }
        } else if p < inp.len() && inp[p] == '!' {
            match p_body(inp, f, PState { pos: p + 1, ..st }) {
                Ok((nodes, st2)) => Ok((GNode::LookAhead { nodes, positive: false }, st2)),
                Err(e) => Err(e),
            }
        } else {
            Err(GErr::InvalidGroup("Expected = or ! after ?>"@))
        }
    } else {
        Err(GErr::InvalidGroup("Unknown extension ?"@))
    }
}

/// A single atom at the state's position (no quantifier yet).
pub open spec fn p_atom(inp: Seq<char>, f: Flags, st: PState) -> Result<(GNode, PState), GErr>
    decreases inp.len() - st.pos, 3int,
    when 0 <= st.pos <= inp.len()
{
    if st.pos >= inp.len() {
        Err(GErr::UnexpectedEof)
    } else {
        let c = inp[st.pos];
        let one = PState { pos: st.pos + 1, ..st };
        if c == '.' {
            Ok((GNode::CharClass(GClass::Dot), one))
        } else if c == '^' {
            Ok((GNode::StartAnchor, one))
        } else if c == '$' {
            Ok((GNode::EndAnchor, one))
        } else if c == '[' {
            p_char_class(inp, f, st)
        } else if c == '(' {
            p_group(inp, f, st)
        } else if c == '\\' {
            p_escape(inp, st)
        } else {
            Ok((GNode::Literal(c), one))
        }
    }
}

/// A bounded quantifier `{ ... }` applied to `g`, at the state's position
/// (on the `{`).
pub open spec fn p_bounded(inp: Seq<char>, g: GNode, st: PState) -> Result<(GNode, PState), GErr>
    decreases inp.len() - st.pos, 2int,
    when 0 <= st.pos <= inp.len()
{
    let p = st.pos + 1;
    if p > inp.len() {
        Err(GErr::UnexpectedEof)
    } else {
        let minr = if p < inp.len() && inp[p] == ',' {
            Ok((0int, p))
        } else {
            p_number(inp, p, 0, false)
        };
        match minr {
            Ok((min, q)) => {
                if !(p <= q <= inp.len()) {
                    Err(GErr::UnexpectedEof)
                } else if q < inp.len() && inp[q] == ',' {
                    let maxr = if q + 1 < inp.len() && inp[q + 1] == '}' {
                        Ok((None::<int>, q + 1))
                    } else {
                        match p_number(inp, q + 1, 0, false) {
                            Ok((m, r)) => Ok((Some(m), r)),
                            Err(e) => Err(e),
                        }
                    };
                    match maxr {
                        Ok((max, r)) => {
                            if !(q < r <= inp.len()) {
                                Err(GErr::UnexpectedEof)
                            } else if r < inp.len() && inp[r] == '}' {
                                let lazy = r + 1 < inp.len() && inp[r + 1] == '?';
                                let after = if lazy {
                                    r + 2
                                } else {
                                    r + 1
                                };
                                Ok(
                                    (
                                        GNode::Range {
                                            node: seq![g],
                                            min: min as usize,
                                            max: match max {
                                                Some(m) => Some(m as usize),
                                                None => None,
                                            },
                                            greedy: !lazy,
                                        },
                                        PState { pos: after, ..st },
                                    ),
                                )
                            } else {
                                Err(GErr::InvalidQuantifier("expected '}'"@))
                            }
                        },
                        Err(e) => Err(e),
                    }
                } else if q < inp.len() && inp[q] == '}' {
                    Ok(
                        (
                            GNode::Exact { node: seq![g], count: min as usize },
                            PState { pos: q + 1, ..st },
                        ),
                    )
                } else {
                    Err(GErr::InvalidQuantifier("expected ',' or '}'"@))
                }
            },
            Err(e) => Err(e),
        }
    }
}

/// The quantifier, if any, following an atom: `*`, `+`, `?` or a bounded
/// form, each with an optional lazy `?`; verbose skipping runs first.
pub open spec fn p_apply_quant(inp: Seq<char>, f: Flags, g: GNode, st: PState) -> Result<
    (GNode, PState),
    GErr,
>
    decreases inp.len() - st.pos, 3int,
    when 0 <= st.pos <= inp.len()
{
    let sp = p_skip(inp, f, st.pos);
    if !(st.pos <= sp <= inp.len()) {
        Err(GErr::UnexpectedEof)
    } else if sp >= inp.len() {
        Ok((g, PState { pos: sp, ..st }))
    } else {
        let c = inp[sp];
        let lazy = sp + 1 < inp.len() && inp[sp + 1] == '?';
        let after = if lazy {
            sp + 2
        } else {
            sp + 1
        };
        if c == '*' {
            Ok((GNode::ZeroOrMore { node: seq![g], greedy: !lazy }, PState { pos: after, ..st }))
        } else if c == '+' {
            Ok((GNode::OneOrMore { node: seq![g], greedy: !lazy }, PState { pos: after, ..st }))
        } else if c == '?' {
            Ok((GNode::Optional { node: seq![g], greedy: !lazy }, PState { pos: after, ..st }))
        } else if c == '{' {
            p_bounded(inp, g, PState { pos: sp, ..st })
        } else {
            Ok((g, PState { pos: sp, ..st }))
        }
    }
}

/// A sequence of quantified atoms, up to `|`, `)` or the end of the
/// pattern.
pub open spec fn p_sequence(inp: Seq<char>, f: Flags, st: PState) -> Result<
    (Seq<GNode>, PState),
    GErr,
>
    decreases inp.len() - st.pos, 4int,
    when 0 <= st.pos <= inp.len()
{
    let sp = p_skip(inp, f, st.pos);
    if !(st.pos <= sp <= inp.len()) {
        Err(GErr::UnexpectedEof)
    } else {
        let st0 = PState { pos: sp, ..st };
        if sp >= inp.len() || inp[sp] == '|' || inp[sp] == ')' {
            Ok((Seq::empty(), st0))
        } else {
            match p_atom(inp, f, st0) {
                Ok((g, st1)) => {
                    if st0.pos < st1.pos <= inp.len() {
                        match p_apply_quant(inp, f, g, st1) {
                            Ok((g2, st2)) => {
                                if st1.pos <= st2.pos <= inp.len() {
                                    match p_sequence(inp, f, st2) {
                                        Ok((rest, st3)) => Ok((seq![g2] + rest, st3)),
                                        Err(e) => Err(e),
                                    }
                                } else {
                                    Err(GErr::UnexpectedEof)
                                }
                            },
                            Err(e) => Err(e),
                        }
                    } else {
                        Err(GErr::UnexpectedEof)
                    }
                },
                Err(e) => Err(e),
            }
        }
    }
}

/// The `|`-separated branches from the state's position on.
pub open spec fn p_branches(inp: Seq<char>, f: Flags, st: PState) -> Result<
    (Seq<Seq<GNode>>, PState),
    GErr,
>
    decreases inp.len() - st.pos, 5int,
    when 0 <= st.pos <= inp.len()
{
    match p_sequence(inp, f, st) {
        Ok((g, st1)) => {
            if st.pos <= st1.pos <= inp.len() {
                if st1.pos < inp.len() && inp[st1.pos] == '|' {
                    match p_branches(inp, f, PState { pos: st1.pos + 1, ..st1 }) {
                        Ok((rest, st2)) => Ok((seq![g] + rest, st2)),
                        Err(e) => Err(e),
                    }
                } else {
                    Ok((seq![g], st1))
                }
            } else {
                Err(GErr::UnexpectedEof)
            }
        },
        Err(e) => Err(e),
    }
}

/// An alternation: one branch stays a plain sequence, several become a
/// single alternation node.
pub open spec fn p_alternation(inp: Seq<char>, f: Flags, st: PState) -> Result<
    (Seq<GNode>, PState),
    GErr,
>
    decreases inp.len() - st.pos, 6int,
    when 0 <= st.pos <= inp.len()
{
    match p_branches(inp, f, st) {
        Ok((bs, st1)) => {
            if bs.len() == 1 {
                Ok((bs[0], st1))
            } else {
                Ok((seq![GNode::Alternation(bs)], st1))
            }
        },
        Err(e) => Err(e),
    }
}

/// What parsing a whole pattern yields: the node sequence of the top-level
/// alternation, starting with an empty state.
pub open spec fn spec_parse(inp: Seq<char>, f: Flags) -> Result<(Seq<GNode>, PState), GErr> {
    p_alternation(inp, f, PState { pos: 0, gc: 0, names: Seq::empty() })
}

/// The group names of the parser as contracts see them.
pub open spec fn names_view(v: Vec<String>) -> Seq<Seq<char>> {
    Seq::new(v@.len(), |i: int| v@[i]@)
}

/// The recursive-descent parser for a pattern string.
#[derive(Debug)]
pub struct Parser {
    input: Vec<char>,
    pos: usize,
    flags: Flags,
    group_count: usize,
    group_names: Vec<String>,
}

impl Parser {
    /// The pattern being parsed.
    pub closed spec fn inp(&self) -> Seq<char> {
        self.input@
    }

    /// The flags the parser was created with.
    pub closed spec fn pflags(&self) -> Flags {
        self.flags
    }

    /// The parser's running state.
    pub closed spec fn st(&self) -> PState {
        PState {
            pos: self.pos as int,
            gc: self.group_count as int,
            names: names_view(self.group_names),
        }
    }

    /// The position lies in the pattern and the group counter never exceeds
    /// it (each group consumed at least one character).
    pub closed spec fn wf(&self) -> bool {
        self.pos <= self.input@.len() && self.group_count <= self.pos
    }

    /// Creates a new parser for the given pattern.
    pub fn new(pattern: &str, flags: Flags) -> (r: Parser)
        ensures
            r.inp() == pattern@,
            r.pflags() == flags,
            r.st() == (PState { pos: 0, gc: 0, names: Seq::<Seq<char>>::empty() }),
            r.wf(),
    {
        let input = crate::chars::str_to_chars(pattern);
        let r = Parser { input, pos: 0, flags, group_count: 0, group_names: Vec::new() };
        proof {
            assert(names_view(r.group_names) =~= Seq::<Seq<char>>::empty());
            assert(r.st() =~= PState { pos: 0, gc: 0, names: Seq::<Seq<char>>::empty() });
        }
        r
    }

    /// Parses the pattern into a syntax tree: exactly what
    /// [`p_alternation`] yields from the parser's state, with errors
    /// matching case for case.
    pub fn parse(&mut self) -> (r: Result<Vec<AstNode>, ParseError>)
        requires
            old(self).wf(),
        ensures
            final(self).inp() == old(self).inp(),
            final(self).pflags() == old(self).pflags(),
            match r {
                Ok(nodes) => p_alternation(old(self).inp(), old(self).pflags(), old(self).st())
                    matches Ok(v) && view_nodes_from(nodes, 0) == v.0 && final(self).st() == v.1
                    && final(self).wf(),
                Err(e) => p_alternation(old(self).inp(), old(self).pflags(), old(self).st())
                    matches Err(ge) && err_view(e) == ge,
            },
    {
        self.parse_alternation()
    }

    /// Advances past whitespace and comments when verbose mode is on.
    fn skip_ws(&mut self)
        requires
            old(self).wf(),
        ensures
            final(self).input == old(self).input,
            final(self).flags == old(self).flags,
            final(self).group_count == old(self).group_count,
            final(self).group_names == old(self).group_names,
            final(self).pos as int == p_skip(old(self).inp(), old(self).pflags(), old(self).pos as int),
            final(self).wf(),
            final(self).pos >= old(self).pos,
    {
        if !self.flags.verbose {
            return ;
        }
        let n = self.input.len();
        while self.pos < n
            invariant
                self.input == old(self).input,
                self.flags == old(self).flags,
                self.group_count == old(self).group_count,
                self.group_names == old(self).group_names,
                n == self.input@.len(),
                old(self).pos <= self.pos <= n,
                old(self).group_count <= old(self).pos,
                self.flags.verbose,
                p_skip(self.inp(), self.pflags(), old(self).pos as int) == p_skip(
                    self.inp(),
                    self.pflags(),
                    self.pos as int,
                ),
            ensures
                self.pos as int == p_skip(self.inp(), self.pflags(), old(self).pos as int),
            decreases n - self.pos,
        {
            let c = self.input[self.pos];
            if crate::chars::is_whitespace_char(c) {
                self.pos += 1;
            } else if c == '#' {
                let ghost hash = self.pos as int;
                proof {
                    lemma_line_end_bounds(self.inp(), hash + 1);
                }
                self.pos += 1;
                while self.pos < n && self.input[self.pos] != '\n'
                    invariant
                        self.input == old(self).input,
                        self.flags == old(self).flags,
                        self.group_count == old(self).group_count,
                        self.group_names == old(self).group_names,
                        n == self.input@.len(),
                        hash + 1 <= self.pos <= n,
                        0 <= hash < n,
                        p_line_end(self.inp(), hash + 1) == p_line_end(
                            self.inp(),
                            self.pos as int,
                        ),
                    decreases n - self.pos,
                {
                    self.pos += 1;
                }
                proof {
                    assert(p_line_end(self.inp(), self.pos as int) == self.pos as int);
                }
            } else {
                break ;
            }
        }
    }

    /// One digit folded into the running count, saturating at the machine
    /// limit.
    fn num_step_exec(acc: usize, d: usize) -> (r: usize)
        requires
            d <= 9,
        ensures
            r as int == num_step(acc as int, d as int),
    {
        if acc <= (usize::MAX - d) / 10 {
            proof {
                assert(acc * 10 + d <= usize::MAX) by (nonlinear_arith)
                    requires
                        acc <= (usize::MAX - d) / 10,
                        d <= 9,
                {
                }
            }
            acc * 10 + d
        } else {
            proof {
                assert(acc * 10 + d > usize::MAX) by (nonlinear_arith)
                    requires
                        acc > (usize::MAX - d) / 10,
                        d <= 9,
                {
                }
            }
            usize::MAX
        }
    }

    /// A decimal number at the current position.
    fn parse_number(&mut self) -> (r: Result<usize, ParseError>)
        requires
            old(self).wf(),
        ensures
            final(self).input == old(self).input,
            final(self).flags == old(self).flags,
            final(self).group_count == old(self).group_count,
            final(self).group_names == old(self).group_names,
            match r {
                Ok(num) => p_number(old(self).inp(), old(self).pos as int, 0, false) matches Ok(v)
                    && num as int == v.0 && final(self).pos as int == v.1 && final(self).wf()
                    && final(self).pos >= old(self).pos,
                Err(e) => p_number(old(self).inp(), old(self).pos as int, 0, false) matches Err(ge)
                    && err_view(e) == ge,
            },
    {
        let n = self.input.len();
        let mut num: usize = 0;
        let mut found = false;
        loop
            invariant
                self.input == old(self).input,
                self.flags == old(self).flags,
                self.group_count == old(self).group_count,
                self.group_names == old(self).group_names,
                n == self.input@.len(),
                old(self).pos <= self.pos <= n,
                old(self).group_count <= old(self).pos,
                p_number(self.inp(), old(self).pos as int, 0, false) == p_number(
                    self.inp(),
                    self.pos as int,
                    num as int,
                    found,
                ),
            ensures
                p_number(self.inp(), old(self).pos as int, 0, false) == (if found {
                    Ok::<(int, int), GErr>((num as int, self.pos as int))
                } else {
                    Err::<(int, int), GErr>(GErr::InvalidQuantifier("expected digits"@))
                }),
            decreases n - self.pos,
        {
            if self.pos < n {
                let c = self.input[self.pos];
                if crate::chars::is_ascii_digit_char(c) {
                    let d = (c as u32 - '0' as u32) as usize;
                    num = Self::num_step_exec(num, d);
                    found = true;
                    self.pos += 1;
                    continue ;
                }
            }
            break ;
        }
        if found {
            Ok(num)
        } else {
            Err(ParseError::InvalidQuantifier("expected digits".to_owned()))
        }
    }

    /// The ranges one set item contributes, with the case-insensitive
    /// expansion applied.
    fn expand_one_exec(f: &Flags, s: char, e: char) -> (r: Vec<CharRange>)
        ensures
            r@ == expand_one(*f, s, e),
    {
        let mut r: Vec<CharRange> = Vec::new();
        r.push(CharRange { start: s, end: e });
        let ins = match f.ignore_case {
            Some(b) => b,
            None => false,
        };
        if ins {
            if 'a' <= s && s <= 'z' && 'a' <= e && e <= 'z' {
                r.push(
                    CharRange {
                        start: crate::chars::ascii_upper(s),
                        end: crate::chars::ascii_upper(e),
                    },
                );
            } else if 'A' <= s && s <= 'Z' && 'A' <= e && e <= 'Z' {
                r.push(
                    CharRange {
                        start: crate::chars::ascii_lower(s),
                        end: crate::chars::ascii_lower(e),
                    },
                );
            }
        }
        proof {
            assert(r@ =~= expand_one(*f, s, e));
        }
        r
    }

    /// The items of a character set, up to and including the closing `]`.
    fn parse_set_items(&mut self) -> (r: Result<Vec<CharRange>, ParseError>)
        requires
            old(self).wf(),
        ensures
            final(self).input == old(self).input,
            final(self).flags == old(self).flags,
            final(self).group_count == old(self).group_count,
            final(self).group_names == old(self).group_names,
            match r {
                Ok(ranges) => p_set_items(old(self).inp(), old(self).pflags(), old(self).pos as int)
                    matches Ok(v) && ranges@ == v.0 && final(self).pos as int == v.1 && final(self).wf() && final(self).pos > old(self).pos,
                Err(e) => p_set_items(old(self).inp(), old(self).pflags(), old(self).pos as int)
                    matches Err(ge) && err_view(e) == ge,
            },
        decreases self.input@.len() - self.pos, 1int,
    {
        let n = self.input.len();
        if self.pos >= n {
            return Err(ParseError::UnexpectedEof);
        }
        let c = self.input[self.pos];
        if c == ']' {
            self.pos += 1;
            let r: Vec<CharRange> = Vec::new();
            proof {
                assert(r@ =~= Seq::<CharRange>::empty());
            }
            return Ok(r);
        }
        if c == '\\' {
            if self.pos + 1 < n {
                let esc = self.input[self.pos + 1];
                self.pos += 2;
                let mut rest = match self.parse_set_items() {
                    Ok(v) => v,
                    Err(e) => return Err(e),
                };
                let mut out = Self::expand_one_exec(&self.flags, esc, esc);
                out.append(&mut rest);
                return Ok(out);
            } else {
                return Err(ParseError::UnexpectedEof);
            }
        }
        if self.pos + 1 < n && self.input[self.pos + 1] == '-' && self.pos + 2 < n
            && self.input[self.pos + 2] != ']' {
            let e = self.input[self.pos + 2];
            self.pos += 3;
            let mut rest = match self.parse_set_items() {
                    Ok(v) => v,
                    Err(e) => return Err(e),
                };
            let mut out = Self::expand_one_exec(&self.flags, c, e);
            out.append(&mut rest);
            Ok(out)
        } else {
            self.pos += 1;
            let mut rest = match self.parse_set_items() {
                    Ok(v) => v,
                    Err(e) => return Err(e),
                };
            let mut out = Self::expand_one_exec(&self.flags, c, c);
            out.append(&mut rest);
            Ok(out)
        }
    }

    /// A character class `[...]`, positioned on the `[`.
    fn parse_char_class(&mut self) -> (r: Result<AstNode, ParseError>)
        requires
            old(self).wf(),
            old(self).pos < old(self).input@.len(),
        ensures
            final(self).input == old(self).input,
            final(self).flags == old(self).flags,
            final(self).group_count == old(self).group_count,
            final(self).group_names == old(self).group_names,
            match r {
                Ok(node) => p_char_class(old(self).inp(), old(self).pflags(), old(self).st())
                    matches Ok(v) && view_node(node) == v.0 && final(self).st() == v.1 && final(self).wf() && final(self).pos > old(self).pos,
                Err(e) => p_char_class(old(self).inp(), old(self).pflags(), old(self).st())
                    matches Err(ge) && err_view(e) == ge,
            },
    {
        let n = self.input.len();
        let negated = self.pos + 1 < n && self.input[self.pos + 1] == '^';
        if negated {
            self.pos += 2;
        } else {
            self.pos += 1;
        }
        let ranges = match self.parse_set_items() {
            Ok(v) => v,
            Err(e) => return Err(e),
        };
        Ok(AstNode::CharClass(CharClass::CharSet { chars: ranges, negated }))
    }

    /// A group name: a nonempty run of ASCII alphanumeric or `_`
    /// characters; any other character ends the name, and a name that does
    /// not start this way is rejected.
    fn parse_group_name(&mut self) -> (r: Result<String, ParseError>)
        requires
            old(self).wf(),
        ensures
            final(self).input == old(self).input,
            final(self).flags == old(self).flags,
            final(self).group_count == old(self).group_count,
            final(self).group_names == old(self).group_names,
            match r {
                Ok(name) => p_group_name(old(self).inp(), old(self).pos as int) matches Ok(v)
                    && name@ == v.0 && final(self).pos as int == v.1 && final(self).wf() && final(self).pos > old(self).pos,
                Err(e) => p_group_name(old(self).inp(), old(self).pos as int) matches Err(ge)
                    && err_view(e) == ge,
            },
    {
        let n = self.input.len();
        let mut buf: Vec<char> = Vec::new();
        loop
            invariant
                self.input == old(self).input,
                self.flags == old(self).flags,
                self.group_count == old(self).group_count,
                self.group_names == old(self).group_names,
                n == self.input@.len(),
                old(self).pos <= self.pos <= n,
                old(self).group_count <= old(self).pos,
                buf@ =~= self.inp().subrange(old(self).pos as int, self.pos as int),
                p_name_end(self.inp(), old(self).pos as int) == p_name_end(
                    self.inp(),
                    self.pos as int,
                ),
            ensures
                self.pos as int == p_name_end(self.inp(), old(self).pos as int),
            decreases n - self.pos,
        {
            if self.pos >= n {
                break ;
            }
            let c = self.input[self.pos];
            if !(crate::chars::is_ascii_alnum_char(c) || c == '_') {
                break ;
            }
            buf.push(c);
            self.pos += 1;
        }
        proof {
            assert(p_name_end(self.inp(), self.pos as int) == self.pos as int);
        }
        if buf.len() == 0 {
            return Err(ParseError::InvalidGroupName("empty name".to_owned()));
        }
        let name = crate::chars::chars_to_string(&buf);
        proof {
            assert(buf@ =~= self.inp().subrange(old(self).pos as int, self.pos as int));
        }
        Ok(name)
    }

    /// The escape sequence at the current position (on the backslash).
    #[verifier::rlimit(100)]
    fn parse_escape(&mut self) -> (r: Result<AstNode, ParseError>)
        requires
            old(self).wf(),
            old(self).pos < old(self).input@.len(),
        ensures
            final(self).input == old(self).input,
            final(self).flags == old(self).flags,
            final(self).group_count == old(self).group_count,
            final(self).group_names == old(self).group_names,
            match r {
                Ok(node) => p_escape(old(self).inp(), old(self).st()) matches Ok(v) && view_node(
                    node,
                ) == v.0 && final(self).st() == v.1 && final(self).wf() && final(self).pos > old(self).pos,
                Err(e) => p_escape(old(self).inp(), old(self).st()) matches Err(ge) && err_view(e)
                    == ge,
            },
    {
        proof {
            crate::ast::lemma_view_units();
        }
        let n = self.input.len();
        let p = self.pos + 1;
        if p >= n {
            return Err(ParseError::UnexpectedEof);
        }
        let c = self.input[p];
        self.pos = p + 1;
        match c {
            'd' => return Ok(AstNode::CharClass(CharClass::Digit)),
            'D' => return Ok(AstNode::CharClass(CharClass::NonDigit)),
            'w' => return Ok(AstNode::CharClass(CharClass::Word)),
            'W' => return Ok(AstNode::CharClass(CharClass::NonWord)),
            's' => return Ok(AstNode::CharClass(CharClass::Whitespace)),
            'S' => return Ok(AstNode::CharClass(CharClass::NonWhitespace)),
            'l' => return Ok(AstNode::CharClass(CharClass::Lowercase)),
            'L' => return Ok(AstNode::CharClass(CharClass::NonLowercase)),
            'u' => return Ok(AstNode::CharClass(CharClass::Uppercase)),
            'U' => return Ok(AstNode::CharClass(CharClass::NonUppercase)),
            'x' => return Ok(AstNode::CharClass(CharClass::Hex)),
            'X' => return Ok(AstNode::CharClass(CharClass::NonHex)),
            'o' => return Ok(AstNode::CharClass(CharClass::Octal)),
            'O' => return Ok(AstNode::CharClass(CharClass::NonOctal)),
            'h' => return Ok(AstNode::CharClass(CharClass::WordStart)),
            'H' => return Ok(AstNode::CharClass(CharClass::NonWordStart)),
            'p' => return Ok(AstNode::CharClass(CharClass::Punctuation)),
            'P' => return Ok(AstNode::CharClass(CharClass::NonPunctuation)),
            'a' => return Ok(AstNode::CharClass(CharClass::Alphanumeric)),
            'A' => return Ok(AstNode::CharClass(CharClass::NonAlphanumeric)),
            'b' => return Ok(AstNode::WordBoundary),
            '<' => return Ok(AstNode::StartWord),
            '>' => return Ok(AstNode::EndWord),
            'z' => {
                if p + 1 < n && self.input[p + 1] == 's' {
                    self.pos = p + 2;
                    return Ok(AstNode::SetMatchStart);
                } else if p + 1 < n && self.input[p + 1] == 'e' {
                    self.pos = p + 2;
                    return Ok(AstNode::SetMatchEnd);
                } else {
                    return Err(ParseError::InvalidEscape('z'));
                }
            },
            'n' => return Ok(AstNode::Literal('\n')),
            't' => return Ok(AstNode::Literal('\t')),
            'r' => return Ok(AstNode::Literal('\r')),
            'f' => return Ok(AstNode::Literal('\x0C')),
            'v' => return Ok(AstNode::Literal('\x0B')),
            '\\' => return Ok(AstNode::Literal('\\')),
            _ => {
                if crate::chars::is_ascii_digit_char(c) {
                    return Ok(AstNode::Backref((c as u32 - '0' as u32) as usize));
                } else {
                    return Ok(AstNode::Literal(c));
                }
            },
        }
    }

    /// Requires the closing `)` of a group at the current position.
    fn expect_close_paren(&mut self) -> (r: Result<(), ParseError>)
        requires
            old(self).wf(),
        ensures
            final(self).input == old(self).input,
            final(self).flags == old(self).flags,
            final(self).group_count == old(self).group_count,
            final(self).group_names == old(self).group_names,
            match r {
                Ok(_) => p_close(old(self).inp(), old(self).st()) matches Ok(st) && final(self).st()
                    == st && final(self).wf(),
                Err(e) => p_close(old(self).inp(), old(self).st()) matches Err(ge) && err_view(e)
                    == ge,
            },
    {
        if self.pos < self.input.len() && self.input[self.pos] == ')' {
            self.pos += 1;
            Ok(())
        } else {
            Err(ParseError::UnmatchedParen)
        }
    }

    /// A single atom at the current position (no quantifier yet).
    #[verifier::rlimit(100)]
    #[verifier::spinoff_prover]
    fn parse_atom(&mut self) -> (r: Result<AstNode, ParseError>)
        requires
            old(self).wf(),
        ensures
            final(self).input == old(self).input,
            final(self).flags == old(self).flags,
            match r {
                Ok(node) => p_atom(old(self).inp(), old(self).pflags(), old(self).st())
                    matches Ok(v) && view_node(node) == v.0 && final(self).st() == v.1 && final(self).wf() && final(self).pos > old(self).pos,
                Err(e) => p_atom(old(self).inp(), old(self).pflags(), old(self).st())
                    matches Err(ge) && err_view(e) == ge,
            },
        decreases self.input@.len() - self.pos, 3int,
    {
        proof {
            crate::ast::lemma_view_units();
        }
        if self.pos >= self.input.len() {
            return Err(ParseError::UnexpectedEof);
        }
        let c = self.input[self.pos];
        if c == '.' {
            self.pos += 1;
            return Ok(AstNode::CharClass(CharClass::Dot));
        } else if c == '^' {
            self.pos += 1;
            return Ok(AstNode::StartAnchor);
        } else if c == '$' {
            self.pos += 1;
            return Ok(AstNode::EndAnchor);
        } else if c == '[' {
            return self.parse_char_class();
        } else if c == '(' {
            return self.parse_group();
        } else if c == '\\' {
            return self.parse_escape();
        } else {
            self.pos += 1;
            return Ok(AstNode::Literal(c));
        }
    }

    /// A group at the current position (on the `(`): capturing, or one of
    /// the `(?` extensions.
    fn parse_group(&mut self) -> (r: Result<AstNode, ParseError>)
        requires
            old(self).wf(),
            old(self).pos < old(self).input@.len(),
        ensures
            final(self).input == old(self).input,
            final(self).flags == old(self).flags,
            match r {
                Ok(node) => p_group(old(self).inp(), old(self).pflags(), old(self).st())
                    matches Ok(v) && view_node(node) == v.0 && final(self).st() == v.1 && final(self).wf() && final(self).pos > old(self).pos,
                Err(e) => p_group(old(self).inp(), old(self).pflags(), old(self).st())
                    matches Err(ge) && err_view(e) == ge,
            },
        decreases self.input@.len() - self.pos, 2int,
    {
        let n = self.input.len();
        let p = self.pos + 1;
        if p < n && self.input[p] == '?' {
            self.pos = p + 1;
            self.parse_extended_group()
        } else {
            self.pos = p;
            self.group_count += 1;
            let index = self.group_count;
            let nodes = match self.parse_alternation() {
                Ok(v) => v,
                Err(e) => return Err(e),
            };
            match self.expect_close_paren() {
                Ok(_) => {},
                Err(e) => return Err(e),
            }
            Ok(AstNode::Group { nodes, name: None, capture: true, index: Some(index) })
        }
    }

    /// A parenthesized body up to and including its `)`.
    fn parse_body(&mut self) -> (r: Result<Vec<AstNode>, ParseError>)
        requires
            old(self).wf(),
        ensures
            final(self).input == old(self).input,
            final(self).flags == old(self).flags,
            match r {
                Ok(nodes) => p_body(old(self).inp(), old(self).pflags(), old(self).st())
                    matches Ok(v) && view_nodes_from(nodes, 0) == v.0 && final(self).st() == v.1
                    && final(self).wf() && final(self).pos > old(self).pos,
                Err(e) => p_body(old(self).inp(), old(self).pflags(), old(self).st())
                    matches Err(ge) && err_view(e) == ge,
            },
        decreases self.input@.len() - self.pos, 7int,
    {
        let nodes = match self.parse_alternation() {
            Ok(v) => v,
            Err(e) => return Err(e),
        };
        match self.expect_close_paren() {
            Ok(_) => {},
            Err(e) => return Err(e),
        }
        Ok(nodes)
    }

    /// The `(?` extensions: non-capturing group, named capture, lookahead
    /// and lookbehind.
    #[verifier::rlimit(60)]
    fn parse_extended_group(&mut self) -> (r: Result<AstNode, ParseError>)
        requires
            old(self).wf(),
        ensures
            final(self).input == old(self).input,
            final(self).flags == old(self).flags,
            match r {
                Ok(node) => p_ext_group(old(self).inp(), old(self).pflags(), old(self).st())
                    matches Ok(v) && view_node(node) == v.0 && final(self).st() == v.1 && final(self).wf() && final(self).pos > old(self).pos,
                Err(e) => p_ext_group(old(self).inp(), old(self).pflags(), old(self).st())
                    matches Err(ge) && err_view(e) == ge,
            },
        decreases self.input@.len() - self.pos, 1int,
    {
        let n = self.input.len();
        if self.pos >= n {
            return Err(ParseError::InvalidGroup("Unknown extension ?".to_owned()));
        }
        let c = self.input[self.pos];
        if c == ':' {
            self.pos += 1;
            let nodes = match self.parse_body() {
                Ok(v) => v,
                Err(e) => return Err(e),
            };
            Ok(AstNode::Group { nodes, name: None, capture: false, index: None })
        } else if c == '<' {
            let p = self.pos + 1;
            if p < n && self.input[p] == '=' {
                self.pos = p + 1;
                let nodes = match self.parse_body() {
                Ok(v) => v,
                Err(e) => return Err(e),
            };
                Ok(AstNode::LookBehind { nodes, positive: true })
            } else if p < n && self.input[p] == '!' {
                self.pos = p + 1;
                let nodes = match self.parse_body() {
                Ok(v) => v,
                Err(e) => return Err(e),
            };
                Ok(AstNode::LookBehind { nodes, positive: false })
            } else {
                self.pos = p;
                let name = match self.parse_group_name() {
                    Ok(v) => v,
                    Err(e) => return Err(e),
                };
                if !(self.pos < n && self.input[self.pos] == '>') {
                    return Err(ParseError::InvalidGroupName("expected '>'".to_owned()));
                }
                if self.name_seen(name.as_str()) {
                    return Err(ParseError::DuplicateGroupName(name));
                }
                self.pos += 1;
                self.group_count += 1;
                let index = self.group_count;
                let ghost names0 = self.group_names;
                self.group_names.push(name.clone());
                proof {
                    assert(names_view(self.group_names) =~= names_view(names0).push(name@));
                }
                let nodes = match self.parse_body() {
                Ok(v) => v,
                Err(e) => return Err(e),
            };
                Ok(AstNode::Group { nodes, name: Some(name), capture: true, index: Some(index) })
            }
        } else if c == '>' {
            let p = self.pos + 1;
            if p < n && self.input[p] == '=' {
                self.pos = p + 1;
                let nodes = match self.parse_body() {
                Ok(v) => v,
                Err(e) => return Err(e),
            };
                Ok(AstNode::LookAhead { nodes, positive: true })
            } else if p < n && self.input[p] == '!' {
                self.pos = p + 1;
                let nodes = match self.parse_body() {
                Ok(v) => v,
                Err(e) => return Err(e),
            };
                Ok(AstNode::LookAhead { nodes, positive: false })
            } else {
                Err(ParseError::InvalidGroup("Expected = or ! after ?>".to_owned()))
            }
        } else {
            Err(ParseError::InvalidGroup("Unknown extension ?".to_owned()))
        }
    }

    /// A bounded quantifier `{ ... }` applied to `node`, positioned on the
    /// `{`.
    fn parse_bounded_quantifier(&mut self, node: AstNode) -> (r: Result<AstNode, ParseError>)
        requires
            old(self).wf(),
            old(self).pos < old(self).input@.len(),
        ensures
            final(self).input == old(self).input,
            final(self).flags == old(self).flags,
            final(self).group_count == old(self).group_count,
            final(self).group_names == old(self).group_names,
            match r {
                Ok(node2) => p_bounded(old(self).inp(), view_node(node), old(self).st())
                    matches Ok(v) && view_node(node2) == v.0 && final(self).st() == v.1 && final(self).wf() && final(self).pos > old(self).pos,
                Err(e) => p_bounded(old(self).inp(), view_node(node), old(self).st())
                    matches Err(ge) && err_view(e) == ge,
            },
    {
        let n = self.input.len();
        proof {
            assert(old(self).pos < n);
        }
        self.pos += 1;
        let min = if self.pos < n && self.input[self.pos] == ',' {
            0
        } else {
            match self.parse_number() {
                Ok(v) => v,
                Err(e) => return Err(e),
            }
        };
        if self.pos < n && self.input[self.pos] == ',' {
            self.pos += 1;
            let max = if self.pos < n && self.input[self.pos] == '}' {
                None
            } else {
                match self.parse_number() {
                    Ok(v) => Some(v),
                    Err(e) => return Err(e),
                }
            };
            if !(self.pos < n && self.input[self.pos] == '}') {
                return Err(ParseError::InvalidQuantifier("expected '}'".to_owned()));
            }
            self.pos += 1;
            let greedy = !(self.pos < n && self.input[self.pos] == '?');
            if !greedy {
                self.pos += 1;
            }
            Ok(AstNode::Range { node: Box::new(node), min, max, greedy })
        } else if self.pos < n && self.input[self.pos] == '}' {
            self.pos += 1;
            Ok(AstNode::Exact { node: Box::new(node), count: min })
        } else {
            Err(ParseError::InvalidQuantifier("expected ',' or '}'".to_owned()))
        }
    }

    /// The quantifier, if any, following an atom: `*`, `+`, `?` or a
    /// bounded form, each with an optional lazy `?`.
    fn apply_quantifier(&mut self, node: AstNode) -> (r: Result<AstNode, ParseError>)
        requires
            old(self).wf(),
        ensures
            final(self).input == old(self).input,
            final(self).flags == old(self).flags,
            final(self).group_count == old(self).group_count,
            final(self).group_names == old(self).group_names,
            match r {
                Ok(node2) => p_apply_quant(
                    old(self).inp(),
                    old(self).pflags(),
                    view_node(node),
                    old(self).st(),
                ) matches Ok(v) && view_node(node2) == v.0 && final(self).st() == v.1 && final(self).wf() && final(self).pos >= old(self).pos,
                Err(e) => p_apply_quant(
                    old(self).inp(),
                    old(self).pflags(),
                    view_node(node),
                    old(self).st(),
                ) matches Err(ge) && err_view(e) == ge,
            },
    {
        self.skip_ws();
        let n = self.input.len();
        if self.pos >= n {
            return Ok(node);
        }
        let c = self.input[self.pos];
        if c == '*' || c == '+' || c == '?' {
            self.pos += 1;
            let greedy = !(self.pos < n && self.input[self.pos] == '?');
            if !greedy {
                self.pos += 1;
            }
            if c == '*' {
                Ok(AstNode::ZeroOrMore { node: Box::new(node), greedy })
            } else if c == '+' {
                Ok(AstNode::OneOrMore { node: Box::new(node), greedy })
            } else {
                Ok(AstNode::Optional { node: Box::new(node), greedy })
            }
        } else if c == '{' {
            self.parse_bounded_quantifier(node)
        } else {
            Ok(node)
        }
    }

    /// A sequence of quantified atoms, up to `|`, `)` or the end.
    fn parse_sequence(&mut self) -> (r: Result<Vec<AstNode>, ParseError>)
        requires
            old(self).wf(),
        ensures
            final(self).input == old(self).input,
            final(self).flags == old(self).flags,
            match r {
                Ok(nodes) => p_sequence(old(self).inp(), old(self).pflags(), old(self).st())
                    matches Ok(v) && view_nodes_from(nodes, 0) == v.0 && final(self).st() == v.1
                    && final(self).wf() && final(self).pos >= old(self).pos,
                Err(e) => p_sequence(old(self).inp(), old(self).pflags(), old(self).st())
                    matches Err(ge) && err_view(e) == ge,
            },
        decreases self.input@.len() - self.pos, 4int,
    {
        self.skip_ws();
        let n = self.input.len();
        if self.pos >= n || self.input[self.pos] == '|' || self.input[self.pos] == ')' {
            let r: Vec<AstNode> = Vec::new();
            proof {
                assert(view_nodes_from(r, 0) =~= Seq::<GNode>::empty());
            }
            return Ok(r);
        }
        let node = match self.parse_atom() {
            Ok(v) => v,
            Err(e) => return Err(e),
        };
        let node2 = match self.apply_quantifier(node) {
            Ok(v) => v,
            Err(e) => return Err(e),
        };
        let mut rest = match self.parse_sequence() {
            Ok(v) => v,
            Err(e) => return Err(e),
        };
        let ghost rest0 = rest;
        let ghost node2v = node2;
        let mut out: Vec<AstNode> = Vec::new();
        out.push(node2);
        out.append(&mut rest);
        proof {
            assert(out@ =~= seq![node2v] + rest0@);
            assert(out@[0] == node2v);
            assert forall|d: int| 0 <= d < out@.len() - 1 implies out@[1 + d] == #[trigger] rest0@[0
                + d] by {}
            lemma_view_nodes_agree(rest0, out, 1, 0);
            assert(view_nodes_from(out, 0) =~= seq![view_node(node2v)] + view_nodes_from(rest0, 0));
        }
        Ok(out)
    }

    /// The `|`-separated branches from the current position on.
    fn parse_branches(&mut self) -> (r: Result<Vec<Vec<AstNode>>, ParseError>)
        requires
            old(self).wf(),
        ensures
            final(self).input == old(self).input,
            final(self).flags == old(self).flags,
            match r {
                Ok(bs) => p_branches(old(self).inp(), old(self).pflags(), old(self).st())
                    matches Ok(v) && view_alts_from(bs, 0) == v.0 && final(self).st() == v.1
                    && final(self).wf() && final(self).pos >= old(self).pos,
                Err(e) => p_branches(old(self).inp(), old(self).pflags(), old(self).st())
                    matches Err(ge) && err_view(e) == ge,
            },
        decreases self.input@.len() - self.pos, 5int,
    {
        let first = match self.parse_sequence() {
            Ok(v) => v,
            Err(e) => return Err(e),
        };
        if self.pos < self.input.len() && self.input[self.pos] == '|' {
            self.pos += 1;
            let mut rest = match self.parse_branches() {
            Ok(v) => v,
            Err(e) => return Err(e),
        };
            let ghost rest0 = rest;
            let ghost firstv = first;
            let mut out: Vec<Vec<AstNode>> = Vec::new();
            out.push(first);
            out.append(&mut rest);
            proof {
                assert(out@ =~= seq![firstv] + rest0@);
                assert(out@[0] == firstv);
                assert forall|d: int| 0 <= d < out@.len() - 1 implies out@[1 + d]
                    == #[trigger] rest0@[0 + d] by {}
                lemma_view_alts_agree(rest0, out, 1, 0);
                assert(view_alts_from(out, 0) =~= seq![
                    view_nodes_from(firstv, 0),
                ] + view_alts_from(rest0, 0));
            }
            Ok(out)
        } else {
            let mut out: Vec<Vec<AstNode>> = Vec::new();
            out.push(first);
            proof {
                assert(view_alts_from(out, 1) =~= Seq::<Seq<GNode>>::empty());
                assert(view_alts_from(out, 0) =~= seq![view_nodes_from(out@[0], 0)]);
            }
            Ok(out)
        }
    }

    /// The top level of the grammar: `|`-separated branches; one branch
    /// stays a plain sequence, several become one alternation node.
    #[verifier::rlimit(100)]
    fn parse_alternation(&mut self) -> (r: Result<Vec<AstNode>, ParseError>)
        requires
            old(self).wf(),
        ensures
            final(self).input == old(self).input,
            final(self).flags == old(self).flags,
            match r {
                Ok(nodes) => p_alternation(old(self).inp(), old(self).pflags(), old(self).st())
                    matches Ok(v) && view_nodes_from(nodes, 0) == v.0 && final(self).st() == v.1
                    && final(self).wf() && final(self).pos >= old(self).pos,
                Err(e) => p_alternation(old(self).inp(), old(self).pflags(), old(self).st())
                    matches Err(ge) && err_view(e) == ge,
            },
        decreases self.input@.len() - self.pos, 6int,
    {
        let mut branches = match self.parse_branches() {
            Ok(v) => v,
            Err(e) => return Err(e),
        };
        if branches.len() == 1 {
            let ghost bs0 = branches;
            let first = branches.remove(0);
            proof {
                assert(view_alts_from(bs0, 0)[0] == view_nodes_from(bs0@[0], 0));
                assert(first == bs0@[0]);
            }
            Ok(first)
        } else {
            let node = AstNode::Alternation(branches);
            let mut out: Vec<AstNode> = Vec::new();
            out.push(node);
            proof {
                assert(view_nodes_from(out, 1) =~= Seq::<GNode>::empty());
                assert(view_nodes_from(out, 0) =~= seq![view_node(out@[0])]);
            }
            Ok(out)
        }
    }

    /// True when the name is already among the group names seen.
    fn name_seen(&self, name: &str) -> (r: bool)
        ensures
            r == name_in(names_view(self.group_names), name@),
    {
        let mut i: usize = 0;
        while i < self.group_names.len()
            invariant
                0 <= i <= self.group_names@.len(),
                forall|j: int| 0 <= j < i ==> names_view(self.group_names)[j] != name@,
            decreases self.group_names@.len() - i,
        {
            if crate::chars::str_eq(self.group_names[i].as_str(), name) {
                proof {
                    assert(names_view(self.group_names)[i as int] == name@);
                }
                return true;
            }
            i += 1;
        }
        false
    }
}

} // verus!

verus! {




} // verus!
