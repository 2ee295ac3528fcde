//! The syntax tree of a compiled pattern.

use vstd::prelude::*;

verus! {

/// A class of characters that a single input character is tested against.
#[derive(Debug, PartialEq)]
pub enum CharClass {
    /// Digit `\d` (ASCII `[0-9]`).
    Digit,
    /// Non-digit `\D`.
    NonDigit,
    /// Word character `\w` (alphanumeric or `_`).
    Word,
    /// Non-word character `\W`.
    NonWord,
    /// Whitespace `\s`.
    Whitespace,
    /// Non-whitespace `\S`.
    NonWhitespace,
    /// Lowercase character `\l`.
    Lowercase,
    /// Non-lowercase character `\L`.
    NonLowercase,
    /// Uppercase character `\u`.
    Uppercase,
    /// Non-uppercase character `\U`.
    NonUppercase,
    /// Hexadecimal digit `\x`.
    Hex,
    /// Non-hexadecimal digit `\X`.
    NonHex,
    /// Octal digit `\o`.
    Octal,
    /// Non-octal digit `\O`.
    NonOctal,
    /// Start-of-word character `\h` (alphabetic or `_`).
    WordStart,
    /// Non-start-of-word character `\H`.
    NonWordStart,
    /// ASCII punctuation `\p`.
    Punctuation,
    /// Non-punctuation `\P`.
    NonPunctuation,
    /// Alphanumeric `\a`.
    Alphanumeric,
    /// Non-alphanumeric `\A`.
    NonAlphanumeric,
    /// Custom character set `[...]`.
    CharSet {
        /// The inclusive ranges included in the set.
        chars: Vec<CharRange>,
        /// Whether the set is negated `[^...]`.
        negated: bool,
    },
    /// Dot `.`: any character except newline, or any character in dotall mode.
    Dot,
}

/// An inclusive range of characters in a custom character set.
#[derive(Debug, Clone, Copy, PartialEq)]
pub struct CharRange {
    /// Start of the range.
    pub start: char,
    /// End of the range.
    pub end: char,
}

/// A node in the syntax tree of a regular expression.
#[derive(Debug, PartialEq)]
pub enum AstNode {
    /// A literal character match.
    Literal(char),
    /// A character class (e.g. `\d`, `[a-z]`, `.`).
    CharClass(CharClass),
    /// Start of string (or line in multiline mode) anchor `^`.
    StartAnchor,
    /// End of string (or line in multiline mode) anchor `$`.
    EndAnchor,
    /// Word boundary anchor `\b`.
    WordBoundary,
    /// Start of word anchor `\<`.
    StartWord,
    /// End of word anchor `\>`.
    EndWord,
    /// Overrides the reported start of the match `\zs`.
    SetMatchStart,
    /// Overrides the reported end of the match `\ze`.
    SetMatchEnd,
    /// Zero or more repetitions `*`.
    ZeroOrMore {
        /// The node being repeated.
        node: Box<AstNode>,
        /// Whether the quantifier is greedy (default) or lazy (`?`).
        greedy: bool,
    },
    /// One or more repetitions `+`.
    OneOrMore {
        /// The node being repeated.
        node: Box<AstNode>,
        /// Whether the quantifier is greedy (default) or lazy (`?`).
        greedy: bool,
    },
    /// Zero or one repetition `?`.
    Optional {
        /// The node being repeated.
        node: Box<AstNode>,
        /// Whether the quantifier is greedy (default) or lazy (`?`).
        greedy: bool,
    },
    /// Exact number of repetitions `{n}`.
    Exact {
        /// The node being repeated.
        node: Box<AstNode>,
        /// The exact count.
        count: usize,
    },
    /// Range of repetitions `{n,m}` or `{n,}`.
    Range {
        /// The node being repeated.
        node: Box<AstNode>,
        /// The minimum count.
        min: usize,
        /// The maximum count (`None` means unbounded).
        max: Option<usize>,
        /// Whether the quantifier is greedy (default) or lazy (`?`).
        greedy: bool,
    },
    /// A capturing or non-capturing group `(...)`.
    Group {
        /// The sequence of nodes inside the group.
        nodes: Vec<AstNode>,
        /// The name of the group for a named capture `(?<name>...)`.
        name: Option<String>,
        /// Whether this group captures text.
        capture: bool,
        /// The 1-based index of the capture group, if capturing.
        index: Option<usize>,
    },
    /// Alternation `|`: an ordered list of branches.
    Alternation(Vec<Vec<AstNode>>),
    /// Backreference to a captured group `\n`.
    Backref(usize),
    /// Lookahead assertion `(?>=...)` or `(?>!...)`.
    LookAhead {
        /// The sequence of nodes to check ahead.
        nodes: Vec<AstNode>,
        /// True for positive lookahead, false for negative.
        positive: bool,
    },
    /// Lookbehind assertion `(?<=...)` or `(?<!...)`.
    LookBehind {
        /// The sequence of nodes to check behind.
        nodes: Vec<AstNode>,
        /// True for positive lookbehind, false for negative.
        positive: bool,
    },
}

/// Structural size of a node: the measure that recursions over the tree
/// decrease. Composite nodes weigh two so that a recursion may step from a
/// node to its body plus a strictly smaller remainder.
pub open spec fn node_size(n: AstNode) -> nat
    decreases n, 0int,
{
    match n {
        AstNode::ZeroOrMore { node, .. } => 2 + node_size(*node),
        AstNode::OneOrMore { node, .. } => 2 + node_size(*node),
        AstNode::Optional { node, .. } => 2 + node_size(*node),
        AstNode::Exact { node, .. } => 2 + node_size(*node),
        AstNode::Range { node, .. } => 2 + node_size(*node),
        AstNode::Group { nodes, .. } => 2 + nodes_size_from(nodes, 0),
        AstNode::Alternation(alts) => 2 + alts_size_from(alts, 0),
        AstNode::LookAhead { nodes, .. } => 2 + nodes_size_from(nodes, 0),
        AstNode::LookBehind { nodes, .. } => 2 + nodes_size_from(nodes, 0),
        _ => 1,
    }
}

/// Structural size of the nodes of `v` from index `i` on.
pub open spec fn nodes_size_from(v: Vec<AstNode>, i: int) -> nat
    decreases v, v.len() - i,
{
    if 0 <= i < v.len() {
        node_size(v[i]) + nodes_size_from(v, i + 1)
    } else {
        0
    }
}

/// Structural size of the alternation branches of `v` from index `i` on.
pub open spec fn alts_size_from(v: Vec<Vec<AstNode>>, i: int) -> nat
    decreases v, v.len() - i,
{
    if 0 <= i < v.len() {
        1 + nodes_size_from(v[i], 0) + alts_size_from(v, i + 1)
    } else {
        0
    }
}

/// A character class as contracts see it: the custom set's ranges as a
/// sequence.
pub enum GClass {
    /// Digit `\d`.
    Digit,
    /// Non-digit `\D`.
    NonDigit,
    /// Word character `\w`.
    Word,
    /// Non-word character `\W`.
    NonWord,
    /// Whitespace `\s`.
    Whitespace,
    /// Non-whitespace `\S`.
    NonWhitespace,
    /// Lowercase `\l`.
    Lowercase,
    /// Non-lowercase `\L`.
    NonLowercase,
    /// Uppercase `\u`.
    Uppercase,
    /// Non-uppercase `\U`.
    NonUppercase,
    /// Hexadecimal digit `\x`.
    Hex,
    /// Non-hexadecimal digit `\X`.
    NonHex,
    /// Octal digit `\o`.
    Octal,
    /// Non-octal digit `\O`.
    NonOctal,
    /// Start-of-word character `\h`.
    WordStart,
    /// Non-start-of-word character `\H`.
    NonWordStart,
    /// Punctuation `\p`.
    Punctuation,
    /// Non-punctuation `\P`.
    NonPunctuation,
    /// Alphanumeric `\a`.
    Alphanumeric,
    /// Non-alphanumeric `\A`.
    NonAlphanumeric,
    /// Custom character set `[...]`.
    CharSet {
        /// The inclusive ranges included in the set.
        chars: Seq<CharRange>,
        /// Whether the set is negated.
        negated: bool,
    },
    /// Dot `.`.
    Dot,
}

/// A syntax-tree node as contracts see it: children are sequences, names
/// are character sequences.
pub enum GNode {
    /// A literal character match.
    Literal(char),
    /// A character class.
    CharClass(GClass),
    /// `^`.
    StartAnchor,
    /// `$`.
    EndAnchor,
    /// `\b`.
    WordBoundary,
    /// `\<`.
    StartWord,
    /// `\>`.
    EndWord,
    /// `\zs`.
    SetMatchStart,
    /// `\ze`.
    SetMatchEnd,
    /// `*`: the single inner node, and the greedy flag.
    ZeroOrMore {
        /// The repeated node, alone in its sequence.
        node: Seq<GNode>,
        /// Greedy or lazy.
        greedy: bool,
    },
    /// `+`.
    OneOrMore {
        /// The repeated node, alone in its sequence.
        node: Seq<GNode>,
        /// Greedy or lazy.
        greedy: bool,
    },
    /// `?`.
    Optional {
        /// The repeated node, alone in its sequence.
        node: Seq<GNode>,
        /// Greedy or lazy.
        greedy: bool,
    },
    /// `{n}`.
    Exact {
        /// The repeated node, alone in its sequence.
        node: Seq<GNode>,
        /// The exact count.
        count: usize,
    },
    /// `{n,m}` or `{n,}`.
    Range {
        /// The repeated node, alone in its sequence.
        node: Seq<GNode>,
        /// The minimum count.
        min: usize,
        /// The maximum count, `None` for unbounded.
        max: Option<usize>,
        /// Greedy or lazy.
        greedy: bool,
    },
    /// A group.
    Group {
        /// The nodes inside the group.
        nodes: Seq<GNode>,
        /// The group's name, if named.
        name: Option<Seq<char>>,
        /// Whether the group captures.
        capture: bool,
        /// The capture index, if capturing.
        index: Option<usize>,
    },
    /// Alternation.
    Alternation(Seq<Seq<GNode>>),
    /// Backreference.
    Backref(usize),
    /// Lookahead.
    LookAhead {
        /// The nodes checked ahead.
        nodes: Seq<GNode>,
        /// Positive or negative.
        positive: bool,
    },
    /// Lookbehind.
    LookBehind {
        /// The nodes checked behind.
        nodes: Seq<GNode>,
        /// Positive or negative.
        positive: bool,
    },
}

/// A character class as contracts see it.
pub open spec fn view_class(k: CharClass) -> GClass {
    match k {
        CharClass::Digit => GClass::Digit,
        CharClass::NonDigit => GClass::NonDigit,
        CharClass::Word => GClass::Word,
        CharClass::NonWord => GClass::NonWord,
        CharClass::Whitespace => GClass::Whitespace,
        CharClass::NonWhitespace => GClass::NonWhitespace,
        CharClass::Lowercase => GClass::Lowercase,
        CharClass::NonLowercase => GClass::NonLowercase,
        CharClass::Uppercase => GClass::Uppercase,
        CharClass::NonUppercase => GClass::NonUppercase,
        CharClass::Hex => GClass::Hex,
        CharClass::NonHex => GClass::NonHex,
        CharClass::Octal => GClass::Octal,
        CharClass::NonOctal => GClass::NonOctal,
        CharClass::WordStart => GClass::WordStart,
        CharClass::NonWordStart => GClass::NonWordStart,
        CharClass::Punctuation => GClass::Punctuation,
        CharClass::NonPunctuation => GClass::NonPunctuation,
        CharClass::Alphanumeric => GClass::Alphanumeric,
        CharClass::NonAlphanumeric => GClass::NonAlphanumeric,
        CharClass::CharSet { chars, negated } => GClass::CharSet { chars: chars@, negated },
        CharClass::Dot => GClass::Dot,
    }
}

/// A syntax-tree node as contracts see it.
pub open spec fn view_node(n: AstNode) -> GNode
    decreases n, 0int,
{
    match n {
        AstNode::Literal(c) => GNode::Literal(c),
        AstNode::CharClass(k) => GNode::CharClass(view_class(k)),
        AstNode::StartAnchor => GNode::StartAnchor,
        AstNode::EndAnchor => GNode::EndAnchor,
        AstNode::WordBoundary => GNode::WordBoundary,
        AstNode::StartWord => GNode::StartWord,
        AstNode::EndWord => GNode::EndWord,
        AstNode::SetMatchStart => GNode::SetMatchStart,
        AstNode::SetMatchEnd => GNode::SetMatchEnd,
        AstNode::ZeroOrMore { node, greedy } => GNode::ZeroOrMore {
            node: seq![view_node(*node)],
            greedy,
        },
        AstNode::OneOrMore { node, greedy } => GNode::OneOrMore {
            node: seq![view_node(*node)],
            greedy,
        },
        AstNode::Optional { node, greedy } => GNode::Optional {
            node: seq![view_node(*node)],
            greedy,
        },
        AstNode::Exact { node, count } => GNode::Exact { node: seq![view_node(*node)], count },
        AstNode::Range { node, min, max, greedy } => GNode::Range {
            node: seq![view_node(*node)],
            min,
            max,
            greedy,
        },
        AstNode::Group { nodes, name, capture, index } => GNode::Group {
            nodes: view_nodes_from(nodes, 0),
            name: match name {
                Some(s) => Some(s@),
                None => None,
            },
            capture,
            index,
        },
        AstNode::Alternation(alts) => GNode::Alternation(view_alts_from(alts, 0)),
        AstNode::Backref(k) => GNode::Backref(k),
        AstNode::LookAhead { nodes, positive } => GNode::LookAhead {
            nodes: view_nodes_from(nodes, 0),
            positive,
        },
        AstNode::LookBehind { nodes, positive } => GNode::LookBehind {
            nodes: view_nodes_from(nodes, 0),
            positive,
        },
    }
}

/// The nodes of `v` from index `i` on, as contracts see them.
pub open spec fn view_nodes_from(v: Vec<AstNode>, i: int) -> Seq<GNode>
    decreases v, v.len() - i,
{
    if 0 <= i < v.len() {
        seq![view_node(v[i])] + view_nodes_from(v, i + 1)
    } else {
        Seq::empty()
    }
}

/// The whole of `v`, as contracts see it.
pub open spec fn view_nodes(v: Vec<AstNode>) -> Seq<GNode> {
    view_nodes_from(v, 0)
}

/// The branches of `v` from index `i` on, as contracts see them.
pub open spec fn view_alts_from(v: Vec<Vec<AstNode>>, i: int) -> Seq<Seq<GNode>>
    decreases v, v.len() - i,
{
    if 0 <= i < v.len() {
        seq![view_nodes_from(v[i], 0)] + view_alts_from(v, i + 1)
    } else {
        Seq::empty()
    }
}

/// `view_nodes` of a vector with one more node appended.
pub proof fn lemma_view_nodes_push(v: Vec<AstNode>, w: Vec<AstNode>, n: AstNode, i: int)
    requires
        w@ == v@.push(n),
        0 <= i <= v.len(),
    ensures
        view_nodes_from(w, i) == view_nodes_from(v, i).push(view_node(n)),
    decreases v.len() - i,
{
    if i < v.len() {
        lemma_view_nodes_push(v, w, n, i + 1);
        assert(w[i] == v[i]);
        assert(view_nodes_from(w, i) =~= view_nodes_from(v, i).push(view_node(n)));
    } else {
        assert(w[i] == n);
        assert(view_nodes_from(w, i + 1) =~= Seq::<GNode>::empty());
        assert(view_nodes_from(w, i) =~= view_nodes_from(v, i).push(view_node(n)));
    }
}

/// `view_alts_from` of a vector with one more branch appended.
pub proof fn lemma_view_alts_push(
    v: Vec<Vec<AstNode>>,
    w: Vec<Vec<AstNode>>,
    b: Vec<AstNode>,
    i: int,
)
    requires
        w@ == v@.push(b),
        0 <= i <= v.len(),
    ensures
        view_alts_from(w, i) == view_alts_from(v, i).push(view_nodes_from(b, 0)),
    decreases v.len() - i,
{
    if i < v.len() {
        lemma_view_alts_push(v, w, b, i + 1);
        assert(w[i] == v[i]);
        assert(view_alts_from(w, i) =~= view_alts_from(v, i).push(view_nodes_from(b, 0)));
    } else {
        assert(w[i] == b);
        assert(view_alts_from(w, i + 1) =~= Seq::<Seq<GNode>>::empty());
        assert(view_alts_from(w, i) =~= view_alts_from(v, i).push(view_nodes_from(b, 0)));
    }
}

/// How `view_node` acts on a literal.
pub broadcast proof fn lemma_view_literal(ch: char)
    ensures
        #[trigger] view_node(AstNode::Literal(ch)) == GNode::Literal(ch),
{
}

/// How `view_node` acts on a backreference.
pub broadcast proof fn lemma_view_backref(k: usize)
    ensures
        #[trigger] view_node(AstNode::Backref(k)) == GNode::Backref(k),
{
}

/// How `view_node` acts on a character class.
pub broadcast proof fn lemma_view_charclass(k: CharClass)
    ensures
        #[trigger] view_node(AstNode::CharClass(k)) == GNode::CharClass(view_class(k)),
{
}

/// How `view_node` acts on a group.
pub broadcast proof fn lemma_view_group(
    nodes: Vec<AstNode>,
    name: Option<String>,
    capture: bool,
    index: Option<usize>,
)
    ensures
        #[trigger] view_node(AstNode::Group { nodes, name, capture, index }) == (GNode::Group {
            nodes: view_nodes_from(nodes, 0),
            name: match name {
                Some(s) => Some(s@),
                None => None,
            },
            capture,
            index,
        }),
{
}

/// How `view_node` acts on an alternation.
pub broadcast proof fn lemma_view_alternation(alts: Vec<Vec<AstNode>>)
    ensures
        #[trigger] view_node(AstNode::Alternation(alts)) == GNode::Alternation(
            view_alts_from(alts, 0),
        ),
{
}

/// How `view_node` acts on the lookaround nodes.
pub broadcast proof fn lemma_view_lookaround(nodes: Vec<AstNode>, positive: bool)
    ensures
        #[trigger] view_node(AstNode::LookAhead { nodes, positive }) == (GNode::LookAhead {
            nodes: view_nodes_from(nodes, 0),
            positive,
        }),
        #[trigger] view_node(AstNode::LookBehind { nodes, positive }) == (GNode::LookBehind {
            nodes: view_nodes_from(nodes, 0),
            positive,
        }),
{
}

/// How `view_node` acts on the quantifier nodes.
pub broadcast proof fn lemma_view_quant(node: Box<AstNode>, greedy: bool, k: usize, m: Option<usize>)
    ensures
        #[trigger] view_node(AstNode::ZeroOrMore { node, greedy }) == (GNode::ZeroOrMore {
            node: seq![view_node(*node)],
            greedy,
        }),
        #[trigger] view_node(AstNode::OneOrMore { node, greedy }) == (GNode::OneOrMore {
            node: seq![view_node(*node)],
            greedy,
        }),
        #[trigger] view_node(AstNode::Optional { node, greedy }) == (GNode::Optional {
            node: seq![view_node(*node)],
            greedy,
        }),
        #[trigger] view_node(AstNode::Exact { node, count: k }) == (GNode::Exact {
            node: seq![view_node(*node)],
            count: k,
        }),
        #[trigger] view_node(AstNode::Range { node, min: k, max: m, greedy }) == (GNode::Range {
            node: seq![view_node(*node)],
            min: k,
            max: m,
            greedy,
        }),
{
}

/// The length of a node-sequence view.
pub broadcast proof fn lemma_view_nodes_len(v: Vec<AstNode>, i: int)
    ensures
        #[trigger] view_nodes_from(v, i).len() == if 0 <= i <= v@.len() {
            v@.len() - i
        } else {
            0
        },
    decreases v@.len() - i,
{
    if 0 <= i < v@.len() {
        lemma_view_nodes_len(v, i + 1);
    }
}

/// The length of a branch-sequence view.
pub broadcast proof fn lemma_view_alts_len(v: Vec<Vec<AstNode>>, i: int)
    ensures
        #[trigger] view_alts_from(v, i).len() == if 0 <= i <= v@.len() {
            v@.len() - i
        } else {
            0
        },
    decreases v@.len() - i,
{
    if 0 <= i < v@.len() {
        lemma_view_alts_len(v, i + 1);
    }
}

/// How `view_node` acts on the zero-width nodes.
pub proof fn lemma_view_units()
    ensures
        view_node(AstNode::StartAnchor) == GNode::StartAnchor,
        view_node(AstNode::EndAnchor) == GNode::EndAnchor,
        view_node(AstNode::WordBoundary) == GNode::WordBoundary,
        view_node(AstNode::StartWord) == GNode::StartWord,
        view_node(AstNode::EndWord) == GNode::EndWord,
        view_node(AstNode::SetMatchStart) == GNode::SetMatchStart,
        view_node(AstNode::SetMatchEnd) == GNode::SetMatchEnd,
{
}

/// Two vectors whose tails agree element for element have the same node
/// views from there on.
pub proof fn lemma_view_nodes_agree(v: Vec<AstNode>, w: Vec<AstNode>, i: int, j: int)
    requires
        0 <= i <= w@.len(),
        0 <= j <= v@.len(),
        w@.len() - i == v@.len() - j,
        forall|d: int| 0 <= d < w@.len() - i ==> w@[i + d] == #[trigger] v@[j + d],
    ensures
        view_nodes_from(w, i) == view_nodes_from(v, j),
    decreases w@.len() - i,
{
    if i < w@.len() {
        assert(w@[i + 0] == v@[j + 0]);
        assert forall|d: int| 0 <= d < w@.len() - (i + 1) implies w@[i + 1 + d] == #[trigger] v@[j
            + 1 + d] by {
            assert(w@[i + (d + 1)] == v@[j + (d + 1)]);
        }
        lemma_view_nodes_agree(v, w, i + 1, j + 1);
        assert(view_nodes_from(w, i) =~= view_nodes_from(v, j));
    } else {
        assert(view_nodes_from(w, i) =~= view_nodes_from(v, j));
    }
}

/// Two vectors whose tails agree element for element have the same branch
/// views from there on.
pub proof fn lemma_view_alts_agree(v: Vec<Vec<AstNode>>, w: Vec<Vec<AstNode>>, i: int, j: int)
    requires
        0 <= i <= w@.len(),
        0 <= j <= v@.len(),
        w@.len() - i == v@.len() - j,
        forall|d: int| 0 <= d < w@.len() - i ==> w@[i + d] == #[trigger] v@[j + d],
    ensures
        view_alts_from(w, i) == view_alts_from(v, j),
    decreases w@.len() - i,
{
    if i < w@.len() {
        assert(w@[i + 0] == v@[j + 0]);
        assert forall|d: int| 0 <= d < w@.len() - (i + 1) implies w@[i + 1 + d] == #[trigger] v@[j
            + 1 + d] by {
            assert(w@[i + (d + 1)] == v@[j + (d + 1)]);
        }
        lemma_view_alts_agree(v, w, i + 1, j + 1);
        assert(view_alts_from(w, i) =~= view_alts_from(v, j));
    } else {
        assert(view_alts_from(w, i) =~= view_alts_from(v, j));
    }
}

/// Every node weighs at least one.
pub proof fn lemma_node_size_pos(n: AstNode)
    ensures
        node_size(n) >= 1,
{
}

/// One step of `nodes_size_from`: the head node's weight plus the rest.
pub broadcast proof fn lemma_nodes_size_unfold(v: Vec<AstNode>, i: int)
    requires
        0 <= i < v.len(),
    ensures
        #[trigger] nodes_size_from(v, i) == node_size(v[i]) + nodes_size_from(v, i + 1),
        nodes_size_from(v, i) >= 1 + nodes_size_from(v, i + 1),
{
    lemma_node_size_pos(v[i]);
}

/// One step of `alts_size_from`: the head branch's weight plus the rest.
pub broadcast proof fn lemma_alts_size_unfold(v: Vec<Vec<AstNode>>, i: int)
    requires
        0 <= i < v.len(),
    ensures
        #[trigger] alts_size_from(v, i) == 1 + nodes_size_from(v[i], 0) + alts_size_from(v, i + 1),
{
}

} // verus!
