//! Character classification, case folding, and text conversion helpers.
//!
//! The Unicode-table predicates of the host runtime (alphanumeric,
//! alphabetic, whitespace, lowercase, uppercase, and the lowercase fold) are
//! reached through trusted wrappers; their results are named by
//! uninterpreted spec functions, since the tables themselves are not
//! restated here. The ASCII classes are implemented and proved directly.

use vstd::prelude::*;

verus! {

use vstd::string::StrSliceExecFns;
use vstd::string::StringSliceAdditionalSpecFns;

/// What `char::is_alphanumeric` returns: membership in the Unicode
/// alphabetic and numeric categories, a function of the character alone.
pub uninterp spec fn unicode_alphanumeric(c: char) -> bool;

/// What `char::is_alphabetic` returns.
pub uninterp spec fn unicode_alphabetic(c: char) -> bool;

/// What `char::is_whitespace` returns.
pub uninterp spec fn unicode_whitespace(c: char) -> bool;

/// What `char::is_lowercase` returns.
pub uninterp spec fn unicode_lowercase(c: char) -> bool;

/// What `char::is_uppercase` returns.
pub uninterp spec fn unicode_uppercase(c: char) -> bool;

/// What `char::to_lowercase` yields: the lowercase mapping of a character,
/// one or more characters, a function of the character alone.
pub uninterp spec fn lower_chars_of(c: char) -> Seq<char>;

/// Relies on char::is_alphanumeric: Unicode alphabetic or numeric.
#[verifier::external_body]
pub(crate) fn is_alphanumeric_char(c: char) -> (r: bool)
    ensures
        r == unicode_alphanumeric(c),
{
    c.is_alphanumeric()
}

/// Relies on char::is_alphabetic: Unicode alphabetic.
#[verifier::external_body]
pub(crate) fn is_alphabetic_char(c: char) -> (r: bool)
    ensures
        r == unicode_alphabetic(c),
{
    c.is_alphabetic()
}

/// Relies on char::is_whitespace: Unicode whitespace.
#[verifier::external_body]
pub(crate) fn is_whitespace_char(c: char) -> (r: bool)
    ensures
        r == unicode_whitespace(c),
{
    c.is_whitespace()
}

/// Relies on char::is_lowercase: Unicode lowercase.
#[verifier::external_body]
pub(crate) fn is_lowercase_char(c: char) -> (r: bool)
    ensures
        r == unicode_lowercase(c),
{
    c.is_lowercase()
}

/// Relies on char::is_uppercase: Unicode uppercase.
#[verifier::external_body]
pub(crate) fn is_uppercase_char(c: char) -> (r: bool)
    ensures
        r == unicode_uppercase(c),
{
    c.is_uppercase()
}

/// Relies on char::to_lowercase: the lowercase mapping of the character,
/// collected into a vector.
#[verifier::external_body]
pub(crate) fn to_lower_chars(c: char) -> (r: Vec<char>)
    ensures
        r@ == lower_chars_of(c),
{
    c.to_lowercase().collect()
}

/// Relies on str::len: the length of a string slice in bytes. The contract
/// states the mathematical length without a cast, so callers learn that the
/// byte length of a real string fits in a `usize`.
#[verifier::external_body]
pub(crate) fn str_byte_len(s: &str) -> (n: usize)
    ensures
        n == s.spec_bytes().len(),
{
    s.len()
}

/// Relies on String::from_iter: the string made of exactly the given
/// characters, in order.
#[verifier::external_body]
pub(crate) fn chars_to_string(v: &Vec<char>) -> (r: String)
    ensures
        r@ == v@,
{
    v.iter().collect()
}

/// The uppercase counterpart of an ASCII lowercase letter.
pub open spec fn spec_ascii_upper(c: char) -> char {
    (((c as u32) - 32) as u8) as char
}

/// The lowercase counterpart of an ASCII uppercase letter.
pub open spec fn spec_ascii_lower(c: char) -> char {
    (((c as u32) + 32) as u8) as char
}

/// Maps an ASCII lowercase letter to its uppercase counterpart.
pub(crate) fn ascii_upper(c: char) -> (r: char)
    requires
        'a' <= c && c <= 'z',
    ensures
        r == spec_ascii_upper(c),
{
    (((c as u32) - 32) as u8) as char
}

/// Maps an ASCII uppercase letter to its lowercase counterpart.
pub(crate) fn ascii_lower(c: char) -> (r: char)
    requires
        'A' <= c && c <= 'Z',
    ensures
        r == spec_ascii_lower(c),
{
    (((c as u32) + 32) as u8) as char
}

/// Two characters are equal under the lowercase fold.
pub open spec fn fold_eq(a: char, b: char) -> bool {
    lower_chars_of(a) == lower_chars_of(b)
}

/// Compares the lowercase folds of two characters.
pub(crate) fn chars_eq_insensitive(a: char, b: char) -> (r: bool)
    ensures
        r == fold_eq(a, b),
{
    let va = to_lower_chars(a);
    let vb = to_lower_chars(b);
    if va.len() != vb.len() {
        return false;
    }
    let mut i: usize = 0;
    while i < va.len()
        invariant
            0 <= i <= va@.len(),
            va@.len() == vb@.len(),
            va@ == lower_chars_of(a),
            vb@ == lower_chars_of(b),
            forall|j: int| 0 <= j < i ==> va@[j] == vb@[j],
        decreases va@.len() - i,
    {
        if va[i] != vb[i] {
            return false;
        }
        i += 1;
    }
    proof {
        assert(va@ =~= vb@);
    }
    true
}

/// An ASCII decimal digit.
pub open spec fn spec_ascii_digit(c: char) -> bool {
    '0' <= c && c <= '9'
}

/// An ASCII octal digit.
pub open spec fn spec_octal_digit(c: char) -> bool {
    '0' <= c && c <= '7'
}

/// An ASCII hexadecimal digit.
pub open spec fn spec_hex_digit(c: char) -> bool {
    ('0' <= c && c <= '9') || ('a' <= c && c <= 'f') || ('A' <= c && c <= 'F')
}

/// An ASCII punctuation character: `!`..`/`, `:`..`@`, `[`..`` ` ``, `{`..`~`.
pub open spec fn spec_ascii_punct(c: char) -> bool {
    ('!' <= c && c <= '/') || (':' <= c && c <= '@') || ('[' <= c && c <= '`') || ('{' <= c
        && c <= '~')
}

/// Tests for an ASCII decimal digit.
pub(crate) fn is_ascii_digit_char(c: char) -> (r: bool)
    ensures
        r == spec_ascii_digit(c),
{
    '0' <= c && c <= '9'
}

/// Tests for an ASCII octal digit.
pub(crate) fn is_octal_digit_char(c: char) -> (r: bool)
    ensures
        r == spec_octal_digit(c),
{
    '0' <= c && c <= '7'
}

/// Tests for an ASCII hexadecimal digit.
pub(crate) fn is_hex_digit_char(c: char) -> (r: bool)
    ensures
        r == spec_hex_digit(c),
{
    ('0' <= c && c <= '9') || ('a' <= c && c <= 'f') || ('A' <= c && c <= 'F')
}

/// An ASCII letter or digit.
pub open spec fn spec_ascii_alnum(c: char) -> bool {
    ('0' <= c && c <= '9') || ('a' <= c && c <= 'z') || ('A' <= c && c <= 'Z')
}

/// Tests for an ASCII letter or digit.
pub(crate) fn is_ascii_alnum_char(c: char) -> (r: bool)
    ensures
        r == spec_ascii_alnum(c),
{
    ('0' <= c && c <= '9') || ('a' <= c && c <= 'z') || ('A' <= c && c <= 'Z')
}

/// Tests for an ASCII punctuation character.
pub(crate) fn is_ascii_punct_char(c: char) -> (r: bool)
    ensures
        r == spec_ascii_punct(c),
{
    ('!' <= c && c <= '/') || (':' <= c && c <= '@') || ('[' <= c && c <= '`') || ('{' <= c
        && c <= '~')
}

/// The length in bytes of the UTF-8 encoding of one character.
pub open spec fn utf8_len(c: char) -> int {
    if (c as u32) <= 0x7F {
        1
    } else if (c as u32) <= 0x7FF {
        2
    } else if (c as u32) <= 0xFFFF {
        3
    } else {
        4
    }
}

/// The byte offset of the character at index `i` of `t`: the length of the
/// UTF-8 encoding of the first `i` characters.
pub open spec fn byte_index_of(t: Seq<char>, i: int) -> int
    decreases i,
{
    if i <= 0 {
        0
    } else {
        byte_index_of(t, i - 1) + utf8_len(t[i - 1])
    }
}

/// The two byte offsets both lie on character boundaries of `t`, in order.
pub open spec fn is_byte_span(t: Seq<char>, s: int, e: int) -> bool {
    exists|i: int, j: int|
        0 <= i <= j <= t.len() && byte_index_of(t, i) == s && byte_index_of(t, j) == e
}

/// The character index whose byte offset is `b` (unique when it exists).
pub open spec fn char_pos_of_byte(t: Seq<char>, b: int) -> int {
    choose|i: int| 0 <= i <= t.len() && byte_index_of(t, i) == b
}

/// Byte offsets grow strictly with the character index.
pub proof fn lemma_byte_index_mono(t: Seq<char>, i: int, j: int)
    requires
        0 <= i <= j <= t.len(),
    ensures
        byte_index_of(t, i) <= byte_index_of(t, j),
        i < j ==> byte_index_of(t, i) < byte_index_of(t, j),
        byte_index_of(t, j) - byte_index_of(t, i) <= 4 * (j - i),
        byte_index_of(t, j) - byte_index_of(t, i) >= j - i,
    decreases j - i,
{
    if i < j {
        lemma_byte_index_mono(t, i, j - 1);
    }
}

/// Appending one character extends the encoding by that character's bytes.
proof fn lemma_encode_push(s: Seq<char>, c: char)
    ensures
        vstd::utf8::encode_utf8(s.push(c)) == vstd::utf8::encode_utf8(s) + vstd::utf8::encode_scalar(
            c as u32,
        ),
    decreases s.len(),
{
    if s.len() == 0 {
        assert(s.push(c).drop_first() =~= s);
        assert(vstd::utf8::encode_utf8(s.push(c)) =~= vstd::utf8::encode_utf8(s)
            + vstd::utf8::encode_scalar(c as u32));
    } else {
        lemma_encode_push(s.drop_first(), c);
        assert(s.push(c).drop_first() =~= s.drop_first().push(c));
        assert(vstd::utf8::encode_utf8(s.push(c)) =~= vstd::utf8::encode_utf8(s)
            + vstd::utf8::encode_scalar(c as u32));
    }
}

/// One character's encoding has length `utf8_len`.
proof fn lemma_encode_scalar_len(c: char)
    ensures
        vstd::utf8::encode_scalar(c as u32).len() == utf8_len(c),
{
    vstd::utf8::char_is_scalar(c);
}

/// The byte offset of character index `i` is the length of the encoding of
/// the first `i` characters.
pub proof fn lemma_byte_index_encode(t: Seq<char>, i: int)
    requires
        0 <= i <= t.len(),
    ensures
        byte_index_of(t, i) == vstd::utf8::encode_utf8(t.take(i)).len(),
    decreases i,
{
    if i == 0 {
        assert(t.take(0) =~= Seq::<char>::empty());
    } else {
        lemma_byte_index_encode(t, i - 1);
        lemma_encode_push(t.take(i - 1), t[i - 1]);
        lemma_encode_scalar_len(t[i - 1]);
        assert(t.take(i) =~= t.take(i - 1).push(t[i - 1]));
    }
}

/// The byte length of the whole text is the byte offset of its end.
pub proof fn lemma_byte_len_full(t: Seq<char>)
    ensures
        byte_index_of(t, t.len() as int) == vstd::utf8::encode_utf8(t).len(),
{
    lemma_byte_index_encode(t, t.len() as int);
    assert(t.take(t.len() as int) =~= t);
}

/// Compares two string slices character by character.
pub(crate) fn str_eq(a: &str, b: &str) -> (r: bool)
    ensures
        r == (a@ == b@),
{
    let na = a.unicode_len();
    let nb = b.unicode_len();
    if na != nb {
        return false;
    }
    let mut i: usize = 0;
    while i < na
        invariant
            0 <= i <= na,
            na == a@.len(),
            na == b@.len(),
            forall|j: int| 0 <= j < i ==> a@[j] == b@[j],
        decreases na - i,
    {
        if a.get_char(i) != b.get_char(i) {
            return false;
        }
        i += 1;
    }
    proof {
        assert(a@ =~= b@);
    }
    true
}

/// Collects the characters of a string slice into a vector.
pub(crate) fn str_to_chars(s: &str) -> (r: Vec<char>)
    ensures
        r@ == s@,
{
    let n = s.unicode_len();
    let mut r: Vec<char> = Vec::new();
    let mut i: usize = 0;
    while i < n
        invariant
            0 <= i <= n,
            n == s@.len(),
            r@ =~= s@.take(i as int),
        decreases n - i,
    {
        let c = s.get_char(i);
        r.push(c);
        i += 1;
    }
    proof {
        assert(r@ =~= s@);
    }
    r
}

} // verus!
