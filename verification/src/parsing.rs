//! The flavor-string splitter: `pattern/flags` with smartcase.

use vstd::prelude::*;
use crate::chars::str_to_chars;
use crate::chars::unicode_uppercase;
use crate::errors::ParseError;
use crate::flags::Flags;

verus! {

use vstd::string::StrSliceExecFns;

/// The position of the rightmost `/` in `s` at or before `from`, if any.
pub open spec fn last_slash_from(s: Seq<char>, from: int) -> Option<int>
    decreases from + 1,
    when from < s.len()
{
    if from < 0 {
        None
    } else if s[from] == '/' {
        Some(from)
    } else {
        last_slash_from(s, from - 1)
    }
}

/// One flag letter folded into the flag set, or the letter itself when it
/// is not a flag.
pub open spec fn apply_flag(fl: Flags, c: char) -> Result<Flags, char> {
    if c == 'i' {
        Ok(Flags { ignore_case: Some(true), ..fl })
    } else if c == 'c' {
        Ok(Flags { ignore_case: Some(false), ..fl })
    } else if c == 'm' {
        Ok(Flags { multiline: true, ..fl })
    } else if c == 's' {
        Ok(Flags { dotall: true, ..fl })
    } else if c == 'x' {
        Ok(Flags { verbose: true, ..fl })
    } else if c == 'u' {
        Ok(Flags { unicode: true, ..fl })
    } else if c == 'g' {
        Ok(Flags { global: true, ..fl })
    } else {
        Err(c)
    }
}

/// The flag letters of `s` from index `i` on, folded left to right.
pub open spec fn apply_flags(fl: Flags, s: Seq<char>, i: int) -> Result<Flags, char>
    decreases s.len() - i,
    when 0 <= i
{
    if i >= s.len() {
        Ok(fl)
    } else {
        match apply_flag(fl, s[i]) {
            Ok(fl2) => apply_flags(fl2, s, i + 1),
            Err(c) => Err(c),
        }
    }
}

/// The pattern contains an uppercase character.
pub open spec fn has_upper(s: Seq<char>) -> bool {
    exists|i: int| 0 <= i < s.len() && unicode_uppercase(s[i])
}

/// Smartcase: when no explicit case flag was given, the pattern is matched
/// case-insensitively exactly when it contains no uppercase character.
pub open spec fn resolve_smartcase(fl: Flags, pattern: Seq<char>) -> Flags {
    if fl.ignore_case is None {
        Flags { ignore_case: Some(!has_upper(pattern)), ..fl }
    } else {
        fl
    }
}

/// What splitting a flavor string yields: the pattern before the rightmost
/// `/`, and the flag set decoded from the letters after it, smartcase
/// resolved.
pub open spec fn spec_rift(s: Seq<char>) -> Result<(Seq<char>, Flags), ParseError> {
    match last_slash_from(s, s.len() - 1) {
        None => Err(ParseError::NoDelimiter),
        Some(k) => {
            let pattern = s.take(k);
            match apply_flags(
                Flags {
                    ignore_case: None,
                    multiline: false,
                    dotall: false,
                    verbose: false,
                    unicode: false,
                    global: false,
                },
                s,
                k + 1,
            ) {
                Ok(fl) => Ok((pattern, resolve_smartcase(fl, pattern))),
                Err(c) => Err(ParseError::InvalidFlags(c)),
            }
        },
    }
}

/// Tests whether a string has an uppercase character.
pub(crate) fn str_has_upper(s: &Vec<char>, upto: usize) -> (r: bool)
    requires
        upto <= s@.len(),
    ensures
        r == has_upper(s@.take(upto as int)),
{
    let mut i: usize = 0;
    while i < upto
        invariant
            0 <= i <= upto <= s@.len(),
            forall|j: int| 0 <= j < i ==> !unicode_uppercase(s@.take(upto as int)[j]),
        decreases upto - i,
    {
        if crate::chars::is_uppercase_char(s[i]) {
            proof {
                assert(s@.take(upto as int)[i as int] == s@[i as int]);
            }
            return true;
        }
        i += 1;
    }
    false
}

/// Splits a string in the Rift format `pattern/flags` at its rightmost `/`
/// and decodes the flag letters: `i` insensitive, `c` sensitive, `m`
/// multiline, `s` dotall, `x` verbose, `u` unicode, `g` global. Without an
/// explicit `i` or `c`, smartcase applies. Returns exactly what
/// [`spec_rift`] defines.
pub fn parse_rift_format(input: &str) -> (r: Result<(String, Flags), ParseError>)
    ensures
        match r {
            Ok(v) => spec_rift(input@) matches Ok(m) && v.0@ == m.0 && v.1 == m.1,
            Err(e) => spec_rift(input@) matches Err(me) && e == me,
        },
{
    let chars = str_to_chars(input);
    let n = chars.len();
    let mut k: usize = n;
    let mut found: Option<usize> = None;
    loop
        invariant_except_break
            0 <= k <= n,
            n == chars@.len(),
            chars@ == input@,
            found is None,
            last_slash_from(input@, n as int - 1) == last_slash_from(input@, k as int - 1),
        ensures
            0 <= k <= n,
            n == chars@.len(),
            chars@ == input@,
            match found {
                Some(kk) => last_slash_from(input@, n as int - 1) == Some(kk as int) && kk < n,
                None => last_slash_from(input@, n as int - 1) is None,
            },
        decreases k,
    {
        if k == 0 {
            break ;
        }
        k -= 1;
        if chars[k] == '/' {
            found = Some(k);
            break ;
        }
    }
    let k = match found {
        Some(kk) => kk,
        None => {
            return Err(ParseError::NoDelimiter);
        },
    };
    let pattern_str = input.substring_char(0, k);
    let mut fl = Flags {
        ignore_case: None,
        multiline: false,
        dotall: false,
        verbose: false,
        unicode: false,
        global: false,
    };
    let mut i: usize = k + 1;
    while i < n
        invariant
            k + 1 <= i <= n,
            k < n,
            n == chars@.len(),
            chars@ == input@,
            last_slash_from(input@, n as int - 1) == Some(k as int),
            apply_flags(
                Flags {
                    ignore_case: None,
                    multiline: false,
                    dotall: false,
                    verbose: false,
                    unicode: false,
                    global: false,
                },
                input@,
                k + 1,
            ) == apply_flags(fl, input@, i as int),
        decreases n - i,
    {
        let c = chars[i];
        if c == 'i' {
            fl.ignore_case = Some(true);
        } else if c == 'c' {
            fl.ignore_case = Some(false);
        } else if c == 'm' {
            fl.multiline = true;
        } else if c == 's' {
            fl.dotall = true;
        } else if c == 'x' {
            fl.verbose = true;
        } else if c == 'u' {
            fl.unicode = true;
        } else if c == 'g' {
            fl.global = true;
        } else {
            return Err(ParseError::InvalidFlags(c));
        }
        i += 1;
    }
    let resolved = match fl.ignore_case {
        Some(b) => fl,
        None => {
            let up = str_has_upper(&chars, k);
            proof {
                assert(chars@.take(k as int) == input@.take(k as int));
            }
            Flags { ignore_case: Some(!up), ..fl }
        },
    };
    proof {
        assert(pattern_str@ == input@.take(k as int));
    }
    Ok((pattern_str.to_owned(), resolved))
}

} // verus!
