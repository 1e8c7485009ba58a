//! The injection-safety boundary: character-exclusion checks that every value
//! must pass before it may be embedded in query text.
//!
//! Identifiers are interpolated inside backtick-delimited fragments, so a
//! backtick or any whitespace character is refused; string literals are
//! interpolated inside single-quoted fragments, so a single quote is refused.
//! The query builders in this crate take these predicates as preconditions,
//! so an unvalidated value can never reach query construction.

use vstd::prelude::*;

use crate::err::Error;

verus! {

/// Whether `c` has the Unicode `White_Space` property, written out so the
/// classification is part of the verified text.
pub open spec fn is_space(c: char) -> bool {
    let n = c as int;
    (0x9 <= n && n <= 0xD) || n == 0x20 || n == 0x85 || n == 0xA0 || n == 0x1680 || (0x2000 <= n
        && n <= 0x200A) || n == 0x2028 || n == 0x2029 || n == 0x202F || n == 0x205F || n == 0x3000
}

/// A name may be spliced into a backtick-delimited identifier fragment.
pub open spec fn valid_name(s: Seq<char>) -> bool {
    forall|i: int| 0 <= i < s.len() ==> !is_space(s[i]) && s[i] != '`'
}

/// A value may be spliced into a backtick-delimited identifier fragment: the
/// same exclusion as `valid_name`, the one gate of the identifier role.
pub open spec fn valid_id(s: Seq<char>) -> bool {
    forall|i: int| 0 <= i < s.len() ==> !is_space(s[i]) && s[i] != '`'
}

/// A value may be spliced into a single-quoted literal fragment.
pub open spec fn valid_literal(s: Seq<char>) -> bool {
    forall|i: int| 0 <= i < s.len() ==> s[i] != '\''
}

/// Decides `is_space`.
pub fn is_space_char(c: char) -> (r: bool)
    ensures
        r == is_space(c),
{
    let n = c as u32;
    (0x9 <= n && n <= 0xD) || n == 0x20 || n == 0x85 || n == 0xA0 || n == 0x1680 || (0x2000 <= n
        && n <= 0x200A) || n == 0x2028 || n == 0x2029 || n == 0x202F || n == 0x205F || n == 0x3000
}

/// Accepts exactly the strings that may stand as a record name: no backtick,
/// no whitespace. On refusal the offending input comes back in `BadString`.
pub fn validate_name(s: &str) -> (r: Result<(), Error>)
    ensures
        match r {
            Ok(_) => valid_name(s@),
            Err(e) => !valid_name(s@) && (e matches Error::BadString(t) && t@ == s@),
        },
{
    let n = s.unicode_len();
    let mut i: usize = 0;
    while i < n
        invariant
            n == s@.len(),
            0 <= i <= n,
            forall|j: int| 0 <= j < i ==> !is_space(s@[j]) && s@[j] != '`',
        decreases n - i,
    {
        let c = s.get_char(i);
        if is_space_char(c) || c == '`' {
            return Err(Error::BadString(s.to_owned()));
        }
        i += 1;
    }
    Ok(())
}

/// Accepts exactly the strings that may stand as an identifier fragment: no
/// backtick, no whitespace. One shared gate decides the identifier role, so
/// this delegates to `validate_name`.
pub fn validate_id(s: &str) -> (r: Result<(), Error>)
    ensures
        match r {
            Ok(_) => valid_id(s@),
            Err(e) => !valid_id(s@) && (e matches Error::BadString(t) && t@ == s@),
        },
{
    validate_name(s)
}

/// Accepts exactly the strings that may stand as a quoted literal: no single
/// quote. On refusal the offending input comes back in `BadString`.
pub fn validate_str(s: &str) -> (r: Result<(), Error>)
    ensures
        match r {
            Ok(_) => valid_literal(s@),
            Err(e) => !valid_literal(s@) && (e matches Error::BadString(t) && t@ == s@),
        },
{
    let n = s.unicode_len();
    let mut i: usize = 0;
    while i < n
        invariant
            n == s@.len(),
            0 <= i <= n,
            forall|j: int| 0 <= j < i ==> s@[j] != '\'',
        decreases n - i,
    {
        if s.get_char(i) == '\'' {
            return Err(Error::BadString(s.to_owned()));
        }
        i += 1;
    }
    Ok(())
}

} // verus!
