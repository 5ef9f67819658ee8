//! Validation and case normalization of a single tag fragment.
//!
//! A fragment (a tag's name, or its version) must be 1 to 63 characters,
//! consist of lowercase ASCII alphanumerics, `-`, `.` and `_`, and start and
//! end with an alphanumeric character. Validation is applied to the lowercased
//! form; lowercasing here maps the ASCII uppercase letters and leaves every
//! other character unchanged.

use crate::errors::TagError;
use vstd::prelude::*;
use vstd::string::*;

verus! {

/// Longest admissible fragment, in characters.
pub const TAG_MAX_LENGTH: usize = 63;

/// Lowercase ASCII letter or ASCII digit.
pub open spec fn is_tag_alnum(c: char) -> bool {
    (97 <= c as int && c as int <= 122) || (48 <= c as int && c as int <= 57)
}

/// Character admissible in the interior of a fragment.
pub open spec fn is_tag_char(c: char) -> bool {
    is_tag_alnum(c) || c == '-' || c == '.' || c == '_'
}

/// The fragment character-class and anchoring rule: non-empty, every
/// character in the class, first and last alphanumeric.
pub open spec fn valid_tag_seq(s: Seq<char>) -> bool {
    &&& s.len() >= 1
    &&& is_tag_alnum(s[0])
    &&& is_tag_alnum(s[s.len() - 1])
    &&& forall|i: int| 0 <= i < s.len() ==> is_tag_char(#[trigger] s[i])
}

/// A fragment that passes validation: within the length bound and matching
/// the class and anchoring rule.
pub open spec fn fragment_ok(s: Seq<char>) -> bool {
    s.len() <= TAG_MAX_LENGTH && valid_tag_seq(s)
}

/// What `validate_tag_str` returns: length is checked before the
/// character-class rule.
pub open spec fn validate_result(s: Seq<char>) -> Result<(), TagError> {
    if s.len() > TAG_MAX_LENGTH {
        Err(TagError::TooLong)
    } else if !valid_tag_seq(s) {
        Err(TagError::InvalidFormat)
    } else {
        Ok(())
    }
}

/// ASCII uppercase letters map to their lowercase pair; everything else is
/// left as it is.
pub open spec fn lower_char(c: char) -> char {
    if 65 <= c as int && c as int <= 90 {
        ((c as int + 32) as u8) as char
    } else {
        c
    }
}

/// Character-wise lowercasing of a fragment.
pub open spec fn lower_seq(s: Seq<char>) -> Seq<char> {
    Seq::new(s.len(), |i: int| lower_char(s[i]))
}

/// A fragment that already satisfies the validation rule is all-lowercase,
/// so lowercasing leaves it unchanged.
pub proof fn lemma_valid_lower_identity(s: Seq<char>)
    requires
        valid_tag_seq(s),
    ensures
        lower_seq(s) == s,
{
    assert forall|i: int| 0 <= i < s.len() implies lower_seq(s)[i] == s[i] by {
        assert(is_tag_char(s[i]));
    }
    assert(lower_seq(s) =~= s);
}

fn lower_char_exec(c: char) -> (r: char)
    ensures
        r == lower_char(c),
{
    let u = c as u32;
    if 65 <= u && u <= 90 {
        ((u + 32) as u8) as char
    } else {
        c
    }
}

/// Relies on `String: FromIterator<char>` (via `Iterator::collect`): the
/// built string holds exactly the characters of the vector, in order.
#[verifier::external_body]
pub(crate) fn string_from_chars(chars: &Vec<char>) -> (r: String)
    ensures
        r@ == chars@,
{
    chars.iter().collect()
}

/// Character-wise lowercasing, eagerly applied before validation.
pub fn to_lowercase_string(s: &str) -> (r: String)
    ensures
        r@ == lower_seq(s@),
{
    let len = s.unicode_len();
    let mut chars: Vec<char> = Vec::new();
    let mut i: usize = 0;
    while i < len
        invariant
            i <= len,
            len == s@.len(),
            chars@.len() == i as int,
            forall|j: int| 0 <= j < i ==> chars@[j] == lower_char(#[trigger] s@[j]),
        decreases len - i,
    {
        let c = s.get_char(i);
        chars.push(lower_char_exec(c));
        i += 1;
    }
    let r = string_from_chars(&chars);
    proof {
        assert(r@ =~= lower_seq(s@));
    }
    r
}

fn is_tag_alnum_exec(c: char) -> (r: bool)
    ensures
        r == is_tag_alnum(c),
{
    let u = c as u32;
    (97 <= u && u <= 122) || (48 <= u && u <= 57)
}

fn is_tag_char_exec(c: char) -> (r: bool)
    ensures
        r == is_tag_char(c),
{
    is_tag_alnum_exec(c) || c == '-' || c == '.' || c == '_'
}

/// Checks one fragment against the length and character-class rules.
///
/// Fails with `TooLong` exactly when the fragment is over 63 characters,
/// with `InvalidFormat` exactly when it is at most 63 characters but does
/// not satisfy the class and anchoring rule; succeeds otherwise.
pub fn validate_tag_str(value: &str) -> (r: Result<(), TagError>)
    ensures
        r == validate_result(value@),
{
    let len = value.unicode_len();
    if len > TAG_MAX_LENGTH {
        return Err(TagError::TooLong);
    }
    if len == 0 {
        return Err(TagError::InvalidFormat);
    }
    let mut i: usize = 0;
    while i < len
        invariant
            i <= len,
            len == value@.len(),
            1 <= len <= TAG_MAX_LENGTH,
            forall|j: int| 0 <= j < i ==> is_tag_char(#[trigger] value@[j]),
        decreases len - i,
    {
        if !is_tag_char_exec(value.get_char(i)) {
            return Err(TagError::InvalidFormat);
        }
        i += 1;
    }
    if !is_tag_alnum_exec(value.get_char(0)) {
        return Err(TagError::InvalidFormat);
    }
    if !is_tag_alnum_exec(value.get_char(len - 1)) {
        return Err(TagError::InvalidFormat);
    }
    Ok(())
}

} // verus!
