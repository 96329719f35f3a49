use vstd::prelude::*;

use crate::text::{has_suffix, str_has_suffix};

verus! {

/// Why a command-line value was refused.
#[derive(PartialEq, Eq, Structural, Clone, Copy, Debug)]
pub enum ParseError {
    InvalidGUID,
    NotAFile,
    DoesNotExist,
    NotJsonFile,
}

pub open spec fn is_ascii_alphanumeric(c: char) -> bool {
    ('0' <= c && c <= '9') || ('a' <= c && c <= 'z') || ('A' <= c && c <= 'Z')
}

/// An object identifier is six ASCII letters or digits.
pub open spec fn is_guid(s: Seq<char>) -> bool {
    s.len() == 6 && forall|i: int| 0 <= i < s.len() ==> is_ascii_alphanumeric(#[trigger] s[i])
}

/// Accepts an object identifier.
pub fn guid(s: &str) -> (r: Result<String, ParseError>)
    ensures
        is_guid(s@) ==> r is Ok && r->Ok_0@ == s@,
        !is_guid(s@) ==> r == Err::<String, ParseError>(ParseError::InvalidGUID),
{
    let n = s.unicode_len();
    if n != 6 {
        return Err(ParseError::InvalidGUID);
    }
    let mut i: usize = 0;
    while i < n
        invariant
            n == s@.len(),
            i <= n,
            forall|j: int| 0 <= j < i ==> is_ascii_alphanumeric(#[trigger] s@[j]),
        decreases n - i,
    {
        let c = s.get_char(i);
        if !(('0' <= c && c <= '9') || ('a' <= c && c <= 'z') || ('A' <= c && c <= 'Z')) {
            return Err(ParseError::InvalidGUID);
        }
        i = i + 1;
    }
    Ok(String::from_str(s))
}

/// The path names a file with the extension `json`: it ends in `.json`
/// after a non-empty file stem.
pub open spec fn is_json_path(s: Seq<char>) -> bool {
    s.len() > 5 && has_suffix(s, seq!['.', 'j', 's', 'o', 'n']) && s[s.len() - 6] != '/'
}

/// Accepts the path of a JSON file.
pub fn path_is_json(s: &str) -> (r: Result<String, ParseError>)
    ensures
        is_json_path(s@) ==> r is Ok && r->Ok_0@ == s@,
        !is_json_path(s@) ==> r == Err::<String, ParseError>(ParseError::NotJsonFile),
{
    proof {
        reveal_strlit(".json");
    }
    assert(seq!['.', 'j', 's', 'o', 'n'] =~= ".json"@);
    let n = s.unicode_len();
    if n > 5 && str_has_suffix(s, ".json") && s.get_char(n - 6) != '/' {
        Ok(String::from_str(s))
    } else {
        Err(ParseError::NotJsonFile)
    }
}

} // verus!
