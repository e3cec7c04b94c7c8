use vstd::prelude::*;

use crate::error::{Error, ErrorKind};

verus! {

pub open spec fn is_letter(c: char) -> bool {
    ('a' <= c && c <= 'z') || ('A' <= c && c <= 'Z')
}

pub open spec fn is_digit(c: char) -> bool {
    '0' <= c && c <= '9'
}

/// A character allowed before the `@` of an email address.
pub open spec fn is_local_char(c: char) -> bool {
    is_letter(c) || is_digit(c) || c == '.' || c == '_' || c == '%' || c == '+' || c == '-'
}

/// A character allowed in the domain of an email address.
pub open spec fn is_domain_char(c: char) -> bool {
    is_letter(c) || is_digit(c) || c == '.' || c == '-'
}

/// A separator that may stand inside a name.
pub open spec fn is_name_separator(c: char) -> bool {
    c == '\'' || c == ',' || c == '.' || c == ' ' || c == '-'
}

/// `local@domain.tld`: `@` at index `at`, the last `.` at index `dot`, a
/// non-empty local part and domain, and a top-level domain of two or more
/// letters.
pub open spec fn email_split_at(s: Seq<char>, at: int, dot: int) -> bool {
    &&& 1 <= at
    &&& at + 2 <= dot
    &&& dot + 3 <= s.len()
    &&& s[at] == '@'
    &&& s[dot] == '.'
    &&& forall|k: int| 0 <= k < at ==> is_local_char(#[trigger] s[k])
    &&& forall|k: int| at < k < dot ==> is_domain_char(#[trigger] s[k])
    &&& forall|k: int| dot < k < s.len() ==> is_letter(#[trigger] s[k])
}

pub open spec fn valid_email(s: Seq<char>) -> bool {
    exists|at: int, dot: int| email_split_at(s, at, dot)
}

/// What may follow the first letter of a name: letters, and separators each
/// followed by a letter or a space.
pub open spec fn name_tail(s: Seq<char>) -> bool
    decreases s.len(),
{
    if s.len() == 0 {
        true
    } else if is_letter(s[0]) && name_tail(s.drop_first()) {
        true
    } else {
        s.len() >= 2 && is_name_separator(s[0]) && (is_letter(s[1]) || s[1] == ' ')
            && name_tail(s.subrange(2, s.len() as int))
    }
}

pub open spec fn valid_name(s: Seq<char>) -> bool {
    s.len() >= 1 && is_letter(s[0]) && name_tail(s.drop_first())
}

/// Relies on regex::Regex::new and regex::Regex::is_match: the pattern
/// `^[a-zA-Z0-9._%+-]+@[a-zA-Z0-9.-]+\.[a-zA-Z]{2,}$` compiles, and matches a
/// haystack exactly when `valid_email` holds of it (`^` and `$` anchor at the
/// ends of the haystack).
#[verifier::external_body]
fn email_pattern_matches(s: &str) -> (r: bool)
    ensures
        r == valid_email(s@),
{
    match regex::Regex::new(r"^[a-zA-Z0-9._%+-]+@[a-zA-Z0-9.-]+\.[a-zA-Z]{2,}$") {
        Ok(re) => re.is_match(s),
        Err(_) => false,
    }
}

/// Relies on regex::Regex::new and regex::Regex::is_match: the pattern
/// `^[a-zA-Z]+(([',. -][a-zA-Z ])?[a-zA-Z]*)*$` compiles, and matches a
/// haystack exactly when `valid_name` holds of it.
#[verifier::external_body]
fn name_pattern_matches(s: &str) -> (r: bool)
    ensures
        r == valid_name(s@),
{
    match regex::Regex::new(r"^[a-zA-Z]+(([',. -][a-zA-Z ])?[a-zA-Z]*)*$") {
        Ok(re) => re.is_match(s),
        Err(_) => false,
    }
}

/// Accepts an email address of the shape `local@domain.tld`.
pub fn validate_email(s: &str) -> (r: Result<(), Error>)
    ensures
        r is Ok <==> valid_email(s@),
        r is Err ==> r->Err_0.spec_kind() == ErrorKind::InvalidEmail,
{
    if email_pattern_matches(s) {
        Ok(())
    } else {
        Err(Error::new(ErrorKind::InvalidEmail, "Ensure the email address is of the correct format"))
    }
}

/// Accepts a name: a letter, then letters and single separators
/// (`'`, `,`, `.`, space, `-`), each separator followed by a letter or a space.
pub fn validate_name(s: &str) -> (r: Result<(), Error>)
    ensures
        r is Ok <==> valid_name(s@),
        r is Err ==> r->Err_0.spec_kind() == ErrorKind::InvalidName,
{
    if name_pattern_matches(s) {
        Ok(())
    } else {
        Err(Error::new(ErrorKind::InvalidName, "Invalid name"))
    }
}

} // verus!
