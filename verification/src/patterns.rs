//! The two regular-expression operations the extraction logic needs,
//! carried out by the fancy-regex crate behind named results.
use vstd::prelude::*;

verus! {

/// The text of the named capture group `group` in the first match of
/// `pattern` in `text`; a function of the three texts alone.
pub uninterp spec fn regex_group_of(
    pattern: Seq<char>,
    text: Seq<char>,
    group: Seq<char>,
) -> Option<Seq<char>>;

/// Relies on fancy_regex::Regex::new and Regex::captures, and
/// Captures::name: finds the first match of `pattern` in `text` and hands
/// back the text of its capture group named `group`; `None` when the
/// pattern is invalid, does not match, or the group took no part.
#[verifier::external_body]
pub fn regex_capture(pattern: &str, text: &str, group: &str) -> (r: Option<String>)
    ensures
        (r matches Some(s) ==> regex_group_of(pattern@, text@, group@) == Some(s@)),
        r is None <==> regex_group_of(pattern@, text@, group@) is None,
{
    let re = match fancy_regex::Regex::new(pattern) {
        Ok(re) => re,
        Err(_) => return None,
    };
    match re.captures(text) {
        Ok(Some(caps)) => caps.name(group).map(|m| m.as_str().to_string()),
        _ => None,
    }
}

/// What follows the first match of `pattern` in `text`; a function of the
/// two texts alone.
pub uninterp spec fn regex_tail_of(pattern: Seq<char>, text: Seq<char>) -> Option<Seq<char>>;

/// Relies on fancy_regex::Regex::new and Regex::find: hands back the part
/// of `text` after the end of the first match of `pattern`, which is a
/// suffix of `text`; `None` when the pattern is invalid or does not match.
#[verifier::external_body]
pub fn regex_tail(pattern: &str, text: &str) -> (r: Option<String>)
    ensures
        (r matches Some(s) ==> ({
            &&& regex_tail_of(pattern@, text@) == Some(s@)
            &&& s@.len() <= text@.len()
            &&& exists|i: int| 0 <= i <= text@.len() && s@ == text@.skip(i)
        })),
        r is None <==> regex_tail_of(pattern@, text@) is None,
{
    let re = match fancy_regex::Regex::new(pattern) {
        Ok(re) => re,
        Err(_) => return None,
    };
    match re.find(text) {
        Ok(Some(m)) => Some(text[m.end()..].to_string()),
        _ => None,
    }
}

} // verus!
