use vstd::prelude::*;

verus! {

/// Whether the regular-expression engine accepts a pattern.
pub uninterp spec fn regex_valid(pattern: Seq<char>) -> bool;

/// The successive non-overlapping matches a pattern has in a text, leftmost
/// first, each as the matched substring.
pub uninterp spec fn regex_matches(pattern: Seq<char>, text: Seq<char>) -> Seq<Seq<char>>;

/// Relies on regex::Regex::new, which accepts or rejects a pattern on the
/// pattern alone.
#[verifier::external_body]
fn regex_accepts(pattern: &str) -> (r: bool)
    ensures
        r == regex_valid(pattern@),
{
    regex::Regex::new(pattern).is_ok()
}

/// Relies on regex::Regex::new and regex::Regex::find_iter: a valid pattern
/// compiles, an invalid one does not, and the successive non-overlapping
/// matches found in a haystack depend on the pattern and the haystack alone.
#[verifier::external_body]
fn regex_find_all(pattern: &str, text: &str) -> (r: Option<Vec<String>>)
    ensures
        r is Some <==> regex_valid(pattern@),
        r matches Some(found) ==> found.deep_view() == regex_matches(pattern@, text@),
{
    match regex::Regex::new(pattern) {
        Ok(re) => Some(re.find_iter(text).map(|m| m.as_str().to_string()).collect()),
        Err(_) => None,
    }
}

/// Every match of the pattern in the text, in order. Defined only for
/// patterns the engine accepts; a caller that cannot vouch for its pattern
/// goes through `try_find_matches` instead.
pub fn find_matches(pattern: &str, text: &str) -> (r: Vec<String>)
    requires
        regex_valid(pattern@),
    ensures
        r.deep_view() == regex_matches(pattern@, text@),
{
    regex_find_all(pattern, text).unwrap()
}

/// Every match of the pattern in the text, in order, behind a check of the
/// pattern: the matches where the engine accepts the pattern, nothing where
/// it rejects it.
pub fn try_find_matches(pattern: &str, text: &str) -> (r: Option<Vec<String>>)
    ensures
        r is Some <==> regex_valid(pattern@),
        r matches Some(found) ==> found.deep_view() == regex_matches(pattern@, text@),
{
    if regex_accepts(pattern) {
        Some(find_matches(pattern, text))
    } else {
        None
    }
}

} // verus!
