//! Regular-expression matching, done by the `regex` crate.
//!
//! What a pattern matches is named, not restated: each name below stands for
//! what the crate computes from the pattern and the text.
use vstd::prelude::*;

verus! {

#[verifier::external_type_specification]
#[verifier::external_body]
pub struct ExRegexError(regex::Error);

/// True when `regex::Regex::new` accepts the pattern.
pub uninterp spec fn regex_valid(pattern: Seq<char>) -> bool;

/// The capture groups of the leftmost-first match of the pattern in the text
/// (`Regex::captures`): group `i` is `None` when it did not take part in the match;
/// `None` overall when the pattern does not match.
pub uninterp spec fn regex_captures_spec(pattern: Seq<char>, text: Seq<char>) -> Option<Seq<Option<Seq<char>>>>;

/// The successive non-overlapping matches of the pattern in the text (`Regex::find_iter`).
pub uninterp spec fn regex_find_all_spec(pattern: Seq<char>, text: Seq<char>) -> Seq<Seq<char>>;

/// The text with every non-overlapping match of the pattern replaced by the replacement
/// (`Regex::replace_all`).
pub uninterp spec fn regex_replace_all_spec(pattern: Seq<char>, text: Seq<char>, replacement: Seq<char>) -> Seq<char>;

/// The pieces of the text between matches of the pattern (`Regex::split`).
pub uninterp spec fn regex_split_spec(pattern: Seq<char>, text: Seq<char>) -> Seq<Seq<char>>;

/// The views of a list of optional strings.
pub open spec fn opt_views(v: Seq<Option<String>>) -> Seq<Option<Seq<char>>> {
    v.map_values(|o: Option<String>| match o { Some(s) => Some(s@), None => None })
}

/// `Regex::new(pattern)` then `captures(text)`: each group's text, or `None` when the
/// group did not take part; `Ok(None)` when there is no match.
#[verifier::external_body]
pub(crate) fn regex_captures(pattern: &str, text: &str) -> (r: Result<Option<Vec<Option<String>>>, regex::Error>)
    ensures
        r is Ok <==> regex_valid(pattern@),
        r matches Ok(c) ==> match c {
            Some(groups) => regex_captures_spec(pattern@, text@) == Some(opt_views(groups@)),
            None => regex_captures_spec(pattern@, text@) is None,
        },
{
    let re = regex::Regex::new(pattern)?;
    Ok(re.captures(text).map(|caps| {
        (0..caps.len()).map(|i| caps.get(i).map(|m| m.as_str().to_string())).collect()
    }))
}

/// `Regex::new(pattern)` then `find_iter(text)`: the text of each match, in order.
#[verifier::external_body]
pub(crate) fn regex_find_all(pattern: &str, text: &str) -> (r: Result<Vec<String>, regex::Error>)
    ensures
        r is Ok <==> regex_valid(pattern@),
        r matches Ok(v) ==> crate::text::views(v@) == regex_find_all_spec(pattern@, text@),
{
    let re = regex::Regex::new(pattern)?;
    Ok(re.find_iter(text).map(|m| m.as_str().to_string()).collect())
}

/// `Regex::new(pattern)` then `split(text)`: the pieces between matches, in order.
#[verifier::external_body]
pub(crate) fn regex_split(pattern: &str, text: &str) -> (r: Result<Vec<String>, regex::Error>)
    ensures
        r is Ok <==> regex_valid(pattern@),
        r matches Ok(v) ==> crate::text::views(v@) == regex_split_spec(pattern@, text@),
{
    let re = regex::Regex::new(pattern)?;
    Ok(re.split(text).map(|s| s.to_string()).collect())
}

/// `Regex::new(pattern)` then `replace_all(text, replacement)`: the text with each match
/// replaced.
#[verifier::external_body]
pub(crate) fn regex_replace_all(pattern: &str, text: &str, replacement: &str) -> (r: Result<String, regex::Error>)
    ensures
        r is Ok <==> regex_valid(pattern@),
        r matches Ok(s) ==> s@ == regex_replace_all_spec(pattern@, text@, replacement@),
{
    let re = regex::Regex::new(pattern)?;
    Ok(re.replace_all(text, replacement).to_string())
}

/// Whether `regex::Regex::new` accepts the pattern: callers test the library's constant
/// patterns with it to meet the conditions that contracts put on them.
pub fn pattern_valid(pattern: &str) -> (r: bool)
    ensures
        r == regex_valid(pattern@),
{
    regex_captures(pattern, "").is_ok()
}

/// The text of capture group `i`, if it took part in the match.
pub fn group(groups: &Vec<Option<String>>, i: usize) -> (r: Option<String>)
    ensures
        match r {
            Some(s) => i < groups@.len() && groups@[i as int] is Some && s@ == groups@[i as int]->0@,
            None => i >= groups@.len() || groups@[i as int] is None,
        },
{
    if i < groups.len() {
        match &groups[i] {
            Some(s) => Some(s.clone()),
            None => None,
        }
    } else {
        None
    }
}

} // verus!
