use chrono::NaiveDateTime;
use regex::Regex;
use vstd::prelude::*;

verus! {

/// What the matches of a regular expression in a text give to one of its groups.
///
/// For the pattern `pattern`, the text `text` and the group numbered `group` (0 is
/// the whole match), this is the list, in the order of the matches, of the part of the
/// text that each match gives to the group. There is no list where the pattern is not
/// a valid expression or a match leaves the group out.
pub uninterp spec fn group_texts(pattern: Seq<char>, group: int, text: Seq<char>) -> Option<
    Seq<Seq<char>>,
>;

/// The Unix timestamp that a date and time written as `text` stand for under the
/// format `format`, read as UTC. There is none where the text does not fit the format
/// or names no date and time.
pub uninterp spec fn parsed_timestamp(text: Seq<char>, format: Seq<char>) -> Option<i64>;

/// regex's `Regex::new`, `Regex::captures_iter`, `Captures::get` and `Match::as_str`.
///
/// Taken on trust: the result is what `group_texts` names, which is to say that it
/// depends on the three arguments alone.
#[verifier::external_body]
pub(crate) fn find_groups(pattern: &str, group: usize, text: &str) -> (r: Option<Vec<String>>)
    ensures
        match r {
            Some(v) => group_texts(pattern@, group as int, text@) == Some(v.deep_view()),
            None => group_texts(pattern@, group as int, text@) is None,
        },
{
    let re = Regex::new(pattern).ok()?;
    re.captures_iter(text).map(|c| c.get(group).map(|m| m.as_str().to_string())).collect()
}

/// chrono's `NaiveDateTime::parse_from_str`, `NaiveDateTime::and_utc` and
/// `DateTime::timestamp`.
///
/// Taken on trust: the result is what `parsed_timestamp` names, which is to say that
/// it depends on the two arguments alone.
#[verifier::external_body]
pub(crate) fn parse_timestamp(text: &str, format: &str) -> (r: Option<i64>)
    ensures
        r == parsed_timestamp(text@, format@),
{
    NaiveDateTime::parse_from_str(text, format).ok().map(|t| t.and_utc().timestamp())
}

} // verus!
