//! Matching a text against a regular expression.

use crate::text::occurs_in;
use vstd::prelude::*;

verus! {

/// The capture groups of the leftmost match of `pattern` in `text`, as
/// `regex` finds it: `None` where the pattern does not compile or nothing
/// matches; otherwise one item per group of the pattern, the whole match
/// first, each the text that the group captured or `None` where the group
/// took no part in the match.
pub uninterp spec fn regex_groups(pattern: Seq<char>, text: Seq<char>) -> Option<
    Seq<Option<Seq<char>>>,
>;

/// Whether a group captured a text that is not empty.
pub open spec fn is_text(group: Option<Seq<char>>) -> bool {
    group is Some && group->0.len() > 0
}

/// Compiles `pattern` with `regex::Regex::new` and searches `text` with
/// `Regex::captures`, then copies out what `Captures::iter` and
/// `Match::as_str` give for each group.
///
/// Believed, not proved: the result is a function of the two texts alone,
/// and each captured text is a contiguous part of `text`.
#[verifier::external_body]
pub(crate) fn capture_groups(pattern: &str, text: &str) -> (r: Option<Vec<Option<String>>>)
    ensures
        r.deep_view() == regex_groups(pattern@, text@),
        r matches Some(groups) ==> forall|i: int|
            0 <= i < groups@.len() && groups@[i] is Some ==> occurs_in(
                (#[trigger] groups@[i])->0@,
                text@,
            ),
{
    let re = regex::Regex::new(pattern).ok()?;
    let caps = re.captures(text)?;
    let mut groups = Vec::new();
    for group in caps.iter() {
        groups.push(
            match group {
                Some(m) => Some(m.as_str().to_string()),
                None => None,
            },
        );
    }
    Some(groups)
}

} // verus!
