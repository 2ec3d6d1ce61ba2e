//! Regular expressions, as the `regex` crate compiles and matches them.
//!
//! Nothing here is proved: each function states what the crate documents of
//! the call it makes. What a search finds is named, not described.

use crate::text::texts;
use vstd::prelude::*;

verus! {

#[verifier::external_type_specification]
#[verifier::external_body]
pub struct ExRegexSet(regex::RegexSet);

#[verifier::external_type_specification]
#[verifier::external_body]
pub struct ExRegexError(regex::Error);

/// Whether `Regex::new` accepts `pattern`.
pub uninterp spec fn regex_compiles(pattern: Seq<char>) -> bool;

/// For each successive match in `text` of the expression `pattern`, as
/// `Regex::captures_iter` finds them, what the capture group with the
/// number `group` matched, if it took part.
pub uninterp spec fn regex_groups(pattern: Seq<char>, group: nat, text: Seq<char>) -> Seq<
    Option<Seq<char>>,
>;

/// Whether `RegexSet::new` accepts `patterns`.
pub uninterp spec fn regex_set_compiles(patterns: Seq<Seq<char>>) -> bool;

/// The patterns that a set holds, in the order in which they were given:
/// what `RegexSet::patterns` returns.
pub uninterp spec fn regex_set_patterns(set: regex::RegexSet) -> Seq<Seq<char>>;

/// Whether the expression `pattern` matches anywhere in `text`, as
/// `RegexSet::is_match` decides it for each expression of a set.
pub uninterp spec fn regex_is_match(pattern: Seq<char>, text: Seq<char>) -> bool;

/// Whether one of `patterns` matches anywhere in `text`.
pub open spec fn any_matches(patterns: Seq<Seq<char>>, text: Seq<char>) -> bool {
    exists|i: int| 0 <= i < patterns.len() && #[trigger] regex_is_match(patterns[i], text)
}

/// The texts of the strings of `v`, where there is one.
pub open spec fn option_texts(v: Seq<Option<String>>) -> Seq<Option<Seq<char>>> {
    Seq::new(
        v.len(),
        |i: int|
            match v[i] {
                Some(s) => Some(s@),
                None => None,
            },
    )
}

/// `Regex::new`, then `Regex::captures_iter` with `Captures::get` on each
/// match: what the group with the number `group` matched in each successive
/// match of `pattern` in `text`. Fails where `pattern` is not a valid
/// expression or compiles to more than the size limit.
#[verifier::external_body]
pub(crate) fn group_captures(pattern: &str, group: usize, text: &str) -> (r: Result<
    Vec<Option<String>>,
    regex::Error,
>)
    ensures
        r is Ok <==> regex_compiles(pattern@),
        r matches Ok(found) ==> option_texts(found@) == regex_groups(
            pattern@,
            group as nat,
            text@,
        ),
{
    let re = regex::Regex::new(pattern)?;
    Ok(re.captures_iter(text).map(|c| c.get(group).map(|m| m.as_str().to_string())).collect())
}

/// `RegexSet::new`: compiles `patterns` into one set that keeps them in
/// their order, or fails where one of them is not a valid expression or the
/// set compiles to more than the size limit.
#[verifier::external_body]
pub(crate) fn compile_set(patterns: &Vec<String>) -> (r: Result<regex::RegexSet, regex::Error>)
    ensures
        r is Ok <==> regex_set_compiles(texts(patterns@)),
        r matches Ok(set) ==> regex_set_patterns(set) == texts(patterns@),
{
    regex::RegexSet::new(patterns)
}

/// `RegexSet::is_match`: whether one of the expressions of the set matches
/// anywhere in `text`.
#[verifier::external_body]
pub(crate) fn set_is_match(set: &regex::RegexSet, text: &str) -> (b: bool)
    ensures
        b == any_matches(regex_set_patterns(*set), text@),
        regex_set_patterns(*set).len() == 1 ==> b == regex_is_match(regex_set_patterns(*set)[0], text@),
{
    set.is_match(text)
}

/// A set of one expression matches where that expression does.
pub(crate) proof fn lemma_single(pattern: Seq<char>, text: Seq<char>)
    ensures
        any_matches(seq![pattern], text) == regex_is_match(pattern, text),
{
    if regex_is_match(pattern, text) {
        assert(regex_is_match(seq![pattern][0], text));
    }
}

} // verus!
