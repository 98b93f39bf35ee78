//! The matching automaton, which the `aho_corasick` crate builds and runs.
//!
//! Nothing in this file is proved: each contract says what the crate's
//! documentation promises of the call in the body.

use aho_corasick::{AhoCorasick, AhoCorasickBuilder, BuildError, MatchKind};
use vstd::prelude::*;

use crate::semantics::{all_nonempty, substitute};

verus! {

#[verifier::external_type_specification]
#[verifier::external_body]
pub struct ExAhoCorasick(AhoCorasick);

#[verifier::external_type_specification]
#[verifier::external_body]
pub struct ExBuildError(BuildError);

/// The patterns that an automaton holds, in the order in which they were
/// handed to its builder.
pub uninterp spec fn automaton_patterns(automaton: AhoCorasick) -> Seq<Seq<char>>;

/// Whether an automaton was made to report leftmost-first matches of
/// patterns that are text: it was built from strings, with
/// `MatchKind::LeftmostFirst` and every other option of the builder left at
/// its default.
pub uninterp spec fn is_leftmost_first(automaton: AhoCorasick) -> bool;

/// Whether an automaton can be built from `patterns`. A build fails only
/// where the patterns exceed one of the crate's fixed limits: on the number
/// of patterns, on the length of a pattern, or on the number of states that
/// the patterns need. Nothing but the patterns is consulted.
pub uninterp spec fn build_succeeds(patterns: Seq<Seq<char>>) -> bool;

/// `AhoCorasickBuilder::build`, on a builder whose match kind is
/// `MatchKind::LeftmostFirst`. Whether the build succeeds depends on the
/// patterns alone. An automaton that comes back holds the given patterns in
/// the given order.
#[verifier::external_body]
pub(crate) fn build_leftmost_first(patterns: &Vec<String>) -> (built: Result<
    AhoCorasick,
    BuildError,
>)
    ensures
        built is Ok <==> build_succeeds(patterns.deep_view()),
        built matches Ok(automaton) ==> is_leftmost_first(automaton) && automaton_patterns(
            automaton,
        ) == patterns.deep_view(),
{
    AhoCorasickBuilder::new().match_kind(MatchKind::LeftmostFirst).build(patterns)
}

/// What a leftmost-first automaton over `patterns` makes of `text`, each
/// match replaced by the value with the index of its pattern. It depends on
/// these three alone.
pub uninterp spec fn replaced(
    text: Seq<char>,
    patterns: Seq<Seq<char>>,
    values: Seq<Seq<char>>,
) -> Seq<char>;

/// `AhoCorasick::replace_all`, on an automaton with leftmost-first matches.
///
/// The crate finds the matches one after the other, each search starting
/// where the last match ended. A search reports the leftmost position at
/// which a pattern occurs and, of the patterns that occur there, the one
/// that was handed to the builder first. Each match is replaced by the value
/// with the index of its pattern, and what lies between the matches is
/// copied. Text and patterns are strings, so an occurrence of a pattern that
/// is not empty begins and ends between two characters. Where no pattern is
/// empty, the output is therefore `substitute` of the text.
///
/// With an empty pattern in the list the crate's documentation does not say
/// which matches are found, and nothing but the name is stated.
///
/// The call panics unless there is one value for each pattern.
#[verifier::external_body]
pub(crate) fn run_replace_all(automaton: &AhoCorasick, text: &str, values: &Vec<String>) -> (out:
    String)
    requires
        is_leftmost_first(*automaton),
        values.len() == automaton_patterns(*automaton).len(),
    ensures
        out@ == replaced(text@, automaton_patterns(*automaton), values.deep_view()),
        all_nonempty(automaton_patterns(*automaton)) ==> out@ == substitute(
            text@,
            automaton_patterns(*automaton),
            values.deep_view(),
        ),
{
    automaton.replace_all(text, values)
}

/// `Display` of `BuildError`: the reason for which a build failed, in words.
#[verifier::external_body]
pub(crate) fn build_error_text(error: &BuildError) -> (text: String) {
    error.to_string()
}

} // verus!
