//! The pattern set of a run and the matcher compiled from it.

use aho_corasick::{AhoCorasick, BuildError};
use vstd::prelude::*;
use vstd::string::*;

use crate::automaton::{
    automaton_patterns,
    build_error_text,
    build_succeeds,
    build_leftmost_first,
    is_leftmost_first,
    replaced,
    run_replace_all,
};
use crate::replacement::Replacement;
use crate::semantics::{all_nonempty, free_of, occurs_at, substitute};

verus! {

/// Why no matcher could be made.
#[derive(Debug)]
pub enum CompileError {
    /// There is no replacement, so there is nothing to search for.
    NoPatterns,
    /// The automaton could not be built from the patterns.
    Automaton { reason: String },
}

impl CompileError {
    /// The words in which the failure is reported.
    pub open spec fn text(self) -> Seq<char> {
        match self {
            CompileError::NoPatterns => "there is no replacement to make"@,
            CompileError::Automaton { reason } => reason@,
        }
    }

    /// The words in which the failure is reported.
    pub fn message(&self) -> (m: String)
        ensures
            m@ == self.text(),
    {
        match self {
            CompileError::NoPatterns => String::from_str("there is no replacement to make"),
            CompileError::Automaton { reason } => reason.clone(),
        }
    }
}

/// The literal that stands for `key` in a text: the key between the two
/// sentinels.
pub open spec fn token(start: Seq<char>, key: Seq<char>, end: Seq<char>) -> Seq<char> {
    start + key + end
}

/// The patterns of a list of replacements, one for each and in their order.
pub open spec fn tokens_of(replacements: Seq<Replacement>, start: Seq<char>, end: Seq<char>) -> Seq<
    Seq<char>,
> {
    Seq::new(replacements.len(), |i: int| token(start, replacements[i].key@, end))
}

/// The values of a list of replacements, in their order.
pub open spec fn values_of(replacements: Seq<Replacement>) -> Seq<Seq<char>> {
    Seq::new(replacements.len(), |i: int| replacements[i].value@)
}

/// Builds the pattern for `key`.
pub fn make_token(start: &str, key: &str, end: &str) -> (pattern: String)
    ensures
        pattern@ == token(start@, key@, end@),
{
    let mut pattern = String::from_str(start);
    pattern.append(key);
    pattern.append(end);
    pattern
}

/// A token begins with the start sentinel and ends with the end sentinel.
proof fn lemma_token_holds_sentinels(
    text: Seq<char>,
    at: int,
    start: Seq<char>,
    key: Seq<char>,
    end: Seq<char>,
)
    requires
        occurs_at(text, at, token(start, key, end)),
    ensures
        occurs_at(text, at, start),
        occurs_at(text, at + start.len() + key.len(), end),
{
    let whole = token(start, key, end);
    assert(whole.len() == start.len() + key.len() + end.len());
    assert(text.subrange(at, at + start.len()) =~= whole.subrange(0, start.len() as int));
    assert(whole.subrange(0, start.len() as int) =~= start);
    let offset = (start.len() + key.len()) as int;
    assert(text.subrange(at + offset, at + offset + end.len()) =~= whole.subrange(
        offset,
        whole.len() as int,
    ));
    assert(whole.subrange(offset, whole.len() as int) =~= end);
}

/// A text in which one of the two sentinels does not occur holds no token
/// and is its own output, whatever the keys and values are. No token is
/// empty then, so this is what a matcher gives.
pub proof fn lemma_text_without_sentinel_is_unchanged(
    text: Seq<char>,
    replacements: Seq<Replacement>,
    start: Seq<char>,
    end: Seq<char>,
)
    requires
        (forall|at: int| !occurs_at(text, at, start)) || (forall|at: int| !occurs_at(text, at, end)),
    ensures
        all_nonempty(tokens_of(replacements, start, end)),
        substitute(text, tokens_of(replacements, start, end), values_of(replacements)) == text,
{
    let patterns = tokens_of(replacements, start, end);
    assert forall|at: int, i: int| 0 <= i < patterns.len() implies !#[trigger] occurs_at(
        text,
        at,
        patterns[i],
    ) by {
        if occurs_at(text, at, patterns[i]) {
            lemma_token_holds_sentinels(text, at, start, replacements[i].key@, end);
        }
    }
    assert(free_of(text, patterns));
    crate::semantics::lemma_unmatched_text_is_unchanged(text, patterns, values_of(replacements));
}

/// With a sentinel that is not empty, no token is empty, and what a matcher
/// gives is `substitute` of the text.
pub proof fn lemma_tokens_are_nonempty(
    replacements: Seq<Replacement>,
    start: Seq<char>,
    end: Seq<char>,
)
    requires
        start.len() > 0 || end.len() > 0,
    ensures
        all_nonempty(tokens_of(replacements, start, end)),
{
    let patterns = tokens_of(replacements, start, end);
    assert forall|i: int| 0 <= i < patterns.len() implies (#[trigger] patterns[i]).len() > 0 by {
        assert(patterns[i] == token(start, replacements[i].key@, end));
    }
}

/// A compiled set of patterns with the value of each.
pub struct Matcher {
    automaton: AhoCorasick,
    patterns: Vec<String>,
    values: Vec<String>,
}

impl Matcher {
    /// There is a value for each pattern, and the automaton is the
    /// leftmost-first one over the patterns.
    #[verifier::type_invariant]
    spec fn well_formed(&self) -> bool {
        &&& self.patterns.len() > 0
        &&& self.patterns.len() == self.values.len()
        &&& is_leftmost_first(self.automaton)
        &&& automaton_patterns(self.automaton) == self.patterns.deep_view()
    }

    /// The patterns, in the order of their registration.
    pub closed spec fn patterns(&self) -> Seq<Seq<char>> {
        self.patterns.deep_view()
    }

    /// The values: `values()[i]` takes the place of `patterns()[i]`.
    pub closed spec fn values(&self) -> Seq<Seq<char>> {
        self.values.deep_view()
    }

    /// Makes the matcher for `replacements`: the pattern of each is its key
    /// between `start` and `end`. An empty list is rejected. Otherwise the
    /// automaton is built, and the matcher is made exactly if an automaton
    /// can be built from the patterns.
    pub fn compile(replacements: &Vec<Replacement>, start: &str, end: &str) -> (r: Result<
        Matcher,
        CompileError,
    >)
        ensures
            r is Ok <==> replacements.len() > 0 && build_succeeds(
                tokens_of(replacements@, start@, end@),
            ),
            match r {
                Ok(m) => {
                    &&& m.patterns() == tokens_of(replacements@, start@, end@)
                    &&& m.values() == values_of(replacements@)
                },
                Err(CompileError::NoPatterns) => replacements.len() == 0,
                Err(CompileError::Automaton { .. }) => replacements.len() > 0,
            },
    {
        if replacements.len() == 0 {
            return Err(CompileError::NoPatterns);
        }
        let mut patterns: Vec<String> = Vec::new();
        let mut values: Vec<String> = Vec::new();
        let mut i: usize = 0;
        while i < replacements.len()
            invariant
                i <= replacements.len(),
                patterns.len() == i,
                values.len() == i,
                forall|k: int|
                    0 <= k < i ==> (#[trigger] patterns@[k])@ == token(
                        start@,
                        replacements@[k].key@,
                        end@,
                    ),
                forall|k: int| 0 <= k < i ==> (#[trigger] values@[k])@ == replacements@[k].value@,
            decreases replacements.len() - i,
        {
            patterns.push(make_token(start, replacements[i].key.as_str(), end));
            values.push(replacements[i].value.clone());
            i = i + 1;
        }
        assert(patterns.deep_view() =~= tokens_of(replacements@, start@, end@));
        assert(values.deep_view() =~= values_of(replacements@));
        let built = build_leftmost_first(&patterns);
        Matcher::from_build(built, patterns, values)
    }

    /// Makes the matcher from the outcome of a build over `patterns`: the
    /// matcher if an automaton was built, the reason if it was not.
    pub fn from_build(
        built: Result<AhoCorasick, BuildError>,
        patterns: Vec<String>,
        values: Vec<String>,
    ) -> (r: Result<Matcher, CompileError>)
        requires
            patterns.len() > 0,
            patterns.len() == values.len(),
            built matches Ok(automaton) ==> is_leftmost_first(automaton) && automaton_patterns(
                automaton,
            ) == patterns.deep_view(),
        ensures
            built is Ok <==> r is Ok,
            r matches Ok(m) ==> m.patterns() == patterns.deep_view() && m.values()
                == values.deep_view(),
            r matches Err(e) ==> e is Automaton,
    {
        match built {
            Ok(automaton) => Ok(Matcher { automaton, patterns, values }),
            Err(error) => Err(CompileError::Automaton { reason: build_error_text(&error) }),
        }
    }

    /// Rewrites `text`: one pass from left to right, in which the earliest
    /// registered pattern that occurs at a position is replaced by its value.
    /// With an empty pattern among the patterns, the output is what the
    /// automaton makes of the text.
    pub fn replace_all(&self, text: &str) -> (out: String)
        ensures
            out@ == replaced(text@, self.patterns(), self.values()),
            all_nonempty(self.patterns()) ==> out@ == substitute(
                text@,
                self.patterns(),
                self.values(),
            ),
    {
        proof {
            use_type_invariant(self);
        }
        run_replace_all(&self.automaton, text, &self.values)
    }

    /// The number of patterns, which is that of the values.
    pub fn len(&self) -> (n: usize)
        ensures
            n > 0,
            n == self.patterns().len(),
            n == self.values().len(),
    {
        proof {
            use_type_invariant(self);
        }
        self.patterns.len()
    }

    /// The patterns, in the order of their registration.
    pub fn pattern_set(&self) -> (list: &Vec<String>)
        ensures
            list.deep_view() == self.patterns(),
    {
        &self.patterns
    }

    /// The values, in the order of their patterns.
    pub fn value_list(&self) -> (list: &Vec<String>)
        ensures
            list.deep_view() == self.values(),
    {
        &self.values
    }

    /// Rewriting can be repeated: two passes over equal texts, by matchers
    /// with equal patterns and values, have the same output.
    pub proof fn lemma_replace_all_is_repeatable(
        self,
        other: Matcher,
        first_text: Seq<char>,
        second_text: Seq<char>,
    )
        requires
            self.patterns() == other.patterns(),
            self.values() == other.values(),
            first_text == second_text,
        ensures
            replaced(first_text, self.patterns(), self.values()) == replaced(
                second_text,
                other.patterns(),
                other.values(),
            ),
    {
    }
}

} // verus!
