//! What substitution means, stated over sequences of characters.
//!
//! A text is scanned once from left to right. At every position the
//! patterns are tried in the order in which they were registered, and the
//! first one that occurs there is replaced by its value; the scan goes on
//! behind the occurrence. A position at which no pattern occurs is copied.
//! Values are written out as they are and never scanned.
//!
//! This is the meaning of a pattern list in which no pattern is empty. The
//! empty pattern occurs at every position, and what becomes of it is not
//! defined here.

use vstd::prelude::*;

verus! {

/// `pattern` stands in `text` at position `at`.
pub open spec fn occurs_at(text: Seq<char>, at: int, pattern: Seq<char>) -> bool {
    &&& 0 <= at
    &&& at + pattern.len() <= text.len()
    &&& text.subrange(at, at + pattern.len()) == pattern
}

/// Pattern `i` occurs at `at` and no pattern registered before it does.
pub open spec fn wins_at(text: Seq<char>, patterns: Seq<Seq<char>>, at: int, i: int) -> bool {
    &&& 0 <= i < patterns.len()
    &&& occurs_at(text, at, patterns[i])
    &&& forall|j: int| 0 <= j < i ==> !occurs_at(text, at, #[trigger] patterns[j])
}

/// The index of the pattern that is chosen at `at`, if any occurs there.
pub open spec fn first_match(text: Seq<char>, patterns: Seq<Seq<char>>, at: int) -> Option<int> {
    if exists|i: int| wins_at(text, patterns, at, i) {
        Some(choose|i: int| wins_at(text, patterns, at, i))
    } else {
        None
    }
}

/// No pattern occurs anywhere in `text`.
pub open spec fn free_of(text: Seq<char>, patterns: Seq<Seq<char>>) -> bool {
    forall|at: int, i: int|
        0 <= i < patterns.len() ==> !#[trigger] occurs_at(text, at, patterns[i])
}

/// No pattern is empty.
pub open spec fn all_nonempty(patterns: Seq<Seq<char>>) -> bool {
    forall|i: int| 0 <= i < patterns.len() ==> (#[trigger] patterns[i]).len() > 0
}

/// The output for the part of `text` that starts at `at`. An empty pattern
/// is never replaced: where it would be chosen, the character is kept.
pub open spec fn substitute_from(
    text: Seq<char>,
    patterns: Seq<Seq<char>>,
    values: Seq<Seq<char>>,
    at: int,
) -> Seq<char>
    decreases text.len() - at,
{
    let hit = first_match(text, patterns, at);
    if at < 0 || at >= text.len() {
        Seq::empty()
    } else if hit is Some && patterns[hit->0].len() > 0 {
        values[hit->0] + substitute_from(text, patterns, values, at + patterns[hit->0].len())
    } else {
        seq![text[at]] + substitute_from(text, patterns, values, at + 1)
    }
}

/// The output for `text`: every chosen occurrence of pattern `i` replaced by
/// `values[i]`, everything else kept.
pub open spec fn substitute(
    text: Seq<char>,
    patterns: Seq<Seq<char>>,
    values: Seq<Seq<char>>,
) -> Seq<char> {
    substitute_from(text, patterns, values, 0)
}

/// Among the patterns up to `i`, one of which occurs at `at`, one wins.
proof fn lemma_some_pattern_wins(text: Seq<char>, patterns: Seq<Seq<char>>, at: int, i: int)
    requires
        0 <= i < patterns.len(),
        occurs_at(text, at, patterns[i]),
    ensures
        exists|k: int| 0 <= k <= i && wins_at(text, patterns, at, k),
    decreases i,
{
    if exists|j: int| 0 <= j < i && occurs_at(text, at, patterns[j]) {
        let j = choose|j: int| 0 <= j < i && occurs_at(text, at, patterns[j]);
        lemma_some_pattern_wins(text, patterns, at, j);
    } else {
        assert(wins_at(text, patterns, at, i));
    }
}

/// The chosen pattern is the earliest registered one that occurs at the
/// position, and no pattern is chosen exactly where none occurs.
pub proof fn lemma_first_match(text: Seq<char>, patterns: Seq<Seq<char>>, at: int)
    ensures
        forall|i: int|
            first_match(text, patterns, at) == Some(i) <==> #[trigger] wins_at(
                text,
                patterns,
                at,
                i,
            ),
        first_match(text, patterns, at) is None <==> forall|i: int|
            0 <= i < patterns.len() ==> !occurs_at(text, at, #[trigger] patterns[i]),
{
    assert forall|i: int| #[trigger]
        wins_at(text, patterns, at, i) implies first_match(text, patterns, at) == Some(i) by {
        let k = choose|k: int| wins_at(text, patterns, at, k);
        if k < i {
            assert(!occurs_at(text, at, patterns[k]));
        } else if i < k {
            assert(!occurs_at(text, at, patterns[i]));
        }
    }
    if first_match(text, patterns, at) is None {
        assert forall|i: int| 0 <= i < patterns.len() implies !occurs_at(
            text,
            at,
            #[trigger] patterns[i],
        ) by {
            if occurs_at(text, at, patterns[i]) {
                lemma_some_pattern_wins(text, patterns, at, i);
            }
        }
    }
}

/// Registration order decides: where a pattern occurs, no pattern that was
/// registered after it is chosen, whether it occurs there too or not, and
/// whichever of the two is longer.
pub proof fn lemma_earlier_pattern_has_priority(
    text: Seq<char>,
    patterns: Seq<Seq<char>>,
    at: int,
    earlier: int,
    later: int,
)
    requires
        0 <= earlier < later < patterns.len(),
        occurs_at(text, at, patterns[earlier]),
    ensures
        first_match(text, patterns, at) is Some,
        first_match(text, patterns, at) != Some(later),
{
    lemma_first_match(text, patterns, at);
    if first_match(text, patterns, at) == Some(later) {
        assert(wins_at(text, patterns, at, later));
    }
}

/// A list of patterns none of which occurs in some text holds no empty
/// pattern, since the empty pattern occurs in every text.
pub proof fn lemma_absent_patterns_are_nonempty(text: Seq<char>, patterns: Seq<Seq<char>>)
    requires
        free_of(text, patterns),
    ensures
        all_nonempty(patterns),
{
    assert forall|i: int| 0 <= i < patterns.len() implies (#[trigger] patterns[i]).len() > 0 by {
        if patterns[i].len() == 0 {
            assert(text.subrange(0, 0) =~= patterns[i]);
            assert(occurs_at(text, 0, patterns[i]));
        }
    }
}

/// What precedes the first occurrence of any pattern is kept as it is: where
/// no pattern occurs before position `upto`, the output is the text up to
/// there, followed by the output for the rest.
pub proof fn lemma_text_before_first_match_is_kept(
    text: Seq<char>,
    patterns: Seq<Seq<char>>,
    values: Seq<Seq<char>>,
    upto: int,
)
    requires
        0 <= upto <= text.len(),
        forall|at: int, i: int|
            0 <= at < upto && 0 <= i < patterns.len() ==> !#[trigger] occurs_at(
                text,
                at,
                patterns[i],
            ),
    ensures
        substitute(text, patterns, values) == text.subrange(0, upto) + substitute_from(
            text,
            patterns,
            values,
            upto,
        ),
{
    lemma_copied_up_to(text, patterns, values, 0, upto);
}

proof fn lemma_copied_up_to(
    text: Seq<char>,
    patterns: Seq<Seq<char>>,
    values: Seq<Seq<char>>,
    at: int,
    upto: int,
)
    requires
        0 <= at <= upto <= text.len(),
        forall|p: int, i: int|
            at <= p < upto && 0 <= i < patterns.len() ==> !#[trigger] occurs_at(
                text,
                p,
                patterns[i],
            ),
    ensures
        substitute_from(text, patterns, values, at) == text.subrange(at, upto) + substitute_from(
            text,
            patterns,
            values,
            upto,
        ),
    decreases upto - at,
{
    if at < upto {
        lemma_first_match(text, patterns, at);
        assert(first_match(text, patterns, at) is None);
        lemma_copied_up_to(text, patterns, values, at + 1, upto);
        assert(text.subrange(at, upto) =~= seq![text[at]] + text.subrange(at + 1, upto));
    } else {
        assert(text.subrange(at, upto) =~= Seq::<char>::empty());
    }
}

/// The first occurrence is replaced: where no pattern occurs before `at` and
/// pattern `i`, which is not empty, is chosen at `at`, the output is the text
/// up to `at`, the value of `i`, and the output for what lies behind the
/// occurrence.
pub proof fn lemma_first_occurrence_is_replaced(
    text: Seq<char>,
    patterns: Seq<Seq<char>>,
    values: Seq<Seq<char>>,
    at: int,
    i: int,
)
    requires
        0 <= at <= text.len(),
        forall|p: int, j: int|
            0 <= p < at && 0 <= j < patterns.len() ==> !#[trigger] occurs_at(text, p, patterns[j]),
        wins_at(text, patterns, at, i),
        patterns[i].len() > 0,
    ensures
        substitute(text, patterns, values) == text.subrange(0, at) + values[i] + substitute_from(
            text,
            patterns,
            values,
            at + patterns[i].len(),
        ),
{
    lemma_text_before_first_match_is_kept(text, patterns, values, at);
    lemma_first_match(text, patterns, at);
    assert(first_match(text, patterns, at) == Some(i));
    let rest = substitute_from(text, patterns, values, at + patterns[i].len());
    assert(substitute_from(text, patterns, values, at) == values[i] + rest);
    assert(text.subrange(0, at) + (values[i] + rest) =~= text.subrange(0, at) + values[i] + rest);
}

/// A pattern occurs in the rest of a text where it occurs in the text.
proof fn lemma_occurs_in_rest(text: Seq<char>, from: int, at: int, pattern: Seq<char>)
    requires
        0 <= from <= text.len(),
        0 <= at,
    ensures
        occurs_at(text.skip(from), at, pattern) <==> occurs_at(text, from + at, pattern),
{
    if at + pattern.len() <= text.len() - from {
        assert(text.skip(from).subrange(at, at + pattern.len()) =~= text.subrange(
            from + at,
            from + at + pattern.len(),
        ));
    }
}

/// The same pattern is chosen in the rest of a text as in the text.
proof fn lemma_first_match_in_rest(text: Seq<char>, patterns: Seq<Seq<char>>, from: int, at: int)
    requires
        0 <= from <= text.len(),
        0 <= at,
    ensures
        first_match(text.skip(from), patterns, at) == first_match(text, patterns, from + at),
{
    lemma_first_match(text.skip(from), patterns, at);
    lemma_first_match(text, patterns, from + at);
    assert forall|i: int| 0 <= i < patterns.len() implies (occurs_at(
        text.skip(from),
        at,
        #[trigger] patterns[i],
    ) <==> occurs_at(text, from + at, patterns[i])) by {
        lemma_occurs_in_rest(text, from, at, patterns[i]);
    }
    match first_match(text, patterns, from + at) {
        Some(i) => {
            assert(wins_at(text, patterns, from + at, i));
            assert(wins_at(text.skip(from), patterns, at, i));
        },
        None => {},
    }
}

/// The scan keeps nothing in mind but its position: the output for the part
/// of a text that starts at `from` is the output for that part taken as a
/// text of its own.
pub proof fn lemma_scan_resumes_afresh(
    text: Seq<char>,
    patterns: Seq<Seq<char>>,
    values: Seq<Seq<char>>,
    from: int,
)
    requires
        0 <= from <= text.len(),
    ensures
        substitute_from(text, patterns, values, from) == substitute(
            text.skip(from),
            patterns,
            values,
        ),
{
    lemma_same_output_in_rest(text, patterns, values, from, 0);
}

proof fn lemma_same_output_in_rest(
    text: Seq<char>,
    patterns: Seq<Seq<char>>,
    values: Seq<Seq<char>>,
    from: int,
    at: int,
)
    requires
        0 <= from <= text.len(),
        0 <= at <= text.len() - from,
    ensures
        substitute_from(text, patterns, values, from + at) == substitute_from(
            text.skip(from),
            patterns,
            values,
            at,
        ),
    decreases text.len() - from - at,
{
    let rest = text.skip(from);
    lemma_first_match_in_rest(text, patterns, from, at);
    lemma_first_match(text, patterns, from + at);
    if at < rest.len() {
        assert(rest[at] == text[from + at]);
        match first_match(text, patterns, from + at) {
            Some(i) => {
                assert(wins_at(text, patterns, from + at, i));
                if patterns[i].len() > 0 {
                    lemma_same_output_in_rest(text, patterns, values, from, at + patterns[i].len());
                } else {
                    lemma_same_output_in_rest(text, patterns, values, from, at + 1);
                }
            },
            None => {
                lemma_same_output_in_rest(text, patterns, values, from, at + 1);
            },
        }
    }
}

/// A text in which no pattern occurs is its own output.
pub proof fn lemma_unmatched_text_is_unchanged(
    text: Seq<char>,
    patterns: Seq<Seq<char>>,
    values: Seq<Seq<char>>,
)
    requires
        free_of(text, patterns),
    ensures
        all_nonempty(patterns),
        substitute(text, patterns, values) == text,
{
    let end = text.len() as int;
    lemma_absent_patterns_are_nonempty(text, patterns);
    lemma_text_before_first_match_is_kept(text, patterns, values, end);
    assert(substitute_from(text, patterns, values, end) =~= Seq::<char>::empty());
    assert(text.subrange(0, end) =~= text);
}

/// The empty text has the empty output.
pub proof fn lemma_empty_text_is_unchanged(
    text: Seq<char>,
    patterns: Seq<Seq<char>>,
    values: Seq<Seq<char>>,
)
    requires
        text.len() == 0,
    ensures
        substitute(text, patterns, values).len() == 0,
{
}

/// A second pass over an output in which no pattern occurs changes nothing.
pub proof fn lemma_second_pass_is_idle(
    text: Seq<char>,
    patterns: Seq<Seq<char>>,
    values: Seq<Seq<char>>,
)
    requires
        free_of(substitute(text, patterns, values), patterns),
    ensures
        all_nonempty(patterns),
        substitute(substitute(text, patterns, values), patterns, values) == substitute(
            text,
            patterns,
            values,
        ),
{
    lemma_unmatched_text_is_unchanged(substitute(text, patterns, values), patterns, values);
}

} // verus!
