use aho_corasick::{AhoCorasick, MatchKind};
use sentinel_replace::matcher::{make_token, CompileError, Matcher};
use sentinel_replace::replacement::Replacement;

fn replacements(pairs: &[&str]) -> Vec<Replacement> {
    let mut list = Vec::new();
    for pair in pairs {
        list.push(Replacement::from_str(pair).unwrap());
    }
    list
}

fn matcher_for(pairs: &[&str]) -> Matcher {
    Matcher::compile(&replacements(pairs), "{{", "}}").unwrap()
}

#[test]
fn replaces_every_token() {
    let matcher = matcher_for(&["NAME=Ada", "AGE=36"]);
    assert_eq!(
        matcher.replace_all("Hello {{NAME}}, you are {{AGE}}."),
        "Hello Ada, you are 36."
    );
}

#[test]
fn replaces_repeated_and_adjacent_tokens() {
    let matcher = matcher_for(&["A=1", "B=22"]);
    assert_eq!(matcher.replace_all("{{A}}{{B}}{{A}}{{A}}"), "12211");
}

#[test]
fn a_token_is_no_prefix_of_a_longer_token() {
    // `{{A}}` does not stand in `{{AB}}`: the fifth character differs.
    let matcher = matcher_for(&["A=x", "AB=y"]);
    assert_eq!(matcher.replace_all("{{AB}}"), "y");
    assert_eq!(matcher.replace_all("{{A}}{{AB}}"), "xy");
}

#[test]
fn earlier_registered_pattern_wins_over_a_longer_one() {
    let matcher = matcher_for(&["A=x", "A}}B=y"]);
    assert_eq!(matcher.replace_all("{{A}}B}}"), "xB}}");
}

#[test]
fn later_registered_pattern_loses_even_if_longer() {
    let matcher = Matcher::compile(&replacements(&["A=x", "AB=y"]), "{{", "").unwrap();
    assert_eq!(matcher.replace_all("{{AB"), "xB");
}

#[test]
fn longer_pattern_wins_if_registered_first() {
    let matcher = Matcher::compile(&replacements(&["AB=y", "A=x"]), "{{", "").unwrap();
    assert_eq!(matcher.replace_all("{{AB {{A"), "y x");
}

#[test]
fn leftmost_occurrence_wins_over_registration_order() {
    let matcher = Matcher::compile(&replacements(&["bcd=1", "ab=2"]), "", "").unwrap();
    assert_eq!(matcher.replace_all("abcd"), "2cd");
}

#[test]
fn first_of_two_equal_keys_shadows_the_second() {
    let matcher = matcher_for(&["K=first", "K=second"]);
    assert_eq!(matcher.replace_all("{{K}} {{K}}"), "first first");
}

#[test]
fn text_without_sentinels_is_unchanged() {
    let matcher = matcher_for(&["NAME=Ada"]);
    let text = "plain text, no tokens: { } NAME = Ada\n\ttab é ü 日本語";
    assert_eq!(matcher.replace_all(text), text);
}

#[test]
fn unmatched_fragments_are_kept() {
    let matcher = matcher_for(&["NAME=Ada"]);
    assert_eq!(matcher.replace_all("{{NAME"), "{{NAME");
    assert_eq!(matcher.replace_all("NAME}}"), "NAME}}");
    assert_eq!(matcher.replace_all("{{OTHER}}"), "{{OTHER}}");
    assert_eq!(matcher.replace_all("{{ NAME }}"), "{{ NAME }}");
    assert_eq!(matcher.replace_all("{{{NAME}}}"), "{Ada}");
}

#[test]
fn empty_text_gives_empty_output() {
    let matcher = matcher_for(&["NAME=Ada"]);
    assert_eq!(matcher.replace_all(""), "");
}

#[test]
fn empty_value_removes_the_token() {
    let matcher = matcher_for(&["X="]);
    assert_eq!(matcher.replace_all("a{{X}}b"), "ab");
    assert_eq!(matcher.replace_all("{{X}}"), "");
}

#[test]
fn empty_key_is_a_pattern_like_any_other() {
    let matcher = matcher_for(&["=nothing"]);
    assert_eq!(matcher.replace_all("a {{}} b {{ }}"), "a nothing b {{ }}");
}

#[test]
fn values_are_not_scanned_again() {
    let matcher = matcher_for(&["A={{B}}", "B={{A}}"]);
    assert_eq!(matcher.replace_all("{{A}} {{B}}"), "{{B}} {{A}}");
}

#[test]
fn a_value_and_its_surroundings_form_no_new_token() {
    let matcher = matcher_for(&["A=A}}", "B={{"]);
    assert_eq!(matcher.replace_all("{{{{A}}"), "{{A}}");
    assert_eq!(matcher.replace_all("{{B}}A}}"), "{{A}}");
}

#[test]
fn same_text_twice_gives_the_same_output() {
    let matcher = matcher_for(&["NAME=Ada", "AGE=36"]);
    let text = "{{NAME}} is {{AGE}}; {{NAME}}!";
    let first = matcher.replace_all(text);
    let second = matcher.replace_all(text);
    assert_eq!(first, "Ada is 36; Ada!");
    assert_eq!(first, second);
}

#[test]
fn second_pass_over_token_free_output_changes_nothing() {
    let matcher = matcher_for(&["NAME=Ada"]);
    let once = matcher.replace_all("Hello {{NAME}}");
    assert_eq!(matcher.replace_all(&once), once);
}

#[test]
fn second_pass_replaces_what_a_value_brought_in() {
    let matcher = matcher_for(&["A={{B}}", "B=end"]);
    let once = matcher.replace_all("{{A}}");
    assert_eq!(once, "{{B}}");
    assert_eq!(matcher.replace_all(&once), "end");
}

#[test]
fn text_beyond_ascii_is_matched_and_kept() {
    let matcher = Matcher::compile(&replacements(&["clé=värde", "日本=語"]), "«", "»").unwrap();
    assert_eq!(matcher.replace_all("é«clé»ü «日本» «cle»"), "évärdeü 語 «cle»");
}

#[test]
fn sentinels_of_the_caller_delimit_the_tokens() {
    let matcher = Matcher::compile(&replacements(&["user=root"]), "<%", "%>").unwrap();
    assert_eq!(matcher.replace_all("<%user%> {{user}}"), "root {{user}}");
}

#[test]
fn token_is_key_between_sentinels() {
    assert_eq!(make_token("{{", "NAME", "}}"), "{{NAME}}");
    assert_eq!(make_token("", "k", ""), "k");
    assert_eq!(make_token("<", "", ">"), "<>");
}

#[test]
fn empty_pattern_is_taken_once_at_each_position() {
    let matcher = Matcher::compile(&replacements(&["=-"]), "", "").unwrap();
    assert_eq!(matcher.replace_all("ab"), "-a-b-");
    assert_eq!(matcher.replace_all("é"), "-é-");
    assert_eq!(matcher.replace_all(""), "-");
}

#[test]
fn empty_pattern_is_not_taken_behind_an_occurrence() {
    let matcher = Matcher::compile(&replacements(&["a=1", "=-"]), "", "").unwrap();
    assert_eq!(matcher.replace_all("ab"), "1b-");
    assert_eq!(matcher.replace_all("a"), "1");
    assert_eq!(matcher.replace_all("ba"), "-b1");
}

#[test]
fn empty_pattern_shadows_all_later_patterns() {
    let matcher = Matcher::compile(&replacements(&["=-", "a=1"]), "", "").unwrap();
    assert_eq!(matcher.replace_all("a"), "-a-");
}

#[test]
fn no_replacement_is_no_matcher() {
    let error = Matcher::compile(&Vec::new(), "{{", "}}").err().unwrap();
    assert!(matches!(error, CompileError::NoPatterns));
    assert_eq!(error.message(), "there is no replacement to make");
}

#[test]
fn matcher_knows_its_patterns_and_values() {
    let matcher = matcher_for(&["NAME=Ada", "AGE=36"]);
    assert_eq!(matcher.len(), 2);
    assert_eq!(matcher.pattern_set(), &vec!["{{NAME}}".to_string(), "{{AGE}}".to_string()]);
    assert_eq!(matcher.value_list(), &vec!["Ada".to_string(), "36".to_string()]);
}

#[test]
fn matcher_is_made_from_a_built_automaton() {
    let patterns = vec!["<a>".to_string(), "<b>".to_string()];
    let values = vec!["1".to_string(), "2".to_string()];
    let built = AhoCorasick::builder().match_kind(MatchKind::LeftmostFirst).build(&patterns);
    let matcher = Matcher::from_build(built, patterns, values).ok().unwrap();
    assert_eq!(matcher.len(), 2);
    assert_eq!(matcher.replace_all("<b><a><c>"), "21<c>");
}

#[test]
fn empty_pattern_behind_a_longer_pattern_is_left_to_the_automaton() {
    let matcher = Matcher::compile(&replacements(&["ab=X", "=Y"]), "", "").unwrap();
    assert_eq!(matcher.replace_all("aab"), "aX");
    assert_eq!(matcher.replace_all("ab"), "X");
    assert_eq!(matcher.replace_all("b"), "YbY");
}
