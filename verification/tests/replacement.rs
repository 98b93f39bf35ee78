use sentinel_replace::replacement::{ParseError, Replacement};

#[test]
fn splits_key_from_value() {
    let replacement = Replacement::from_str("NAME=Ada").unwrap();
    assert_eq!(replacement.key, "NAME");
    assert_eq!(replacement.value, "Ada");
}

#[test]
fn splits_at_the_first_separator_only() {
    let replacement = Replacement::from_str("a=b=c").unwrap();
    assert_eq!(replacement.key, "a");
    assert_eq!(replacement.value, "b=c");
}

#[test]
fn accepts_an_empty_key() {
    let replacement = Replacement::from_str("=v").unwrap();
    assert_eq!(replacement.key, "");
    assert_eq!(replacement.value, "v");
}

#[test]
fn accepts_an_empty_value() {
    let replacement = Replacement::from_str("k=").unwrap();
    assert_eq!(replacement.key, "k");
    assert_eq!(replacement.value, "");
}

#[test]
fn accepts_a_lone_separator() {
    let replacement = Replacement::from_str("=").unwrap();
    assert_eq!(replacement.key, "");
    assert_eq!(replacement.value, "");
}

#[test]
fn keeps_text_beyond_ascii() {
    let replacement = Replacement::from_str("clé=valeur à é=ü").unwrap();
    assert_eq!(replacement.key, "clé");
    assert_eq!(replacement.value, "valeur à é=ü");
}

#[test]
fn rejects_an_argument_without_separator() {
    let error = Replacement::from_str("novalue").unwrap_err();
    assert_eq!(error, ParseError::MissingSeparator);
}

#[test]
fn rejects_the_empty_argument() {
    assert_eq!(Replacement::from_str("").unwrap_err(), ParseError::MissingSeparator);
}

#[test]
fn says_why_an_argument_was_rejected() {
    assert_eq!(
        ParseError::MissingSeparator.message(),
        "There was no `value` part to this replacement."
    );
}
