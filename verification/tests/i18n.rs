use cepheus_trader::i18n::{
    default_language, group_english_number, negotiate_language, negotiation_outcome,
    LanguageNegotiationError,
};

#[test]
fn accepts_exact_and_regional_english() {
    assert_eq!(negotiate_language("en").unwrap().tag(), "en-US");
    assert_eq!(negotiate_language("en-US").unwrap().tag(), "en-US");
    assert_eq!(negotiate_language("en-GB").unwrap().tag(), "en-GB");
    assert_eq!(
        negotiate_language("EN-latn-us").unwrap().tag(),
        "en-Latn-US"
    );
}

#[test]
fn distinguishes_malformed_and_unsupported_tags() {
    assert_eq!(
        negotiate_language("not_a_tag"),
        Err(LanguageNegotiationError::Malformed)
    );
    assert_eq!(
        negotiate_language("fr-CA"),
        Err(LanguageNegotiationError::Unsupported)
    );
}

#[test]
fn empty_and_overlong_tags_are_malformed() {
    assert_eq!(negotiate_language(""), Err(LanguageNegotiationError::Malformed));
    let long = format!("en-{}", "a".repeat(126));
    assert_eq!(negotiate_language(&long), Err(LanguageNegotiationError::Malformed));
}

#[test]
fn negotiation_reads_the_parsed_primary_language() {
    assert_eq!(negotiation_outcome(None), Err(LanguageNegotiationError::Malformed));
    assert_eq!(
        negotiation_outcome(Some(("en".into(), "en".into()))).unwrap().tag(),
        "en-US"
    );
    assert_eq!(
        negotiation_outcome(Some(("en-AU".into(), "en".into()))).unwrap().tag(),
        "en-AU"
    );
    assert_eq!(
        negotiation_outcome(Some(("de-DE".into(), "de".into()))),
        Err(LanguageNegotiationError::Unsupported)
    );
}

#[test]
fn english_numbers_group_in_thousands() {
    assert_eq!(group_english_number("1234567"), "1,234,567");
    assert_eq!(group_english_number("-1234567.25"), "-1,234,567.25");
    assert_eq!(group_english_number("123"), "123");
    assert_eq!(group_english_number("1234e5"), "1,234e5");
    assert_eq!(group_english_number("12a45"), "12a45");
    let formatting = default_language().display_formatting();
    assert_eq!(formatting.grouping_separator, ",");
    assert_eq!(formatting.primary_grouping_digits, 3);
}
