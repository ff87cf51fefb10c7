use i18n_codegen::{ident_from_tag, normalize_tag_for_build, GenerationError};

#[test]
fn region_subtag_is_raised() {
    assert_eq!(normalize_tag_for_build("en-in"), Ok(String::from("en-IN")));
}

#[test]
fn language_subtag_is_lowered() {
    assert_eq!(normalize_tag_for_build("EN"), Ok(String::from("en")));
}

#[test]
fn three_subtags_are_accepted() {
    assert_eq!(normalize_tag_for_build("en-US-POSIX"), Ok(String::from("en-US-POSIX")));
    assert_eq!(normalize_tag_for_build("ZH-hant-tw"), Ok(String::from("zh-HANT-TW")));
}

#[test]
fn four_subtags_are_refused() {
    assert_eq!(
        normalize_tag_for_build("en-US-POSIX-X"),
        Err(GenerationError::TagFormat { tag: String::from("en-US-POSIX-X"), subtags: 4 })
    );
}

#[test]
fn refusal_counts_only_the_subtags_that_are_not_empty() {
    assert_eq!(
        normalize_tag_for_build("a--b-c-d-e-"),
        Err(GenerationError::TagFormat { tag: String::from("a--b-c-d-e-"), subtags: 5 })
    );
    assert_eq!(normalize_tag_for_build("-a--b---c-"), Ok(String::from("a-B-C")));
}

#[test]
fn empty_raw_tag_gives_the_empty_tag() {
    assert_eq!(normalize_tag_for_build(""), Ok(String::new()));
}

#[test]
fn hyphens_alone_give_the_empty_tag() {
    assert_eq!(normalize_tag_for_build("-"), Ok(String::new()));
    assert_eq!(normalize_tag_for_build("----"), Ok(String::new()));
}

#[test]
fn empty_fields_between_hyphens_are_dropped() {
    assert_eq!(normalize_tag_for_build("-en--us-"), Ok(String::from("en-US")));
}

#[test]
fn case_follows_unicode_beyond_ascii() {
    assert_eq!(normalize_tag_for_build("\u{c9}L-stra\u{df}e"), Ok(String::from("\u{e9}l-STRASSE")));
}

#[test]
fn normalizing_a_canonical_tag_changes_nothing() {
    let once = normalize_tag_for_build("Pt-br").unwrap();
    assert_eq!(once, "pt-BR");
    assert_eq!(normalize_tag_for_build(&once), Ok(once.clone()));
}

#[test]
fn table_identifier_of_a_plain_tag() {
    assert_eq!(ident_from_tag("en"), "EN");
}

#[test]
fn table_identifier_replaces_hyphens() {
    assert_eq!(ident_from_tag("en-US"), "EN_US");
    assert_eq!(ident_from_tag("zh-HANT-TW"), "ZH_HANT_TW");
}

#[test]
fn table_identifier_of_the_empty_tag() {
    assert_eq!(ident_from_tag(""), "");
}

#[test]
fn table_identifier_keeps_underscores() {
    assert_eq!(ident_from_tag("a_b-c"), "A_B_C");
}
