use i18n_codegen::{emit_locale_map, emit_registry, Translation, ValidatedLocale};

fn locale(tag: &str, entries: &[(&str, &str)]) -> ValidatedLocale {
    ValidatedLocale {
        tag: tag.to_string(),
        entries: entries
            .iter()
            .map(|(key, text)| Translation { key: key.to_string(), text: text.to_string() })
            .collect(),
    }
}

fn tags(list: &[&str]) -> Vec<String> {
    list.iter().map(|tag| tag.to_string()).collect()
}

#[test]
fn table_unit_of_one_entry() {
    let expected = "\
// GENERATED \u{2014} DO NOT EDIT
pub static EN: phf::Map<&'static str, &'static str> = phf::phf_map! {
    \"welcome\" => \"Hi\",
};
";
    assert_eq!(emit_locale_map(&locale("en", &[("welcome", "Hi")])), expected);
}

#[test]
fn table_unit_keeps_the_order_of_the_entries() {
    let expected = "\
// GENERATED \u{2014} DO NOT EDIT
pub static EN_IN: phf::Map<&'static str, &'static str> = phf::phf_map! {
    \"welcome\" => \"Namaste\",
    \"login_success\" => \"Logged in\",
    \"error\" => \"Oops\",
};
";
    let table = locale(
        "en-IN",
        &[("welcome", "Namaste"), ("login_success", "Logged in"), ("error", "Oops")],
    );
    assert_eq!(emit_locale_map(&table), expected);
}

#[test]
fn table_unit_escapes_the_values() {
    let expected = "\
// GENERATED \u{2014} DO NOT EDIT
pub static FR: phf::Map<&'static str, &'static str> = phf::phf_map! {
    \"quote\" => \"dit \\\"oui\\\"\",
    \"path\" => \"C:\\\\temp\",
};
";
    let table = locale("fr", &[("quote", "dit \"oui\""), ("path", "C:\\temp")]);
    assert_eq!(emit_locale_map(&table), expected);
}

#[test]
fn table_unit_escapes_the_keys() {
    let expected = "\
// GENERATED \u{2014} DO NOT EDIT
pub static FR: phf::Map<&'static str, &'static str> = phf::phf_map! {
    \"say \\\"hi\\\"\" => \"salut\",
    \"back\\\\slash\" => \"barre\",
};
";
    let table = locale("fr", &[("say \"hi\"", "salut"), ("back\\slash", "barre")]);
    assert_eq!(emit_locale_map(&table), expected);
}

#[test]
fn table_unit_writes_a_carriage_return_as_an_escape() {
    let expected = "\
// GENERATED \u{2014} DO NOT EDIT
pub static EN: phf::Map<&'static str, &'static str> = phf::phf_map! {
    \"two_lines\" => \"first\\r\nsecond\",
    \"cr\\rkey\" => \"\\r\",
};
";
    let table = locale("en", &[("two_lines", "first\r\nsecond"), ("cr\rkey", "\r")]);
    let unit = emit_locale_map(&table);
    assert_eq!(unit, expected);
    assert!(!unit.contains('\r'));
}

#[test]
fn table_unit_without_entries() {
    let expected = "\
// GENERATED \u{2014} DO NOT EDIT
pub static ZH_HANT_TW: phf::Map<&'static str, &'static str> = phf::phf_map! {
};
";
    assert_eq!(emit_locale_map(&locale("zh-HANT-TW", &[])), expected);
}

#[test]
fn registry_unit_of_one_locale() {
    let expected = "\
// GENERATED \u{2014} DO NOT EDIT

include!(\"locales/EN.rs\");

pub static GENERATED_REGISTRY: &'static [(&'static str, &'static phf::Map<&'static str, &'static str>)] = &[
    (\"en\", &EN),
];

pub fn get_generated_registry() -> &'static [(&'static str, &'static phf::Map<&'static str, &'static str>)] {
    GENERATED_REGISTRY
}
";
    assert_eq!(emit_registry(&tags(&["en"])), expected);
}

#[test]
fn registry_unit_keeps_the_order_of_the_tags() {
    let expected = "\
// GENERATED \u{2014} DO NOT EDIT

include!(\"locales/HI_IN.rs\");
include!(\"locales/EN.rs\");
include!(\"locales/EN_IN.rs\");

pub static GENERATED_REGISTRY: &'static [(&'static str, &'static phf::Map<&'static str, &'static str>)] = &[
    (\"hi-IN\", &HI_IN),
    (\"en\", &EN),
    (\"en-IN\", &EN_IN),
];

pub fn get_generated_registry() -> &'static [(&'static str, &'static phf::Map<&'static str, &'static str>)] {
    GENERATED_REGISTRY
}
";
    assert_eq!(emit_registry(&tags(&["hi-IN", "en", "en-IN"])), expected);
}

#[test]
fn registry_unit_escapes_tag_and_path() {
    let unit = emit_registry(&tags(&["a\"b"]));
    assert!(unit.contains("include!(\"locales/A\\\"B.rs\");\n"));
    assert!(unit.contains("    (\"a\\\"b\", &A\"B),\n"));
}

#[test]
fn registry_unit_without_locales() {
    let expected = "\
// GENERATED \u{2014} DO NOT EDIT


pub static GENERATED_REGISTRY: &'static [(&'static str, &'static phf::Map<&'static str, &'static str>)] = &[
];

pub fn get_generated_registry() -> &'static [(&'static str, &'static phf::Map<&'static str, &'static str>)] {
    GENERATED_REGISTRY
}
";
    assert_eq!(emit_registry(&tags(&[])), expected);
}

#[test]
fn units_are_the_same_on_a_second_run() {
    let table = locale("en", &[("welcome", "Hi"), ("error", "Oops")]);
    assert_eq!(emit_locale_map(&table), emit_locale_map(&table.clone()));
    let list = tags(&["en", "fr"]);
    assert_eq!(emit_registry(&list), emit_registry(&list.clone()));
}
