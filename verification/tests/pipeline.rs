use i18n_codegen::{
    compile_entries, compile_locale, document_entries, generate, read_entries, ArtifactSet,
    GenerationError, LocaleDocument, LocaleEntry, LocaleInput, LocaleSource, LocaleUnit,
    LocaleValue, ParseFault, Schema,
};

fn schema(keys: &[&str]) -> Schema {
    Schema { keys: keys.iter().map(|key| key.to_string()).collect() }
}

fn source(tag: &str, file: &str) -> LocaleSource {
    LocaleSource { tag: tag.to_string(), file: file.to_string() }
}

fn input(name: &str, content: &str) -> LocaleInput {
    LocaleInput { name: name.to_string(), content: content.to_string() }
}

fn text(key: &str, value: &str) -> LocaleEntry {
    LocaleEntry { key: key.to_string(), value: LocaleValue::Text(value.to_string()) }
}

fn other(key: &str) -> LocaleEntry {
    LocaleEntry { key: key.to_string(), value: LocaleValue::Other }
}

const EN_TABLE: &str = "\
// GENERATED \u{2014} DO NOT EDIT
pub static EN: phf::Map<&'static str, &'static str> = phf::phf_map! {
    \"welcome\" => \"Hi\",
};
";

const EN_REGISTRY: &str = "\
// GENERATED \u{2014} DO NOT EDIT

include!(\"locales/EN.rs\");

pub static GENERATED_REGISTRY: &'static [(&'static str, &'static phf::Map<&'static str, &'static str>)] = &[
    (\"en\", &EN),
];

pub fn get_generated_registry() -> &'static [(&'static str, &'static phf::Map<&'static str, &'static str>)] {
    GENERATED_REGISTRY
}
";

const WELCOME_KEYS: &str = "\
// GENERATED \u{2014} DO NOT EDIT

#[derive(Debug, Clone, Copy, PartialEq, Eq, Hash)]
pub enum MessageKey {
    Welcome, // id = 0
}

impl MessageKey {
    pub fn as_u32(self) -> u32 {
        match self {
            MessageKey::Welcome => 0,
        }
    }

    pub fn as_str(self) -> &'static str {
        match self {
            MessageKey::Welcome => \"welcome\",
        }
    }

    pub fn from_u32(v: u32) -> Option<MessageKey> {
        match v {
            0 => Some(MessageKey::Welcome),
            _ => None,
        }
    }
}
";

#[test]
fn members_of_an_object() {
    assert_eq!(
        read_entries("en.json", "{\"welcome\": \"Hi\", \"error\": \"Oops\"}"),
        Ok(vec![text("error", "Oops"), text("welcome", "Hi")])
    );
}

#[test]
fn members_with_other_values() {
    assert_eq!(
        read_entries(
            "en.json",
            "{\"a\": 1, \"b\": null, \"c\": [\"x\"], \"d\": {\"e\": \"f\"}, \"g\": true, \"h\": \"text\"}"
        ),
        Ok(vec![other("a"), other("b"), other("c"), other("d"), other("g"), text("h", "text")])
    );
}

#[test]
fn string_values_are_decoded() {
    assert_eq!(
        read_entries("en.json", "{\"k\": \"a\\\"b\\\\c\\n\\u00e9\"}"),
        Ok(vec![text("k", "a\"b\\c\n\u{e9}")])
    );
}

#[test]
fn the_last_of_two_members_under_one_key_stays() {
    assert_eq!(
        read_entries("en.json", "{\"k\": \"first\", \"k\": \"second\"}"),
        Ok(vec![text("k", "second")])
    );
}

#[test]
fn an_empty_object_has_no_members() {
    assert_eq!(read_entries("en.json", " { } "), Ok(vec![]));
}

#[test]
fn text_that_is_not_json_is_malformed() {
    let malformed = Err(GenerationError::Parse {
        file: String::from("en.json"),
        fault: ParseFault::Malformed,
    });
    assert_eq!(read_entries("en.json", ""), malformed);
    assert_eq!(read_entries("en.json", "{\"welcome\": \"Hi\""), malformed);
    assert_eq!(read_entries("en.json", "{welcome: Hi}"), malformed);
    assert_eq!(read_entries("en.json", "{} {}"), malformed);
}

#[test]
fn json_that_is_no_object_is_refused() {
    let refused = Err(GenerationError::Parse {
        file: String::from("en.json"),
        fault: ParseFault::NotAnObject,
    });
    assert_eq!(read_entries("en.json", "[\"welcome\"]"), refused);
    assert_eq!(read_entries("en.json", "\"welcome\""), refused);
    assert_eq!(read_entries("en.json", "12"), refused);
    assert_eq!(read_entries("en.json", "null"), refused);
}

#[test]
fn entries_of_a_document() {
    assert_eq!(
        document_entries("en.json", Ok(LocaleDocument::Object(vec![text("a", "1"), other("b")]))),
        Ok(vec![text("a", "1"), other("b")])
    );
}

#[test]
fn a_document_that_is_no_object_has_no_entries() {
    assert_eq!(
        document_entries("fr.json", Ok(LocaleDocument::Other)),
        Err(GenerationError::Parse { file: String::from("fr.json"), fault: ParseFault::NotAnObject })
    );
}

#[test]
fn a_failure_of_the_reader_is_a_malformed_file() {
    let fault = serde_json::from_str::<serde_json::Value>("{").unwrap_err();
    assert_eq!(
        document_entries("de.json", Err(fault)),
        Err(GenerationError::Parse { file: String::from("de.json"), fault: ParseFault::Malformed })
    );
}

#[test]
fn one_locale_is_compiled_to_its_table() {
    assert_eq!(
        compile_locale(&schema(&["welcome"]), &source("en", "en.json"), "{\"welcome\":\"Hi\"}"),
        Ok(LocaleUnit { ident: String::from("EN"), source: String::from(EN_TABLE) })
    );
}

#[test]
fn table_lists_the_keys_in_the_order_of_the_schema() {
    let unit = compile_locale(
        &schema(&["welcome", "login_success", "error"]),
        &source("en-IN", "en-in.json"),
        "{\"error\": \"Oops\", \"welcome\": \"Namaste\", \"login_success\": \"Done\"}",
    )
    .unwrap();
    assert_eq!(unit.ident, "EN_IN");
    assert_eq!(
        unit.source,
        "\
// GENERATED \u{2014} DO NOT EDIT
pub static EN_IN: phf::Map<&'static str, &'static str> = phf::phf_map! {
    \"welcome\" => \"Namaste\",
    \"login_success\" => \"Done\",
    \"error\" => \"Oops\",
};
"
    );
}

#[test]
fn a_carriage_return_in_a_value_is_escaped_in_the_table() {
    let unit = compile_locale(
        &schema(&["two_lines"]),
        &source("en", "en.json"),
        "{\"two_lines\": \"first\\r\\nsecond\"}",
    )
    .unwrap();
    assert!(unit.source.contains("    \"two_lines\" => \"first\\r\nsecond\",\n"));
    assert!(!unit.source.contains('\r'));
}

#[test]
fn a_quote_in_a_key_is_escaped_in_the_table() {
    let unit = compile_locale(
        &schema(&["say \"hi\""]),
        &source("en", "en.json"),
        "{\"say \\\"hi\\\"\": \"Hi\"}",
    )
    .unwrap();
    assert!(unit.source.contains("    \"say \\\"hi\\\"\" => \"Hi\",\n"));
}

#[test]
fn compiling_reports_a_file_that_lacks_a_key() {
    assert_eq!(
        compile_locale(
            &schema(&["welcome", "login_success"]),
            &source("en", "en.json"),
            "{\"welcome\":\"Hi\"}"
        ),
        Err(GenerationError::KeyMismatch {
            file: String::from("en.json"),
            missing: vec![String::from("login_success")],
            extra: vec![],
        })
    );
}

#[test]
fn compiling_reports_a_key_that_the_schema_lacks() {
    assert_eq!(
        compile_locale(
            &schema(&["welcome", "login_success"]),
            &source("en", "en.json"),
            "{\"welcome\":\"Hi\",\"login_success\":\"Ok\",\"foo\":\"bar\"}"
        ),
        Err(GenerationError::KeyMismatch {
            file: String::from("en.json"),
            missing: vec![],
            extra: vec![String::from("foo")],
        })
    );
}

#[test]
fn compiling_reports_a_value_that_is_no_string() {
    assert_eq!(
        compile_locale(&schema(&["welcome"]), &source("en", "en.json"), "{\"welcome\": 3}"),
        Err(GenerationError::ValueType {
            file: String::from("en.json"),
            key: String::from("welcome"),
        })
    );
    assert_eq!(
        compile_locale(
            &schema(&["welcome"]),
            &source("en", "en.json"),
            "{\"welcome\": {\"nested\": \"Hi\"}}"
        ),
        Err(GenerationError::ValueType {
            file: String::from("en.json"),
            key: String::from("welcome"),
        })
    );
}

#[test]
fn compiling_reports_content_that_cannot_be_read() {
    assert_eq!(
        compile_locale(&schema(&["welcome"]), &source("en", "en.json"), "welcome = Hi"),
        Err(GenerationError::Parse { file: String::from("en.json"), fault: ParseFault::Malformed })
    );
    assert_eq!(
        compile_locale(&schema(&["welcome"]), &source("en", "en.json"), "[]"),
        Err(GenerationError::Parse { file: String::from("en.json"), fault: ParseFault::NotAnObject })
    );
}

#[test]
fn compiling_entries_agrees_with_compiling_content() {
    let keys = schema(&["welcome", "error"]);
    let en = source("en", "en.json");
    let entries = vec![text("error", "Oops \"x\""), text("welcome", "Hi")];
    assert_eq!(
        compile_entries(&keys, &en, &entries),
        compile_locale(&keys, &en, "{\"welcome\": \"Hi\", \"error\": \"Oops \\\"x\\\"\"}")
    );
}

#[test]
fn end_to_end_with_one_locale() {
    let result = generate(&schema(&["welcome"]), &vec![input("en.json", "{\"welcome\":\"Hi\"}")]);
    assert_eq!(
        result,
        Ok(ArtifactSet {
            keys: String::from(WELCOME_KEYS),
            locales: vec![LocaleUnit { ident: String::from("EN"), source: String::from(EN_TABLE) }],
            registry: String::from(EN_REGISTRY),
        })
    );
}

#[test]
fn end_to_end_registry_holds_one_pair() {
    let artifacts =
        generate(&schema(&["welcome"]), &vec![input("en.json", "{\"welcome\":\"Hi\"}")]).unwrap();
    assert_eq!(artifacts.registry.matches("    (\"").count(), 1);
    assert!(artifacts.registry.contains("    (\"en\", &EN),\n"));
    assert_eq!(artifacts.locales.len(), 1);
    assert!(artifacts.locales[0].source.contains("    \"welcome\" => \"Hi\",\n"));
    assert!(artifacts.keys.contains("            0 => Some(MessageKey::Welcome),\n"));
    assert!(artifacts.keys.contains("            MessageKey::Welcome => 0,\n"));
    assert!(artifacts.keys.contains("            MessageKey::Welcome => \"welcome\",\n"));
}

#[test]
fn generation_without_locale_files() {
    let artifacts = generate(&schema(&["welcome"]), &vec![]).unwrap();
    assert_eq!(artifacts.keys, WELCOME_KEYS);
    assert_eq!(artifacts.locales, vec![]);
    assert!(artifacts.registry.contains("= &[\n];\n"));
}

#[test]
fn generation_follows_the_order_of_the_files() {
    let keys = schema(&["welcome"]);
    let files = vec![
        input("hi-in.json", "{\"welcome\":\"Namaste\"}"),
        input("notes.txt", "not a locale"),
        input("en.json", "{\"welcome\":\"Hi\"}"),
    ];
    let artifacts = generate(&keys, &files).unwrap();
    let idents: Vec<&str> = artifacts.locales.iter().map(|unit| unit.ident.as_str()).collect();
    assert_eq!(idents, vec!["HI_IN", "EN"]);
    assert!(artifacts.registry.contains("    (\"hi-IN\", &HI_IN),\n    (\"en\", &EN),\n"));

    let swapped = vec![files[2].clone(), files[1].clone(), files[0].clone()];
    let artifacts = generate(&keys, &swapped).unwrap();
    let idents: Vec<&str> = artifacts.locales.iter().map(|unit| unit.ident.as_str()).collect();
    assert_eq!(idents, vec!["EN", "HI_IN"]);
    assert!(artifacts.registry.contains("    (\"en\", &EN),\n    (\"hi-IN\", &HI_IN),\n"));
}

#[test]
fn generation_is_the_same_on_a_second_run() {
    let keys = schema(&["welcome", "login_success"]);
    let files = vec![
        input("en.json", "{\"welcome\":\"Hi\",\"login_success\":\"Ok\"}"),
        input("fr.json", "{\"login_success\":\"D'accord\",\"welcome\":\"Salut\"}"),
    ];
    let first = generate(&keys, &files);
    let second = generate(&keys.clone(), &files.clone());
    assert!(first.is_ok());
    assert_eq!(first, second);
}

#[test]
fn a_failure_is_the_same_on_a_second_run() {
    let keys = schema(&["welcome"]);
    let files = vec![input("en.json", "{\"welcom\":\"Hi\"}")];
    let first = generate(&keys, &files);
    assert_eq!(
        first,
        Err(GenerationError::KeyMismatch {
            file: String::from("en.json"),
            missing: vec![String::from("welcome")],
            extra: vec![String::from("welcom")],
        })
    );
    assert_eq!(first, generate(&keys, &files));
}

#[test]
fn generation_fails_on_a_duplicate_tag() {
    let files = vec![
        input("en-US.json", "{\"welcome\":\"Hi\"}"),
        input("en-us.json", "{\"welcome\":\"Hi\"}"),
    ];
    assert_eq!(
        generate(&schema(&["welcome"]), &files),
        Err(GenerationError::DuplicateTag {
            tag: String::from("en-US"),
            first: String::from("en-US.json"),
            second: String::from("en-us.json"),
        })
    );
}

#[test]
fn a_failure_of_the_scan_comes_before_a_failure_of_a_file() {
    let files = vec![
        input("en.json", "not json"),
        input("a-b-c-d.json", "{\"welcome\":\"Hi\"}"),
    ];
    assert_eq!(
        generate(&schema(&["welcome"]), &files),
        Err(GenerationError::TagFormat { tag: String::from("a-b-c-d"), subtags: 4 })
    );
}

#[test]
fn the_first_file_that_fails_ends_the_generation() {
    let files = vec![
        input("en.json", "{\"welcome\":\"Hi\"}"),
        input("fr.json", "[]"),
        input("de.json", "{}"),
    ];
    assert_eq!(
        generate(&schema(&["welcome"]), &files),
        Err(GenerationError::Parse { file: String::from("fr.json"), fault: ParseFault::NotAnObject })
    );
}

#[test]
fn files_that_are_passed_over_are_not_read() {
    let files = vec![
        input("README.md", "# not json"),
        input("-.json", "not json either"),
        input("en.json", "{\"welcome\":\"Hi\"}"),
    ];
    let artifacts = generate(&schema(&["welcome"]), &files).unwrap();
    assert_eq!(artifacts.locales.len(), 1);
    assert_eq!(artifacts.registry, EN_REGISTRY);
}
