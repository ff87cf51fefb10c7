//! The data of one locale on its way through the generation: its content as
//! it was parsed, and its translations once they have been validated against
//! the schema.

use vstd::prelude::*;

verus! {

/// The value of one member of a locale file.
#[derive(Clone, Debug, PartialEq, Eq)]
pub enum LocaleValue {
    /// A JSON string.
    Text(String),
    /// Any other JSON value.
    Other,
}

impl View for LocaleValue {
    type V = Option<Seq<char>>;

    open spec fn view(&self) -> Option<Seq<char>> {
        match self {
            LocaleValue::Text(text) => Some(text@),
            LocaleValue::Other => None,
        }
    }
}

/// One member of the object that a locale file holds.
#[derive(Clone, Debug, PartialEq, Eq)]
pub struct LocaleEntry {
    pub key: String,
    pub value: LocaleValue,
}

/// A `LocaleEntry` over character sequences; `value` is the text of a string
/// value, and `None` for a value that is no string.
pub struct EntryView {
    pub key: Seq<char>,
    pub value: Option<Seq<char>>,
}

impl View for LocaleEntry {
    type V = EntryView;

    open spec fn view(&self) -> EntryView {
        EntryView { key: self.key@, value: self.value@ }
    }
}

impl DeepView for LocaleEntry {
    type V = EntryView;

    open spec fn deep_view(&self) -> EntryView {
        self@
    }
}

/// The content of a locale file, as far as the generation reads it.
#[derive(Clone, Debug, PartialEq, Eq)]
pub enum LocaleDocument {
    /// A JSON object, with its members in the order in which the reader keeps
    /// them.
    Object(Vec<LocaleEntry>),
    /// Any other JSON value.
    Other,
}

/// A `LocaleDocument` over character sequences.
pub enum DocumentView {
    Object(Seq<EntryView>),
    Other,
}

impl View for LocaleDocument {
    type V = DocumentView;

    open spec fn view(&self) -> DocumentView {
        match self {
            LocaleDocument::Object(entries) => DocumentView::Object(entries.deep_view()),
            LocaleDocument::Other => DocumentView::Other,
        }
    }
}

/// One key of the schema with its text in one locale.
#[derive(Clone, Debug, PartialEq, Eq)]
pub struct Translation {
    pub key: String,
    pub text: String,
}

/// A `Translation` over character sequences.
pub struct TranslationView {
    pub key: Seq<char>,
    pub text: Seq<char>,
}

impl View for Translation {
    type V = TranslationView;

    open spec fn view(&self) -> TranslationView {
        TranslationView { key: self.key@, text: self.text@ }
    }
}

impl DeepView for Translation {
    type V = TranslationView;

    open spec fn deep_view(&self) -> TranslationView {
        self@
    }
}

/// The translations of one locale, validated against a schema: one entry for
/// each key of the schema, in the order of the schema.
#[derive(Clone, Debug, PartialEq, Eq)]
pub struct ValidatedLocale {
    /// The canonical tag of the locale.
    pub tag: String,
    pub entries: Vec<Translation>,
}

/// A `ValidatedLocale` over character sequences.
pub struct ValidatedView {
    pub tag: Seq<char>,
    pub entries: Seq<TranslationView>,
}

impl View for ValidatedLocale {
    type V = ValidatedView;

    open spec fn view(&self) -> ValidatedView {
        ValidatedView { tag: self.tag@, entries: self.entries.deep_view() }
    }
}

impl ValidatedLocale {
    /// Whether the locale holds exactly the keys of the schema `keys`, each
    /// once and in the order of the schema.
    pub open spec fn matches_schema(&self, keys: Seq<Seq<char>>) -> bool {
        &&& self@.entries.len() == keys.len()
        &&& forall|i: int| 0 <= i < keys.len() ==> (#[trigger] self@.entries[i]).key == keys[i]
    }
}

} // verus!
