//! Reading the content of a locale file as JSON.

use vstd::prelude::*;
use crate::error::{ErrorView, GenerationError, ParseFault};
use crate::locale::{DocumentView, EntryView, LocaleDocument, LocaleEntry, LocaleValue};

verus! {

/// The error of `serde_json`. Nothing is read from it.
#[verifier::external_type_specification]
#[verifier::external_body]
pub struct ExJsonError(serde_json::Error);

/// What `serde_json::from_str` makes of the text `content` when it reads it as
/// a `serde_json::Value`: `None` where it fails, else the value, as far as a
/// `LocaleDocument` holds it.
pub uninterp spec fn json_document(content: Seq<char>) -> Option<DocumentView>;

/// Reads `content` with `serde_json::from_str` as a `serde_json::Value` and
/// hands on what the generation reads of it: of an object its members in the
/// order in which `serde_json` keeps them, of each member its key and, where
/// the value is a string, the string. The contract claims only that the
/// outcome depends on the text alone.
#[verifier::external_body]
fn parse_json(content: &str) -> (parsed: Result<LocaleDocument, serde_json::Error>)
    ensures
        json_document(content@) == parsed_view(parsed),
{
    let json: serde_json::Value = serde_json::from_str(content)?;
    Ok(match json {
        serde_json::Value::Object(members) => LocaleDocument::Object(
            members.into_iter().map(|(key, value)| LocaleEntry { key, value: match value {
                serde_json::Value::String(text) => LocaleValue::Text(text),
                _ => LocaleValue::Other,
            } }).collect(),
        ),
        _ => LocaleDocument::Other,
    })
}

/// What the JSON reader made of a text: the document, or `None` where it
/// failed.
pub open spec fn parsed_view(parsed: Result<LocaleDocument, serde_json::Error>) -> Option<DocumentView> {
    match parsed {
        Ok(document) => Some(document@),
        Err(_) => None,
    }
}

/// The members of the locale file `file`, given what the JSON reader made of
/// its content: a failure where the content is not JSON, and where it is JSON
/// but no object.
pub open spec fn members_of(file: Seq<char>, parsed: Option<DocumentView>) -> Result<
    Seq<EntryView>,
    ErrorView,
> {
    match parsed {
        None => Err(ErrorView::Parse { file, fault: ParseFault::Malformed }),
        Some(DocumentView::Other) => Err(ErrorView::Parse { file, fault: ParseFault::NotAnObject }),
        Some(DocumentView::Object(entries)) => Ok(entries),
    }
}

/// The members of the locale file called `file`, given what the JSON reader
/// made of its content. A failure of the reader, and a document that is no
/// object, fail with the name of the file.
pub fn document_entries(file: &str, parsed: Result<LocaleDocument, serde_json::Error>) -> (result:
    Result<Vec<LocaleEntry>, GenerationError>)
    ensures
        match result {
            Ok(entries) => members_of(file@, parsed_view(parsed)) == Ok::<Seq<EntryView>, ErrorView>(
                entries.deep_view(),
            ),
            Err(error) => members_of(file@, parsed_view(parsed)) == Err::<Seq<EntryView>, ErrorView>(
                error@,
            ),
        },
{
    match parsed {
        Ok(LocaleDocument::Object(entries)) => Ok(entries),
        Ok(LocaleDocument::Other) => Err(
            GenerationError::Parse { file: file.to_owned(), fault: ParseFault::NotAnObject },
        ),
        Err(_) => Err(GenerationError::Parse { file: file.to_owned(), fault: ParseFault::Malformed }),
    }
}

/// Reads the content of the locale file called `file` as JSON and returns its
/// members. Content that is not JSON, and JSON that is no object, fail with
/// the name of the file.
pub fn read_entries(file: &str, content: &str) -> (result: Result<Vec<LocaleEntry>, GenerationError>)
    ensures
        match result {
            Ok(entries) => members_of(file@, json_document(content@)) == Ok::<
                Seq<EntryView>,
                ErrorView,
            >(entries.deep_view()),
            Err(error) => members_of(file@, json_document(content@)) == Err::<
                Seq<EntryView>,
                ErrorView,
            >(error@),
        },
{
    document_entries(file, parse_json(content))
}

} // verus!
