//! The failures of a generation run, each with what identifies its cause.

use vstd::prelude::*;

verus! {

/// Why the content of a locale file was not accepted.
#[derive(Clone, Copy, Debug, PartialEq, Eq, Structural)]
pub enum ParseFault {
    /// The content is not JSON.
    Malformed,
    /// The content is JSON, but its top level is not an object.
    NotAnObject,
}

/// A failure of the generation. The first one ends the run.
#[derive(Clone, Debug, PartialEq, Eq)]
pub enum GenerationError {
    /// A raw tag has more than three subtags.
    TagFormat { tag: String, subtags: usize },
    /// Two files give the same canonical tag.
    DuplicateTag { tag: String, first: String, second: String },
    /// The content of a locale file is not a JSON object.
    Parse { file: String, fault: ParseFault },
    /// A locale file lacks keys of the schema, or holds keys that the schema
    /// lacks. Both lists are complete.
    KeyMismatch { file: String, missing: Vec<String>, extra: Vec<String> },
    /// The value of a key in a locale file is not a string.
    ValueType { file: String, key: String },
}

/// What a `GenerationError` says, over character sequences.
pub enum ErrorView {
    TagFormat { tag: Seq<char>, subtags: nat },
    DuplicateTag { tag: Seq<char>, first: Seq<char>, second: Seq<char> },
    Parse { file: Seq<char>, fault: ParseFault },
    KeyMismatch { file: Seq<char>, missing: Seq<Seq<char>>, extra: Seq<Seq<char>> },
    ValueType { file: Seq<char>, key: Seq<char> },
}

impl View for GenerationError {
    type V = ErrorView;

    open spec fn view(&self) -> ErrorView {
        match self {
            GenerationError::TagFormat { tag, subtags } => ErrorView::TagFormat {
                tag: tag@,
                subtags: *subtags as nat,
            },
            GenerationError::DuplicateTag { tag, first, second } => ErrorView::DuplicateTag {
                tag: tag@,
                first: first@,
                second: second@,
            },
            GenerationError::Parse { file, fault } => ErrorView::Parse { file: file@, fault: *fault },
            GenerationError::KeyMismatch { file, missing, extra } => ErrorView::KeyMismatch {
                file: file@,
                missing: missing.deep_view(),
                extra: extra.deep_view(),
            },
            GenerationError::ValueType { file, key } => ErrorView::ValueType { file: file@, key: key@ },
        }
    }
}

} // verus!
