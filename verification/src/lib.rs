//! Turns a schema of message keys and a set of per-locale translation files
//! into the source units that a translation runtime is built with: the key
//! identifiers, one lookup table per locale, and the registry of the tables.
//!
//! The library works on values in memory. Reading the schema and the locale
//! files and writing the units is left to the caller, who either runs
//! [`generate`] on everything at once or goes step by step: [`scan_locales`]
//! on the names of the directory's entries, [`compile_locale`] on each file
//! that the scan returns, then [`emit_keys`] and [`emit_registry`].

pub mod document;
pub mod emit;
pub mod error;
pub mod keys;
pub mod locale;
pub mod naming;
pub mod pipeline;
pub mod scan;
pub mod schema;
pub mod tag;
pub mod text;
pub mod validate;

pub use document::{document_entries, read_entries};
pub use emit::{emit_keys, emit_locale_map, emit_registry};
pub use error::{GenerationError, ParseFault};
pub use keys::MessageKey;
pub use locale::{LocaleDocument, LocaleEntry, LocaleValue, Translation, ValidatedLocale};
pub use naming::{escape_rust_string, snake_to_camel};
pub use pipeline::{
    compile_entries, compile_locale, generate, ArtifactSet, LocaleInput, LocaleUnit,
};
pub use scan::{locale_stem, scan_locales, LocaleSource};
pub use schema::Schema;
pub use tag::{ident_from_tag, normalize_tag_for_build};
pub use validate::validate_locale;
