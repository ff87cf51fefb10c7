//! The three kinds of source unit: the key identifiers, the lookup table of one
//! locale, and the registry of all tables. Each is stated as a text, character
//! for character, and built to be that text.

use vstd::prelude::*;
use crate::keys::{key_rows, KeyRow};
use crate::locale::{TranslationView, ValidatedLocale, ValidatedView};
use crate::naming::{escape_rust_string, escaped, snake_to_camel};
use crate::schema::Schema;
use crate::tag::{ident_from_tag, table_ident};
use crate::text::{concat, decimal, push_decimal};

verus! {

/// The key unit up to the first identifier.
pub const KEYS_OPENING: &'static str =
    "// GENERATED \u{2014} DO NOT EDIT\n\n#[derive(Debug, Clone, Copy, PartialEq, Eq, Hash)]\npub enum MessageKey {\n";

/// The key unit between the last identifier and the first id arm.
pub const IDS_OPENING: &'static str =
    "}\n\nimpl MessageKey {\n    pub fn as_u32(self) -> u32 {\n        match self {\n";

/// The key unit between the last id arm and the first name arm.
pub const NAMES_OPENING: &'static str =
    "        }\n    }\n\n    pub fn as_str(self) -> &'static str {\n        match self {\n";

/// The key unit between the last name arm and the first lookup arm.
pub const LOOKUP_OPENING: &'static str =
    "        }\n    }\n\n    pub fn from_u32(v: u32) -> Option<MessageKey> {\n        match v {\n";

/// The key unit after the last lookup arm: every other number has no key.
pub const KEYS_CLOSING: &'static str = "            _ => None,\n        }\n    }\n}\n";

/// The first line of every unit.
pub const BANNER: &'static str = "// GENERATED \u{2014} DO NOT EDIT\n";

/// The table unit between the identifier of the table and its first entry.
pub const TABLE_TYPE: &'static str = ": phf::Map<&'static str, &'static str> = phf::phf_map! {\n";

/// The table unit after its last entry.
pub const TABLE_CLOSING: &'static str = "};\n";

/// The registry unit between the last inclusion and the first pair.
pub const REGISTRY_OPENING: &'static str =
    "\npub static GENERATED_REGISTRY: &'static [(&'static str, &'static phf::Map<&'static str, &'static str>)] = &[\n";

/// The registry unit after the last pair: the end of the sequence, and the
/// accessor that returns it.
pub const REGISTRY_CLOSING: &'static str =
    "];\n\npub fn get_generated_registry() -> &'static [(&'static str, &'static phf::Map<&'static str, &'static str>)] {\n    GENERATED_REGISTRY\n}\n";

/// The line that declares the identifier of one key.
pub open spec fn variant_line(row: KeyRow) -> Seq<char> {
    "    "@ + row.ident + ", // id = "@ + decimal(row.id) + "\n"@
}

/// The match arm that maps the identifier of one key to its id.
pub open spec fn id_arm(row: KeyRow) -> Seq<char> {
    "            MessageKey::"@ + row.ident + " => "@ + decimal(row.id) + ",\n"@
}

/// The match arm that maps the identifier of one key to its declared name,
/// which is written as a string literal.
pub open spec fn name_arm(row: KeyRow) -> Seq<char> {
    "            MessageKey::"@ + row.ident + " => \""@ + escaped(row.name) + "\",\n"@
}

/// The match arm that maps the id of one key to its identifier.
pub open spec fn lookup_arm(row: KeyRow) -> Seq<char> {
    "            "@ + decimal(row.id) + " => Some(MessageKey::"@ + row.ident + "),\n"@
}

/// The declarations of the first `n` rows.
pub open spec fn variant_lines(rows: Seq<KeyRow>, n: nat) -> Seq<char> {
    concat(n, |i: int| variant_line(rows[i]))
}

/// The id arms of the first `n` rows.
pub open spec fn id_arms(rows: Seq<KeyRow>, n: nat) -> Seq<char> {
    concat(n, |i: int| id_arm(rows[i]))
}

/// The name arms of the first `n` rows.
pub open spec fn name_arms(rows: Seq<KeyRow>, n: nat) -> Seq<char> {
    concat(n, |i: int| name_arm(rows[i]))
}

/// The lookup arms of the first `n` rows.
pub open spec fn lookup_arms(rows: Seq<KeyRow>, n: nat) -> Seq<char> {
    concat(n, |i: int| lookup_arm(rows[i]))
}

/// The key unit of a schema: the enumeration of the identifiers, the mapping
/// from identifier to id, the mapping from identifier to declared name, and
/// the mapping from id back to identifier, which answers `None` for every
/// number that is no id.
pub open spec fn keys_source(keys: Seq<Seq<char>>) -> Seq<char> {
    let rows = key_rows(keys);
    KEYS_OPENING@ + variant_lines(rows, rows.len()) + IDS_OPENING@ + id_arms(rows, rows.len())
        + NAMES_OPENING@ + name_arms(rows, rows.len()) + LOOKUP_OPENING@ + lookup_arms(
        rows,
        rows.len(),
    ) + KEYS_CLOSING@
}

/// The identifiers of the keys of a schema, in its order.
fn identifiers(schema: &Schema) -> (idents: Vec<String>)
    ensures
        idents.len() == schema.keys.len(),
        forall|i: int| 0 <= i < idents.len() ==> (#[trigger] idents[i])@ == key_rows(schema@)[i].ident,
{
    let mut idents: Vec<String> = Vec::new();
    let mut i: usize = 0;
    while i < schema.keys.len()
        invariant
            i <= schema.keys.len(),
            idents.len() == i,
            forall|k: int| 0 <= k < i ==> (#[trigger] idents[k])@ == key_rows(schema@)[k].ident,
        decreases schema.keys.len() - i,
    {
        idents.push(snake_to_camel(schema.keys[i].as_str()));
        i = i + 1;
    }
    idents
}

/// Emits the key unit of a schema.
pub fn emit_keys(schema: &Schema) -> (out: String)
    ensures
        out@ == keys_source(schema@),
{
    let idents = identifiers(schema);
    let n = schema.keys.len();
    let ghost rows = key_rows(schema@);
    let mut out = String::from_str(KEYS_OPENING);
    let ghost head = out@;
    let mut i: usize = 0;
    while i < n
        invariant
            i <= n,
            n == schema.keys.len(),
            idents.len() == n,
            rows == key_rows(schema@),
            forall|k: int| 0 <= k < n ==> (#[trigger] idents[k])@ == rows[k].ident,
            out@ == head + variant_lines(rows, i as nat),
        decreases n - i,
    {
        out.append("    ");
        out.append(idents[i].as_str());
        out.append(", // id = ");
        push_decimal(&mut out, i);
        out.append("\n");
        i = i + 1;
    }
    out.append(IDS_OPENING);
    let ghost head = out@;
    let mut i: usize = 0;
    while i < n
        invariant
            i <= n,
            n == schema.keys.len(),
            idents.len() == n,
            rows == key_rows(schema@),
            forall|k: int| 0 <= k < n ==> (#[trigger] idents[k])@ == rows[k].ident,
            out@ == head + id_arms(rows, i as nat),
        decreases n - i,
    {
        out.append("            MessageKey::");
        out.append(idents[i].as_str());
        out.append(" => ");
        push_decimal(&mut out, i);
        out.append(",\n");
        i = i + 1;
    }
    out.append(NAMES_OPENING);
    let ghost head = out@;
    let mut i: usize = 0;
    while i < n
        invariant
            i <= n,
            n == schema.keys.len(),
            idents.len() == n,
            rows == key_rows(schema@),
            forall|k: int| 0 <= k < n ==> (#[trigger] idents[k])@ == rows[k].ident,
            out@ == head + name_arms(rows, i as nat),
        decreases n - i,
    {
        let name = escape_rust_string(schema.keys[i].as_str());
        out.append("            MessageKey::");
        out.append(idents[i].as_str());
        out.append(" => \"");
        out.append(name.as_str());
        out.append("\",\n");
        i = i + 1;
    }
    out.append(LOOKUP_OPENING);
    let ghost head = out@;
    let mut i: usize = 0;
    while i < n
        invariant
            i <= n,
            n == schema.keys.len(),
            idents.len() == n,
            rows == key_rows(schema@),
            forall|k: int| 0 <= k < n ==> (#[trigger] idents[k])@ == rows[k].ident,
            out@ == head + lookup_arms(rows, i as nat),
        decreases n - i,
    {
        out.append("            ");
        push_decimal(&mut out, i);
        out.append(" => Some(MessageKey::");
        out.append(idents[i].as_str());
        out.append("),\n");
        i = i + 1;
    }
    out.append(KEYS_CLOSING);
    out
}

/// The line of a locale table that binds one key to its text. Both are
/// written as string literals.
pub open spec fn entry_line(entry: TranslationView) -> Seq<char> {
    "    \""@ + escaped(entry.key) + "\" => \""@ + escaped(entry.text) + "\",\n"@
}

/// The lines of the first `n` entries of a locale table.
pub open spec fn entry_lines(entries: Seq<TranslationView>, n: nat) -> Seq<char> {
    concat(n, |i: int| entry_line(entries[i]))
}

/// The table unit of a locale: a constant lookup table, declared under the
/// identifier of the locale's tag, that binds each key to its text in the
/// order of the entries.
pub open spec fn table_source(locale: ValidatedView) -> Seq<char> {
    BANNER@ + "pub static "@ + table_ident(locale.tag) + TABLE_TYPE@ + entry_lines(
        locale.entries,
        locale.entries.len(),
    ) + TABLE_CLOSING@
}

/// The line of the registry unit that pulls in the table unit of one locale.
/// The path of the unit is written as a string literal.
pub open spec fn inclusion_line(tag: Seq<char>) -> Seq<char> {
    "include!(\"locales/"@ + escaped(table_ident(tag)) + ".rs\");\n"@
}

/// The line of the registry that pairs one tag, written as a string literal,
/// with the table of its locale.
pub open spec fn pair_line(tag: Seq<char>) -> Seq<char> {
    "    (\""@ + escaped(tag) + "\", &"@ + table_ident(tag) + "),\n"@
}

/// The inclusion lines of the first `n` tags.
pub open spec fn inclusion_lines(tags: Seq<Seq<char>>, n: nat) -> Seq<char> {
    concat(n, |i: int| inclusion_line(tags[i]))
}

/// The pair lines of the first `n` tags.
pub open spec fn pair_lines(tags: Seq<Seq<char>>, n: nat) -> Seq<char> {
    concat(n, |i: int| pair_line(tags[i]))
}

/// The registry unit of the locales `tags`: the table units pulled in, the
/// sequence of pairs of tag and table in the order of `tags`, and the accessor
/// that returns the sequence.
pub open spec fn registry_source(tags: Seq<Seq<char>>) -> Seq<char> {
    BANNER@ + "\n"@ + inclusion_lines(tags, tags.len()) + REGISTRY_OPENING@ + pair_lines(
        tags,
        tags.len(),
    ) + REGISTRY_CLOSING@
}

/// Emits the table unit of one validated locale.
pub fn emit_locale_map(locale: &ValidatedLocale) -> (out: String)
    ensures
        out@ == table_source(locale@),
{
    let ident = ident_from_tag(locale.tag.as_str());
    let n = locale.entries.len();
    let ghost entries = locale@.entries;
    let mut out = String::from_str(BANNER);
    out.append("pub static ");
    out.append(ident.as_str());
    out.append(TABLE_TYPE);
    let ghost head = out@;
    let mut i: usize = 0;
    while i < n
        invariant
            i <= n,
            n == locale.entries.len(),
            entries == locale@.entries,
            out@ == head + entry_lines(entries, i as nat),
        decreases n - i,
    {
        let key = escape_rust_string(locale.entries[i].key.as_str());
        let text = escape_rust_string(locale.entries[i].text.as_str());
        out.append("    \"");
        out.append(key.as_str());
        out.append("\" => \"");
        out.append(text.as_str());
        out.append("\",\n");
        i = i + 1;
    }
    out.append(TABLE_CLOSING);
    out
}

/// Emits the registry unit for the locales `tags`, in the order of `tags`.
pub fn emit_registry(tags: &Vec<String>) -> (out: String)
    ensures
        out@ == registry_source(tags.deep_view()),
{
    let n = tags.len();
    let ghost wanted = tags.deep_view();
    let mut out = String::from_str(BANNER);
    out.append("\n");
    let ghost head = out@;
    let mut i: usize = 0;
    while i < n
        invariant
            i <= n,
            n == tags.len(),
            wanted == tags.deep_view(),
            out@ == head + inclusion_lines(wanted, i as nat),
        decreases n - i,
    {
        let ident = ident_from_tag(tags[i].as_str());
        let path = escape_rust_string(ident.as_str());
        out.append("include!(\"locales/");
        out.append(path.as_str());
        out.append(".rs\");\n");
        i = i + 1;
    }
    out.append(REGISTRY_OPENING);
    let ghost head = out@;
    let mut i: usize = 0;
    while i < n
        invariant
            i <= n,
            n == tags.len(),
            wanted == tags.deep_view(),
            out@ == head + pair_lines(wanted, i as nat),
        decreases n - i,
    {
        let ident = ident_from_tag(tags[i].as_str());
        let tag = escape_rust_string(tags[i].as_str());
        out.append("    (\"");
        out.append(tag.as_str());
        out.append("\", &");
        out.append(ident.as_str());
        out.append("),\n");
        i = i + 1;
    }
    out.append(REGISTRY_CLOSING);
    out
}

} // verus!
