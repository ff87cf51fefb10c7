//! The check of one locale file against the schema: the file must hold
//! exactly the keys of the schema, each with a string for its value.

use vstd::prelude::*;
use crate::error::{ErrorView, GenerationError};
use crate::locale::{
    EntryView, LocaleEntry, LocaleValue, Translation, TranslationView, ValidatedLocale,
    ValidatedView,
};
use crate::scan::{LocaleSource, SourceView};
use crate::schema::Schema;

verus! {

/// The first member of `entries` under the key `key`, if there is one.
pub open spec fn lookup(entries: Seq<EntryView>, key: Seq<char>) -> Option<EntryView>
    decreases entries.len(),
{
    if entries.len() == 0 {
        None
    } else if entries[0].key == key {
        Some(entries[0])
    } else {
        lookup(entries.drop_first(), key)
    }
}

/// The keys of the members of a file, in the order of the members.
pub open spec fn entry_keys(entries: Seq<EntryView>) -> Seq<Seq<char>> {
    entries.map_values(|entry: EntryView| entry.key)
}

/// The keys of the schema that the file lacks, in the order of the schema.
pub open spec fn missing_keys(keys: Seq<Seq<char>>, entries: Seq<EntryView>) -> Seq<Seq<char>> {
    keys.filter(|key: Seq<char>| lookup(entries, key) is None)
}

/// The keys of the file that the schema lacks, in the order of the file.
pub open spec fn extra_keys(keys: Seq<Seq<char>>, entries: Seq<EntryView>) -> Seq<Seq<char>> {
    entry_keys(entries).filter(|key: Seq<char>| !keys.contains(key))
}

/// The string that the file has for `key`: the value of the first member
/// under the key, where there is one and its value is a string.
pub open spec fn text_of(entries: Seq<EntryView>, key: Seq<char>) -> Option<Seq<char>> {
    match lookup(entries, key) {
        Some(entry) => entry.value,
        None => None,
    }
}

/// The translations of the keys `keys` as the file gives them, in the order of
/// `keys`; or the first of these keys for which the file has no string.
pub open spec fn translated(keys: Seq<Seq<char>>, entries: Seq<EntryView>) -> Result<
    Seq<TranslationView>,
    Seq<char>,
>
    decreases keys.len(),
{
    if keys.len() == 0 {
        Ok(Seq::empty())
    } else {
        match translated(keys.drop_last(), entries) {
            Err(key) => Err(key),
            Ok(done) => match text_of(entries, keys.last()) {
                Some(text) => Ok(done.push(TranslationView { key: keys.last(), text })),
                None => Err(keys.last()),
            },
        }
    }
}

/// What the validation of a file against a schema gives: the key mismatch with
/// both complete lists where the key sets differ; else the first key of the
/// schema whose value is no string; else the validated locale.
pub open spec fn validated(keys: Seq<Seq<char>>, source: SourceView, entries: Seq<EntryView>) -> Result<
    ValidatedView,
    ErrorView,
> {
    let missing = missing_keys(keys, entries);
    let extra = extra_keys(keys, entries);
    if missing.len() > 0 || extra.len() > 0 {
        Err(ErrorView::KeyMismatch { file: source.file, missing, extra })
    } else {
        match translated(keys, entries) {
            Err(key) => Err(ErrorView::ValueType { file: source.file, key }),
            Ok(translations) => Ok(ValidatedView { tag: source.tag, entries: translations }),
        }
    }
}

/// A key has a member in the file exactly when it is among the file's keys,
/// and the member that is found for it is one of the file under this key.
pub proof fn lemma_lookup_finds_keys(entries: Seq<EntryView>, key: Seq<char>)
    ensures
        lookup(entries, key) is Some <==> entry_keys(entries).contains(key),
        lookup(entries, key) matches Some(entry) ==> entry.key == key && entries.contains(entry),
    decreases entries.len(),
{
    let keys = entry_keys(entries);
    if entries.len() > 0 && entries[0].key == key {
        assert(keys[0] == key);
        assert(entries[0] == entries[0]);
    } else if entries.len() > 0 {
        let rest = entries.drop_first();
        let rest_keys = entry_keys(rest);
        lemma_lookup_finds_keys(rest, key);
        if rest_keys.contains(key) {
            let k = choose|k: int| 0 <= k < rest_keys.len() && rest_keys[k] == key;
            assert(keys[k + 1] == key);
        }
        if keys.contains(key) {
            let k = choose|k: int| 0 <= k < keys.len() && keys[k] == key;
            assert(rest_keys[k - 1] == key);
        }
        if let Some(entry) = lookup(rest, key) {
            let k = choose|k: int| 0 <= k < rest.len() && rest[k] == entry;
            assert(entries[k + 1] == entry);
        }
    }
}

/// Whether key `i` is the first of `keys` for which the file has no string.
pub open spec fn is_first_without_text(keys: Seq<Seq<char>>, entries: Seq<EntryView>, i: int) -> bool {
    &&& 0 <= i < keys.len()
    &&& text_of(entries, keys[i]) is None
    &&& forall|j: int| 0 <= j < i ==> text_of(entries, #[trigger] keys[j]) is Some
}

/// Where the translations are complete, there is one for each key, in the
/// order of the keys, and each holds the string that the file has for the key.
/// Where they are not, the key that is reported is the first for which the
/// file has no string.
pub proof fn lemma_translated(keys: Seq<Seq<char>>, entries: Seq<EntryView>)
    ensures
        match translated(keys, entries) {
            Ok(translations) => {
                &&& translations.len() == keys.len()
                &&& forall|i: int|
                    0 <= i < keys.len() ==> text_of(entries, keys[i]) == Some(
                        (#[trigger] translations[i]).text,
                    ) && translations[i].key == keys[i]
            },
            Err(key) => exists|i: int| is_first_without_text(keys, entries, i) && keys[i] == key,
        },
    decreases keys.len(),
{
    if keys.len() > 0 {
        let front = keys.drop_last();
        lemma_translated(front, entries);
        match translated(front, entries) {
            Err(key) => {
                let i = choose|i: int| is_first_without_text(front, entries, i) && front[i] == key;
                assert forall|j: int| 0 <= j < i implies text_of(entries, #[trigger] keys[j]) is Some by {
                    assert(keys[j] == front[j]);
                }
                assert(is_first_without_text(keys, entries, i) && keys[i] == key);
            },
            Ok(done) => {
                assert forall|j: int| 0 <= j < front.len() implies text_of(entries, #[trigger] keys[j])
                    == Some(done[j].text) by {
                    assert(keys[j] == front[j]);
                }
                if text_of(entries, keys.last()) is None {
                    assert(is_first_without_text(keys, entries, keys.len() - 1));
                }
            },
        }
    }
}

proof fn lemma_missing_push(keys: Seq<Seq<char>>, key: Seq<char>, entries: Seq<EntryView>)
    ensures
        missing_keys(keys.push(key), entries) == if lookup(entries, key) is None {
            missing_keys(keys, entries).push(key)
        } else {
            missing_keys(keys, entries)
        },
{
    keys.lemma_filter_push(key, |key: Seq<char>| lookup(entries, key) is None);
}

proof fn lemma_extra_push(keys: Seq<Seq<char>>, entries: Seq<EntryView>, entry: EntryView)
    ensures
        extra_keys(keys, entries.push(entry)) == if !keys.contains(entry.key) {
            extra_keys(keys, entries).push(entry.key)
        } else {
            extra_keys(keys, entries)
        },
{
    assert(entry_keys(entries.push(entry)) =~= entry_keys(entries).push(entry.key));
    entry_keys(entries).lemma_filter_push(entry.key, |key: Seq<char>| !keys.contains(key));
}

/// The position of the first member of `entries` under `key`.
fn find_entry(entries: &Vec<LocaleEntry>, key: &String) -> (found: Option<usize>)
    ensures
        match found {
            Some(at) => at < entries.len() && lookup(entries.deep_view(), key@) == Some(entries[at as int]@),
            None => lookup(entries.deep_view(), key@) is None,
        },
{
    let ghost all = entries.deep_view();
    let mut at: usize = 0;
    assert(all.skip(0) =~= all);
    while at < entries.len()
        invariant
            at <= entries.len(),
            all == entries.deep_view(),
            lookup(all, key@) == lookup(all.skip(at as int), key@),
        decreases entries.len() - at,
    {
        assert(all.skip(at as int).drop_first() =~= all.skip(at + 1));
        if entries[at].key == *key {
            return Some(at);
        }
        at = at + 1;
    }
    None
}

/// Whether `key` is among `keys`.
fn has_key(keys: &Vec<String>, key: &String) -> (found: bool)
    ensures
        found == keys.deep_view().contains(key@),
{
    let mut at: usize = 0;
    while at < keys.len()
        invariant
            at <= keys.len(),
            forall|k: int| 0 <= k < at ==> keys.deep_view()[k] != key@,
        decreases keys.len() - at,
    {
        if keys[at] == *key {
            assert(keys.deep_view()[at as int] == key@);
            return true;
        }
        at = at + 1;
    }
    false
}

/// The keys of the schema that the file lacks.
fn collect_missing(schema: &Schema, entries: &Vec<LocaleEntry>) -> (missing: Vec<String>)
    ensures
        missing.deep_view() == missing_keys(schema@, entries.deep_view()),
{
    let ghost keys = schema@;
    let ghost members = entries.deep_view();
    let mut missing: Vec<String> = Vec::new();
    let mut i: usize = 0;
    proof {
        reveal(Seq::filter);
    }
    while i < schema.keys.len()
        invariant
            i <= schema.keys.len(),
            keys == schema@,
            members == entries.deep_view(),
            missing.deep_view() == missing_keys(keys.take(i as int), members),
        decreases schema.keys.len() - i,
    {
        proof {
            assert(keys.take(i + 1) =~= keys.take(i as int).push(keys[i as int]));
            lemma_missing_push(keys.take(i as int), keys[i as int], members);
        }
        if find_entry(entries, &schema.keys[i]).is_none() {
            missing.push(schema.keys[i].clone());
        }
        i = i + 1;
    }
    assert(keys.take(keys.len() as int) =~= keys);
    missing
}

/// The keys of the file that the schema lacks.
fn collect_extra(schema: &Schema, entries: &Vec<LocaleEntry>) -> (extra: Vec<String>)
    ensures
        extra.deep_view() == extra_keys(schema@, entries.deep_view()),
{
    let ghost keys = schema@;
    let ghost members = entries.deep_view();
    let mut extra: Vec<String> = Vec::new();
    let mut i: usize = 0;
    proof {
        reveal(Seq::filter);
    }
    while i < entries.len()
        invariant
            i <= entries.len(),
            keys == schema@,
            members == entries.deep_view(),
            extra.deep_view() == extra_keys(keys, members.take(i as int)),
        decreases entries.len() - i,
    {
        proof {
            assert(members.take(i + 1) =~= members.take(i as int).push(members[i as int]));
            lemma_extra_push(keys, members.take(i as int), members[i as int]);
        }
        if !has_key(&schema.keys, &entries[i].key) {
            extra.push(entries[i].key.clone());
        }
        i = i + 1;
    }
    assert(members.take(members.len() as int) =~= members);
    extra
}

/// Checks the members of one locale file against the schema. The file must
/// hold every key of the schema and no other key, and the value of every key
/// must be a string. A difference in the keys is reported with both lists in
/// full, the keys that the file lacks and the keys that the schema lacks; a
/// value that is no string is reported for the first such key of the schema.
/// On success the translations come back in the order of the schema, under the
/// tag of `source`.
pub fn validate_locale(schema: &Schema, source: &LocaleSource, entries: &Vec<LocaleEntry>) -> (result:
    Result<ValidatedLocale, GenerationError>)
    ensures
        match result {
            Ok(locale) => validated(schema@, source@, entries.deep_view()) == Ok::<
                ValidatedView,
                ErrorView,
            >(locale@) && locale.matches_schema(schema@),
            Err(error) => validated(schema@, source@, entries.deep_view()) == Err::<
                ValidatedView,
                ErrorView,
            >(error@),
        },
{
    let missing = collect_missing(schema, entries);
    let extra = collect_extra(schema, entries);
    if missing.len() > 0 || extra.len() > 0 {
        return Err(GenerationError::KeyMismatch { file: source.file.clone(), missing, extra });
    }
    let ghost keys = schema@;
    let ghost members = entries.deep_view();
    let mut translations: Vec<Translation> = Vec::new();
    let mut i: usize = 0;
    assert(translations.deep_view() =~= Seq::<TranslationView>::empty());
    while i < schema.keys.len()
        invariant
            i <= schema.keys.len(),
            keys == schema@,
            members == entries.deep_view(),
            missing_keys(keys, members).len() == 0,
            extra_keys(keys, members).len() == 0,
            translated(keys.take(i as int), members) == Ok::<Seq<TranslationView>, Seq<char>>(
                translations.deep_view(),
            ),
        decreases schema.keys.len() - i,
    {
        let ghost done = translations.deep_view();
        assert(keys.take(i + 1).drop_last() =~= keys.take(i as int));
        let text = match find_entry(entries, &schema.keys[i]) {
            Some(at) => match &entries[at].value {
                LocaleValue::Text(text) => Some(text.clone()),
                LocaleValue::Other => None,
            },
            None => None,
        };
        match text {
            Some(text) => {
                translations.push(Translation { key: schema.keys[i].clone(), text });
                assert(translations.deep_view() =~= done.push(
                    TranslationView { key: keys[i as int], text: text@ },
                ));
            },
            None => {
                proof {
                    lemma_translated_fails_on(keys, members, i as int);
                }
                return Err(
                    GenerationError::ValueType { file: source.file.clone(), key: schema.keys[i].clone() },
                );
            },
        }
        i = i + 1;
    }
    proof {
        assert(keys.take(keys.len() as int) =~= keys);
        lemma_translated(keys, members);
    }
    Ok(ValidatedLocale { tag: source.tag.clone(), entries: translations })
}

/// Where the translations of the first `i` keys are complete and key `i` has
/// no string, key `i` is the one reported for all the keys.
proof fn lemma_translated_fails_on(keys: Seq<Seq<char>>, entries: Seq<EntryView>, i: int)
    requires
        0 <= i < keys.len(),
        translated(keys.take(i), entries) is Ok,
        translated(keys.take(i + 1), entries) == Err::<Seq<TranslationView>, Seq<char>>(keys[i]),
    ensures
        translated(keys, entries) == Err::<Seq<TranslationView>, Seq<char>>(keys[i]),
    decreases keys.len(),
{
    if i + 1 == keys.len() {
        assert(keys.take(i + 1) =~= keys);
    } else {
        let front = keys.drop_last();
        assert(front.take(i) =~= keys.take(i));
        assert(front.take(i + 1) =~= keys.take(i + 1));
        lemma_translated_fails_on(front, entries, i);
    }
}

} // verus!
