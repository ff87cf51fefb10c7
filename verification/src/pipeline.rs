//! The generation as a whole: from the schema and the locale files to the set
//! of source units, and the step that takes one locale file to its unit.

use vstd::prelude::*;
use crate::document::{json_document, members_of, read_entries};
use crate::emit::{emit_keys, emit_locale_map, emit_registry, keys_source, registry_source, table_source};
use crate::error::{ErrorView, GenerationError};
use crate::locale::{EntryView, LocaleEntry, ValidatedView};
use crate::scan::{
    lemma_scanned_tags_are_distinct, scan_locales, scanned, LocaleSource, SourceView,
};
use crate::schema::Schema;
use crate::tag::{ident_from_tag, table_ident};
use crate::validate::{validate_locale, validated};

verus! {

/// The table unit of one locale, ready to be written.
#[derive(Clone, Debug, PartialEq, Eq)]
pub struct LocaleUnit {
    /// The identifier of the table, which is also the stem of the unit's file.
    pub ident: String,
    /// The text of the unit.
    pub source: String,
}

/// A `LocaleUnit` over character sequences.
pub struct UnitView {
    pub ident: Seq<char>,
    pub source: Seq<char>,
}

impl View for LocaleUnit {
    type V = UnitView;

    open spec fn view(&self) -> UnitView {
        UnitView { ident: self.ident@, source: self.source@ }
    }
}

impl DeepView for LocaleUnit {
    type V = UnitView;

    open spec fn deep_view(&self) -> UnitView {
        self@
    }
}

/// One locale file as it was read: its name in the directory and its content.
#[derive(Clone, Debug, PartialEq, Eq)]
pub struct LocaleInput {
    pub name: String,
    pub content: String,
}

/// A `LocaleInput` over character sequences.
pub struct InputView {
    pub name: Seq<char>,
    pub content: Seq<char>,
}

impl View for LocaleInput {
    type V = InputView;

    open spec fn view(&self) -> InputView {
        InputView { name: self.name@, content: self.content@ }
    }
}

impl DeepView for LocaleInput {
    type V = InputView;

    open spec fn deep_view(&self) -> InputView {
        self@
    }
}

/// The source units of one run.
#[derive(Clone, Debug, PartialEq, Eq)]
pub struct ArtifactSet {
    /// The key unit.
    pub keys: String,
    /// The table units, in the order in which the locales were found.
    pub locales: Vec<LocaleUnit>,
    /// The registry unit.
    pub registry: String,
}

/// An `ArtifactSet` over character sequences.
pub struct ArtifactsView {
    pub keys: Seq<char>,
    pub locales: Seq<UnitView>,
    pub registry: Seq<char>,
}

impl View for ArtifactSet {
    type V = ArtifactsView;

    open spec fn view(&self) -> ArtifactsView {
        ArtifactsView { keys: self.keys@, locales: self.locales.deep_view(), registry: self.registry@ }
    }
}

/// The table unit of a validated locale.
pub open spec fn unit_of(locale: ValidatedView) -> UnitView {
    UnitView { ident: table_ident(locale.tag), source: table_source(locale) }
}

/// The table unit of the locale file `source`, given its members or the
/// failure to read them: the members are validated against the schema, and
/// the table of the validated locale is emitted.
pub open spec fn compiled(
    keys: Seq<Seq<char>>,
    source: SourceView,
    members: Result<Seq<EntryView>, ErrorView>,
) -> Result<UnitView, ErrorView> {
    match members {
        Err(error) => Err(error),
        Ok(entries) => match validated(keys, source, entries) {
            Err(error) => Err(error),
            Ok(locale) => Ok(unit_of(locale)),
        },
    }
}

/// The names of the files `files`, in their order.
pub open spec fn input_names(files: Seq<InputView>) -> Seq<Seq<char>> {
    files.map_values(|file: InputView| file.name)
}

/// The tags of the sources `sources`, in their order.
pub open spec fn source_tags(sources: Seq<SourceView>) -> Seq<Seq<char>> {
    sources.map_values(|source: SourceView| source.tag)
}

/// The content of the first of `files` that is called `name`; the empty text
/// where none is.
pub open spec fn content_of(files: Seq<InputView>, name: Seq<char>) -> Seq<char>
    decreases files.len(),
{
    if files.len() == 0 {
        Seq::empty()
    } else if files[0].name == name {
        files[0].content
    } else {
        content_of(files.drop_first(), name)
    }
}

/// The table unit of the locale file `source` with the content that `files`
/// holds for it.
pub open spec fn compiled_from(keys: Seq<Seq<char>>, source: SourceView, files: Seq<InputView>) -> Result<
    UnitView,
    ErrorView,
> {
    compiled(keys, source, members_of(source.file, json_document(content_of(files, source.file))))
}

/// The table units of the locale files `sources`, in their order, or the
/// failure of the first of them that fails.
pub open spec fn compiled_all(
    keys: Seq<Seq<char>>,
    sources: Seq<SourceView>,
    files: Seq<InputView>,
) -> Result<Seq<UnitView>, ErrorView>
    decreases sources.len(),
{
    if sources.len() == 0 {
        Ok(Seq::empty())
    } else {
        match compiled_all(keys, sources.drop_last(), files) {
            Err(error) => Err(error),
            Ok(units) => match compiled_from(keys, sources.last(), files) {
                Err(error) => Err(error),
                Ok(unit) => Ok(units.push(unit)),
            },
        }
    }
}

/// What one run of the generation gives. The directory is scanned first, and
/// a failure of the scan is the failure of the run. Then each locale file is
/// compiled, in the order in which the scan found it, and the first failure
/// ends the run. The key unit depends on the schema alone; the registry lists
/// the tags in the order of the scan.
pub open spec fn generation(keys: Seq<Seq<char>>, files: Seq<InputView>) -> Result<
    ArtifactsView,
    ErrorView,
> {
    match scanned(input_names(files)) {
        Err(error) => Err(error),
        Ok(sources) => match compiled_all(keys, sources, files) {
            Err(error) => Err(error),
            Ok(units) => Ok(
                ArtifactsView {
                    keys: keys_source(keys),
                    locales: units,
                    registry: registry_source(source_tags(sources)),
                },
            ),
        },
    }
}

/// Two runs on the same schema and the same files give the same outcome: the
/// same failure, or the same units, character for character.
pub proof fn lemma_generation_is_deterministic(
    keys: Seq<Seq<char>>,
    files: Seq<InputView>,
    first: Result<ArtifactsView, ErrorView>,
    second: Result<ArtifactsView, ErrorView>,
)
    requires
        first == generation(keys, files),
        second == generation(keys, files),
    ensures
        first == second,
{
}

/// A run that succeeds emits one table unit for each source of the scan, in
/// the order of the scan, and each unit is that of its source.
pub proof fn lemma_units_follow_sources(keys: Seq<Seq<char>>, sources: Seq<SourceView>, files: Seq<InputView>)
    ensures
        compiled_all(keys, sources, files) matches Ok(units) ==> {
            &&& units.len() == sources.len()
            &&& forall|i: int|
                0 <= i < sources.len() ==> compiled_from(keys, sources[i], files) == Ok::<
                    UnitView,
                    ErrorView,
                >(#[trigger] units[i])
        },
    decreases sources.len(),
{
    if sources.len() > 0 {
        let front = sources.drop_last();
        lemma_units_follow_sources(keys, front, files);
        if let Ok(units) = compiled_all(keys, sources, files) {
            let before = compiled_all(keys, front, files)->Ok_0;
            assert forall|i: int| 0 <= i < sources.len() implies compiled_from(keys, sources[i], files)
                == Ok::<UnitView, ErrorView>(#[trigger] units[i]) by {
                if i < front.len() {
                    assert(sources[i] == front[i] && units[i] == before[i]);
                }
            }
        }
    }
}

/// A file that is among `files` by its name has its content found: the
/// content that `content_of` gives is that of one of the files called `name`.
proof fn lemma_content_of(files: Seq<InputView>, name: Seq<char>)
    requires
        input_names(files).contains(name),
    ensures
        exists|k: int|
            0 <= k < files.len() && (#[trigger] files[k]).name == name && files[k].content
                == content_of(files, name),
    decreases files.len(),
{
    let names = input_names(files);
    let at = choose|at: int| 0 <= at < names.len() && names[at] == name;
    if files[0].name != name {
        let rest = files.drop_first();
        assert(input_names(rest)[at - 1] == name);
        lemma_content_of(rest, name);
        let k = choose|k: int|
            0 <= k < rest.len() && (#[trigger] rest[k]).name == name && rest[k].content == content_of(
                rest,
                name,
            );
        assert(files[k + 1] == rest[k]);
    }
}

/// Every locale file that the scan of `files` finds is compiled from the
/// content of one of the files of its name: the empty text never stands in
/// for a file.
pub proof fn lemma_sources_have_content(files: Seq<InputView>)
    ensures
        scanned(input_names(files)) matches Ok(sources) ==> forall|i: int|
            0 <= i < sources.len() ==> exists|k: int|
                0 <= k < files.len() && (#[trigger] files[k]).name == (#[trigger] sources[i]).file
                    && files[k].content == content_of(files, sources[i].file),
{
    if let Ok(sources) = scanned(input_names(files)) {
        lemma_scanned_tags_are_distinct(input_names(files));
        assert forall|i: int| 0 <= i < sources.len() implies exists|k: int|
            0 <= k < files.len() && (#[trigger] files[k]).name == (#[trigger] sources[i]).file
                && files[k].content == content_of(files, sources[i].file) by {
            lemma_content_of(files, sources[i].file);
        }
    }
}

/// A compilation that has failed on some of the sources fails in the same way
/// on all of them.
proof fn lemma_compile_failure_stays(
    keys: Seq<Seq<char>>,
    sources: Seq<SourceView>,
    files: Seq<InputView>,
    n: int,
)
    requires
        0 <= n <= sources.len(),
        compiled_all(keys, sources.take(n), files) is Err,
    ensures
        compiled_all(keys, sources, files) == compiled_all(keys, sources.take(n), files),
    decreases sources.len(),
{
    if n == sources.len() {
        assert(sources.take(n) =~= sources);
    } else {
        let front = sources.drop_last();
        assert(front.take(n) =~= sources.take(n));
        lemma_compile_failure_stays(keys, front, files, n);
    }
}

/// Validates the members of the locale file `source` against the schema and
/// emits the table unit of the locale.
pub fn compile_entries(schema: &Schema, source: &LocaleSource, entries: &Vec<LocaleEntry>) -> (result:
    Result<LocaleUnit, GenerationError>)
    ensures
        match result {
            Ok(unit) => compiled(
                schema@,
                source@,
                Ok::<Seq<EntryView>, ErrorView>(entries.deep_view()),
            ) == Ok::<UnitView, ErrorView>(unit@),
            Err(error) => compiled(
                schema@,
                source@,
                Ok::<Seq<EntryView>, ErrorView>(entries.deep_view()),
            ) == Err::<UnitView, ErrorView>(error@),
        },
{
    match validate_locale(schema, source, entries) {
        Err(error) => Err(error),
        Ok(locale) => {
            let text = emit_locale_map(&locale);
            Ok(LocaleUnit { ident: ident_from_tag(locale.tag.as_str()), source: text })
        },
    }
}

/// Takes the locale file `source` with the content `content` to its table
/// unit: the content is read as JSON, its members are validated against the
/// schema, and the table is emitted.
pub fn compile_locale(schema: &Schema, source: &LocaleSource, content: &str) -> (result: Result<
    LocaleUnit,
    GenerationError,
>)
    ensures
        match result {
            Ok(unit) => compiled(
                schema@,
                source@,
                members_of(source@.file, json_document(content@)),
            ) == Ok::<UnitView, ErrorView>(unit@),
            Err(error) => compiled(
                schema@,
                source@,
                members_of(source@.file, json_document(content@)),
            ) == Err::<UnitView, ErrorView>(error@),
        },
{
    match read_entries(source.file.as_str(), content) {
        Err(error) => Err(error),
        Ok(entries) => compile_entries(schema, source, &entries),
    }
}

/// The position of the first of `files` that is called `name`.
fn find_input(files: &Vec<LocaleInput>, name: &String) -> (found: Option<usize>)
    ensures
        match found {
            Some(at) => at < files.len() && content_of(files.deep_view(), name@) == files[at as int].content@,
            None => content_of(files.deep_view(), name@) == Seq::<char>::empty(),
        },
{
    let ghost all = files.deep_view();
    let mut at: usize = 0;
    assert(all.skip(0) =~= all);
    while at < files.len()
        invariant
            at <= files.len(),
            all == files.deep_view(),
            content_of(all, name@) == content_of(all.skip(at as int), name@),
        decreases files.len() - at,
    {
        assert(all.skip(at as int).drop_first() =~= all.skip(at + 1));
        if files[at].name == *name {
            return Some(at);
        }
        at = at + 1;
    }
    None
}

/// Runs the generation on a schema and on the files of a locale directory,
/// given in the order in which the directory lists them, and returns the
/// source units: the key unit, one table unit for each locale, and the
/// registry unit. Nothing is returned where any step fails.
pub fn generate(schema: &Schema, files: &Vec<LocaleInput>) -> (result: Result<ArtifactSet, GenerationError>)
    ensures
        match result {
            Ok(artifacts) => generation(schema@, files.deep_view()) == Ok::<ArtifactsView, ErrorView>(
                artifacts@,
            ),
            Err(error) => generation(schema@, files.deep_view()) == Err::<ArtifactsView, ErrorView>(
                error@,
            ),
        },
{
    let ghost inputs = files.deep_view();
    let mut names: Vec<String> = Vec::new();
    let mut i: usize = 0;
    while i < files.len()
        invariant
            i <= files.len(),
            inputs == files.deep_view(),
            names.deep_view() == input_names(inputs).take(i as int),
        decreases files.len() - i,
    {
        let ghost before = names.deep_view();
        names.push(files[i].name.clone());
        assert(names.deep_view() =~= before.push(inputs[i as int].name));
        i = i + 1;
    }
    assert(names.deep_view() =~= input_names(inputs));
    let sources = match scan_locales(&names) {
        Err(error) => {
            return Err(error);
        },
        Ok(sources) => sources,
    };
    let ghost found = sources.deep_view();
    let mut locales: Vec<LocaleUnit> = Vec::new();
    let mut tags: Vec<String> = Vec::new();
    let mut j: usize = 0;
    assert(locales.deep_view() =~= Seq::<UnitView>::empty());
    while j < sources.len()
        invariant
            j <= sources.len(),
            inputs == files.deep_view(),
            found == sources.deep_view(),
            scanned(input_names(inputs)) == Ok::<Seq<SourceView>, ErrorView>(found),
            compiled_all(schema@, found.take(j as int), inputs) == Ok::<Seq<UnitView>, ErrorView>(
                locales.deep_view(),
            ),
            tags.deep_view() == source_tags(found).take(j as int),
        decreases sources.len() - j,
    {
        let ghost units = locales.deep_view();
        let ghost listed = tags.deep_view();
        proof {
            assert(found.take(j + 1).drop_last() =~= found.take(j as int));
            if compiled_from(schema@, found[j as int], inputs) is Err {
                lemma_compile_failure_stays(schema@, found, inputs, j + 1);
            }
        }
        let compiled = match find_input(files, &sources[j].file) {
            Some(at) => compile_locale(schema, &sources[j], files[at].content.as_str()),
            None => compile_locale(schema, &sources[j], String::new().as_str()),
        };
        match compiled {
            Err(error) => {
                return Err(error);
            },
            Ok(unit) => {
                locales.push(unit);
                tags.push(sources[j].tag.clone());
                assert(locales.deep_view() =~= units.push(unit@));
                assert(tags.deep_view() =~= listed.push(found[j as int].tag));
            },
        }
        j = j + 1;
    }
    assert(found.take(found.len() as int) =~= found);
    assert(tags.deep_view() =~= source_tags(found));
    let keys = emit_keys(schema);
    let registry = emit_registry(&tags);
    Ok(ArtifactSet { keys, locales, registry })
}

} // verus!
