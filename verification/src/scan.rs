//! The scan of the locale directory: which of its entries are locale files,
//! under which canonical tag each one goes, and that no tag is taken twice.

use vstd::prelude::*;
use crate::error::{ErrorView, GenerationError};
use crate::tag::{normalize_tag_for_build, normalized};

verus! {

/// The ending that marks a file as locale data.
pub open spec fn locale_ending() -> Seq<char> {
    seq!['.', 'j', 's', 'o', 'n']
}

/// The raw tag of a file name: what stands before the ending `.json`, where
/// the name has this ending and something before it. Any other name is not
/// that of a locale file.
pub open spec fn stem_of(name: Seq<char>) -> Option<Seq<char>> {
    if name.len() > 5 && name.skip(name.len() - 5) == locale_ending() {
        Some(name.take(name.len() - 5))
    } else {
        None
    }
}

/// A locale file that the scan of a directory accepted.
#[derive(Clone, Debug, PartialEq, Eq)]
pub struct LocaleSource {
    /// The canonical tag of the locale.
    pub tag: String,
    /// The name of the file in the directory.
    pub file: String,
}

/// A `LocaleSource` over character sequences.
pub struct SourceView {
    pub tag: Seq<char>,
    pub file: Seq<char>,
}

impl View for LocaleSource {
    type V = SourceView;

    open spec fn view(&self) -> SourceView {
        SourceView { tag: self.tag@, file: self.file@ }
    }
}

impl DeepView for LocaleSource {
    type V = SourceView;

    open spec fn deep_view(&self) -> SourceView {
        self@
    }
}

/// Whether `source` is a locale file under its own tag: the name of the file
/// has a raw tag, and the tag of the source is the canonical tag of that raw
/// tag and is not empty.
pub open spec fn is_locale_file(source: SourceView) -> bool {
    &&& source.tag.len() > 0
    &&& stem_of(source.file) matches Some(stem) && normalized(stem) == Ok::<Seq<char>, ErrorView>(
        source.tag,
    )
}

/// Whether no two of the sources `found` go under the same tag.
pub open spec fn tags_are_distinct(found: Seq<SourceView>) -> bool {
    forall|i: int, j: int|
        0 <= i < j < found.len() ==> (#[trigger] found[i]).tag != (#[trigger] found[j]).tag
}

/// The first of the sources `found` that goes under the tag `tag`.
pub open spec fn tag_owner(found: Seq<SourceView>, tag: Seq<char>) -> Option<SourceView>
    decreases found.len(),
{
    if found.len() == 0 {
        None
    } else if found[0].tag == tag {
        Some(found[0])
    } else {
        tag_owner(found.drop_first(), tag)
    }
}

/// What one more entry of the directory does to the sources found so far. An
/// entry that is no locale file, or whose raw tag has no subtag, changes
/// nothing. A raw tag of more than three subtags fails, and so does a
/// canonical tag that an earlier file has taken. Any other entry is added.
pub open spec fn scan_step(found: Seq<SourceView>, name: Seq<char>) -> Result<
    Seq<SourceView>,
    ErrorView,
> {
    match stem_of(name) {
        None => Ok(found),
        Some(stem) => match normalized(stem) {
            Err(error) => Err(error),
            Ok(tag) => if tag.len() == 0 {
                Ok(found)
            } else {
                match tag_owner(found, tag) {
                    Some(first) => Err(
                        ErrorView::DuplicateTag { tag, first: first.file, second: name },
                    ),
                    None => Ok(found.push(SourceView { tag, file: name })),
                }
            },
        },
    }
}

/// The sources that the entries `names` give, taken in their order, or the
/// failure of the first entry that fails.
pub open spec fn scanned(names: Seq<Seq<char>>) -> Result<Seq<SourceView>, ErrorView>
    decreases names.len(),
{
    if names.len() == 0 {
        Ok(Seq::empty())
    } else {
        match scanned(names.drop_last()) {
            Err(error) => Err(error),
            Ok(found) => scan_step(found, names.last()),
        }
    }
}

/// No source under `tag` is among `found` exactly when `tag_owner` finds none,
/// and what it finds is a source under `tag`.
pub proof fn lemma_tag_owner(found: Seq<SourceView>, tag: Seq<char>)
    ensures
        tag_owner(found, tag) is None <==> forall|k: int|
            0 <= k < found.len() ==> (#[trigger] found[k]).tag != tag,
        tag_owner(found, tag) matches Some(first) ==> first.tag == tag && found.contains(first),
    decreases found.len(),
{
    if found.len() > 0 && found[0].tag != tag {
        let rest = found.drop_first();
        lemma_tag_owner(rest, tag);
        if tag_owner(rest, tag) is None {
            assert forall|k: int| 0 <= k < found.len() implies (#[trigger] found[k]).tag != tag by {
                if k > 0 {
                    assert(rest[k - 1].tag != tag);
                }
            }
        } else {
            let first = tag_owner(rest, tag)->0;
            let k = choose|k: int| 0 <= k < rest.len() && rest[k] == first;
            assert(found[k + 1] == first);
        }
    }
}

/// The sources of a scan that succeeds go under pairwise distinct tags, and
/// each is a locale file under its own tag whose name is among the entries.
pub proof fn lemma_scanned_tags_are_distinct(names: Seq<Seq<char>>)
    ensures
        scanned(names) matches Ok(found) ==> {
            &&& tags_are_distinct(found)
            &&& forall|i: int|
                0 <= i < found.len() ==> is_locale_file(#[trigger] found[i]) && names.contains(
                    found[i].file,
                )
        },
    decreases names.len(),
{
    if names.len() > 0 {
        let front = names.drop_last();
        lemma_scanned_tags_are_distinct(front);
        if let Ok(before) = scanned(front) {
            if let Ok(found) = scanned(names) {
                assert forall|i: int| 0 <= i < before.len() implies names.contains(
                    (#[trigger] before[i]).file,
                ) by {
                    let k = choose|k: int| 0 <= k < front.len() && front[k] == before[i].file;
                    assert(names[k] == before[i].file);
                }
                if found.len() > before.len() {
                    lemma_tag_owner(before, found.last().tag);
                    assert(names[names.len() - 1] == found.last().file);
                }
            }
        }
    }
}

/// A scan that has failed on some of the entries fails in the same way on all
/// of them.
proof fn lemma_scan_failure_stays(names: Seq<Seq<char>>, n: int)
    requires
        0 <= n <= names.len(),
        scanned(names.take(n)) is Err,
    ensures
        scanned(names) == scanned(names.take(n)),
    decreases names.len(),
{
    if n == names.len() {
        assert(names.take(n) =~= names);
    } else {
        let front = names.drop_last();
        assert(front.take(n) =~= names.take(n));
        lemma_scan_failure_stays(front, n);
    }
}

/// The raw tag of the file called `name`, for a name that ends in `.json` and
/// has something before this ending; `None` for any other name. `name` is the
/// name of the file within its directory, without a path before it.
pub fn locale_stem(name: &str) -> (stem: Option<String>)
    ensures
        match stem {
            Some(raw) => stem_of(name@) == Some(raw@),
            None => stem_of(name@) is None,
        },
{
    let n = name.unicode_len();
    if n <= 5 {
        return None;
    }
    let ghost ending = name@.skip(n - 5);
    if name.get_char(n - 5) == '.' && name.get_char(n - 4) == 'j' && name.get_char(n - 3) == 's'
        && name.get_char(n - 2) == 'o' && name.get_char(n - 1) == 'n' {
        assert(ending =~= locale_ending());
        let raw = name.substring_char(0, n - 5);
        Some(String::from_str(raw))
    } else {
        assert(ending != locale_ending()) by {
            if ending == locale_ending() {
                assert(ending[0] == '.' && ending[1] == 'j' && ending[2] == 's' && ending[3] == 'o'
                    && ending[4] == 'n');
            }
        }
        None
    }
}

/// The position of the first of the sources `found` that goes under `tag`.
fn find_tag(found: &Vec<LocaleSource>, tag: &String) -> (owner: Option<usize>)
    ensures
        match owner {
            Some(at) => at < found.len() && tag_owner(found.deep_view(), tag@) == Some(found[at as int]@),
            None => tag_owner(found.deep_view(), tag@) is None,
        },
{
    let ghost all = found.deep_view();
    let mut at: usize = 0;
    assert(all.skip(0) =~= all);
    while at < found.len()
        invariant
            at <= found.len(),
            all == found.deep_view(),
            tag_owner(all, tag@) == tag_owner(all.skip(at as int), tag@),
        decreases found.len() - at,
    {
        assert(all.skip(at as int).drop_first() =~= all.skip(at + 1));
        if found[at].tag == *tag {
            return Some(at);
        }
        at = at + 1;
    }
    None
}

/// Goes through the entries of the locale directory, given by their names in
/// the order in which the directory lists them, and returns the locale files
/// among them, each under its canonical tag, in the same order. An entry whose
/// name does not end in `.json`, or whose raw tag has no subtag, is passed
/// over. The scan fails on the first entry whose raw tag has more than three
/// subtags, or whose canonical tag an earlier entry has taken.
pub fn scan_locales(names: &Vec<String>) -> (result: Result<Vec<LocaleSource>, GenerationError>)
    ensures
        match result {
            Ok(found) => {
                &&& scanned(names.deep_view()) == Ok::<Seq<SourceView>, ErrorView>(found.deep_view())
                &&& tags_are_distinct(found.deep_view())
                &&& forall|i: int|
                    0 <= i < found.len() ==> is_locale_file(#[trigger] found.deep_view()[i])
            },
            Err(error) => scanned(names.deep_view()) == Err::<Seq<SourceView>, ErrorView>(error@),
        },
{
    let ghost all = names.deep_view();
    let mut found: Vec<LocaleSource> = Vec::new();
    let mut i: usize = 0;
    assert(found.deep_view() =~= Seq::<SourceView>::empty());
    while i < names.len()
        invariant
            i <= names.len(),
            all == names.deep_view(),
            scanned(all.take(i as int)) == Ok::<Seq<SourceView>, ErrorView>(found.deep_view()),
        decreases names.len() - i,
    {
        let ghost before = found.deep_view();
        proof {
            assert(all.take(i + 1).drop_last() =~= all.take(i as int));
            if scan_step(before, all[i as int]) is Err {
                lemma_scan_failure_stays(all, i + 1);
            }
        }
        match locale_stem(names[i].as_str()) {
            None => {},
            Some(raw) => {
                match normalize_tag_for_build(raw.as_str()) {
                    Err(error) => {
                        return Err(error);
                    },
                    Ok(tag) => {
                        if !tag.as_str().is_empty() {
                            match find_tag(&found, &tag) {
                                Some(at) => {
                                    return Err(
                                        GenerationError::DuplicateTag {
                                            tag,
                                            first: found[at].file.clone(),
                                            second: names[i].clone(),
                                        },
                                    );
                                },
                                None => {
                                    found.push(LocaleSource { tag, file: names[i].clone() });
                                    assert(found.deep_view() =~= before.push(
                                        SourceView { tag: tag@, file: all[i as int] },
                                    ));
                                },
                            }
                        }
                    },
                }
            },
        }
        i = i + 1;
    }
    proof {
        assert(all.take(all.len() as int) =~= all);
        lemma_scanned_tags_are_distinct(all);
    }
    Ok(found)
}

} // verus!
