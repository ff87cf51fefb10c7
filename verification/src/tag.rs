//! Locale tags: from the raw stem of a file name to the canonical tag, and from
//! the canonical tag to the identifier of the locale's table.

use vstd::prelude::*;
use crate::error::{ErrorView, GenerationError};
use crate::text::{ascii_lowered, ascii_raised, join_with, split_on};
use vstd::utf8::is_ascii_chars;

verus! {

/// What `str::to_lowercase` returns for the string `s`.
pub uninterp spec fn lowercase(s: Seq<char>) -> Seq<char>;

/// What `str::to_uppercase` returns for the string `s`.
pub uninterp spec fn uppercase(s: Seq<char>) -> Seq<char>;

/// `str::to_lowercase` maps a string to its lowercase form by the Unicode case
/// tables of the standard library. The result depends on the characters alone;
/// it is named here, not spelled out. Of a string of ASCII characters alone it
/// is the ASCII form: `A` to `Z` become `a` to `z`, and nothing else changes.
pub assume_specification[ str::to_lowercase ](s: &str) -> (lowered: String)
    ensures
        lowered@ == lowercase(s@),
        is_ascii_chars(s@) ==> lowered@ == ascii_lowered(s@),
;

/// `str::to_uppercase` maps a string to its uppercase form by the Unicode case
/// tables of the standard library. The result depends on the characters alone;
/// it is named here, not spelled out. Of a string of ASCII characters alone it
/// is the ASCII form: `a` to `z` become `A` to `Z`, and nothing else changes.
pub assume_specification[ str::to_uppercase ](s: &str) -> (raised: String)
    ensures
        raised@ == uppercase(s@),
        is_ascii_chars(s@) ==> raised@ == ascii_raised(s@),
;

/// The lowercase form of `s`: the ASCII form for a string of ASCII characters
/// alone, and what `str::to_lowercase` returns for any other.
pub open spec fn lower_form(s: Seq<char>) -> Seq<char> {
    if is_ascii_chars(s) {
        ascii_lowered(s)
    } else {
        lowercase(s)
    }
}

/// The uppercase form of `s`: the ASCII form for a string of ASCII characters
/// alone, and what `str::to_uppercase` returns for any other.
pub open spec fn upper_form(s: Seq<char>) -> Seq<char> {
    if is_ascii_chars(s) {
        ascii_raised(s)
    } else {
        uppercase(s)
    }
}

/// The fields among `parts` that are not empty, in their order.
pub open spec fn nonempty(parts: Seq<Seq<char>>) -> Seq<Seq<char>> {
    parts.filter(|part: Seq<char>| part.len() > 0)
}

/// The subtags of a raw tag: what stands between its hyphens, empty fields
/// left out.
pub open spec fn subtags(tag: Seq<char>) -> Seq<Seq<char>> {
    nonempty(split_on(tag, '-'))
}

/// The subtags in canonical case: the first in lowercase, the others in
/// uppercase.
pub open spec fn cased(parts: Seq<Seq<char>>) -> Seq<Seq<char>> {
    Seq::new(
        parts.len(),
        |i: int|
            if i == 0 {
                lower_form(parts[i])
            } else {
                upper_form(parts[i])
            },
    )
}

/// The canonical tag made of the subtags `parts`.
pub open spec fn canonical_tag(parts: Seq<Seq<char>>) -> Seq<char> {
    join_with(cased(parts), '-')
}

/// The canonical tag of a raw tag, or the failure that a raw tag of more than
/// three subtags gives. A raw tag without subtags has the empty canonical tag.
pub open spec fn normalized(tag: Seq<char>) -> Result<Seq<char>, ErrorView> {
    let parts = subtags(tag);
    if parts.len() > 3 {
        Err(ErrorView::TagFormat { tag, subtags: parts.len() })
    } else {
        Ok(canonical_tag(parts))
    }
}

/// `tag` with every hyphen replaced by an underscore.
pub open spec fn underscored(tag: Seq<char>) -> Seq<char> {
    tag.map_values(|c: char| if c == '-' { '_' } else { c })
}

/// The identifier of the table of the locale `tag`.
pub open spec fn table_ident(tag: Seq<char>) -> Seq<char> {
    upper_form(underscored(tag))
}

proof fn lemma_nonempty_push(parts: Seq<Seq<char>>, part: Seq<char>)
    ensures
        nonempty(parts.push(part)) == if part.len() > 0 {
            nonempty(parts).push(part)
        } else {
            nonempty(parts)
        },
{
    parts.lemma_filter_push(part, |part: Seq<char>| part.len() > 0);
}

/// The subtags of `tag`, each as a string of its own.
fn split_subtags(tag: &str) -> (parts: Vec<String>)
    ensures
        parts.deep_view() == subtags(tag@),
{
    let mut parts: Vec<String> = Vec::new();
    let mut current = String::new();
    proof {
        reveal(Seq::filter);
    }
    for c in it: tag.chars()
        invariant
            it.seq() == tag@,
            split_on(tag@.take(it.index()), '-').len() >= 1,
            parts.deep_view() == nonempty(split_on(tag@.take(it.index()), '-').drop_last()),
            current@ == split_on(tag@.take(it.index()), '-').last(),
    {
        let ghost before = tag@.take(it.index());
        let ghost after = tag@.take(it.index() + 1);
        let ghost fields = split_on(before, '-');
        proof {
            assert(after.drop_last() =~= before);
            assert(fields =~= fields.drop_last().push(fields.last()));
        }
        if c == '-' {
            if !current.as_str().is_empty() {
                parts.push(current);
            }
            current = String::new();
            proof {
                lemma_nonempty_push(fields.drop_last(), fields.last());
                assert(split_on(after, '-').drop_last() =~= fields);
            }
        } else {
            current.push(c);
            assert(split_on(after, '-').drop_last() =~= fields.drop_last());
        }
    }
    let ghost fields = split_on(tag@, '-');
    proof {
        assert(tag@.take(tag@.len() as int) =~= tag@);
        lemma_nonempty_push(fields.drop_last(), fields.last());
    }
    if !current.as_str().is_empty() {
        parts.push(current);
    }
    parts
}

/// Brings a raw tag, most often the stem of a file name, into canonical form:
/// the subtags joined by hyphens, the first in lowercase and the others in
/// uppercase. A raw tag without subtags gives the empty tag, which marks a file
/// that is no locale file. More than three subtags are refused.
pub fn normalize_tag_for_build(tag: &str) -> (result: Result<String, GenerationError>)
    ensures
        match result {
            Ok(canonical) => normalized(tag@) == Ok::<Seq<char>, ErrorView>(canonical@),
            Err(error) => normalized(tag@) == Err::<Seq<char>, ErrorView>(error@),
        },
{
    let parts = split_subtags(tag);
    if parts.len() > 3 {
        return Err(GenerationError::TagFormat { tag: tag.to_owned(), subtags: parts.len() });
    }
    let ghost wanted = cased(parts.deep_view());
    let mut out = String::new();
    let mut i: usize = 0;
    while i < parts.len()
        invariant
            i <= parts.len(),
            wanted == cased(parts.deep_view()),
            out@ == join_with(wanted.take(i as int), '-'),
        decreases parts.len() - i,
    {
        assert(wanted.take(i + 1).drop_last() =~= wanted.take(i as int));
        if i == 0 {
            let lowered = parts[i].as_str().to_lowercase();
            out.append(lowered.as_str());
        } else {
            let raised = parts[i].as_str().to_uppercase();
            out.push('-');
            out.append(raised.as_str());
        }
        i = i + 1;
    }
    assert(wanted.take(parts.len() as int) =~= wanted);
    Ok(out)
}

/// The identifier under which the table of the locale `tag` is declared, which
/// is also the stem of its file: hyphens become underscores, and the whole is
/// raised to uppercase.
pub fn ident_from_tag(tag: &str) -> (ident: String)
    ensures
        ident@ == table_ident(tag@),
{
    let mut replaced = String::new();
    for c in it: tag.chars()
        invariant
            it.seq() == tag@,
            replaced@ == underscored(tag@.take(it.index())),
    {
        replaced.push(if c == '-' { '_' } else { c });
    }
    assert(tag@.take(tag@.len() as int) =~= tag@);
    replaced.as_str().to_uppercase()
}

} // verus!
