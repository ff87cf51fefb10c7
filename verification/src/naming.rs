//! From the names and values of the translation files to what is written into
//! the emitted source: identifiers in camel case, and escaped string values.

use vstd::prelude::*;
use crate::text::{ascii_upper, concat, lemma_concat_agrees, lemma_split_on_nonempty, split_on};

verus! {

/// What the character at `i` of the key name `s` gives to the identifier: an
/// underscore nothing, a character that opens the name or follows an
/// underscore its ASCII capital, any other character itself.
pub open spec fn camel_piece(s: Seq<char>, i: int) -> Seq<char> {
    if s[i] == '_' {
        Seq::empty()
    } else if i == 0 || s[i - 1] == '_' {
        seq![ascii_upper(s[i])]
    } else {
        seq![s[i]]
    }
}

/// The identifier of the first `n` characters of a key name.
pub open spec fn camel_prefix(s: Seq<char>, n: nat) -> Seq<char> {
    concat(n, |i: int| camel_piece(s, i))
}

/// The identifier of the key name `s`: its fields between underscores, each
/// with a capital first character, written one after another.
pub open spec fn camel(s: Seq<char>) -> Seq<char> {
    camel_prefix(s, s.len())
}

/// A field with its first character raised to its ASCII capital.
pub open spec fn capitalized(field: Seq<char>) -> Seq<char> {
    if field.len() == 0 {
        field
    } else {
        seq![ascii_upper(field[0])] + field.skip(1)
    }
}

/// The fields `fields`, each capitalized, written one after another.
pub open spec fn capitalized_fields(fields: Seq<Seq<char>>) -> Seq<char>
    decreases fields.len(),
{
    if fields.len() == 0 {
        Seq::empty()
    } else {
        capitalized_fields(fields.drop_last()) + capitalized(fields.last())
    }
}

/// The identifier of a key name is made of the fields of the name between its
/// underscores: each field capitalized, and the fields written one after
/// another.
pub proof fn lemma_camel_is_capitalized_fields(s: Seq<char>)
    ensures
        camel(s) == capitalized_fields(split_on(s, '_')),
        split_on(s, '_').last().len() == 0 <==> s.len() == 0 || s.last() == '_',
    decreases s.len(),
{
    let fields = split_on(s, '_');
    if s.len() == 0 {
        assert(capitalized_fields(fields.drop_last()) =~= Seq::<char>::empty());
    } else {
        let front = s.drop_last();
        let c = s.last();
        let before = split_on(front, '_');
        lemma_camel_is_capitalized_fields(front);
        lemma_split_on_nonempty(front, '_');
        lemma_concat_agrees(front.len(), |i: int| camel_piece(s, i), |i: int| camel_piece(front, i));
        if c == '_' {
            assert(fields.drop_last() =~= before);
        } else {
            let open = before.last();
            assert(fields.drop_last() =~= before.drop_last());
            assert(capitalized_fields(before) == capitalized_fields(before.drop_last()) + capitalized(
                open,
            ));
        }
    }
}

/// How one character of a value is written inside a string literal: a
/// backslash and a double quote after a backslash, a carriage return as a
/// backslash and the letter `r`, any other character as itself.
pub open spec fn escaped_char(c: char) -> Seq<char> {
    if c == '\\' {
        seq!['\\', '\\']
    } else if c == '"' {
        seq!['\\', '"']
    } else if c == '\r' {
        seq!['\\', 'r']
    } else {
        seq![c]
    }
}

/// The first `n` characters of a value, written inside a string literal.
pub open spec fn escaped_prefix(s: Seq<char>, n: nat) -> Seq<char> {
    concat(n, |i: int| escaped_char(s[i]))
}

/// The value `s` as it is written inside a string literal: a backslash before
/// every backslash and before every double quote, and a backslash and the
/// letter `r` for every carriage return.
pub open spec fn escaped(s: Seq<char>) -> Seq<char> {
    escaped_prefix(s, s.len())
}

/// The character that a backslash and the character `c` after it stand for
/// in a string literal, for the three escapes that are written here.
pub open spec fn escape_value(c: char) -> Option<char> {
    if c == '\\' || c == '"' {
        Some(c)
    } else if c == 'r' {
        Some('\r')
    } else {
        None
    }
}

/// What the text `body` denotes when it stands between the double quotes of a
/// string literal. A backslash before a backslash or a double quote stands
/// for that character, and a backslash before the letter `r` for a carriage
/// return. Any other character stands for itself, but for two: a bare double
/// quote, which would end the literal, and a bare carriage return, which is
/// refused when it stands alone and dropped before a line feed. These two,
/// and a backslash before anything else, denote nothing here.
pub open spec fn literal_value(body: Seq<char>) -> Option<Seq<char>>
    decreases body.len(),
{
    if body.len() == 0 {
        Some(Seq::empty())
    } else if body[0] == '"' || body[0] == '\r' {
        None
    } else if body[0] == '\\' {
        if body.len() >= 2 && escape_value(body[1]) is Some {
            match literal_value(body.skip(2)) {
                Some(rest) => Some(seq![escape_value(body[1])->0] + rest),
                None => None,
            }
        } else {
            None
        }
    } else {
        match literal_value(body.skip(1)) {
            Some(rest) => Some(seq![body[0]] + rest),
            None => None,
        }
    }
}

/// Escaping goes character by character.
proof fn lemma_escaped_push(s: Seq<char>, c: char)
    ensures
        escaped(s.push(c)) == escaped(s) + escaped_char(c),
{
    let longer = s.push(c);
    lemma_concat_agrees(s.len(), |i: int| escaped_char(longer[i]), |i: int| escaped_char(s[i]));
}

/// An escaped value followed by more text denotes the value followed by what
/// the rest denotes.
proof fn lemma_literal_value_after(s: Seq<char>, rest: Seq<char>)
    ensures
        literal_value(escaped(s) + rest) == match literal_value(rest) {
            Some(value) => Some(s + value),
            None => None,
        },
    decreases s.len(),
{
    if s.len() > 0 {
        let front = s.drop_last();
        let c = s.last();
        let tail = escaped_char(c) + rest;
        assert(s =~= front.push(c));
        lemma_escaped_push(front, c);
        assert(escaped(s) + rest =~= escaped(front) + tail);
        lemma_literal_value_after(front, tail);
        if c == '\\' || c == '"' || c == '\r' {
            assert(tail.skip(2) =~= rest);
        } else {
            assert(tail.skip(1) =~= rest);
        }
    }
}

/// The escaped form of a value, read as the body of a string literal, denotes
/// the value again, character for character: it holds no bare double quote
/// and no bare carriage return, and every backslash in it opens one of the
/// three escapes.
pub proof fn lemma_escaped_reads_back(s: Seq<char>)
    ensures
        literal_value(escaped(s)) == Some(s),
{
    lemma_literal_value_after(s, Seq::empty());
}

/// The ASCII capital of `c`, where it has one.
fn to_ascii_upper(c: char) -> (raised: char)
    ensures
        raised == ascii_upper(c),
{
    if 'a' <= c && c <= 'z' {
        ((c as u8) - 32) as char
    } else {
        c
    }
}

/// The identifier that stands for a message key: the name is cut at its
/// underscores, the first character of each field is raised to its ASCII
/// capital, and the fields are written one after another.
pub fn snake_to_camel(s: &str) -> (ident: String)
    ensures
        ident@ == camel(s@),
{
    let mut ident = String::new();
    let mut opening = true;
    for c in it: s.chars()
        invariant
            it.seq() == s@,
            opening == (it.index() == 0 || s@[it.index() - 1] == '_'),
            ident@ == camel_prefix(s@, it.index() as nat),
    {
        if c == '_' {
            opening = true;
        } else {
            if opening {
                ident.push(to_ascii_upper(c));
            } else {
                ident.push(c);
            }
            opening = false;
        }
    }
    ident
}

/// The value `s` as it must stand between the double quotes of a string
/// literal so that the literal denotes `s` again: backslashes and double
/// quotes get a backslash before them, and a carriage return is written as a
/// backslash and the letter `r`.
pub fn escape_rust_string(s: &str) -> (literal: String)
    ensures
        literal@ == escaped(s@),
{
    let mut literal = String::new();
    for c in it: s.chars()
        invariant
            it.seq() == s@,
            literal@ == escaped_prefix(s@, it.index() as nat),
    {
        if c == '\\' {
            literal.push('\\');
            literal.push('\\');
        } else if c == '"' {
            literal.push('\\');
            literal.push('"');
        } else if c == '\r' {
            literal.push('\\');
            literal.push('r');
        } else {
            literal.push(c);
        }
    }
    literal
}

} // verus!
