//! Message keys as identifiers: the table that a schema gives rise to, with
//! what holds of it, and the key set of the built-in catalogue.

use vstd::prelude::*;
use crate::naming::camel;
use crate::text::concat;

verus! {

/// What the key unit declares for one key of the schema.
pub struct KeyRow {
    /// The identifier that stands for the key.
    pub ident: Seq<char>,
    /// The numeric id of the key.
    pub id: nat,
    /// The name of the key as the schema declares it.
    pub name: Seq<char>,
}

/// The table of a schema: one row for each key, in the order of the schema,
/// with the position of the key as its id.
pub open spec fn key_rows(keys: Seq<Seq<char>>) -> Seq<KeyRow> {
    Seq::new(keys.len(), |i: int| KeyRow { ident: camel(keys[i]), id: i as nat, name: keys[i] })
}

/// The identifiers of a schema, in its order.
pub open spec fn key_idents(keys: Seq<Seq<char>>) -> Seq<Seq<char>> {
    Seq::new(keys.len(), |i: int| camel(keys[i]))
}

/// The ids that the table of a schema holds.
pub open spec fn key_ids(keys: Seq<Seq<char>>) -> Set<nat> {
    Set::new(|id: nat| exists|i: int| 0 <= i < keys.len() && #[trigger] key_rows(keys)[i].id == id)
}

/// The identifier that belongs to a numeric id: that of the row with this id,
/// and none where no row has it.
pub open spec fn ident_of_id(keys: Seq<Seq<char>>, id: int) -> Option<Seq<char>> {
    if 0 <= id < keys.len() {
        Some(key_rows(keys)[id].ident)
    } else {
        None
    }
}

/// Whether row `i` of the table declares the identifier `ident`.
pub open spec fn declares(keys: Seq<Seq<char>>, i: int, ident: Seq<char>) -> bool {
    0 <= i < keys.len() && key_rows(keys)[i].ident == ident
}

/// Whether row `i` of the table belongs to the key called `name`.
pub open spec fn names(keys: Seq<Seq<char>>, i: int, name: Seq<char>) -> bool {
    0 <= i < keys.len() && key_rows(keys)[i].name == name
}

/// The numeric id of an identifier: that of a row which declares it.
pub open spec fn id_of_ident(keys: Seq<Seq<char>>, ident: Seq<char>) -> Option<nat> {
    if exists|i: int| declares(keys, i, ident) {
        Some(key_rows(keys)[choose|i: int| declares(keys, i, ident)].id)
    } else {
        None
    }
}

/// The declared name of an identifier: that of a row which declares it.
pub open spec fn name_of_ident(keys: Seq<Seq<char>>, ident: Seq<char>) -> Option<Seq<char>> {
    if exists|i: int| declares(keys, i, ident) {
        Some(key_rows(keys)[choose|i: int| declares(keys, i, ident)].name)
    } else {
        None
    }
}

/// The identifier of a key name: that of a row which belongs to the name.
pub open spec fn ident_of_name(keys: Seq<Seq<char>>, name: Seq<char>) -> Option<Seq<char>> {
    if exists|i: int| names(keys, i, name) {
        Some(key_rows(keys)[choose|i: int| names(keys, i, name)].ident)
    } else {
        None
    }
}

/// The ids of a schema of N keys are exactly 0, ..., N - 1, row `i` holding
/// id `i`, and an id has an identifier exactly when it is one of them. This
/// holds of every schema.
pub proof fn lemma_key_ids_are_positions(keys: Seq<Seq<char>>)
    ensures
        key_rows(keys).len() == keys.len(),
        forall|i: int| 0 <= i < keys.len() ==> (#[trigger] key_rows(keys)[i]).id == i,
        key_ids(keys) =~= Set::new(|id: nat| id < keys.len()),
        forall|id: int| ident_of_id(keys, id) is Some <==> 0 <= id < keys.len(),
{
    assert forall|id: nat| id < keys.len() implies key_ids(keys).contains(id) by {
        assert(key_rows(keys)[id as int].id == id);
    }
}

/// For a schema whose keys are pairwise distinct and give pairwise distinct
/// identifiers: each id leads to one identifier and that identifier back to
/// the id, and names and identifiers correspond one to one, each name to the
/// identifier of its row and each identifier to the name of its row.
pub proof fn lemma_key_table_is_bijective(keys: Seq<Seq<char>>)
    requires
        keys.no_duplicates(),
        key_idents(keys).no_duplicates(),
    ensures
        forall|id: int|
            0 <= id < keys.len() ==> id_of_ident(keys, #[trigger] ident_of_id(keys, id)->0) == Some(
                id as nat,
            ),
        forall|ident: Seq<char>|
            (#[trigger] id_of_ident(keys, ident)) matches Some(id) ==> ident_of_id(keys, id as int)
                == Some(ident),
        forall|i: int|
            0 <= i < keys.len() ==> ident_of_name(keys, (#[trigger] key_rows(keys)[i]).name) == Some(
                key_rows(keys)[i].ident,
            ),
        forall|i: int|
            0 <= i < keys.len() ==> name_of_ident(keys, (#[trigger] key_rows(keys)[i]).ident) == Some(
                key_rows(keys)[i].name,
            ),
        forall|i: int, j: int|
            0 <= i < keys.len() && 0 <= j < keys.len() && i != j ==> {
                &&& (#[trigger] key_rows(keys)[i]).name != (#[trigger] key_rows(keys)[j]).name
                &&& key_rows(keys)[i].ident != key_rows(keys)[j].ident
            },
{
    let rows = key_rows(keys);
    let idents = key_idents(keys);
    assert forall|i: int, j: int| 0 <= i < keys.len() && 0 <= j < keys.len() && i != j implies {
        &&& (#[trigger] rows[i]).name != (#[trigger] rows[j]).name
        &&& rows[i].ident != rows[j].ident
    } by {
        assert(idents[i] != idents[j]);
    }
    assert forall|i: int| 0 <= i < keys.len() implies {
        &&& id_of_ident(keys, #[trigger] ident_of_id(keys, i)->0) == Some(i as nat)
        &&& ident_of_name(keys, (#[trigger] rows[i]).name) == Some(rows[i].ident)
        &&& name_of_ident(keys, rows[i].ident) == Some(rows[i].name)
    } by {
        assert(declares(keys, i, rows[i].ident));
        assert(names(keys, i, rows[i].name));
    }
}

/// The keys of the built-in message catalogue.
#[derive(Debug, Clone, Copy, PartialEq, Eq, Hash, Structural)]
pub enum MessageKey {
    Welcome,
    LoginSuccess,
    LoginFailed,
    Error,
}

impl MessageKey {
    /// The schema of the built-in catalogue: the names of its keys, in the
    /// order of their ids.
    pub open spec fn catalogue() -> Seq<Seq<char>> {
        seq!["welcome"@, "login_success"@, "login_failed"@, "error"@]
    }

    /// The position of the key in the catalogue.
    pub open spec fn ordinal(self) -> nat {
        match self {
            MessageKey::Welcome => 0,
            MessageKey::LoginSuccess => 1,
            MessageKey::LoginFailed => 2,
            MessageKey::Error => 3,
        }
    }

    /// The name that the catalogue declares for the key.
    pub open spec fn name(self) -> Seq<char> {
        Self::catalogue()[self.ordinal() as int]
    }

    /// The identifier of the key: the name of its variant.
    pub open spec fn ident(self) -> Seq<char> {
        match self {
            MessageKey::Welcome => "Welcome"@,
            MessageKey::LoginSuccess => "LoginSuccess"@,
            MessageKey::LoginFailed => "LoginFailed"@,
            MessageKey::Error => "Error"@,
        }
    }

    /// The key at a position of the catalogue, and none beyond its end.
    pub open spec fn at(position: int) -> Option<MessageKey> {
        if position == 0 {
            Some(MessageKey::Welcome)
        } else if position == 1 {
            Some(MessageKey::LoginSuccess)
        } else if position == 2 {
            Some(MessageKey::LoginFailed)
        } else if position == 3 {
            Some(MessageKey::Error)
        } else {
            None
        }
    }

    /// The numeric id of the key: its position in the catalogue.
    pub fn as_u32(self) -> (id: u32)
        ensures
            id == self.ordinal(),
            id < Self::catalogue().len(),
    {
        match self {
            MessageKey::Welcome => 0,
            MessageKey::LoginSuccess => 1,
            MessageKey::LoginFailed => 2,
            MessageKey::Error => 3,
        }
    }

    /// The name of the key as the catalogue declares it.
    pub fn as_str(self) -> (name: &'static str)
        ensures
            name@ == self.name(),
    {
        match self {
            MessageKey::Welcome => "welcome",
            MessageKey::LoginSuccess => "login_success",
            MessageKey::LoginFailed => "login_failed",
            MessageKey::Error => "error",
        }
    }

    /// The key with the numeric id `v`, and none where `v` is no id of the
    /// catalogue.
    pub fn from_u32(v: u32) -> (key: Option<MessageKey>)
        ensures
            key == Self::at(v as int),
            key is Some <==> v < Self::catalogue().len(),
            key matches Some(found) ==> found.ordinal() == v,
    {
        match v {
            0 => Some(MessageKey::Welcome),
            1 => Some(MessageKey::LoginSuccess),
            2 => Some(MessageKey::LoginFailed),
            3 => Some(MessageKey::Error),
            _ => None,
        }
    }
}

/// The ids of the catalogue's keys are exactly 0, ..., N - 1 for its N keys:
/// every key is found again at its own id, every id below N belongs to one
/// key, and no other number is an id.
pub proof fn lemma_message_key_ids(key: MessageKey, position: int)
    ensures
        MessageKey::at(key.ordinal() as int) == Some(key),
        MessageKey::at(position) is Some <==> 0 <= position < MessageKey::catalogue().len(),
        MessageKey::at(position) matches Some(found) ==> found.ordinal() == position,
{
}

/// Names and keys of the catalogue correspond one to one: two keys with the
/// same name, or with the same id, are the same key.
pub proof fn lemma_message_key_names_are_distinct(first: MessageKey, second: MessageKey)
    ensures
        first.name() == second.name() <==> first == second,
        first.ordinal() == second.ordinal() <==> first == second,
{
    reveal_strlit("welcome");
    reveal_strlit("login_success");
    reveal_strlit("login_failed");
    reveal_strlit("error");
    assert("welcome"@.len() == 7);
    assert("login_success"@.len() == 13);
    assert("login_failed"@.len() == 12);
    assert("error"@.len() == 5);
}

/// The keys of the catalogue are what the table of the catalogue's schema
/// declares: the row at the id of a key holds the key's identifier, its id
/// and its name.
pub proof fn lemma_message_key_is_a_row(key: MessageKey)
    ensures
        key.ordinal() < MessageKey::catalogue().len(),
        key_rows(MessageKey::catalogue())[key.ordinal() as int] == (KeyRow {
            ident: key.ident(),
            id: key.ordinal(),
            name: key.name(),
        }),
{
    reveal_with_fuel(concat, 14);
    match key {
        MessageKey::Welcome => {
            reveal_strlit("welcome");
            reveal_strlit("Welcome");
            assert(camel("welcome"@) =~= "Welcome"@);
        },
        MessageKey::LoginSuccess => {
            reveal_strlit("login_success");
            reveal_strlit("LoginSuccess");
            assert(camel("login_success"@) =~= "LoginSuccess"@);
        },
        MessageKey::LoginFailed => {
            reveal_strlit("login_failed");
            reveal_strlit("LoginFailed");
            assert(camel("login_failed"@) =~= "LoginFailed"@);
        },
        MessageKey::Error => {
            reveal_strlit("error");
            reveal_strlit("Error");
            assert(camel("error"@) =~= "Error"@);
        },
    }
}

} // verus!
