//! The schema: the message keys in the order that gives each its numeric id.

use vstd::prelude::*;

verus! {

/// The ordered list of message keys. The position of a key is its numeric id.
#[derive(Clone, Debug, PartialEq, Eq)]
pub struct Schema {
    pub keys: Vec<String>,
}

impl View for Schema {
    type V = Seq<Seq<char>>;

    open spec fn view(&self) -> Seq<Seq<char>> {
        self.keys.deep_view()
    }
}

} // verus!
