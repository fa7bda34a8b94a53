//! Participant identities.

use vstd::prelude::*;
use vstd::std_specs::cmp::PartialEqSpecImpl;

verus! {

/// A network participant, identified by the text of its key.
///
/// The ledgers compare addresses and nothing more: two addresses name the same
/// participant exactly when their keys hold the same text.
#[derive(Debug)]
pub struct Address {
    key: String,
}

impl View for Address {
    type V = Seq<char>;

    /// The text of the key.
    closed spec fn view(&self) -> Seq<char> {
        self.key@
    }
}

impl Address {
    /// The address whose key is the given text.
    pub fn from_str(key: &str) -> (address: Address)
        ensures
            address@ == key@,
    {
        Address { key: key.to_owned() }
    }

    /// The address whose key is the given string.
    pub fn from_string(key: String) -> (address: Address)
        ensures
            address@ == key@,
    {
        Address { key }
    }

    /// The text of the key.
    pub fn as_str(&self) -> (key: &str)
        ensures
            key@ == self@,
    {
        self.key.as_str()
    }

    /// A copy of the text of the key.
    pub fn to_string(&self) -> (key: String)
        ensures
            key@ == self@,
    {
        self.key.clone()
    }
}

impl Clone for Address {
    fn clone(&self) -> (copy: Address)
        ensures
            copy == *self,
    {
        Address { key: self.key.clone() }
    }
}

impl PartialEq for Address {
    fn eq(&self, other: &Address) -> (same: bool) {
        self.key == other.key
    }
}

impl PartialEqSpecImpl for Address {
    open spec fn obeys_eq_spec() -> bool {
        true
    }

    open spec fn eq_spec(&self, other: &Address) -> bool {
        self@ == other@
    }
}

impl Eq for Address {

}

} // verus!
