//! Account and item references.
//!
//! Both are held by their text: an account by the text of its address, an item
//! by its name. Two references are the same exactly when their texts are.

use vstd::prelude::*;

verus! {

/// An account: the actor of a call, the receiver of value, the owner of a
/// collectible.
#[derive(Debug)]
pub struct Address {
    text: String,
}

impl View for Address {
    type V = Seq<char>;

    closed spec fn view(&self) -> Seq<char> {
        self.text@
    }
}

impl Address {
    /// The account with the given address text.
    pub fn new(text: String) -> (address: Address)
        ensures
            address@ == text@,
    {
        Address { text }
    }

    /// The address text.
    pub fn as_str(&self) -> (text: &str)
        ensures
            text@ == self@,
    {
        self.text.as_str()
    }

    /// The text under which the account's records are kept.
    pub(crate) fn key(&self) -> (text: &String)
        ensures
            text@ == self@,
    {
        &self.text
    }
}

impl PartialEq for Address {
    /// Whether both are the same account.
    fn eq(&self, other: &Address) -> (same: bool) {
        self.text == other.text
    }
}

impl Eq for Address {

}

impl vstd::std_specs::cmp::PartialEqSpecImpl for Address {
    open spec fn obeys_eq_spec() -> bool {
        true
    }

    open spec fn eq_spec(&self, other: &Address) -> bool {
        self@ == other@
    }
}

impl Clone for Address {
    fn clone(&self) -> (copy: Address)
        ensures
            copy == *self,
    {
        Address { text: self.text.clone() }
    }
}

/// A content item, or a highlight inside one, by its name.
#[derive(Debug)]
pub struct Symbol {
    name: String,
}

impl View for Symbol {
    type V = Seq<char>;

    closed spec fn view(&self) -> Seq<char> {
        self.name@
    }
}

impl Symbol {
    /// The item with the given name.
    pub fn new(name: String) -> (symbol: Symbol)
        ensures
            symbol@ == name@,
    {
        Symbol { name }
    }

    /// The item's name.
    pub fn as_str(&self) -> (name: &str)
        ensures
            name@ == self@,
    {
        self.name.as_str()
    }

    /// The text under which the item's records are kept.
    pub(crate) fn key(&self) -> (name: &String)
        ensures
            name@ == self@,
    {
        &self.name
    }
}

impl PartialEq for Symbol {
    /// Whether both name the same item.
    fn eq(&self, other: &Symbol) -> (same: bool) {
        self.name == other.name
    }
}

impl Eq for Symbol {

}

impl vstd::std_specs::cmp::PartialEqSpecImpl for Symbol {
    open spec fn obeys_eq_spec() -> bool {
        true
    }

    open spec fn eq_spec(&self, other: &Symbol) -> bool {
        self@ == other@
    }
}

impl Clone for Symbol {
    fn clone(&self) -> (copy: Symbol)
        ensures
            copy == *self,
    {
        Symbol { name: self.name.clone() }
    }
}

} // verus!
