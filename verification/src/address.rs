use vstd::prelude::*;

verus! {

/// An account or contract identity, held as its textual key.
///
/// Two addresses denote the same identity exactly when their keys are
/// the same sequence of characters.
#[derive(Debug)]
pub struct Address {
    pub key: String,
}

impl View for Address {
    type V = Seq<char>;

    open spec fn view(&self) -> Seq<char> {
        self.key@
    }
}

impl Clone for Address {
    fn clone(&self) -> (r: Self)
        ensures
            r == *self,
    {
        Address { key: self.key.clone() }
    }
}

impl Address {
    pub fn new(key: String) -> (r: Address)
        ensures
            r.key == key,
    {
        Address { key }
    }

    /// Whether `self` and `other` denote the same identity.
    pub fn same_as(&self, other: &Address) -> (r: bool)
        ensures
            r == (self@ == other@),
    {
        self.key == other.key
    }
}

} // verus!
