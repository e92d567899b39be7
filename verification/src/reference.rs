//! Reference names.

use vstd::prelude::*;

use crate::bytes::same_bytes;

verus! {

/// The full name of a reference, byte for byte.
///
/// Which byte strings are names is not decided here: a value is made from a
/// byte string together with the verdict of the naming rules on it.
#[derive(Clone, Debug, PartialEq, Eq)]
pub struct RefName {
    bytes: Vec<u8>,
}

impl View for RefName {
    type V = Seq<u8>;

    closed spec fn view(&self) -> Seq<u8> {
        self.bytes@
    }
}

impl RefName {
    /// The name that `name` spells, if the naming rules accept it.
    pub fn try_new(name: &[u8], accepted: bool) -> (reference: Option<RefName>)
        ensures
            reference is Some <==> accepted,
            reference matches Some(found) ==> found@ == name@,
    {
        if accepted {
            Some(RefName { bytes: vstd::slice::slice_to_vec(name) })
        } else {
            None
        }
    }

    /// The bytes of the name.
    pub fn as_bytes(&self) -> (bytes: &[u8])
        ensures
            bytes@ == self@,
    {
        self.bytes.as_slice()
    }

    /// Whether two names are the same, byte for byte.
    pub fn same(&self, other: &RefName) -> (same: bool)
        ensures
            same == (self@ == other@),
    {
        same_bytes(self.as_bytes(), other.as_bytes())
    }

    /// A second value of the same name.
    pub fn copied(&self) -> (copy: RefName)
        ensures
            copy@ == self@,
    {
        RefName { bytes: vstd::slice::slice_to_vec(self.as_bytes()) }
    }
}

} // verus!
