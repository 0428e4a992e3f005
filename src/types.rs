//! Values exchanged between nodes.
use vstd::prelude::*;
use crate::name_type::{bytes_equal, NameType};

verus! {

/// A public identity certificate: a node's public keys bound to its name
/// by a signature. Carried as an indivisible value by the routing core.
#[derive(Clone, Copy, Debug)]
pub struct PublicPmid {
    pub public_key: [u8; 32],
    pub public_sign_key: [u8; 32],
    pub validation_token: [u8; 64],
    pub name: NameType,
}

impl PublicPmid {
    /// Field-wise equality of two certificates.
    pub open spec fn same_as(&self, other: &PublicPmid) -> bool {
        &&& self.public_key@ == other.public_key@
        &&& self.public_sign_key@ == other.public_sign_key@
        &&& self.validation_token@ == other.validation_token@
        &&& self.name@ == other.name@
    }
}

impl PartialEq for PublicPmid {
    fn eq(&self, other: &PublicPmid) -> (r: bool) {
        bytes_equal(self.public_key.as_slice(), other.public_key.as_slice())
            && bytes_equal(self.public_sign_key.as_slice(), other.public_sign_key.as_slice())
            && bytes_equal(self.validation_token.as_slice(), other.validation_token.as_slice())
            && bytes_equal(self.name.0.as_slice(), other.name.0.as_slice())
    }
}

impl vstd::std_specs::cmp::PartialEqSpecImpl for PublicPmid {
    open spec fn obeys_eq_spec() -> bool {
        true
    }

    open spec fn eq_spec(&self, other: &PublicPmid) -> bool {
        self.same_as(other)
    }
}

impl Eq for PublicPmid {
}

} // verus!
