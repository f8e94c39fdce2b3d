//! Caller identities.

use candid::Principal;
use vstd::prelude::*;

verus! {

/// The longest an identity can be, in bytes.
pub const MAX_IDENTITY_LEN: usize = 29;

/// The bytes of the identity that stands for "nobody".
pub open spec fn anonymous_bytes() -> Seq<u8> {
    seq![4u8]
}

/// `Principal::anonymous`: the principal that is the one byte 4.
#[verifier::external_body]
fn anonymous_principal() -> (bytes: Vec<u8>)
    ensures
        bytes@ == anonymous_bytes(),
{
    Principal::anonymous().as_slice().to_vec()
}

/// Whether two byte strings are the same.
pub fn same_bytes(a: &[u8], b: &[u8]) -> (same: bool)
    ensures
        same == (a@ == b@),
{
    if a.len() != b.len() {
        return false;
    }
    let mut i: usize = 0;
    while i < a.len()
        invariant
            a@.len() == b@.len(),
            i <= a@.len(),
            forall|j: int| 0 <= j < i ==> a@[j] == b@[j],
        decreases a@.len() - i,
    {
        if a[i] != b[i] {
            return false;
        }
        i += 1;
    }
    assert(a@ =~= b@);
    true
}

/// The identity of a caller: an opaque string of at most 29 bytes, as a
/// principal is. Two identities are the same when their bytes are.
#[derive(Debug, PartialEq, Eq)]
pub struct Identity {
    bytes: Vec<u8>,
}

impl View for Identity {
    type V = Seq<u8>;

    closed spec fn view(&self) -> Seq<u8> {
        self.bytes@
    }
}

impl Clone for Identity {
    fn clone(&self) -> (copy: Self)
        ensures
            copy@ == self@,
    {
        proof {
            use_type_invariant(self);
        }
        Identity { bytes: self.bytes.clone() }
    }
}

impl Identity {
    /// No identity is longer than 29 bytes.
    #[verifier::type_invariant]
    pub open spec fn bounded(&self) -> bool {
        self@.len() <= MAX_IDENTITY_LEN
    }

    /// The identity with the given bytes, if they are not too many.
    pub fn from_slice(bytes: &[u8]) -> (made: Option<Identity>)
        ensures
            bytes@.len() <= MAX_IDENTITY_LEN ==> made.is_some() && made.unwrap()@ == bytes@,
            bytes@.len() > MAX_IDENTITY_LEN ==> made.is_none(),
    {
        if bytes.len() > MAX_IDENTITY_LEN {
            None
        } else {
            Some(Identity { bytes: vstd::slice::slice_to_vec(bytes) })
        }
    }

    /// The identity that stands for "nobody".
    pub fn anonymous() -> (nobody: Identity)
        ensures
            nobody@ == anonymous_bytes(),
    {
        Identity { bytes: anonymous_principal() }
    }

    /// The bytes of the identity.
    pub fn as_slice(&self) -> (bytes: &[u8])
        ensures
            bytes@ == self@,
            bytes@.len() <= MAX_IDENTITY_LEN,
    {
        proof {
            use_type_invariant(self);
        }
        self.bytes.as_slice()
    }

    /// Whether this is the identity that stands for "nobody".
    pub fn is_anonymous(&self) -> (nobody: bool)
        ensures
            nobody == (self@ == anonymous_bytes()),
    {
        let nobody = anonymous_principal();
        same_bytes(self.bytes.as_slice(), nobody.as_slice())
    }

    /// Whether the two are the same identity.
    pub fn same_as(&self, other: &Identity) -> (same: bool)
        ensures
            same == (self@ == other@),
    {
        same_bytes(self.bytes.as_slice(), other.bytes.as_slice())
    }
}

} // verus!
