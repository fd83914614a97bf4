//! A record whose signature has been checked.

use vstd::prelude::*;
use crate::api::signable::{Signable, check, sealed};

verus! {

/// Why a record is not admitted.
#[derive(Clone, Copy, Debug, PartialEq, Eq, Structural)]
pub enum SignatureError {
    /// The signature is not one of the record's digest under the record's key.
    InvalidSignature,
}

/// A record whose signature over its digest is accepted under the key it names.
pub struct Signed<T: Signable>(T);

impl<T: Signable> Signed<T> {
    #[verifier::type_invariant]
    spec fn checked(self) -> bool {
        sealed(&self.0)
    }

    /// The record.
    pub closed spec fn view(&self) -> T {
        self.0
    }

    /// Admits the record where its signature checks, and hands it back unchanged
    /// inside `Signed`.
    pub fn new(record: T) -> (r: Result<Signed<T>, SignatureError>)
        ensures
            sealed(&record) ==> r is Ok && r->Ok_0@ == record,
            !sealed(&record) ==> r == Err::<Signed<T>, SignatureError>(
                SignatureError::InvalidSignature,
            ),
    {
        if check(&record) {
            Ok(Signed(record))
        } else {
            Err(SignatureError::InvalidSignature)
        }
    }

    /// The record.
    pub fn get(&self) -> (r: &T)
        ensures
            *r == self@,
            sealed(r),
    {
        proof {
            use_type_invariant(self);
        }
        &self.0
    }

    /// The record, taken out.
    pub fn into_inner(self) -> (r: T)
        ensures
            r == self@,
            sealed(&r),
    {
        proof {
            use_type_invariant(&self);
        }
        self.0
    }
}

} // verus!
