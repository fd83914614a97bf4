//! Values that carry a point in time.

use vstd::prelude::*;

verus! {

/// A Unix time in seconds.
pub type Timestamp = i64;

/// Something `Timestamped` has a timestamp.
pub trait Timestamped {
    /// The timestamp of the value.
    spec fn stamp(&self) -> int;

    /// The timestamp of the value.
    fn timestamp(&self) -> (t: Timestamp)
        ensures
            t == self.stamp(),
    ;
}

} // verus!
