//! The life of a scoped working directory.
//!
//! A handler that needs a private directory claims one, owns it while it
//! works, and gives it up exactly once, whatever happens in between.  The
//! directory itself lives on disk and is the caller's to create and remove;
//! this module keeps the books.

use vstd::prelude::*;

verus! {

/// Where a scoped directory stands in its life.  A lease only ever moves
/// forward: from `Unclaimed` to `Held` to `Released`.
#[derive(Clone, Copy, Debug, PartialEq, Eq, Structural)]
pub enum Lease {
    /// No directory has been created for this handler.
    Unclaimed,
    /// The handler owns a directory that still has to be removed.
    Held,
    /// The handler has ordered the removal of its directory.
    Released,
}

impl Lease {
    /// How far the lease has come: 0, 1 or 2.
    pub open spec fn rank(self) -> nat {
        match self {
            Lease::Unclaimed => 0,
            Lease::Held => 1,
            Lease::Released => 2,
        }
    }

    /// A lease before anything was claimed.
    pub fn new() -> (lease: Lease)
        ensures
            lease == Lease::Unclaimed,
    {
        Lease::Unclaimed
    }

    /// Whether a directory is owned and still owed a removal.
    pub fn is_held(&self) -> (held: bool)
        ensures
            held == (*self == Lease::Held),
    {
        match self {
            Lease::Held => true,
            _ => false,
        }
    }

    /// Records that the directory now exists.
    pub fn acquire(self) -> (lease: Lease)
        requires
            self == Lease::Unclaimed,
        ensures
            lease == Lease::Held,
    {
        Lease::Held
    }

    /// Records that the removal of the directory has been ordered.
    pub fn release(self) -> (lease: Lease)
        requires
            self == Lease::Held,
        ensures
            lease == Lease::Released,
    {
        Lease::Released
    }
}

} // verus!
