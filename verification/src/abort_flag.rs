//! The flag by which a producer is told to abort: a `std` atomic that its keeper shares
//! with the producer, of which the library trusts what is said here.
//!
//! Whoever was handed the flag reads it at any time, and sees what the keeper has stored in
//! it. The library itself only stores, and never but through `&mut`, so that what it stored
//! last is a function of the keeper's end. It does not read the flag back, so that nothing
//! here rests on what others may store in the ends that they were handed.

use std::sync::atomic::{AtomicBool, Ordering};
use std::sync::Arc;
use vstd::prelude::*;

verus! {

/// The value that was last stored in a flag through this end of it.
pub uninterp spec fn stored_value(flag: AtomicBool) -> bool;

/// Which flag this is an end of: a number that stands for the flag, the same for all its
/// ends and never for an end of another one.
pub uninterp spec fn flag_identity(flag: AtomicBool) -> int;

/// `std::sync::atomic::AtomicBool::new`: a new flag that holds `value`.
#[verifier::external_body]
pub(crate) fn new_flag(value: bool) -> (flag: AtomicBool)
    ensures
        stored_value(flag) == value,
{
    AtomicBool::new(value)
}

/// The keeper's end of a flag, the only one that the library stores through. There is one for
/// each flag: it cannot be copied, and the ends that are handed out do not become one.
pub struct AbortFlag {
    shared: Arc<AtomicBool>,
}

impl AbortFlag {
    /// The value that was last stored in the flag.
    pub closed spec fn value(&self) -> bool {
        stored_value(*self.shared)
    }

    /// Which flag this is.
    pub closed spec fn identity(&self) -> int {
        flag_identity(*self.shared)
    }

    /// A flag that is not set.
    pub(crate) fn new() -> (flag: AbortFlag)
        ensures
            !flag.value(),
    {
        AbortFlag { shared: Arc::new(new_flag(false)) }
    }
}

/// `std::sync::atomic::AtomicBool::store`, in the one order that all threads agree on:
/// replaces the value of the flag, for every end of it. What is left unsaid is what another
/// end reads, which depends on when it does.
#[verifier::external_body]
pub(crate) fn store(flag: &mut AbortFlag, value: bool)
    ensures
        final(flag).value() == value,
        final(flag).identity() == old(flag).identity(),
    opens_invariants none
{
    flag.shared.store(value, Ordering::SeqCst);
}

/// `std::sync::Arc::clone`: one more end of the flag. Nothing is said of what was stored
/// through the new end.
#[verifier::external_body]
pub(crate) fn share(flag: &AbortFlag) -> (end: Arc<AtomicBool>)
    ensures
        flag_identity(*end) == flag.identity(),
    opens_invariants none
{
    Arc::clone(&flag.shared)
}

impl AbortFlag {
    /// The keeper's end is the flag: what was stored through it, and which flag it is, are
    /// what an end of that flag stands for.
    proof fn law_keeper_is_the_flag(&self)
        ensures
            self.value() == stored_value(*self.shared),
            self.identity() == flag_identity(*self.shared),
    {
    }
}

} // verus!
