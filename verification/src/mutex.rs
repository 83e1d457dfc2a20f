//! The mutex that lets one writer through at a time: a `parking_lot` mutex
//! that guards no data of its own.
//!
//! Nothing here is proved. Whether the mutex is free depends on what other
//! threads do, so the functions promise nothing of what they return; that a
//! held mutex shuts every other thread out is what `parking_lot` provides.

use vstd::prelude::*;

verus! {

/// `parking_lot::RawMutex`, the lock word inside the mutex. Carried, never
/// looked into.
#[verifier::external_type_specification]
#[verifier::external_body]
pub struct ExRawMutex(parking_lot::RawMutex);

/// `lock_api::Mutex`, of which `parking_lot::Mutex` is an instance. Carried,
/// never looked into.
#[verifier::external_type_specification]
#[verifier::external_body]
#[verifier::reject_recursive_types(R)]
#[verifier::reject_recursive_types(T)]
pub struct ExMutex<R, T: ?Sized>(parking_lot::lock_api::Mutex<R, T>);

/// The mutex while it is held: a `parking_lot::MutexGuard`, which releases the
/// mutex when it is destroyed. The guard type is bounded by a trait of
/// `lock_api`, so it is kept behind this struct instead of being named in
/// signatures.
#[verifier::external_body]
pub struct Held<'a> {
    held: parking_lot::MutexGuard<'a, ()>,
}

/// Calls `parking_lot::Mutex::new` on the unit value: a mutex that nobody
/// holds.
#[verifier::external_body]
pub(crate) fn new_mutex() -> (mutex: parking_lot::Mutex<()>) {
    parking_lot::Mutex::new(())
}

/// Calls `parking_lot::Mutex::lock`, which blocks the calling thread until
/// the mutex is free and then takes it. It does not return to a thread that
/// already holds the mutex.
#[verifier::external_body]
pub(crate) fn acquire<'a>(mutex: &'a parking_lot::Mutex<()>) -> (hold: Held<'a>) {
    Held { held: mutex.lock() }
}

/// Calls `parking_lot::Mutex::try_lock`, which takes the mutex if it is free
/// and returns `None` at once if it is not.
#[verifier::external_body]
pub(crate) fn try_acquire<'a>(mutex: &'a parking_lot::Mutex<()>) -> (hold: Option<Held<'a>>) {
    match mutex.try_lock() {
        Some(held) => Some(Held { held }),
        None => None,
    }
}

} // verus!
