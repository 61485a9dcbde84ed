use vstd::prelude::*;

verus! {

/// parking_lot's mutex, the lock around a shared counter; opaque here.
#[verifier::external_type_specification]
#[verifier::external_body]
#[verifier::reject_recursive_types(R)]
#[verifier::reject_recursive_types(T)]
pub struct ExMutex<R, T: ?Sized>(parking_lot::lock_api::Mutex<R, T>);

/// parking_lot's raw lock, which its mutex is built on; opaque here.
#[verifier::external_type_specification]
#[verifier::external_body]
pub struct ExRawMutex(parking_lot::RawMutex);

/// Holds the lock of a shared counter until it is dropped. The guard is kept
/// in a private field because Verus refuses a declaration of
/// parking_lot's guard type.
#[verifier::external_body]
pub(crate) struct CounterGuard<'a> {
    guard: parking_lot::MutexGuard<'a, usize>,
}

/// Relies on parking_lot::Mutex::new: a fresh, unlocked counter.
#[verifier::external_body]
pub(crate) fn new_counter(v: usize) -> parking_lot::Mutex<usize> {
    parking_lot::Mutex::new(v)
}

/// Relies on parking_lot::Mutex::lock: blocks until the counter is held; the
/// guard releases it when dropped. The value behind it is whatever other
/// threads left there.
#[verifier::external_body]
pub(crate) fn lock_counter(m: &parking_lot::Mutex<usize>) -> CounterGuard<'_> {
    CounterGuard { guard: m.lock() }
}

/// Relies on the guard's `Deref`: reads the held counter.
#[verifier::external_body]
pub(crate) fn read_counter(g: &CounterGuard<'_>) -> usize {
    *g.guard
}

/// Relies on the guard's `DerefMut`: overwrites the held counter.
#[verifier::external_body]
pub(crate) fn write_counter(g: &mut CounterGuard<'_>, v: usize) {
    *g.guard = v;
}

} // verus!
