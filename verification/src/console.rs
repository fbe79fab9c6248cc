//! Output through the lock: the one writer of the system is shared behind a
//! spin lock, and every path that prints takes the lock first.

use crate::writer::Writer;
use spin::mutex::Mutex;
use spin::mutex::MutexGuard;
use spin::relax::Spin;
use vstd::prelude::*;

verus! {

/// `spin::mutex::Mutex`, a lock that busy-waits and so works before any
/// scheduler exists. Nothing of its inside is visible here.
#[verifier::external_type_specification]
#[verifier::external_body]
#[verifier::reject_recursive_types(T)]
#[verifier::reject_recursive_types(R)]
pub struct ExMutex<T: ?Sized, R>(Mutex<T, R>);

/// `spin::relax::Spin`, the way in which the lock waits: it spins.
#[verifier::external_type_specification]
#[verifier::external_body]
pub struct ExSpin(Spin);

/// `spin::mutex::MutexGuard`, the proof of holding the lock; dropping it
/// releases the lock.
#[verifier::external_type_specification]
#[verifier::external_body]
#[verifier::reject_recursive_types(T)]
pub struct ExMutexGuard<'a, T: 'a + ?Sized>(MutexGuard<'a, T>);

/// `spin::mutex::Mutex::lock`: spins until the lock is free, takes it and
/// hands out the guard. Nothing is claimed of the writer behind it: another
/// context may have written since the lock was last seen. A context that
/// holds the guard already must not call this again: the call would spin
/// forever.
#[verifier::external_body]
fn lock(writer: &Mutex<Writer, Spin>) -> (guard: MutexGuard<'_, Writer>) {
    writer.lock()
}

/// `DerefMut::deref_mut` of `spin::mutex::MutexGuard`: the exclusive
/// reference to the writer behind the lock, for as long as the guard is
/// borrowed. Nothing is claimed of the writer's state.
#[verifier::external_body]
fn guarded<'a>(guard: &'a mut MutexGuard<'_, Writer>) -> (writer: &'a mut Writer) {
    core::ops::DerefMut::deref_mut(guard)
}

/// Print a text through the lock: take the lock, write the text as
/// [`Writer::write_string`] does, on whatever the screen showed when the lock
/// was taken, and release the lock.
pub fn _print(writer: &Mutex<Writer, Spin>, text: &str) {
    let mut guard = lock(writer);
    guarded(&mut guard).write_string(text);
}

} // verus!
