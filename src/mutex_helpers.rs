use std::sync::{Arc, Mutex, MutexGuard};

use vstd::prelude::*;

verus! {

#[verifier::external_type_specification]
#[verifier::external_body]
#[verifier::reject_recursive_types(T)]
pub struct ExMutex<T: ?Sized>(Mutex<T>);

#[verifier::external_type_specification]
#[verifier::external_body]
#[verifier::reject_recursive_types(T)]
pub struct ExMutexGuard<'a, T: ?Sized + 'a>(MutexGuard<'a, T>);

/// A lock could not be taken: a thread panicked while it held it.
#[derive(Debug)]
pub struct LockError {
    pub msg: String,
}

/// Relies on `Mutex::lock`: blocks until the lock is held, and fails only
/// where a thread panicked while holding it; the failure is described by
/// `PoisonError`'s `Display`.
#[verifier::external_body]
fn acquire<T>(m: &Mutex<T>) -> (r: Result<MutexGuard<'_, T>, String>) {
    match m.lock() {
        Ok(guard) => Ok(guard),
        Err(e) => Err(e.to_string()),
    }
}

/// Relies on `DerefMut` for `MutexGuard`: the value that the held lock
/// protects.
#[verifier::external_body]
pub(crate) fn guarded<'a, 'b, T>(guard: &'a mut MutexGuard<'b, T>) -> (r: &'a mut T) {
    &mut **guard
}

/// Takes the lock of a shared value, turning a poisoned lock into an error.
pub fn lock<T>(lockable: &Arc<Mutex<T>>) -> (r: Result<MutexGuard<'_, T>, LockError>) {
    let m: &Mutex<T> = lockable;
    match acquire(m) {
        Ok(guard) => Ok(guard),
        Err(msg) => Err(LockError { msg }),
    }
}

} // verus!
