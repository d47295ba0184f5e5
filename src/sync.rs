use crate::errors::Error;
use std::sync::{RwLock, RwLockReadGuard, RwLockWriteGuard};
use vstd::prelude::*;

verus! {

#[verifier::external_type_specification]
#[verifier::external_body]
#[verifier::reject_recursive_types(T)]
pub struct ExRwLock<T: ?Sized>(RwLock<T>);

#[verifier::external_type_specification]
#[verifier::external_body]
#[verifier::reject_recursive_types(T)]
pub struct ExRwLockReadGuard<'a, T: ?Sized>(RwLockReadGuard<'a, T>);

#[verifier::external_type_specification]
#[verifier::external_body]
#[verifier::reject_recursive_types(T)]
pub struct ExRwLockWriteGuard<'a, T: ?Sized + 'a>(RwLockWriteGuard<'a, T>);

/// Relies on `RwLock::new`: a fresh, unpoisoned lock around `value`.
#[verifier::external_body]
pub(crate) fn new_lock<T>(value: T) -> (r: RwLock<T>) {
    RwLock::new(value)
}

/// Relies on `RwLock::read`: blocks until shared access is had, and fails
/// only where a writer panicked while holding the lock, carrying the
/// poison error's message.
#[verifier::external_body]
pub(crate) fn read_lock<T>(lock: &RwLock<T>) -> (r: Result<RwLockReadGuard<'_, T>, Error>)
    ensures
        r matches Err(e) ==> e is LockPoisoned,
{
    match lock.read() {
        Ok(guard) => Ok(guard),
        Err(e) => Err(Error::LockPoisoned(format!("{}", e))),
    }
}

/// Relies on `RwLock::write`: blocks until exclusive access is had, and
/// fails only where a writer panicked while holding the lock, carrying the
/// poison error's message.
#[verifier::external_body]
pub(crate) fn write_lock<T>(lock: &RwLock<T>) -> (r: Result<RwLockWriteGuard<'_, T>, Error>)
    ensures
        r matches Err(e) ==> e is LockPoisoned,
{
    match lock.write() {
        Ok(guard) => Ok(guard),
        Err(e) => Err(Error::LockPoisoned(format!("{}", e))),
    }
}

/// Relies on `Deref` for `RwLockReadGuard`: the value that the lock guards.
#[verifier::external_body]
pub(crate) fn shared<'a, 'b, T>(guard: &'b RwLockReadGuard<'a, T>) -> (r: &'b T) {
    &**guard
}

/// Relies on `DerefMut` for `RwLockWriteGuard`: the value that the lock
/// guards, for writing while the guard is held.
#[verifier::external_body]
pub(crate) fn exclusive<'a, 'b, T>(guard: &'b mut RwLockWriteGuard<'a, T>) -> (r: &'b mut T) {
    &mut **guard
}

} // verus!
