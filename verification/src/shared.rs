use vstd::prelude::*;
use std::sync::{Arc, RwLock, RwLockReadGuard, RwLockWriteGuard};

verus! {

#[verifier::external_type_specification]
#[verifier::external_body]
#[verifier::reject_recursive_types(T)]
pub struct ExRwLock<T: ?Sized>(RwLock<T>);

#[verifier::external_type_specification]
#[verifier::external_body]
#[verifier::reject_recursive_types(T)]
pub struct ExRwLockReadGuard<'a, T: ?Sized>(RwLockReadGuard<'a, T>);

#[verifier::external_type_specification]
#[verifier::external_body]
#[verifier::reject_recursive_types(T)]
pub struct ExRwLockWriteGuard<'a, T: ?Sized + 'a>(RwLockWriteGuard<'a, T>);

/// Calls `RwLock::new`: a new, unlocked lock holding `value`.
#[verifier::external_body]
fn lock_new<T>(value: T) -> RwLock<T> {
    RwLock::new(value)
}

/// Calls `RwLock::try_read`: `None` when the lock cannot be had right now. Which outcome
/// comes depends on other threads and is left unsaid.
#[verifier::external_body]
fn lock_try_read<T>(lock: &RwLock<T>) -> Option<RwLockReadGuard<'_, T>> {
    lock.try_read().ok()
}

/// Calls `RwLock::try_write`: `None` when the lock cannot be had right now. Which outcome
/// comes depends on other threads and is left unsaid.
#[verifier::external_body]
fn lock_try_write<T>(lock: &RwLock<T>) -> Option<RwLockWriteGuard<'_, T>> {
    lock.try_write().ok()
}

/// Calls `RwLock::into_inner`, handing back the value, or `None` when the lock is poisoned.
/// What the value is depends on the writes made through the lock and is left unsaid.
#[verifier::external_body]
fn lock_into_inner<T>(lock: RwLock<T>) -> Option<T> {
    lock.into_inner().ok()
}

/// A writer panicked while holding the lock, so the data may be half-updated.
#[derive(Clone, Copy, Debug, PartialEq, Eq)]
pub struct Poisoned;

/// Calls `Arc::strong_count`. A handle that is alive counts itself, so the result is at
/// least one; how many others exist depends on other threads and is left unsaid.
#[verifier::external_body]
fn arc_count<T>(arc: &Arc<T>) -> (r: usize)
    ensures
        r >= 1,
{
    Arc::strong_count(arc)
}

/// Calls `Arc::try_unwrap`: the inner value when this is the only handle, otherwise the
/// handle itself, unchanged. Which of the two comes depends on other threads' handles.
#[verifier::external_body]
fn arc_try_unwrap<T>(arc: Arc<T>) -> (r: Result<T, Arc<T>>)
    ensures
        r matches Ok(v) ==> v == *arc,
        r matches Err(a) ==> a == arc,
{
    Arc::try_unwrap(arc)
}

/// A thread-safe, cheaply cloneable handle to a `T`, allowing concurrent reads and
/// exclusive writes.
///
/// Cloning bumps a reference count; every clone points at the same data.
#[verifier::reject_recursive_types(T)]
pub struct Shared<T> {
    inner: Arc<RwLock<T>>,
}

impl<T> Shared<T> {
    /// Wraps `value` in a new shared handle.
    pub fn new(value: T) -> Self {
        Shared { inner: Arc::new(lock_new(value)) }
    }

    /// The lock behind this handle, shared by every clone of it.
    ///
    /// Blocking acquisition (`read`, `write`) is left to the caller: std documents that it may
    /// panic or never return when the calling thread already holds the lock, and which thread
    /// holds a lock cannot be stated in a contract here. The library itself only tries.
    pub fn lock(&self) -> &RwLock<T> {
        &*self.inner
    }

    /// Attempts to acquire read access without blocking; `None` if a writer holds the lock.
    pub fn try_read(&self) -> Option<RwLockReadGuard<'_, T>> {
        lock_try_read(&*self.inner)
    }

    /// Attempts to acquire write access without blocking; `None` if the lock is held.
    pub fn try_write(&self) -> Option<RwLockWriteGuard<'_, T>> {
        lock_try_write(&*self.inner)
    }

    /// Returns the number of handles pointing at this data; at least one.
    pub fn handle_count(&self) -> (r: usize)
        ensures
            r >= 1,
    {
        arc_count(&self.inner)
    }

    /// Consumes this handle and returns the inner `T` if it is the last one.
    ///
    /// Returns `Err(self)`, the same handle, if other handles still exist, and `Ok(Err(Poisoned))`
    /// if this was the last handle but a writer panicked while holding the lock.
    pub fn try_unwrap(self) -> (r: Result<Result<T, Poisoned>, Self>)
        ensures
            r matches Err(s) ==> s == self,
    {
        match arc_try_unwrap(self.inner) {
            Ok(lock) => match lock_into_inner(lock) {
                Some(value) => Ok(Ok(value)),
                None => Ok(Err(Poisoned)),
            },
            Err(inner) => Err(Shared { inner }),
        }
    }
}

impl<T> Clone for Shared<T> {
    /// A second handle to the same data.
    fn clone(&self) -> (r: Self)
        ensures
            r == *self,
    {
        Shared { inner: self.inner.clone() }
    }
}

} // verus!
