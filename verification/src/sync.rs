//! A mutex that stays usable after a thread has panicked while holding it.

use vstd::prelude::*;
use std::sync::MutexGuard;

verus! {

/// `std::sync::Mutex`, carried as an opaque value.
#[verifier::external_type_specification]
#[verifier::external_body]
#[verifier::reject_recursive_types(T)]
pub struct ExStdMutex<T: ?Sized>(std::sync::Mutex<T>);

/// `std::sync::MutexGuard`, carried as an opaque value.
#[verifier::external_type_specification]
#[verifier::external_body]
#[verifier::reject_recursive_types(T)]
pub struct ExMutexGuard<'a, T: ?Sized + 'a>(MutexGuard<'a, T>);

/// `std::sync::PoisonError`, carried as an opaque value.
#[verifier::external_type_specification]
#[verifier::external_body]
#[verifier::reject_recursive_types(T)]
pub struct ExPoisonError<T>(std::sync::PoisonError<T>);

/// `std::sync::Mutex::new`. Nothing is stated of the mutex it makes.
pub assume_specification<T>[ std::sync::Mutex::<T>::new ](value: T) -> std::sync::Mutex<T>;

/// `std::sync::Mutex::lock`. Nothing is stated of what it returns: the guard
/// alone, or the guard inside an error where a thread panicked while it held
/// the lock.
pub assume_specification<'a, T: ?Sized>[ std::sync::Mutex::<T>::lock ](
    mutex: &'a std::sync::Mutex<T>,
) -> Result<MutexGuard<'a, T>, std::sync::PoisonError<MutexGuard<'a, T>>>;

/// `std::sync::PoisonError::into_inner`. Nothing is stated of the value it
/// hands out.
pub assume_specification<T>[ std::sync::PoisonError::<T>::into_inner ](
    error: std::sync::PoisonError<T>,
) -> T;

/// Non-poisoning mutex.
#[verifier::reject_recursive_types(T)]
pub struct Mutex<T> {
    std: std::sync::Mutex<T>,
}

impl<T> Mutex<T> {
    /// A mutex that guards `value`.
    pub fn new(value: T) -> Self {
        Mutex { std: std::sync::Mutex::new(value) }
    }

    /// Waits for the lock and returns its guard, also where a thread has
    /// panicked while it held the lock: the guard is then recovered from the
    /// error. A thread that holds the guard must not ask for it again: std
    /// leaves open whether that call panics or never returns.
    pub fn lock(&self) -> MutexGuard<'_, T> {
        match self.std.lock() {
            Ok(guard) => guard,
            Err(poisoned) => poisoned.into_inner(),
        }
    }
}

} // verus!
