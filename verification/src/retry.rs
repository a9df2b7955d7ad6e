//! Trying again what failed.

use vstd::prelude::*;

verus! {

/// How long to rest, in seconds, after a failure.
pub const RETRY_SECS: u64 = 1;

/// What became of an attempt.
#[derive(Debug, PartialEq, Eq)]
pub enum Attempt<T> {
    /// It succeeded.
    Done(T),
    /// It is to be made again after so many seconds.
    Again { secs: u64 },
}

/// Repeats something until it stops failing: says whether an attempt was the last one.
pub fn repeat_fallible<T, E>(outcome: Result<T, E>) -> (attempt: Attempt<T>)
    ensures
        match outcome {
            Ok(value) => attempt == Attempt::Done(value),
            Err(_) => attempt == (Attempt::<T>::Again { secs: RETRY_SECS }),
        },
{
    match outcome {
        Ok(value) => Attempt::Done(value),
        Err(_) => Attempt::Again { secs: RETRY_SECS },
    }
}

} // verus!
