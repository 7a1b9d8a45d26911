//! The result model: what the signed integer that a system call hands back
//! means.

use vstd::prelude::*;

verus! {

/// The error code of a failed system call, as a magnitude.
#[derive(Clone, Copy, Debug, PartialEq, Eq, Structural)]
pub struct Errno(pub i32);

impl Errno {
    /// The code of a failure that has no code of its own.
    pub const SENTINEL: i32 = 1;

    /// An error code is a magnitude: it is never negative.
    pub open spec fn wf(&self) -> bool {
        self.0 >= 0
    }

    /// Converts any other failure into an error code. The conversion is lossy:
    /// whatever the failure was, the code is the sentinel.
    pub fn from_failure<T>(_failure: T) -> (errno: Errno)
        ensures
            errno == Errno(Errno::SENTINEL),
            errno.wf(),
    {
        Errno(Errno::SENTINEL)
    }
}

/// The outcome of an operation that may fail with an error code.
pub type Outcome<T> = Result<T, Errno>;

/// What the raw result of a system call means: a result that is not negative
/// is the count that the call reports, and a negative one is a failure whose
/// code is the result's magnitude.
pub open spec fn interpret(raw: int) -> Result<usize, Errno>
    recommends
        i32::MIN < raw <= i32::MAX,
{
    if raw >= 0 {
        Ok(raw as usize)
    } else {
        Err(Errno((-raw) as i32))
    }
}

/// Turns the raw result of a system call into a typed outcome: a count for a
/// result that is not negative, and for a negative one the error code that is
/// its magnitude.
///
/// The least 32-bit value has no magnitude in 32 bits, so it is not a raw
/// result that this function takes.
pub fn check_error(res: i32) -> (out: Result<usize, Errno>)
    requires
        res > i32::MIN,
    ensures
        out == interpret(res as int),
        match out {
            Ok(count) => res >= 0 && count == res,
            Err(errno) => res < 0 && errno.0 == -res && errno.wf(),
        },
{
    if res >= 0 {
        Ok(res as usize)
    } else {
        Err(Errno(-res))
    }
}

} // verus!
