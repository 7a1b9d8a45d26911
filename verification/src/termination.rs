//! How the value that a program's entry function returns becomes the status
//! that the process exits with.

use vstd::prelude::*;
use crate::errno::{interpret, Errno};
use core::convert::Infallible;

verus! {

/// The status that a process hands to its parent when it exits.
#[derive(Clone, Copy, Debug, PartialEq, Eq, Structural)]
pub struct ExitCode(pub i32);

impl ExitCode {
    /// The status of a run that succeeded.
    pub const SUCCESS: i32 = 0;

    /// The status of a run that failed with no error code to report.
    pub const FAILURE: i32 = 1;
}

/// A value that an entry function may return: one that reduces to an exit
/// status. Each implementation states its own rule.
pub trait Termination: Sized {
    /// Reduces the value to its exit status.
    fn report(self) -> (code: ExitCode);
}

/// An entry function that never returns has no value to reduce: the type has
/// no values, so this reduction is never run. Were it run, it would report
/// success, as returning nothing does.
impl Termination for Infallible {
    fn report(self) -> (code: ExitCode)
        ensures
            code == ExitCode(ExitCode::SUCCESS),
    {
        ExitCode(ExitCode::SUCCESS)
    }
}

/// An explicit status is reported as it is.
impl Termination for ExitCode {
    fn report(self) -> (code: ExitCode)
        ensures
            code == self,
    {
        self
    }
}

/// Returning nothing is success.
impl Termination for () {
    fn report(self) -> (code: ExitCode)
        ensures
            code == ExitCode(ExitCode::SUCCESS),
    {
        ExitCode(ExitCode::SUCCESS)
    }
}

/// The exit status that an outcome stands for: success for a success,
/// whatever it holds, and for a failure the code of its error.
pub open spec fn outcome_exit_code<T>(outcome: Result<T, Errno>) -> ExitCode {
    match outcome {
        Ok(_) => ExitCode(ExitCode::SUCCESS),
        Err(errno) => ExitCode(errno.0),
    }
}

impl<T> Termination for Result<T, Errno> {
    fn report(self) -> (code: ExitCode)
        ensures
            code == outcome_exit_code(self),
            self is Ok ==> code.0 == ExitCode::SUCCESS,
            self matches Err(errno) ==> code.0 == errno.0,
    {
        match self {
            Ok(_) => ExitCode(ExitCode::SUCCESS),
            Err(Errno(err)) => ExitCode(err),
        }
    }
}

/// The status that the process exits with once its entry function has
/// returned `outcome`: the number in the code that `outcome` reduces to, which
/// is handed to the exit call. What holds of that code is what the
/// implementation of `report` for `T` states.
pub fn exit_status<T: Termination>(outcome: T) -> (status: i32)
    ensures
        call_ensures(T::report, (outcome,), ExitCode(status)),
{
    outcome.report().0
}

/// A program that returns the outcome of a single system call exits with
/// success where the call succeeded, and otherwise with the magnitude of the
/// call's raw result, which is not zero.
pub proof fn lemma_exit_code_of_raw_result(raw: i32)
    requires
        raw > i32::MIN,
    ensures
        raw >= 0 ==> outcome_exit_code(interpret(raw as int)).0 == ExitCode::SUCCESS,
        raw < 0 ==> outcome_exit_code(interpret(raw as int)).0 == -raw,
        raw < 0 ==> outcome_exit_code(interpret(raw as int)).0 != ExitCode::SUCCESS,
{
}

/// A failure that has no code of its own exits with the fixed failure
/// status, which is not success.
pub proof fn lemma_sentinel_exits_with_failure<T>()
    ensures
        outcome_exit_code(Err::<T, Errno>(Errno(Errno::SENTINEL))).0 == ExitCode::FAILURE,
        ExitCode::FAILURE != ExitCode::SUCCESS,
{
}

} // verus!
