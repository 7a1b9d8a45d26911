//! The fixed numbers of the system-call convention: which call is which, and
//! which descriptor is which. They are set when the program is built and never
//! change while it runs.

use vstd::prelude::*;

verus! {

/// The number of the call that reads from a descriptor.
pub const SYS_READ: i32 = 0;

/// The number of the call that writes to a descriptor.
pub const SYS_WRITE: i32 = 1;

/// The number of the call that ends the process.
pub const SYS_EXIT: i32 = 60;

/// The descriptor of standard input.
pub const STDIN: i32 = 0;

/// The descriptor of standard output.
pub const STDOUT: i32 = 1;

} // verus!
