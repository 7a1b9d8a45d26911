//! A minimal runtime core for a process that talks to its host kernel through
//! raw system calls only: the result model of a system call, the reduction of a
//! program's outcome to an exit status, and a decimal formatter that needs no
//! formatting machinery.

pub mod abi;
pub mod decimal;
pub mod errno;
pub mod termination;
