//! The outcome of a system call.
use crate::flags::FileState;
use vstd::prelude::*;

verus! {

/// The errors that a system call fails with.
#[derive(Clone, Copy, PartialEq, Eq, Structural, Debug)]
pub enum Errno {
    /// The call would block.
    EAGAIN,
    /// Memory of the managed process could not be accessed.
    EFAULT,
    /// An argument is not valid.
    EINVAL,
    /// The file cannot seek.
    ESPIPE,
    /// The system call is not implemented.
    ENOSYS,
    /// The message is too long.
    EMSGSIZE,
    /// The operation is not supported.
    EOPNOTSUPP,
    /// Any other error, by its number.
    Other(i32),
}

impl Errno {
    /// The number that Linux gives to the error.
    pub fn code(self) -> (r: i32)
        ensures
            r == (match self {
                Errno::EAGAIN => 11i32,
                Errno::EFAULT => 14i32,
                Errno::EINVAL => 22i32,
                Errno::ESPIPE => 29i32,
                Errno::ENOSYS => 38i32,
                Errno::EMSGSIZE => 90i32,
                Errno::EOPNOTSUPP => 95i32,
                Errno::Other(code) => code,
            }),
    {
        match self {
            Errno::EAGAIN => 11,
            Errno::EFAULT => 14,
            Errno::EINVAL => 22,
            Errno::ESPIPE => 29,
            Errno::ENOSYS => 38,
            Errno::EMSGSIZE => 90,
            Errno::EOPNOTSUPP => 95,
            Errno::Other(code) => code,
        }
    }
}

/// What the file objects answer to C code.
#[derive(Clone, Copy, PartialEq, Eq, Structural, Debug)]
pub enum SyscallReturn {
    /// The call succeeded with this value.
    Success(i32),
    /// The call failed.
    Error(Errno),
}

/// Why a system call has no result.
#[derive(Clone, Copy, PartialEq, Eq, Structural, Debug)]
pub enum SyscallError {
    /// The call failed.
    Failed(Errno),
    /// The call has to wait until the file that it was made on has one of the flags in `state`.
    Blocked {
        state: FileState,
        /// Whether the call may be restarted after a signal handler has run.
        restartable: bool,
    },
}

} // verus!
