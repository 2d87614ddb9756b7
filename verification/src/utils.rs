//! Return-code conversion and signal classification.

use vstd::prelude::*;

verus! {

// The numbers of the signals that the supervisor deals with, as Linux
// gives them on x86, ARM and RISC-V. They are fixed here, so that what is
// recorded of a service does not depend on the machine.
pub const SIGHUP: i32 = 1;
pub const SIGINT: i32 = 2;
pub const SIGILL: i32 = 4;
pub const SIGABRT: i32 = 6;
pub const SIGBUS: i32 = 7;
pub const SIGFPE: i32 = 8;
pub const SIGKILL: i32 = 9;
pub const SIGSEGV: i32 = 11;
pub const SIGTERM: i32 = 15;
pub const SIGCHLD: i32 = 17;

/// The error number of an input or output error.
pub const EIO: i32 = 5;

/// What a non-blocking read on a descriptor came back with.
#[derive(Debug, PartialEq, Eq)]
pub enum ReadOutcome {
    /// The bytes that the read stored, in order; none at end of stream.
    Data(Vec<u8>),
    /// Nothing is there to read yet.
    WouldBlock,
    /// The read failed with this error number.
    Failed(i32),
}

/// The value a C function returns, of which `-1` reports a failure.
pub trait RetCode: Copy {
    /// Whether the value is the failure marker `-1`.
    spec fn failed(self) -> bool;

    fn is_error(self) -> (failed: bool)
        ensures
            failed == self.failed(),
    ;
}

impl RetCode for i32 {
    open spec fn failed(self) -> bool {
        self == -1
    }

    #[inline(always)]
    fn is_error(self) -> (failed: bool) {
        self == -1
    }
}

impl RetCode for isize {
    open spec fn failed(self) -> bool {
        self == -1
    }

    #[inline(always)]
    fn is_error(self) -> (failed: bool) {
        self == -1
    }
}

/// Turns a C return code into a `Result`. `errno` is the error number that
/// the caller read right after the call; it is handed back as the error
/// when, and only when, `ret` is the failure marker.
pub fn cvt<T: RetCode>(ret: T, errno: i32) -> (res: Result<T, i32>)
    ensures
        ret.failed() ==> res == Err::<T, i32>(errno),
        !ret.failed() ==> res == Ok::<T, i32>(ret),
{
    if ret.is_error() {
        Err(errno)
    } else {
        Ok(ret)
    }
}

/// A signal that reports a fault of the process itself: one of SEGV, ABRT,
/// FPE, ILL and BUS.
pub open spec fn crash_signal(sig: i32) -> bool {
    sig == SIGSEGV || sig == SIGABRT || sig == SIGFPE || sig == SIGILL || sig == SIGBUS
}

#[inline(always)]
pub fn is_crash_signal(sig: i32) -> (crash: bool)
    ensures
        crash == crash_signal(sig),
{
    sig == SIGSEGV || sig == SIGABRT || sig == SIGFPE || sig == SIGILL || sig == SIGBUS
}

} // verus!
