//! What a read of the signal descriptor holds.

use vstd::prelude::*;

use crate::utils::ReadOutcome;
use crate::utils::EIO;

verus! {

/// The size of one signal record as the kernel writes it, in bytes.
pub const SIGINFO_SIZE: usize = 128;

/// One signal that was delivered, as read from the signal descriptor.
#[derive(Debug, Clone, Copy, PartialEq, Eq, Structural)]
pub struct SignalfdSiginfo {
    pub signo: u32,
    pub code: i32,
    pub pid: u32,
    pub uid: u32,
}

impl SignalfdSiginfo {
    #[inline(always)]
    pub fn new(signo: u32, code: i32, pid: u32, uid: u32) -> (info: Self)
        ensures
            info == (SignalfdSiginfo { signo, code, pid, uid }),
    {
        Self { signo, code, pid, uid }
    }

    /// A record with every field zero.
    #[inline(always)]
    pub fn empty() -> (info: Self)
        ensures
            info == (SignalfdSiginfo { signo: 0, code: 0, pid: 0, uid: 0 }),
    {
        Self { signo: 0, code: 0, pid: 0, uid: 0 }
    }

    /// The signal number
    #[inline(always)]
    pub fn signal(&self) -> (signo: u32)
        ensures
            signo == self.signo,
    {
        self.signo
    }

    /// The signal code
    #[inline(always)]
    pub fn code(&self) -> (code: i32)
        ensures
            code == self.code,
    {
        self.code
    }

    /// The sender PID
    #[inline(always)]
    pub fn pid(&self) -> (pid: u32)
        ensures
            pid == self.pid,
    {
        self.pid
    }

    /// The actual sender UID
    #[inline(always)]
    pub fn uid(&self) -> (uid: u32)
        ensures
            uid == self.uid,
    {
        self.uid
    }
}

/// The number of signal records that a read of the signal descriptor
/// holds: its length in records when that is a whole number, none when the
/// read would block, and an input error otherwise.
pub open spec fn signal_batch(read: ReadOutcome) -> Result<usize, i32> {
    match read {
        ReadOutcome::Data(bytes) => if bytes@.len() % 128 == 0 {
            Ok((bytes@.len() / 128) as usize)
        } else {
            Err(EIO)
        },
        ReadOutcome::WouldBlock => Ok(0),
        ReadOutcome::Failed(errno) => Err(errno),
    }
}

/// Interprets a read of the signal descriptor and returns the number of
/// records read. Return `Ok(0)` if the read would block.
///
/// This may not drain the descriptor: what is left makes it readable
/// again.
pub fn read_signalfd_batch(read: &ReadOutcome) -> (res: Result<usize, i32>)
    ensures
        res == signal_batch(*read),
{
    match read {
        ReadOutcome::Data(bytes) => {
            let n = bytes.len();
            if n % SIGINFO_SIZE == 0 {
                Ok(n / SIGINFO_SIZE)
            } else {
                Err(EIO)
            }
        },
        ReadOutcome::WouldBlock => Ok(0),
        ReadOutcome::Failed(errno) => Err(*errno),
    }
}

} // verus!
