//! What a read of the tick timer holds.

use vstd::prelude::*;

use crate::control::le_u64;
use crate::utils::ReadOutcome;
use crate::utils::EIO;

verus! {

/// Whether `value` is the number that the eight bytes hold in one of the
/// two byte orders: the first byte the least significant, or the last.
pub open spec fn native_value(bytes: Seq<u8>, value: u64) -> bool {
    value == le_u64(bytes) || value == le_u64(bytes.reverse())
}

/// `u64::from_ne_bytes`: the number that eight bytes hold in the byte
/// order of the machine. Which of the two orders that is, is not said.
#[verifier::external_body]
fn ne_u64(bytes: &Vec<u8>) -> (value: u64)
    requires
        bytes.len() == 8,
    ensures
        native_value(bytes@, value),
{
    u64::from_ne_bytes(
        [bytes[0], bytes[1], bytes[2], bytes[3], bytes[4], bytes[5], bytes[6], bytes[7]],
    )
}

/// Interprets a read of the timer and returns the number of expirations
/// since the read before it, which the timer writes as eight bytes in the
/// byte order of the machine. A read that would block has seen none, and a
/// read of any other length is an input error.
pub fn read_timerfd(read: &ReadOutcome) -> (res: Result<u64, i32>)
    ensures
        match *read {
            ReadOutcome::Data(bytes) => if bytes@.len() == 8 {
                res matches Ok(count) && native_value(bytes@, count)
            } else {
                res == Err::<u64, i32>(EIO)
            },
            ReadOutcome::WouldBlock => res == Ok::<u64, i32>(0),
            ReadOutcome::Failed(errno) => res == Err::<u64, i32>(errno),
        },
{
    match read {
        ReadOutcome::Data(bytes) => {
            if bytes.len() != 8 {
                return Err(EIO);
            }
            Ok(ne_u64(bytes))
        },
        ReadOutcome::WouldBlock => Ok(0),
        ReadOutcome::Failed(errno) => Err(*errno),
    }
}

} // verus!
