//! The control channel's wire format: frames of nine bytes, one opcode byte
//! followed by the service id as eight little-endian bytes.

use vstd::prelude::*;

use vstd::string::*;

use crate::text::decimal;
use crate::text::hex_byte;
use crate::text::push_decimal;
use crate::text::push_hex_byte;
use crate::utils::ReadOutcome;

verus! {

pub const OP_STOP: u8 = 0x41;
pub const OP_START: u8 = 0x42;
pub const OP_RESTART: u8 = 0x43;

/// The size of one frame on the wire, in bytes.
pub const WIRE_COMMAND_SIZE: usize = 9;

/// The path of the control fifo of a run directory: the file `control` in
/// it.
pub fn control_path(run_dir: &str) -> (path: String)
    ensures
        path@ == run_dir@ + "/control"@,
{
    let mut path = String::from_str(run_dir);
    path.append("/control");
    path
}

#[derive(Debug, Clone, Copy, PartialEq, Eq, Structural)]
pub enum ControlProtocolError {
    /// The opcode byte of a frame names no operation.
    InvalidOp(u8),
    /// A read returned this many bytes, which is no whole number of frames.
    PartialFrame(usize),
}

impl ControlProtocolError {
    /// What `message` says of the error.
    pub open spec fn text(self) -> Seq<char> {
        match self {
            ControlProtocolError::InvalidOp(op) => "invalid opcode: 0x"@ + hex_byte(op),
            ControlProtocolError::PartialFrame(n) => "partial control frame ("@ + decimal(n as nat)
                + " bytes)"@,
        }
    }

    /// The error in words, for a log.
    pub fn message(&self) -> (text: String)
        ensures
            text@ == self.text(),
    {
        let mut text = String::new();
        match self {
            ControlProtocolError::InvalidOp(op) => {
                text.append("invalid opcode: 0x");
                push_hex_byte(&mut text, *op);
            },
            ControlProtocolError::PartialFrame(n) => {
                text.append("partial control frame (");
                push_decimal(&mut text, *n as u64);
                text.append(" bytes)");
            },
        }
        assert(text@ =~= self.text());
        text
    }
}

/// Control errors fall into two categories:
/// - `Io`: a failure that the kernel reported, by its error number
/// - `InvalidCommand`: a frame that the protocol does not allow
#[derive(Debug, Clone, Copy, PartialEq, Eq, Structural)]
pub enum ControlError {
    Io(i32),
    InvalidCommand(ControlProtocolError),
}

impl From<i32> for ControlError {
    #[inline(always)]
    fn from(value: i32) -> (error: Self) {
        Self::Io(value)
    }
}

impl vstd::std_specs::convert::FromSpecImpl<i32> for ControlError {
    open spec fn obeys_from_spec() -> bool {
        true
    }

    open spec fn from_spec(value: i32) -> Self {
        ControlError::Io(value)
    }
}

/// Control operations, in the order of their opcodes.
#[derive(Debug, Clone, Copy, PartialEq, Eq, Structural, PartialOrd, Ord)]
pub enum ControlOp {
    Stop,
    Start,
    Restart,
}

/// The operation that an opcode byte names, if any.
pub open spec fn op_of_byte(b: u8) -> Option<ControlOp> {
    if b == OP_STOP {
        Some(ControlOp::Stop)
    } else if b == OP_START {
        Some(ControlOp::Start)
    } else if b == OP_RESTART {
        Some(ControlOp::Restart)
    } else {
        None
    }
}

impl ControlOp {
    /// The opcode byte that stands for the operation on the wire.
    pub open spec fn byte(self) -> u8 {
        match self {
            ControlOp::Stop => OP_STOP,
            ControlOp::Start => OP_START,
            ControlOp::Restart => OP_RESTART,
        }
    }

    pub fn from_byte(b: u8) -> (op: Option<ControlOp>)
        ensures
            op == op_of_byte(b),
    {
        if b == OP_STOP {
            Some(ControlOp::Stop)
        } else if b == OP_START {
            Some(ControlOp::Start)
        } else if b == OP_RESTART {
            Some(ControlOp::Restart)
        } else {
            None
        }
    }

    pub fn to_byte(self) -> (b: u8)
        ensures
            b == self.byte(),
            op_of_byte(b) == Some(self),
    {
        match self {
            ControlOp::Stop => OP_STOP,
            ControlOp::Start => OP_START,
            ControlOp::Restart => OP_RESTART,
        }
    }
}

/// The number that eight bytes hold when the first is the least significant.
pub open spec fn le_u64(s: Seq<u8>) -> int
    recommends
        s.len() == 8,
{
    s[0] + s[1] * 0x100 + s[2] * 0x1_0000 + s[3] * 0x100_0000 + s[4] * 0x1_0000_0000 + s[5]
        * 0x100_0000_0000 + s[6] * 0x1_0000_0000_0000 + s[7] * 0x100_0000_0000_0000
}

/// The eight bytes of a number, the least significant first.
pub open spec fn le_bytes(x: u64) -> Seq<u8> {
    seq![
        (x % 0x100) as u8,
        (x / 0x100 % 0x100) as u8,
        (x / 0x1_0000 % 0x100) as u8,
        (x / 0x100_0000 % 0x100) as u8,
        (x / 0x1_0000_0000 % 0x100) as u8,
        (x / 0x100_0000_0000 % 0x100) as u8,
        (x / 0x1_0000_0000_0000 % 0x100) as u8,
        (x / 0x100_0000_0000_0000 % 0x100) as u8,
    ]
}

/// A frame as it came off the wire: nothing about it has been checked yet.
#[derive(Debug, Clone, Copy, PartialEq, Eq, Structural)]
pub struct WireControlCommand {
    pub op: u8,
    pub id: u64,
}

/// The frame that starts at byte `9 * k` of `bytes`.
pub open spec fn wire_at(bytes: Seq<u8>, k: int) -> WireControlCommand {
    WireControlCommand {
        op: bytes[9 * k],
        id: le_u64(bytes.subrange(9 * k + 1, 9 * k + 9)) as u64,
    }
}

/// The frames that a whole number of frames' worth of bytes holds, in order.
pub open spec fn wire_frames(bytes: Seq<u8>) -> Seq<WireControlCommand> {
    Seq::new((bytes.len() / 9) as nat, |k: int| wire_at(bytes, k))
}

impl WireControlCommand {
    #[inline(always)]
    pub fn empty() -> (cmd: Self)
        ensures
            cmd == (WireControlCommand { op: 0, id: 0 }),
    {
        Self { op: 0, id: 0 }
    }

    /// The nine bytes that stand for the frame on the wire.
    pub open spec fn bytes(self) -> Seq<u8> {
        seq![self.op] + le_bytes(self.id)
    }

    /// Reads the frame that starts at byte `9 * k` of `buf`.
    fn read_at(buf: &Vec<u8>, k: usize) -> (cmd: Self)
        requires
            9 * (k + 1) <= buf.len(),
        ensures
            cmd == wire_at(buf@, k as int),
    {
        let at: usize = 9 * k;
        let ghost s = buf@.subrange(at + 1, at + 9);
        assert(forall|i: int| 0 <= i < 8 ==> s[i] == buf@[at + 1 + i]);
        let id: u64 = buf[at + 1] as u64 + (buf[at + 2] as u64) * 0x100 + (buf[at + 3] as u64)
            * 0x1_0000 + (buf[at + 4] as u64) * 0x100_0000 + (buf[at + 5] as u64) * 0x1_0000_0000
            + (buf[at + 6] as u64) * 0x100_0000_0000 + (buf[at + 7] as u64) * 0x1_0000_0000_0000
            + (buf[at + 8] as u64) * 0x100_0000_0000_0000;
        Self { op: buf[at], id }
    }

    /// Writes the frame out as a writer on the control channel sends it.
    pub fn to_bytes(&self) -> (out: Vec<u8>)
        ensures
            out@ == self.bytes(),
            out.len() == WIRE_COMMAND_SIZE,
    {
        let x: u64 = self.id;
        let mut out: Vec<u8> = Vec::with_capacity(9);
        out.push(self.op);
        out.push((x % 0x100) as u8);
        out.push((x / 0x100 % 0x100) as u8);
        out.push((x / 0x1_0000 % 0x100) as u8);
        out.push((x / 0x100_0000 % 0x100) as u8);
        out.push((x / 0x1_0000_0000 % 0x100) as u8);
        out.push((x / 0x100_0000_0000 % 0x100) as u8);
        out.push((x / 0x1_0000_0000_0000 % 0x100) as u8);
        out.push((x / 0x100_0000_0000_0000 % 0x100) as u8);
        assert(out@ =~= self.bytes());
        out
    }
}

/// A frame whose opcode has been checked.
#[derive(Debug, Clone, Copy, PartialEq, Eq, Structural)]
pub struct ControlCommand {
    pub op: ControlOp,
    pub id: u64,
}

/// What checking a frame gives: the command, or the opcode that names none.
pub open spec fn checked(wire: WireControlCommand) -> Result<ControlCommand, ControlProtocolError> {
    match op_of_byte(wire.op) {
        Some(op) => Ok(ControlCommand { op, id: wire.id }),
        None => Err(ControlProtocolError::InvalidOp(wire.op)),
    }
}

impl ControlCommand {
    #[inline(always)]
    pub fn new(op: ControlOp, id: u64) -> (cmd: Self)
        ensures
            cmd == (ControlCommand { op, id }),
    {
        Self { op, id }
    }

    /// Checks the opcode of a frame.
    pub fn try_from(value: &WireControlCommand) -> (res: Result<Self, ControlProtocolError>)
        ensures
            res == checked(*value),
    {
        match ControlOp::from_byte(value.op) {
            Some(op) => Ok(ControlCommand::new(op, value.id)),
            None => Err(ControlProtocolError::InvalidOp(value.op)),
        }
    }

    /// The frame that carries the command.
    pub fn to_wire(&self) -> (wire: WireControlCommand)
        ensures
            wire == (WireControlCommand { op: self.op.byte(), id: self.id }),
            checked(wire) == Ok::<ControlCommand, ControlProtocolError>(*self),
    {
        WireControlCommand { op: self.op.to_byte(), id: self.id }
    }
}

/// What one read that is expected to hold a single frame amounts to: the
/// frame when exactly nine bytes came, nothing when the read was empty or
/// would block, and an error otherwise.
pub open spec fn single_frame(read: ReadOutcome) -> Result<
    Option<WireControlCommand>,
    ControlError,
> {
    match read {
        ReadOutcome::Data(bytes) => if bytes@.len() == 9 {
            Ok(Some(wire_at(bytes@, 0)))
        } else if bytes@.len() == 0 {
            Ok(None)
        } else {
            Err(
                ControlError::InvalidCommand(
                    ControlProtocolError::PartialFrame(bytes@.len() as usize),
                ),
            )
        },
        ReadOutcome::WouldBlock => Ok(None),
        ReadOutcome::Failed(errno) => Err(ControlError::Io(errno)),
    }
}

/// Interprets a read of the control channel that asked for one frame.
///
/// Only a read of exactly one frame's size gives a frame. Checking the
/// opcode is left to `ControlCommand::try_from`.
pub fn read_control_command(read: &ReadOutcome) -> (res: Result<
    Option<WireControlCommand>,
    ControlError,
>)
    ensures
        res == single_frame(*read),
{
    match read {
        ReadOutcome::Data(bytes) => {
            let n = bytes.len();
            if n == WIRE_COMMAND_SIZE {
                Ok(Some(WireControlCommand::read_at(bytes, 0)))
            } else if n == 0 {
                Ok(None)
            } else {
                Err(ControlError::InvalidCommand(ControlProtocolError::PartialFrame(n)))
            }
        },
        ReadOutcome::WouldBlock => Ok(None),
        ReadOutcome::Failed(errno) => Err(ControlError::Io(*errno)),
    }
}

/// What one read of the control channel amounts to: the frames it holds
/// when its length is a multiple of nine, none when it would block, and an
/// error otherwise.
pub open spec fn frame_batch(read: ReadOutcome) -> Result<Seq<WireControlCommand>, ControlError> {
    match read {
        ReadOutcome::Data(bytes) => if bytes@.len() % 9 == 0 {
            Ok(wire_frames(bytes@))
        } else {
            Err(
                ControlError::InvalidCommand(
                    ControlProtocolError::PartialFrame(bytes@.len() as usize),
                ),
            )
        },
        ReadOutcome::WouldBlock => Ok(Seq::empty()),
        ReadOutcome::Failed(errno) => Err(ControlError::Io(errno)),
    }
}

/// Interprets a read of the control channel and returns the frames read.
///
/// Only reads that are exact multiples of the frame size are accepted, so a
/// writer's frame is never split. Checking the opcodes is left to
/// `ControlCommand::try_from`.
pub fn read_control_commands_batch(read: &ReadOutcome) -> (res: Result<
    Vec<WireControlCommand>,
    ControlError,
>)
    ensures
        match frame_batch(*read) {
            Ok(frames) => res is Ok && res->Ok_0@ == frames,
            Err(e) => res == Err::<Vec<WireControlCommand>, ControlError>(e),
        },
{
    match read {
        ReadOutcome::Data(bytes) => {
            let n = bytes.len();
            if n % WIRE_COMMAND_SIZE != 0 {
                return Err(ControlError::InvalidCommand(ControlProtocolError::PartialFrame(n)));
            }
            let count: usize = n / WIRE_COMMAND_SIZE;
            let mut frames: Vec<WireControlCommand> = Vec::new();
            let mut k: usize = 0;
            while k < count
                invariant
                    k <= count,
                    count == bytes@.len() / 9,
                    bytes@.len() % 9 == 0,
                    frames@.len() == k,
                    forall|i: int| 0 <= i < k ==> frames@[i] == wire_at(bytes@, i),
                decreases count - k,
            {
                frames.push(WireControlCommand::read_at(bytes, k));
                k = k + 1;
            }
            assert(frames@ =~= wire_frames(bytes@));
            Ok(frames)
        },
        ReadOutcome::WouldBlock => Ok(Vec::new()),
        ReadOutcome::Failed(errno) => Err(ControlError::Io(*errno)),
    }
}

/// The stream that a run of bytes parses to: one protocol error for the
/// whole run when its length is no multiple of nine, else one entry for
/// each frame, a command or the error of that frame.
pub open spec fn parsed(bytes: Seq<u8>) -> Seq<Result<ControlCommand, ControlProtocolError>> {
    if bytes.len() % 9 == 0 {
        Seq::new((bytes.len() / 9) as nat, |k: int| checked(wire_at(bytes, k)))
    } else {
        seq![Err(ControlProtocolError::PartialFrame(bytes.len() as usize))]
    }
}

/// Parses the bytes of one read into commands. A frame with an unknown
/// opcode gives an error in its place and the frames after it are still
/// parsed.
pub fn parse_control_frames(bytes: &Vec<u8>) -> (out: Vec<
    Result<ControlCommand, ControlProtocolError>,
>)
    ensures
        out@ == parsed(bytes@),
{
    let n = bytes.len();
    let mut out: Vec<Result<ControlCommand, ControlProtocolError>> = Vec::new();
    if n % WIRE_COMMAND_SIZE != 0 {
        out.push(Err(ControlProtocolError::PartialFrame(n)));
        assert(out@ =~= parsed(bytes@));
        return out;
    }
    let count: usize = n / WIRE_COMMAND_SIZE;
    let mut k: usize = 0;
    while k < count
        invariant
            k <= count,
            count == bytes@.len() / 9,
            bytes@.len() % 9 == 0,
            out@.len() == k,
            forall|i: int| 0 <= i < k ==> out@[i] == checked(wire_at(bytes@, i)),
        decreases count - k,
    {
        let wire = WireControlCommand::read_at(bytes, k);
        out.push(ControlCommand::try_from(&wire));
        k = k + 1;
    }
    assert(out@ =~= parsed(bytes@));
    out
}

/// Whether every frame of `bytes` carries a known opcode.
pub open spec fn opcodes_valid(bytes: Seq<u8>) -> bool {
    forall|k: int| 0 <= k < bytes.len() / 9 ==> op_of_byte(#[trigger] bytes[9 * k]) is Some
}

/// Bytes whose length is a multiple of nine and whose opcodes are all known
/// parse to commands only. Any other bytes parse to a stream that holds an
/// error, and each error is the partial frame with the length of the run or
/// the invalid opcode with the byte found.
pub proof fn lemma_parse_total(bytes: Seq<u8>)
    ensures
        (bytes.len() % 9 == 0 && opcodes_valid(bytes)) <==> (forall|i: int|
            0 <= i < parsed(bytes).len() ==> (#[trigger] parsed(bytes)[i]) is Ok),
        forall|i: int|
            0 <= i < parsed(bytes).len() && (#[trigger] parsed(bytes)[i]) is Err ==> {
                ||| parsed(bytes)[i] == Err::<ControlCommand, ControlProtocolError>(
                    ControlProtocolError::PartialFrame(bytes.len() as usize),
                ) && bytes.len() % 9 != 0
                ||| parsed(bytes)[i] == Err::<ControlCommand, ControlProtocolError>(
                    ControlProtocolError::InvalidOp(bytes[9 * i]),
                ) && op_of_byte(bytes[9 * i]) is None
            },
{
    let p = parsed(bytes);
    if bytes.len() % 9 == 0 {
        if opcodes_valid(bytes) {
            assert forall|i: int| 0 <= i < p.len() implies (#[trigger] p[i]) is Ok by {
                assert(op_of_byte(bytes[9 * i]) is Some);
            }
        }
        if forall|i: int| 0 <= i < p.len() ==> (#[trigger] p[i]) is Ok {
            assert forall|k: int| 0 <= k < bytes.len() / 9 implies op_of_byte(
                #[trigger] bytes[9 * k],
            ) is Some by {
                assert(p[k] is Ok);
            }
        }
    } else {
        assert(p[0] is Err);
    }
}

/// The bytes of a number hold that number.
pub proof fn lemma_le_round_trip(x: u64)
    ensures
        le_bytes(x).len() == 8,
        le_u64(le_bytes(x)) == x,
{
    let q1 = x / 0x100;
    let q2 = q1 / 0x100;
    let q3 = q2 / 0x100;
    let q4 = q3 / 0x100;
    let q5 = q4 / 0x100;
    let q6 = q5 / 0x100;
    let q7 = q6 / 0x100;
    assert(q2 == x / 0x1_0000);
    assert(q3 == x / 0x100_0000);
    assert(q4 == x / 0x1_0000_0000);
    assert(q5 == x / 0x100_0000_0000);
    assert(q6 == x / 0x1_0000_0000_0000);
    assert(q7 == x / 0x100_0000_0000_0000);
    assert(q7 < 0x100);
    let b = le_bytes(x);
    assert(b[0] == x % 0x100);
    assert(b[1] == q1 % 0x100);
    assert(b[2] == q2 % 0x100);
    assert(b[3] == q3 % 0x100);
    assert(b[4] == q4 % 0x100);
    assert(b[5] == q5 % 0x100);
    assert(b[6] == q6 % 0x100);
    assert(b[7] == q7);
}

/// A frame written out and read back is the same frame.
pub proof fn lemma_wire_round_trip(wire: WireControlCommand)
    ensures
        wire.bytes().len() == 9,
        wire_at(wire.bytes(), 0) == wire,
        wire_frames(wire.bytes()) == seq![wire],
{
    let b = wire.bytes();
    assert(b.subrange(1, 9) =~= le_bytes(wire.id));
    lemma_le_round_trip(wire.id);
    assert(wire_frames(b) =~= seq![wire]);
}

} // verus!
