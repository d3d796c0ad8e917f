use vstd::prelude::*;

use crate::mem::{BufferHandle, BufferPool};

verus! {

/// The result code of a completed I/O operation: non-negative on success,
/// a negated error number on failure.
pub type IoResult = i32;

/// The flags of a completed I/O operation.
pub type IoFlag = u32;

/// An index into the table of registered ("direct") file descriptors.
#[derive(Debug, Clone, Copy, PartialEq, Eq, Structural)]
pub struct Fixed(pub u32);

/// A plain file descriptor.
#[derive(Debug, Clone, Copy, PartialEq, Eq, Structural)]
pub struct Fd(pub i32);

/// The bit of a completion's flags that says more completions will follow
/// for the same request.
pub open spec fn more_flag_set(flags: u32) -> bool {
    flags & 2u32 != 0
}

/// `io_uring::cqueue::more`: whether the completion flags announce further
/// completions of the same request (the `IORING_CQE_F_MORE` bit, value 2).
#[verifier::external_body]
pub fn more_io(flags: u32) -> (more: bool)
    ensures
        more == more_flag_set(flags),
{
    io_uring::cqueue::more(flags)
}

/// What happened to a state machine.
#[derive(Debug, Clone, Copy, PartialEq, Eq, Structural)]
pub enum MachineEvent {
    Spawn,
    IoCompleted(IoResult, IoFlag),
}

/// What a state machine asks the executor to do.
#[derive(Debug, Clone, Copy, PartialEq, Eq, Structural)]
pub enum MachineIntent {
    /// Run the machine again, with a fresh `Spawn`, on the next tick.
    Retry,
    /// Remove the machine from its pool.
    Terminate,
    /// Close the registered descriptor.
    CloseFixed(Fixed),
    /// Start a connection handler on the registered descriptor.
    SpawnConnHandler(Fixed),
    /// Accept connections on the listening socket, many per request.
    SubmitMultishotAccept(Fd),
    /// Receive from the registered descriptor into the buffer, starting at
    /// the given offset.
    SubmitRecv(Fixed, BufferHandle, u16),
}

/// The number of bytes of every connection buffer.
pub const IO_BUF_SIZE: usize = 0x1000;

/// The alignment of the connection buffers.
pub const IO_BUF_ALIGN: usize = 0x1000;

/// What a state machine sees of the executor while it handles one event:
/// room for intents, of which the first `len` are filled, and the pool of
/// I/O buffers.
pub struct ExecutorContext {
    pub intents: Vec<Option<MachineIntent>>,
    pub len: usize,
    pub buffers: BufferPool<IO_BUF_SIZE, IO_BUF_ALIGN>,
}

/// The intents in the first `len` places of `intents`.
pub open spec fn submitted_intents(intents: Seq<Option<MachineIntent>>, len: nat) -> Seq<MachineIntent> {
    Seq::new(len, |i: int| intents[i]->Some_0)
}

impl ExecutorContext {
    /// The intents submitted so far, oldest first.
    pub open spec fn submitted(&self) -> Seq<MachineIntent> {
        submitted_intents(self.intents@, self.len as nat)
    }

    /// The context's consistency: the filled places lie within the room.
    pub open spec fn wf(&self) -> bool {
        &&& self.len <= self.intents@.len()
        &&& forall|i: int| 0 <= i < self.len ==> (#[trigger] self.intents@[i]) is Some
    }

    /// Records `intent` after the ones already submitted.
    pub fn submit_intent(&mut self, intent: MachineIntent)
        requires
            old(self).wf(),
            old(self).len < old(self).intents@.len(),
        ensures
            final(self).wf(),
            final(self).submitted() == old(self).submitted().push(intent),
            final(self).len == old(self).len + 1,
            final(self).intents@.len() == old(self).intents@.len(),
            final(self).buffers == old(self).buffers,
    {
        let ghost before = self.submitted();
        assert(self.intents.len() == self.intents@.len());
        self.intents.set(self.len, Some(intent));
        self.len = self.len + 1;
        assert(self.submitted() =~= before.push(intent));
    }
}

/// The number of bytes of a `MsgHeader` on the wire.
pub const MSG_HEADER_SIZE: usize = 5;

/// The fixed header that starts every message: a magic number and a command.
#[derive(Debug, Clone, Copy, PartialEq, Eq, Structural)]
pub struct MsgHeader {
    pub magic: u32,
    pub cmd: u8,
}

/// The long header of a message that carries a blob.
#[derive(Debug, Clone, Copy, PartialEq, Eq, Structural)]
pub struct MsgHeaderLong {
    pub header: MsgHeader,
    pub key: u128,
    pub crc: u32,
    pub len: u32,
}

/// Four bytes read least significant first.
pub open spec fn u32_le(b: Seq<u8>) -> int {
    b[0] + 256 * b[1] + 65536 * b[2] + 16777216 * b[3]
}

/// Four bytes read most significant first.
pub open spec fn u32_be(b: Seq<u8>) -> int {
    b[3] + 256 * b[2] + 65536 * b[1] + 16777216 * b[0]
}

/// `u32::from_ne_bytes`: four bytes read in the machine's byte order. Since
/// the order is the machine's, this only is stated: the result is the
/// little-endian or the big-endian reading of the bytes.
#[verifier::external_body]
fn u32_from_ne_bytes(b: [u8; 4]) -> (r: u32)
    ensures
        r == u32_le(b@) || r == u32_be(b@),
{
    u32::from_ne_bytes(b)
}

/// Whether `h` is what the wire bytes `b` hold: the magic number in the
/// first four bytes, in the machine's byte order, then the command.
pub open spec fn header_of_bytes(b: Seq<u8>, h: MsgHeader) -> bool {
    &&& b.len() == MSG_HEADER_SIZE
    &&& (h.magic == u32_le(b) || h.magic == u32_be(b))
    &&& h.cmd == b[4]
}

impl MsgHeader {
    /// Reads a header from exactly `MSG_HEADER_SIZE` bytes; `None` for any
    /// other length.
    pub fn read_from_bytes(bytes: &[u8]) -> (r: Option<MsgHeader>)
        ensures
            bytes@.len() == MSG_HEADER_SIZE ==> r is Some && header_of_bytes(bytes@, r.unwrap()),
            bytes@.len() != MSG_HEADER_SIZE ==> r is None,
    {
        if bytes.len() != MSG_HEADER_SIZE {
            return None;
        }
        let word = [bytes[0], bytes[1], bytes[2], bytes[3]];
        let magic = u32_from_ne_bytes(word);
        Some(MsgHeader { magic, cmd: bytes[4] })
    }
}

} // verus!
