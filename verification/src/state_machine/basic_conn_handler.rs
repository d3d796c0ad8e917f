use vstd::prelude::*;

use crate::blob_error::HoarderError;
use crate::mem::{BufferHandle, BufferPool};
use crate::protocol::{ExecutorContext, Fixed, MachineEvent, MachineIntent, IO_BUF_ALIGN, IO_BUF_SIZE};

verus! {

/// A connection handler that only receives: it takes a buffer and keeps a
/// receive into it outstanding, counting the bytes that arrive.
pub struct ConnHandler {
    pub state: ConnHandlerState,
    socket: Fixed,
    buf_handle: Option<BufferHandle>,
    offset: u32,
}

/// Where the connection stands.
#[derive(Debug, Clone, Copy, PartialEq, Eq, Structural)]
pub enum ConnHandlerState {
    Init,
    Recv(RecvPhase),
    Error(HoarderError),
}

/// How far the current message has been received.
#[derive(Debug, Clone, Copy, PartialEq, Eq, Structural)]
pub enum RecvPhase {
    ReceivingHeader,
    ReceivingBody,
    Processing,
}

/// The total of the non-negative byte counts among the first `k` of
/// `results`.
pub open spec fn counted_total(results: Seq<i32>, k: int) -> int
    decreases k,
{
    if k <= 0 {
        0
    } else {
        counted_total(results, k - 1) + if results[k - 1] >= 0 { results[k - 1] as int } else { 0 }
    }
}

/// Step `i` of a run of receives: the receive of result `results[i]`,
/// keeping the offset in range, takes `states[i]` to `states[i + 1]` on the
/// same socket.
pub open spec fn counted_step(
    states: Seq<ConnHandler>,
    results: Seq<i32>,
    befores: Seq<Seq<MachineIntent>>,
    afters: Seq<Seq<MachineIntent>>,
    i: int,
) -> bool {
    &&& results[i] >= 0 ==> states[i].offset_spec() + results[i] <= u32::MAX
    &&& states[i + 1].socket_spec() == states[i].socket_spec()
    &&& states[i].recv_step(results[i], states[i + 1].state_spec(), states[i + 1].buffer_spec(),
        states[i + 1].offset_spec(), befores[i], afters[i])
}

impl ConnHandler {
    /// The state the connection is in.
    pub closed spec fn state_spec(&self) -> ConnHandlerState {
        self.state
    }

    /// The registered descriptor of the connection.
    pub closed spec fn socket_spec(&self) -> Fixed {
        self.socket
    }

    /// The buffer the handler receives into, once it has one.
    pub closed spec fn buffer_spec(&self) -> Option<BufferHandle> {
        self.buf_handle
    }

    /// How many bytes have arrived.
    pub closed spec fn offset_spec(&self) -> u32 {
        self.offset
    }

    /// The handler's consistency: while receiving, it holds a buffer.
    pub open spec fn wf(&self) -> bool {
        self.state_spec() is Recv ==> self.buffer_spec() is Some
    }

    /// A handler for the connection on registered descriptor
    /// `socket_direct_descriptor`, not yet started.
    pub fn new(socket_direct_descriptor: u32) -> (h: Self)
        ensures
            h.wf(),
            h.state_spec() == ConnHandlerState::Init,
            h.socket_spec() == Fixed(socket_direct_descriptor),
            h.buffer_spec() is None,
            h.offset_spec() == 0,
    {
        ConnHandler { state: ConnHandlerState::Init, socket: Fixed(socket_direct_descriptor), buf_handle: None, offset: 0 }
    }

    /// Handles `event`: a spawn at the start goes to `on_init`, a completed
    /// receive to `on_recv`; the state becomes what they return.
    pub fn process_event(&mut self, ctx: &mut ExecutorContext, event: MachineEvent)
        requires
            old(self).wf(),
            old(ctx).wf(),
            event is Spawn && old(ctx).buffers.next_handle() is Some ==> old(ctx).len < old(ctx).intents@.len(),
            event is IoCompleted ==> old(ctx).len < old(ctx).intents@.len(),
            old(ctx).buffers.wf(),
            event is Spawn ==> old(self).state_spec() is Init,
            event matches MachineEvent::IoCompleted(res, _) ==> old(self).state_spec() is Recv
                && (res > 0 ==> old(self).offset_spec() + res <= u32::MAX),
        ensures
            final(self).wf(),
            final(self).socket_spec() == old(self).socket_spec(),
            final(ctx).wf(),
            final(ctx).intents@.len() == old(ctx).intents@.len(),
            final(ctx).buffers.wf(),
            event is Spawn ==> old(self).init_step(final(self).state_spec(), final(self).buffer_spec(),
                final(self).offset_spec(), old(ctx).submitted(), final(ctx).submitted(), old(ctx).buffers, final(ctx).buffers),
            event matches MachineEvent::IoCompleted(res, _) ==> old(self).recv_step(res, final(self).state_spec(),
                final(self).buffer_spec(), final(self).offset_spec(), old(ctx).submitted(), final(ctx).submitted())
                && final(ctx).buffers == old(ctx).buffers,
    {
        self.state = match (event, self.state) {
            (MachineEvent::Spawn, _) => self.on_init(ctx),
            (MachineEvent::IoCompleted(res, _), _) => self.on_recv(ctx, res),
        };
    }

    /// What `on_init` does: takes a buffer and submits a receive into it, or
    /// fails with `BufferAllocFail` when none is free.
    pub open spec fn init_step(
        self,
        state: ConnHandlerState,
        buf: Option<BufferHandle>,
        offset: u32,
        before: Seq<MachineIntent>,
        after: Seq<MachineIntent>,
        pool: BufferPool<IO_BUF_SIZE, IO_BUF_ALIGN>,
        pool2: BufferPool<IO_BUF_SIZE, IO_BUF_ALIGN>,
    ) -> bool {
        match pool.next_handle() {
            Some(h) => {
                &&& pool.after_allocate(pool2, Some(h))
                &&& buf == Some(h)
                &&& offset == self.offset_spec()
                &&& state == ConnHandlerState::Recv(RecvPhase::ReceivingHeader)
                &&& after == before.push(MachineIntent::SubmitRecv(self.socket_spec(), h, self.offset_spec() as u16))
            },
            None => {
                &&& pool2 == pool
                &&& buf == self.buffer_spec()
                &&& offset == self.offset_spec()
                &&& state == ConnHandlerState::Error(HoarderError::BufferAllocFail)
                &&& after == before
            },
        }
    }

    /// What `on_recv` does with a receive that completed with `res`: counts
    /// the bytes that arrived (nothing for an error) and submits the next
    /// receive, waiting for a header again.
    pub open spec fn recv_step(
        self,
        res: i32,
        state: ConnHandlerState,
        buf: Option<BufferHandle>,
        offset: u32,
        before: Seq<MachineIntent>,
        after: Seq<MachineIntent>,
    ) -> bool {
        let counted = if res < 0 { self.offset_spec() } else { (self.offset_spec() + res) as u32 };
        &&& buf == self.buffer_spec()
        &&& offset == counted
        &&& state == ConnHandlerState::Recv(RecvPhase::ReceivingHeader)
        &&& after == before.push(MachineIntent::SubmitRecv(self.socket_spec(), self.buffer_spec()->Some_0, counted as u16))
    }

    /// The handler's offset is what it started with plus the byte counts of
    /// all the non-negative receives since (errors count nothing), and each
    /// receive goes out again at that total, into the same buffer.
    pub proof fn lemma_offset_counts_receives(
        states: Seq<ConnHandler>,
        results: Seq<i32>,
        befores: Seq<Seq<MachineIntent>>,
        afters: Seq<Seq<MachineIntent>>,
        k: int,
    )
        requires
            states.len() == results.len() + 1,
            befores.len() == results.len(),
            afters.len() == results.len(),
            forall|i: int| 0 <= i < results.len() ==> #[trigger] counted_step(states, results, befores, afters, i),
            0 <= k <= results.len(),
        ensures
            states[k].socket_spec() == states[0].socket_spec(),
            states[k].buffer_spec() == states[0].buffer_spec(),
            states[k].offset_spec() == states[0].offset_spec() + counted_total(results, k),
            k > 0 ==> afters[k - 1] == befores[k - 1].push(MachineIntent::SubmitRecv(states[0].socket_spec(),
                states[0].buffer_spec()->Some_0, states[k].offset_spec() as u16)),
        decreases k,
    {
        if k > 0 {
            Self::lemma_offset_counts_receives(states, results, befores, afters, k - 1);
            assert(counted_step(states, results, befores, afters, k - 1));
        }
    }

    /// Takes a buffer and submits a receive into it; without a free buffer
    /// the connection fails with `BufferAllocFail`. Returns the next state.
    pub fn on_init(&mut self, ctx: &mut ExecutorContext) -> (s: ConnHandlerState)
        requires
            old(ctx).wf(),
            old(ctx).buffers.next_handle() is Some ==> old(ctx).len < old(ctx).intents@.len(),
            old(ctx).buffers.wf(),
        ensures
            final(self).socket_spec() == old(self).socket_spec(),
            final(self).state_spec() == old(self).state_spec(),
            s is Recv ==> final(self).buffer_spec() is Some,
            final(ctx).wf(),
            final(ctx).intents@.len() == old(ctx).intents@.len(),
            final(ctx).buffers.wf(),
            old(self).init_step(s, final(self).buffer_spec(), final(self).offset_spec(), old(ctx).submitted(),
                final(ctx).submitted(), old(ctx).buffers, final(ctx).buffers),
    {
        match ctx.buffers.allocate() {
            Some(handle) => {
                self.buf_handle = Some(handle);
                self.recv(ctx);
                ConnHandlerState::Recv(RecvPhase::ReceivingHeader)
            },
            None => ConnHandlerState::Error(HoarderError::BufferAllocFail),
        }
    }

    /// Counts the bytes of a completed receive (none for an error) and
    /// submits the next receive. Returns the next state.
    pub fn on_recv(&mut self, ctx: &mut ExecutorContext, res: i32) -> (s: ConnHandlerState)
        requires
            old(self).buffer_spec() is Some,
            res > 0 ==> old(self).offset_spec() + res <= u32::MAX,
            old(ctx).wf(),
            old(ctx).len < old(ctx).intents@.len(),
        ensures
            final(self).socket_spec() == old(self).socket_spec(),
            final(self).state_spec() == old(self).state_spec(),
            final(self).buffer_spec() is Some,
            final(ctx).wf(),
            final(ctx).intents@.len() == old(ctx).intents@.len(),
            final(ctx).buffers == old(ctx).buffers,
            old(self).recv_step(res, s, final(self).buffer_spec(), final(self).offset_spec(), old(ctx).submitted(),
                final(ctx).submitted()),
    {
        if res >= 0 {
            self.offset = self.offset + res as u32;
        }
        self.recv(ctx);
        ConnHandlerState::Recv(RecvPhase::ReceivingHeader)
    }

    fn recv(&mut self, ctx: &mut ExecutorContext)
        requires
            old(self).buffer_spec() is Some,
            old(ctx).wf(),
            old(ctx).len < old(ctx).intents@.len(),
        ensures
            *final(self) == *old(self),
            final(ctx).wf(),
            final(ctx).intents@.len() == old(ctx).intents@.len(),
            final(ctx).len == old(ctx).len + 1,
            final(ctx).buffers == old(ctx).buffers,
            final(ctx).submitted() == old(ctx).submitted().push(MachineIntent::SubmitRecv(
                old(self).socket_spec(), old(self).buffer_spec()->Some_0, old(self).offset_spec() as u16)),
    {
        ctx.submit_intent(MachineIntent::SubmitRecv(self.socket, self.buf_handle.unwrap(), self.offset as u16));
    }
}

} // verus!
