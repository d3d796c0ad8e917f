use vstd::prelude::*;

use crate::error::Errno;
use crate::mem::{BufferHandle, BufferPool};
use crate::protocol::{
    header_of_bytes, ExecutorContext, Fixed, MachineEvent, MachineIntent, MsgHeader, IO_BUF_ALIGN,
    IO_BUF_SIZE, MSG_HEADER_SIZE,
};

verus! {

/// The state machine of one client connection: it takes a buffer, receives
/// into it until a message header is complete, and closes the connection
/// when the peer goes away.
pub struct ConnHandler {
    pub state: ConnHandlerState,
    socket: Fixed,
    buf_handle: Option<BufferHandle>,
    offset: u32,
}

/// Where a connection stands.
#[derive(Debug, Clone, Copy, PartialEq, Eq, Structural)]
pub enum ConnHandlerState {
    Init,
    Recv(RecvPhase),
    Closing,
    Closed,
}

/// How far the current message has been received.
#[derive(Debug, Clone, Copy, PartialEq, Eq, Structural)]
pub enum RecvPhase {
    ReceivingHeader,
    ReceivingBody { header: MsgHeader },
    Processing,
}

/// Receive errors after which the receive is simply submitted again.
pub open spec fn is_transient_error(errno: int) -> bool {
    errno == Errno::EINTR || errno == Errno::EAGAIN || errno == Errno::ENOBUFS || errno == Errno::ENOMEM
        || errno == Errno::ETIMEDOUT
}

/// Receive errors that reveal a bug in how the receive was set up; the
/// handler does not go on after them.
pub open spec fn is_setup_error(errno: int) -> bool {
    errno == Errno::EBADF || errno == Errno::EFAULT || errno == Errno::EINVAL || errno == Errno::ENOTSOCK
        || errno == Errno::EAFNOSUPPORT || errno == Errno::EOPNOTSUPP
}

/// Receive errors after which the connection is closed.
pub open spec fn is_disconnect_error(errno: int) -> bool {
    errno == Errno::EIO || errno == Errno::ECONNRESET || errno == Errno::ENOTCONN || errno == Errno::ESHUTDOWN
        || errno == Errno::ECONNABORTED || errno == Errno::ENETDOWN || errno == Errno::ENETUNREACH
        || errno == Errno::ENETRESET
}

/// Step `i` of a run of receives: a receive of `results[i]` bytes, positive
/// and keeping the offset in range, takes `states[i]` to `states[i + 1]`.
pub open spec fn received_step(
    states: Seq<ConnHandler>,
    results: Seq<i32>,
    befores: Seq<Seq<MachineIntent>>,
    afters: Seq<Seq<MachineIntent>>,
    pools: Seq<BufferPool<IO_BUF_SIZE, IO_BUF_ALIGN>>,
    i: int,
) -> bool {
    &&& results[i] > 0
    &&& states[i].offset_spec() + results[i] <= u32::MAX
    &&& states[i + 1].socket_spec() == states[i].socket_spec()
    &&& states[i].step(MachineEvent::IoCompleted(results[i], 0), states[i + 1], befores[i], afters[i], pools[i], pools[i + 1])
}

/// The total of the first `k` byte counts of `results`.
pub open spec fn total_received(results: Seq<i32>, k: int) -> int
    decreases k,
{
    if k <= 0 { 0 } else { total_received(results, k - 1) + results[k - 1] }
}

/// What closing leaves of the buffer pool: the handler's buffer, if it has
/// one, given back.
pub open spec fn released(
    before: BufferPool<IO_BUF_SIZE, IO_BUF_ALIGN>,
    after: BufferPool<IO_BUF_SIZE, IO_BUF_ALIGN>,
    buf: Option<BufferHandle>,
) -> bool {
    match buf {
        Some(h) => before.after_free(after, h),
        None => after == before,
    }
}

impl ConnHandler {
    /// The state the connection is in.
    pub closed spec fn state_spec(&self) -> ConnHandlerState {
        self.state
    }

    /// The registered descriptor of the connection.
    pub closed spec fn socket_spec(&self) -> Fixed {
        self.socket
    }

    /// The buffer the handler receives into, once it has one.
    pub closed spec fn buffer_spec(&self) -> Option<BufferHandle> {
        self.buf_handle
    }

    /// How many bytes of the current message have arrived.
    pub closed spec fn offset_spec(&self) -> u32 {
        self.offset
    }

    /// The handler's consistency: while receiving, it holds a buffer.
    pub open spec fn wf(&self) -> bool {
        self.state_spec() is Recv ==> self.buffer_spec() is Some
    }

    /// Whether the machine can take `event` in its current state: a spawn
    /// only at the start (or once closed), a completion only after it.
    pub open spec fn accepts(&self, event: MachineEvent) -> bool {
        match event {
            MachineEvent::Spawn => self.state_spec() is Init || self.state_spec() is Closed,
            MachineEvent::IoCompleted(_, _) => !(self.state_spec() is Init),
        }
    }

    /// How many intents a completed receive with result `res` submits: two
    /// when an error closes the connection or the receive is submitted again
    /// on a transient error (the receive goes out once more after it), one
    /// otherwise.
    pub open spec fn recv_room(res: i32) -> nat {
        if res < 0 && (is_disconnect_error(-res) || is_transient_error(-res)) { 2 } else { 1 }
    }

    /// How many intents handling `event` submits at most.
    pub open spec fn room_needed(&self, event: MachineEvent) -> nat {
        match self.state_spec() {
            ConnHandlerState::Init => 1,
            ConnHandlerState::Recv(_) => match event {
                MachineEvent::IoCompleted(res, _) => Self::recv_room(res),
                MachineEvent::Spawn => 0,
            },
            ConnHandlerState::Closing => 1,
            ConnHandlerState::Closed => 0,
        }
    }

    /// Whether a receive completing with `res` can be handled: no setup
    /// error, a byte count that keeps the offset in range, and a live buffer
    /// when a header is to be read from it.
    pub open spec fn recv_result_ok(&self, res: i32, buffers: BufferPool<IO_BUF_SIZE, IO_BUF_ALIGN>) -> bool {
        &&& res < 0 ==> res != i32::MIN && !is_setup_error(-res)
        &&& res > 0 ==> self.offset_spec() + res <= u32::MAX
        &&& res > 0 && self.offset_spec() + res >= MSG_HEADER_SIZE ==> buffers.valid(self.buffer_spec()->Some_0)
    }

    /// The handler that `new(socket_direct_descriptor)` makes.
    pub closed spec fn spec_new(socket_direct_descriptor: u32) -> Self {
        ConnHandler { state: ConnHandlerState::Init, socket: Fixed(socket_direct_descriptor), buf_handle: None, offset: 0 }
    }

    /// A handler for the connection on registered descriptor
    /// `socket_direct_descriptor`, not yet started.
    pub fn new(socket_direct_descriptor: u32) -> (h: Self)
        ensures
            h == Self::spec_new(socket_direct_descriptor),
            h.wf(),
            h.state_spec() == ConnHandlerState::Init,
            h.socket_spec() == Fixed(socket_direct_descriptor),
            h.buffer_spec() is None,
            h.offset_spec() == 0,
    {
        ConnHandler { state: ConnHandlerState::Init, socket: Fixed(socket_direct_descriptor), buf_handle: None, offset: 0 }
    }

    /// The buffer the handler receives into.
    pub fn buf_handle(&self) -> (h: BufferHandle)
        requires
            self.buffer_spec() is Some,
        ensures
            h == self.buffer_spec()->Some_0,
    {
        self.buf_handle.unwrap()
    }

    /// Whether `process_event` can take `event` with the buffers `buffers`:
    /// the handler is consistent, the event fits the state and a completed
    /// receive can be handled.
    pub fn can_process(&self, event: MachineEvent, buffers: &BufferPool<IO_BUF_SIZE, IO_BUF_ALIGN>) -> (b: bool)
        ensures
            b == (self.wf() && self.accepts(event) && (self.state_spec() is Recv ==>
                (event matches MachineEvent::IoCompleted(res, _) ==> self.recv_result_ok(res, *buffers)))),
    {
        let consistent = match self.state {
            ConnHandlerState::Recv(_) => self.buf_handle.is_some(),
            _ => true,
        };
        if !consistent {
            return false;
        }
        match (event, self.state) {
            (MachineEvent::Spawn, ConnHandlerState::Init) => true,
            (MachineEvent::Spawn, ConnHandlerState::Closed) => true,
            (MachineEvent::Spawn, _) => false,
            (MachineEvent::IoCompleted(_, _), ConnHandlerState::Init) => false,
            (MachineEvent::IoCompleted(res, _), ConnHandlerState::Recv(_)) => {
                if res < 0 {
                    if res == i32::MIN {
                        return false;
                    }
                    let errno = -res;
                    !(errno == Errno::EBADF || errno == Errno::EFAULT || errno == Errno::EINVAL
                        || errno == Errno::ENOTSOCK || errno == Errno::EAFNOSUPPORT || errno == Errno::EOPNOTSUPP)
                } else if res > 0 {
                    let end = self.offset as u64 + res as u64;
                    if end > u32::MAX as u64 {
                        false
                    } else if end >= MSG_HEADER_SIZE as u64 {
                        buffers.is_valid(self.buf_handle.unwrap())
                    } else {
                        true
                    }
                } else {
                    true
                }
            },
            (MachineEvent::IoCompleted(_, _), _) => true,
        }
    }

    /// Handles `event`: moves to the next state and submits intents to `ctx`.
    ///
    /// - `Spawn` at the start takes a buffer and submits a receive into it,
    ///   or asks to be retried when no buffer is free.
    /// - A receive of zero bytes closes the connection.
    /// - A receive error resubmits the receive (transient errors submit it
    ///   twice), or closes the connection and submits a receive anyway
    ///   (disconnect errors).
    /// - Received bytes advance the offset; once a whole header has arrived
    ///   it is read from the buffer. A new receive is submitted.
    /// - While closing, a successful close terminates the machine; a failed
    ///   one is tried again.
    /// - Once closed, events change nothing.
    pub fn process_event(&mut self, ctx: &mut ExecutorContext, event: MachineEvent)
        requires
            old(self).wf(),
            old(self).accepts(event),
            old(ctx).wf(),
            old(ctx).len + old(self).room_needed(event) <= old(ctx).intents@.len(),
            old(ctx).buffers.wf(),
            old(self).state_spec() is Recv ==> (event matches MachineEvent::IoCompleted(res, _) ==>
                old(self).recv_result_ok(res, old(ctx).buffers)),
        ensures
            final(self).wf(),
            final(self).socket_spec() == old(self).socket_spec(),
            final(ctx).wf(),
            final(ctx).intents@.len() == old(ctx).intents@.len(),
            final(ctx).buffers.wf(),
            old(self).step(event, *final(self), old(ctx).submitted(), final(ctx).submitted(),
                old(ctx).buffers, final(ctx).buffers),
    {
        self.state = match (event, self.state) {
            (MachineEvent::Spawn, ConnHandlerState::Init) => self.on_init(ctx),
            (MachineEvent::IoCompleted(res, _), ConnHandlerState::Recv(_)) => self.on_recv(ctx, res),
            (MachineEvent::IoCompleted(res, _), ConnHandlerState::Closing) => self.on_closing(ctx, res),
            (_, _) => ConnHandlerState::Closed,
        };
    }

    /// The transition `process_event` makes: from `self` on `event` to
    /// `new`, with the intents going from `before` to `after` and the buffer
    /// pool from `pool` to `pool2`.
    pub open spec fn step(
        self,
        event: MachineEvent,
        new: Self,
        before: Seq<MachineIntent>,
        after: Seq<MachineIntent>,
        pool: BufferPool<IO_BUF_SIZE, IO_BUF_ALIGN>,
        pool2: BufferPool<IO_BUF_SIZE, IO_BUF_ALIGN>,
    ) -> bool {
        let sock = self.socket_spec();
        match self.state_spec() {
            ConnHandlerState::Init => match pool.next_handle() {
                Some(h) => {
                    &&& pool.after_allocate(pool2, Some(h))
                    &&& new.buffer_spec() == Some(h)
                    &&& new.offset_spec() == self.offset_spec()
                    &&& new.state_spec() == ConnHandlerState::Recv(RecvPhase::ReceivingHeader)
                    &&& after == before.push(MachineIntent::SubmitRecv(sock, h, self.offset_spec() as u16))
                },
                None => {
                    &&& pool2 == pool
                    &&& new == self
                    &&& after == before.push(MachineIntent::Retry)
                },
            },
            ConnHandlerState::Recv(phase) => {
                let res = event->IoCompleted_0;
                let h = self.buffer_spec()->Some_0;
                let close_then_recv = {
                    &&& released(pool, pool2, self.buffer_spec())
                    &&& new.buffer_spec() == self.buffer_spec()
                    &&& new.offset_spec() == 0
                    &&& new.state_spec() == ConnHandlerState::Closing
                    &&& after == before.push(MachineIntent::CloseFixed(sock)).push(MachineIntent::SubmitRecv(sock, h, 0))
                };
                if res == 0 {
                    &&& released(pool, pool2, self.buffer_spec())
                    &&& new.buffer_spec() == self.buffer_spec()
                    &&& new.offset_spec() == 0
                    &&& new.state_spec() == ConnHandlerState::Closing
                    &&& after == before.push(MachineIntent::CloseFixed(sock))
                } else if res < 0 && is_disconnect_error(-res) {
                    close_then_recv
                } else if res < 0 {
                    let again = MachineIntent::SubmitRecv(sock, h, self.offset_spec() as u16);
                    &&& pool2 == pool
                    &&& new == self
                    &&& after == if is_transient_error(-res) { before.push(again).push(again) } else { before.push(again) }
                } else {
                    let offset = (self.offset_spec() + res) as u32;
                    &&& pool2 == pool
                    &&& new.buffer_spec() == self.buffer_spec()
                    &&& new.offset_spec() == offset
                    &&& after == before.push(MachineIntent::SubmitRecv(sock, h, offset as u16))
                    &&& if offset >= MSG_HEADER_SIZE {
                        new.state_spec() matches ConnHandlerState::Recv(RecvPhase::ReceivingBody { header })
                            && header_of_bytes(pool.buffers().buffer(h.0.index as int).subrange(0, MSG_HEADER_SIZE as int), header)
                    } else {
                        new.state_spec() == ConnHandlerState::Recv(RecvPhase::ReceivingHeader)
                    }
                }
            },
            ConnHandlerState::Closing => {
                let res = event->IoCompleted_0;
                if res == 0 {
                    &&& pool2 == pool
                    &&& new.buffer_spec() == self.buffer_spec()
                    &&& new.offset_spec() == self.offset_spec()
                    &&& new.state_spec() == ConnHandlerState::Closed
                    &&& after == before.push(MachineIntent::Terminate)
                } else {
                    &&& released(pool, pool2, self.buffer_spec())
                    &&& new.buffer_spec() == self.buffer_spec()
                    &&& new.offset_spec() == 0
                    &&& new.state_spec() == ConnHandlerState::Closing
                    &&& after == before.push(MachineIntent::CloseFixed(sock))
                }
            },
            ConnHandlerState::Closed => {
                &&& pool2 == pool
                &&& new == self
                &&& after == before
            },
        }
    }

    /// While receiving, the handler's offset is what it started with plus
    /// the byte counts of all the receives since, however the bytes were
    /// split: each receive goes out again at that total, and as soon as the
    /// total reaches `MSG_HEADER_SIZE` the header is read from the first
    /// bytes of the buffer.
    pub proof fn lemma_offset_counts_receives(
        states: Seq<ConnHandler>,
        results: Seq<i32>,
        befores: Seq<Seq<MachineIntent>>,
        afters: Seq<Seq<MachineIntent>>,
        pools: Seq<BufferPool<IO_BUF_SIZE, IO_BUF_ALIGN>>,
        k: int,
    )
        requires
            states.len() == results.len() + 1,
            pools.len() == results.len() + 1,
            befores.len() == results.len(),
            afters.len() == results.len(),
            states[0].state_spec() is Recv,
            forall|i: int| 0 <= i < results.len() ==> #[trigger] received_step(states, results, befores, afters, pools, i),
            0 <= k <= results.len(),
        ensures
            states[k].state_spec() is Recv,
            states[k].socket_spec() == states[0].socket_spec(),
            states[k].buffer_spec() == states[0].buffer_spec(),
            states[k].offset_spec() == states[0].offset_spec() + total_received(results, k),
            k > 0 ==> afters[k - 1] == befores[k - 1].push(MachineIntent::SubmitRecv(states[0].socket_spec(),
                states[0].buffer_spec()->Some_0, states[k].offset_spec() as u16)),
            k > 0 && states[k].offset_spec() >= MSG_HEADER_SIZE ==> (states[k].state_spec() matches
                ConnHandlerState::Recv(RecvPhase::ReceivingBody { header }) && header_of_bytes(pools[k - 1].buffers().buffer(
                states[0].buffer_spec()->Some_0.0.index as int).subrange(0, MSG_HEADER_SIZE as int), header)),
        decreases k,
    {
        if k > 0 {
            Self::lemma_offset_counts_receives(states, results, befores, afters, pools, k - 1);
            let i = k - 1;
            assert(received_step(states, results, befores, afters, pools, i));
        }
    }

    fn on_init(&mut self, ctx: &mut ExecutorContext) -> (s: ConnHandlerState)
        requires
            old(self).state is Init,
            old(ctx).wf(),
            old(ctx).len + 1 <= old(ctx).intents@.len(),
            old(ctx).buffers.wf(),
        ensures
            final(self).socket_spec() == old(self).socket_spec(),
            final(self).state == old(self).state,
            final(ctx).wf(),
            final(ctx).intents@.len() == old(ctx).intents@.len(),
            final(ctx).buffers.wf(),
            s is Recv ==> final(self).buffer_spec() is Some,
            old(self).step(MachineEvent::Spawn, ConnHandler { state: s, ..*final(self) },
                old(ctx).submitted(), final(ctx).submitted(), old(ctx).buffers, final(ctx).buffers),
    {
        match ctx.buffers.allocate() {
            Some(handle) => {
                self.buf_handle = Some(handle);
                self.recv(ctx);
                ConnHandlerState::Recv(RecvPhase::ReceivingHeader)
            },
            None => {
                ctx.submit_intent(MachineIntent::Retry);
                ConnHandlerState::Init
            },
        }
    }

    fn on_recv(&mut self, ctx: &mut ExecutorContext, res: i32) -> (s: ConnHandlerState)
        requires
            old(self).wf(),
            old(self).state is Recv,
            old(ctx).wf(),
            old(ctx).len + Self::recv_room(res) <= old(ctx).intents@.len(),
            old(ctx).buffers.wf(),
            old(self).recv_result_ok(res, old(ctx).buffers),
        ensures
            final(self).socket_spec() == old(self).socket_spec(),
            final(self).state == old(self).state,
            final(self).buffer_spec() is Some,
            final(ctx).wf(),
            final(ctx).intents@.len() == old(ctx).intents@.len(),
            final(ctx).buffers.wf(),
            old(self).step(MachineEvent::IoCompleted(res, 0), ConnHandler { state: s, ..*final(self) },
                old(ctx).submitted(), final(ctx).submitted(), old(ctx).buffers, final(ctx).buffers),
    {
        if res == 0 {
            self.close(ctx);
            return ConnHandlerState::Closing;
        }
        let state = if res < 0 {
            self.handle_io_error(res, ctx)
        } else {
            self.offset = self.offset + res as u32;
            if self.offset as usize >= MSG_HEADER_SIZE {
                let handle = self.buf_handle();
                proof {
                    ctx.buffers.lemma_wf();
                    ctx.buffers.lemma_buffer_len(handle.0.index as int);
                }
                let buf = ctx.buffers.get(handle).unwrap();
                let hdr = MsgHeader::read_from_bytes(&buf[0..MSG_HEADER_SIZE]).unwrap();
                ConnHandlerState::Recv(RecvPhase::ReceivingBody { header: hdr })
            } else {
                ConnHandlerState::Recv(RecvPhase::ReceivingHeader)
            }
        };
        self.recv(ctx);
        state
    }

    fn on_closing(&mut self, ctx: &mut ExecutorContext, res: i32) -> (s: ConnHandlerState)
        requires
            old(self).state is Closing,
            old(ctx).wf(),
            old(ctx).len + 1 <= old(ctx).intents@.len(),
            old(ctx).buffers.wf(),
        ensures
            final(self).socket_spec() == old(self).socket_spec(),
            final(self).state == old(self).state,
            final(ctx).wf(),
            final(ctx).intents@.len() == old(ctx).intents@.len(),
            final(ctx).buffers.wf(),
            old(self).step(MachineEvent::IoCompleted(res, 0), ConnHandler { state: s, ..*final(self) },
                old(ctx).submitted(), final(ctx).submitted(), old(ctx).buffers, final(ctx).buffers),
    {
        if res == 0 {
            ctx.submit_intent(MachineIntent::Terminate);
            ConnHandlerState::Closed
        } else {
            self.close(ctx);
            ConnHandlerState::Closing
        }
    }

    fn handle_io_error(&mut self, err: i32, ctx: &mut ExecutorContext) -> (s: ConnHandlerState)
        requires
            old(self).wf(),
            old(self).state is Recv,
            err < 0,
            err != i32::MIN,
            !is_setup_error(-err),
            old(ctx).wf(),
            old(ctx).len + Self::recv_room(err) <= old(ctx).intents@.len(),
            old(ctx).buffers.wf(),
        ensures
            final(self).socket_spec() == old(self).socket_spec(),
            final(self).state == old(self).state,
            final(self).buffer_spec() == old(self).buffer_spec(),
            final(ctx).wf(),
            final(ctx).intents@.len() == old(ctx).intents@.len(),
            final(ctx).len + 1 <= old(ctx).len + Self::recv_room(err),
            final(ctx).buffers.wf(),
            is_disconnect_error(-err) ==> {
                &&& s == ConnHandlerState::Closing
                &&& released(old(ctx).buffers, final(ctx).buffers, old(self).buffer_spec())
                &&& final(self).offset_spec() == 0
                &&& final(ctx).submitted() == old(ctx).submitted().push(MachineIntent::CloseFixed(old(self).socket_spec()))
            },
            !is_disconnect_error(-err) ==> {
                &&& s == old(self).state
                &&& final(ctx).buffers == old(ctx).buffers
                &&& final(self).offset_spec() == old(self).offset_spec()
                &&& final(ctx).submitted() == if is_transient_error(-err) {
                        old(ctx).submitted().push(MachineIntent::SubmitRecv(old(self).socket_spec(),
                            old(self).buffer_spec()->Some_0, old(self).offset_spec() as u16))
                    } else {
                        old(ctx).submitted()
                    }
            },
    {
        let errno = Errno::from_raw_syscall_error(err).raw();
        if errno == Errno::EINTR || errno == Errno::EAGAIN || errno == Errno::ENOBUFS || errno == Errno::ENOMEM
            || errno == Errno::ETIMEDOUT {
            self.recv(ctx);
            self.state
        } else if errno == Errno::EIO || errno == Errno::ECONNRESET || errno == Errno::ENOTCONN
            || errno == Errno::ESHUTDOWN || errno == Errno::ECONNABORTED || errno == Errno::ENETDOWN
            || errno == Errno::ENETUNREACH || errno == Errno::ENETRESET {
            self.close(ctx);
            ConnHandlerState::Closing
        } else {
            self.state
        }
    }

    fn close(&mut self, ctx: &mut ExecutorContext)
        requires
            old(ctx).wf(),
            old(ctx).len < old(ctx).intents@.len(),
            old(ctx).buffers.wf(),
        ensures
            final(self).socket_spec() == old(self).socket_spec(),
            final(self).state == old(self).state,
            final(self).buffer_spec() == old(self).buffer_spec(),
            final(self).offset_spec() == 0,
            final(ctx).wf(),
            final(ctx).intents@.len() == old(ctx).intents@.len(),
            final(ctx).len == old(ctx).len + 1,
            final(ctx).buffers.wf(),
            released(old(ctx).buffers, final(ctx).buffers, old(self).buffer_spec()),
            final(ctx).submitted() == old(ctx).submitted().push(MachineIntent::CloseFixed(old(self).socket_spec())),
    {
        if let Some(handle) = self.buf_handle {
            let _ = ctx.buffers.free(handle);
        }
        self.offset = 0;
        ctx.submit_intent(MachineIntent::CloseFixed(self.socket));
    }

    fn recv(&mut self, ctx: &mut ExecutorContext)
        requires
            old(self).buffer_spec() is Some,
            old(ctx).wf(),
            old(ctx).len < old(ctx).intents@.len(),
        ensures
            *final(self) == *old(self),
            final(ctx).wf(),
            final(ctx).intents@.len() == old(ctx).intents@.len(),
            final(ctx).len == old(ctx).len + 1,
            final(ctx).buffers == old(ctx).buffers,
            final(ctx).submitted() == old(ctx).submitted().push(MachineIntent::SubmitRecv(
                old(self).socket_spec(), old(self).buffer_spec()->Some_0, old(self).offset_spec() as u16)),
    {
        ctx.submit_intent(MachineIntent::SubmitRecv(self.socket, self.buf_handle(), self.offset as u16));
    }
}

} // verus!
