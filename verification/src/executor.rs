use vstd::prelude::*;
use vstd::arithmetic::power2::is_pow2;

use crate::collections::RingBuffer;
use crate::error::Result;
use crate::mem::{pack_handle, pool_slots, AlignedBuffers, BufferHandle, BufferPool, ObjectHandle, ObjectPool};
use crate::protocol::{
    ExecutorContext, Fd, Fixed, IoFlag, IoResult, MachineEvent, MachineIntent, IO_BUF_ALIGN, IO_BUF_SIZE,
};
use crate::state_machine::conn_handler::ConnHandler;
use crate::state_machine::tcp_server::{ListenRequest, TcpServer, TcpServerState};

verus! {

/// The pool identifier of listening sockets.
pub const TCP_SERVER: u8 = 1;

/// The pool identifier of connection handlers.
pub const CONN_HANDLER: u8 = 2;

/// How many intents one event may produce.
pub const MAX_INTENTS: usize = 16;

/// The address the server listens on.
pub const LISTEN_ADDR: &'static str = "0.0.0.0:3000";

/// The listen backlog of the server.
pub const LISTEN_BACKLOG: u16 = 4096;

/// An event waiting to be handed to the machine that `handle` names.
#[derive(Debug, Clone, Copy)]
pub struct RunQueueEvent {
    pub reason: MachineEvent,
    pub handle: ObjectHandle,
}

/// Work that the executor hands to the I/O layer. Completions of requests
/// that carry `user_data` come back through `push_completion` with it.
#[derive(Debug, Clone, Copy)]
pub enum IoRequest {
    /// Bind a socket to `addr` and listen on it, then report the outcome for
    /// the server `handle` through `complete_listen`.
    Listen { handle: ObjectHandle, addr: &'static str, backlog: u16 },
    /// Accept connections on `fd`, each into a newly allocated registered
    /// descriptor, with one request.
    MultishotAccept { fd: Fd, user_data: u64 },
    /// Read from the registered descriptor `fixed` into registered buffer
    /// `buf_index`, `len` bytes starting at address `addr`.
    ReadFixed { fixed: Fixed, buf_addr: usize, len: u32, buf_index: u16, user_data: u64 },
    /// Close the registered descriptor `fixed`.
    CloseFixed { fixed: Fixed, user_data: u64 },
}

/// A situation the executor cannot go on from.
#[derive(Debug, Clone, Copy, PartialEq, Eq, Structural)]
pub enum ExecutorFault {
    /// An event names a pool that does not exist.
    UnknownPool,
    /// A machine received an event its state does not allow.
    UnexpectedEvent,
    /// A run queue had no room for another event.
    QueueFull,
    /// The pool of connection handlers was full.
    PoolFull,
    /// The slot for a new connection handler was still taken.
    SlotTaken,
    /// A receive named a buffer that is no longer handed out.
    StaleBuffer,
    /// A receive started at or past the end of its buffer.
    BufferOffset,
}

/// The faults that carrying out an intent can meet: no room in a run queue
/// or in the pool of connection handlers, a receive into a buffer that is
/// gone or at an offset past its end, or a machine of an unknown pool to
/// remove.
pub open spec fn is_intent_fault(e: ExecutorFault) -> bool {
    ||| e is QueueFull
    ||| e is PoolFull
    ||| e is SlotTaken
    ||| e is StaleBuffer
    ||| e is BufferOffset
    ||| e is UnknownPool
}

/// Intents whose carrying out cannot fail: they only become requests.
pub open spec fn never_fails(intent: MachineIntent) -> bool {
    intent is SubmitMultishotAccept || intent is CloseFixed
}

/// The request that carrying out `intent` of the machine `handle` hands
/// to the I/O layer, if any; `base` is the address of the first I/O buffer.
pub open spec fn io_request_of(intent: MachineIntent, handle: ObjectHandle, base: int) -> Option<IoRequest> {
    match intent {
        MachineIntent::SubmitMultishotAccept(fd) => Some(IoRequest::MultishotAccept { fd, user_data: handle.bits() }),
        MachineIntent::SubmitRecv(fixed, buf, offset) => Some(IoRequest::ReadFixed {
            fixed,
            buf_addr: (base + buf.0.index * IO_BUF_SIZE + offset) as usize,
            len: (IO_BUF_SIZE - offset) as u32,
            buf_index: buf.0.index as u16,
            user_data: handle.bits(),
        }),
        MachineIntent::CloseFixed(fixed) => Some(IoRequest::CloseFixed { fixed, user_data: handle.bits() }),
        _ => None,
    }
}

/// A receive asked for with `SubmitRecv(fixed, buf, offset)` reads into the
/// unfilled tail of buffer `buf`: it starts `offset` bytes into the buffer,
/// after the bytes already received, and ends exactly at the buffer's end.
pub proof fn lemma_read_covers_tail(fixed: Fixed, buf: BufferHandle, offset: u16, handle: ObjectHandle, base: int)
    requires
        offset < IO_BUF_SIZE,
        0 <= base,
        base + (buf.0.index + 1) * IO_BUF_SIZE <= usize::MAX,
    ensures
        io_request_of(MachineIntent::SubmitRecv(fixed, buf, offset), handle, base) matches
            Some(IoRequest::ReadFixed { fixed: f, buf_addr, len, buf_index, user_data }) && {
            &&& f == fixed
            &&& buf_addr == base + buf.0.index * IO_BUF_SIZE + offset
            &&& buf_addr + len == base + (buf.0.index + 1) * IO_BUF_SIZE
            &&& user_data == handle.bits()
        },
{
    assert(buf.0.index * IO_BUF_SIZE + IO_BUF_SIZE == (buf.0.index + 1) * IO_BUF_SIZE) by (nonlinear_arith);
    assert(0 <= buf.0.index * IO_BUF_SIZE) by (nonlinear_arith);
}

/// Every read among the requests of `intents` ends exactly at the end of the
/// buffer it names and starts inside that buffer, when each receive among
/// the intents names a buffer below 2^16 that ends inside the address space
/// and starts before the buffer's end.
pub proof fn lemma_reads_end_at_buffer_end(intents: Seq<MachineIntent>, handle: ObjectHandle, base: int)
    requires
        0 <= base,
        forall|j: int| 0 <= j < intents.len() ==> (#[trigger] intents[j] matches MachineIntent::SubmitRecv(_, buf, offset) ==> {
            &&& offset < IO_BUF_SIZE
            &&& buf.0.index < 0x1_0000
            &&& base + (buf.0.index + 1) * IO_BUF_SIZE <= usize::MAX
        }),
    ensures
        forall|k: int| 0 <= k < io_requests_of(intents, handle, base).len() ==>
            (#[trigger] io_requests_of(intents, handle, base)[k] matches IoRequest::ReadFixed { buf_addr, len, buf_index, .. } ==> {
                &&& base + buf_index * IO_BUF_SIZE <= buf_addr < base + (buf_index + 1) * IO_BUF_SIZE
                &&& buf_addr + len == base + (buf_index + 1) * IO_BUF_SIZE
            }),
    decreases intents.len(),
{
    if intents.len() > 0 {
        let init = intents.drop_last();
        assert forall|j: int| 0 <= j < init.len() implies (#[trigger] init[j] matches MachineIntent::SubmitRecv(_, buf, offset) ==> {
            &&& offset < IO_BUF_SIZE
            &&& buf.0.index < 0x1_0000
            &&& base + (buf.0.index + 1) * IO_BUF_SIZE <= usize::MAX
        }) by {
            assert(init[j] == intents[j]);
        }
        lemma_reads_end_at_buffer_end(init, handle, base);
        let last = intents.last();
        assert(last == intents[intents.len() - 1]);
        if let MachineIntent::SubmitRecv(fixed, buf, offset) = last {
            lemma_read_covers_tail(fixed, buf, offset, handle, base);
            assert((buf.0.index as u16) as int == buf.0.index);
        }
    }
}

/// The requests that carrying out `intents`, in order, hands to the I/O
/// layer.
pub open spec fn io_requests_of(intents: Seq<MachineIntent>, handle: ObjectHandle, base: int) -> Seq<IoRequest>
    decreases intents.len(),
{
    if intents.len() == 0 {
        Seq::empty()
    } else {
        let before = io_requests_of(intents.drop_last(), handle, base);
        match io_request_of(intents.last(), handle, base) {
            Some(req) => before.push(req),
            None => before,
        }
    }
}

/// What one more intent adds to the requests.
proof fn lemma_intents_push(ints: Seq<MachineIntent>, a: MachineIntent, handle: ObjectHandle, base: int)
    ensures
        io_requests_of(ints.push(a), handle, base) == match io_request_of(a, handle, base) {
            Some(req) => io_requests_of(ints, handle, base).push(req),
            None => io_requests_of(ints, handle, base),
        },
{
    assert(ints.push(a).drop_last() =~= ints);
}

/// Drives the state machines: it hands queued events to them, turns their
/// intents into I/O requests and queue entries, and queues I/O completions
/// for the next round.
pub struct Executor {
    tcp_listener_pool: ObjectPool<TcpServer, TCP_SERVER>,
    conn_handler_pool: ObjectPool<ConnHandler, CONN_HANDLER>,
    ctx: ExecutorContext,
    run_queue0: RingBuffer<RunQueueEvent>,
    run_queue1: RingBuffer<RunQueueEvent>,
    current_run_queue: usize,
}

impl Executor {
    /// The executor's consistency.
    pub closed spec fn wf(&self) -> bool {
        &&& self.tcp_listener_pool.wf()
        &&& self.conn_handler_pool.wf()
        &&& self.ctx.buffers.wf()
        &&& self.run_queue0.wf()
        &&& self.run_queue1.wf()
        &&& self.ctx.intents@.len() == MAX_INTENTS
        &&& self.ctx.wf()
        &&& self.current_run_queue <= 1
        &&& self.run_queue0.spec_capacity() == self.run_queue1.spec_capacity()
    }

    /// The parts of a consistent executor are consistent.
    pub proof fn lemma_wf(&self)
        requires
            self.wf(),
        ensures
            self.listeners().wf(),
            self.handlers().wf(),
            self.buffers().wf(),
            self.current() == 0 || self.current() == 1,
    {
    }

    /// How many events each run queue holds at most.
    pub closed spec fn queue_capacity(&self) -> nat {
        self.run_queue0.spec_capacity()
    }

    /// The events of run queue `i`, oldest first.
    pub closed spec fn queue(&self, i: int) -> Seq<RunQueueEvent> {
        if i == 0 { self.run_queue0@ } else { self.run_queue1@ }
    }

    /// The index of the run queue being drained.
    pub closed spec fn current(&self) -> int {
        self.current_run_queue as int
    }

    /// The listening sockets.
    pub closed spec fn listeners(&self) -> ObjectPool<TcpServer, TCP_SERVER> {
        self.tcp_listener_pool
    }

    /// The connection handlers.
    pub closed spec fn handlers(&self) -> ObjectPool<ConnHandler, CONN_HANDLER> {
        self.conn_handler_pool
    }

    /// The I/O buffers.
    pub closed spec fn buffers(&self) -> BufferPool<IO_BUF_SIZE, IO_BUF_ALIGN> {
        self.ctx.buffers
    }

    /// Creates an executor with room for `listeners` listening sockets,
    /// `conn_handlers` connections and `buf_count` I/O buffers, both run
    /// queues empty; fails with `MemAllocFail` when the buffers cannot be had.
    pub fn new(listeners: u32, conn_handlers: u32, buf_count: u32) -> (r: Result<Self>)
        requires
            pool_slots(listeners) > 0,
            pool_slots(conn_handlers) > 0,
            listeners * vstd::layout::size_of::<Option<TcpServer>>() <= isize::MAX,
            conn_handlers * vstd::layout::size_of::<Option<ConnHandler>>() <= isize::MAX,
            conn_handlers * 2 * vstd::layout::size_of::<RunQueueEvent>() <= isize::MAX,
            conn_handlers * 2 < isize::MAX,
            buf_count > 0,
            buf_count * IO_BUF_SIZE <= isize::MAX,
        ensures
            r matches Ok(e) ==> {
                &&& e.wf()
                &&& e.current() == 0
                &&& e.queue(0) == Seq::<RunQueueEvent>::empty()
                &&& e.queue(1) == Seq::<RunQueueEvent>::empty()
                &&& e.queue_capacity() == conn_handlers * 2
                &&& e.handlers().is_fresh(conn_handlers)
                &&& e.listeners().is_fresh(listeners)
                &&& e.buffers().is_fresh(buf_count)
            },
            r is Err ==> (r matches Err(crate::error::HoarderError::MemAllocFail)),
    {
        let run_queues_size = conn_handlers as usize * 2;
        let tcp_listener_pool = ObjectPool::new(listeners);
        let conn_handler_pool = ObjectPool::new(conn_handlers);
        proof {
            reveal_with_fuel(is_pow2, 13);
        }
        let io_bufs = BufferPool::new(buf_count)?;
        let run_queue0 = RingBuffer::new(run_queues_size);
        let run_queue1 = RingBuffer::new(run_queues_size);
        let mut intents: Vec<Option<MachineIntent>> = Vec::new();
        let mut i: usize = 0;
        while i < MAX_INTENTS
            invariant
                i <= MAX_INTENTS,
                intents@.len() == i,
            decreases MAX_INTENTS - i,
        {
            intents.push(None);
            i = i + 1;
        }
        Ok(Executor {
            tcp_listener_pool,
            conn_handler_pool,
            ctx: ExecutorContext { intents, len: 0, buffers: io_bufs },
            run_queue0,
            run_queue1,
            current_run_queue: 0,
        })
    }

    /// The index of the run queue that new completions go to.
    pub fn next_run_queue_idx(&self) -> (i: usize)
        requires
            self.wf(),
        ensures
            i == 1 - self.current(),
    {
        1 - self.current_run_queue
    }

    /// Makes the other run queue the one being drained.
    pub fn switch_run_queue(&mut self)
        requires
            old(self).wf(),
        ensures
            final(self).wf(),
            final(self).current() == 1 - old(self).current(),
            final(self).queue_capacity() == old(self).queue_capacity(),
            final(self).queue(0) == old(self).queue(0),
            final(self).queue(1) == old(self).queue(1),
            final(self).listeners() == old(self).listeners(),
            final(self).handlers() == old(self).handlers(),
            final(self).buffers() == old(self).buffers(),
    {
        self.current_run_queue = 1 - self.current_run_queue;
    }

    /// The number of connection handlers there is room for.
    pub fn conn_handler_capacity(&self) -> (c: u32)
        requires
            self.wf(),
        ensures
            c == self.handlers().objects().len(),
    {
        self.conn_handler_pool.capacity()
    }

    /// The memory of the I/O buffers.
    pub fn io_buffers(&self) -> (b: &AlignedBuffers)
        ensures
            *b == self.buffers().buffers(),
    {
        self.ctx.buffers.pool()
    }

    fn push_event(&mut self, queue: usize, event: RunQueueEvent) -> (r: core::result::Result<(), ExecutorFault>)
        requires
            old(self).wf(),
            queue <= 1,
        ensures
            final(self).wf(),
            final(self).current() == old(self).current(),
            final(self).listeners() == old(self).listeners(),
            final(self).handlers() == old(self).handlers(),
            final(self).buffers() == old(self).buffers(),
            final(self).queue_capacity() == old(self).queue_capacity(),
            old(self).queue(queue as int).len() < old(self).queue_capacity() ==> r is Ok
                && final(self).queue(queue as int) == old(self).queue(queue as int).push(event),
            old(self).queue(queue as int).len() >= old(self).queue_capacity() ==>
                r == Err::<(), ExecutorFault>(ExecutorFault::QueueFull)
                && final(self).queue(queue as int) == old(self).queue(queue as int),
            final(self).queue(1 - queue) == old(self).queue(1 - queue),
            final(self).ctx.intents@ == old(self).ctx.intents@,
    {
        proof {
            self.run_queue0.lemma_len_bound();
            self.run_queue1.lemma_len_bound();
        }
        let pushed = if queue == 0 { self.run_queue0.push(event) } else { self.run_queue1.push(event) };
        match pushed {
            Ok(()) => Ok(()),
            Err(_) => Err(ExecutorFault::QueueFull),
        }
    }

    /// `new` is what `seed_run_queue` leaves of `self` when it returns `r`:
    /// a server for `LISTEN_ADDR` in the next free slot of the listeners, and
    /// its spawn at the end of the current run queue.
    pub open spec fn seeded(self, new: Self, r: core::result::Result<(), ExecutorFault>) -> bool {
        let pool = self.listeners();
        let cur = self.current();
        &&& new.wf()
        &&& new.current() == cur
        &&& new.queue_capacity() == self.queue_capacity()
        &&& new.handlers() == self.handlers()
        &&& new.buffers() == self.buffers()
        &&& new.queue(1 - cur) == self.queue(1 - cur)
        &&& if !pool.ready_to_spawn() {
            &&& r == Err::<(), ExecutorFault>(ExecutorFault::SlotTaken)
            &&& new.listeners() == pool
            &&& new.queue(cur) == self.queue(cur)
        } else {
            match pool.allocator().next_id() {
                None => {
                    &&& r == Err::<(), ExecutorFault>(ExecutorFault::PoolFull)
                    &&& new.listeners() == pool
                    &&& new.queue(cur) == self.queue(cur)
                },
                Some(id) => {
                    let server = new.listeners().objects()[id.index as int]->Some_0;
                    &&& pool.allocator().after_allocate(new.listeners().allocator(), Some(id))
                    &&& new.listeners().objects() == pool.objects().update(id.index as int, Some(server))
                    &&& server.state_spec() == TcpServerState::Init
                    &&& server.addr_spec() == LISTEN_ADDR
                    &&& server.backlog_spec() == LISTEN_BACKLOG
                    &&& server.listener_spec() == -1
                    &&& if self.queue(cur).len() < self.queue_capacity() {
                        &&& r is Ok
                        &&& new.queue(cur).len() == self.queue(cur).len() + 1
                        &&& new.queue(cur).drop_last() =~= self.queue(cur)
                        &&& new.queue(cur).last().reason == MachineEvent::Spawn
                        &&& new.queue(cur).last().handle.bits() == pack_handle(TCP_SERVER, id)
                    } else {
                        &&& r == Err::<(), ExecutorFault>(ExecutorFault::QueueFull)
                        &&& new.queue(cur) == self.queue(cur)
                    }
                },
            }
        }
    }

    /// Starts the server: a listening socket on `LISTEN_ADDR`, queued to be
    /// spawned on the current run queue.
    pub fn seed_run_queue(&mut self) -> (r: core::result::Result<(), ExecutorFault>)
        requires
            old(self).wf(),
        ensures
            old(self).seeded(*final(self), r),
    {
        if !self.tcp_listener_pool.is_ready_to_spawn() {
            return Err(ExecutorFault::SlotTaken);
        }
        let server = TcpServer::new(LISTEN_ADDR, LISTEN_BACKLOG);
        proof {
            self.tcp_listener_pool.lemma_wf();
            self.tcp_listener_pool.allocator().lemma_wf();
        }
        let handle = match self.tcp_listener_pool.spawn(server) {
            Some(h) => h,
            None => {
                return Err(ExecutorFault::PoolFull);
            },
        };
        let current = self.current_run_queue;
        self.push_event(current, RunQueueEvent { reason: MachineEvent::Spawn, handle })
    }

    /// Queues the completion of an I/O request on the next run queue, for
    /// the machine that `user_data` names.
    pub fn push_completion(&mut self, result: IoResult, flags: IoFlag, user_data: u64) -> (r: core::result::Result<(), ExecutorFault>)
        requires
            old(self).wf(),
        ensures
            final(self).wf(),
            final(self).current() == old(self).current(),
            final(self).listeners() == old(self).listeners(),
            final(self).handlers() == old(self).handlers(),
            final(self).buffers() == old(self).buffers(),
            final(self).queue_capacity() == old(self).queue_capacity(),
            final(self).queue(old(self).current()) == old(self).queue(old(self).current()),
            ({
                let next = 1 - old(self).current();
                let q = final(self).queue(next);
                if old(self).queue(next).len() < old(self).queue_capacity() {
                    &&& r is Ok
                    &&& q.len() == old(self).queue(next).len() + 1
                    &&& q.drop_last() == old(self).queue(next)
                    &&& q.last().reason == MachineEvent::IoCompleted(result, flags)
                    &&& q.last().handle.bits() == user_data
                } else {
                    &&& r == Err::<(), ExecutorFault>(ExecutorFault::QueueFull)
                    &&& q == old(self).queue(next)
                }
            }),
    {
        let next = self.next_run_queue_idx();
        let handle = ObjectHandle::from_bits(user_data);
        self.push_event(next, RunQueueEvent { reason: MachineEvent::IoCompleted(result, flags), handle })
    }

    /// The first `n` intents in the executor's room for intents.
    pub closed spec fn intents_until(&self, n: nat) -> Seq<MachineIntent> {
        crate::protocol::submitted_intents(self.ctx.intents@, n)
    }

    /// The first `n` intents are `n` of them.
    pub proof fn lemma_intents_until_len(&self, n: nat)
        ensures
            self.intents_until(n).len() == n,
    {
    }

    /// The address of the first I/O buffer.
    pub open spec fn base(&self) -> int {
        self.buffers().buffers().address()
    }

    /// `new` is `self` with the oldest event of the current run queue taken
    /// off, and nothing else changed.
    pub open spec fn after_pop(self, new: Self) -> bool {
        &&& new.wf()
        &&& new.current() == self.current()
        &&& new.queue_capacity() == self.queue_capacity()
        &&& new.queue(self.current()) == self.queue(self.current()).drop_first()
        &&& new.queue(1 - self.current()) == self.queue(1 - self.current())
        &&& new.listeners() == self.listeners()
        &&& new.handlers() == self.handlers()
        &&& new.buffers() == self.buffers()
    }

    /// `mid` is what handing `ev` to the machine it names leaves of `self`:
    /// the machine took its step, submitting the first `n` intents of `mid`,
    /// and `listen` holds the listen it asked for. A stale handle reaches no
    /// machine: nothing changes and nothing is submitted.
    pub open spec fn dispatched(self, ev: RunQueueEvent, mid: Self, n: nat, listen: Seq<IoRequest>) -> bool {
        let h = ev.handle;
        let idx = h.spec_index() as int;
        &&& mid.wf()
        &&& mid.current() == self.current()
        &&& mid.queue_capacity() == self.queue_capacity()
        &&& mid.queue(0) == self.queue(0)
        &&& mid.queue(1) == self.queue(1)
        &&& if h.spec_pool_id() == TCP_SERVER && self.listeners().valid(h) && self.listeners().objects()[idx] is Some {
            let m = self.listeners().objects()[idx]->Some_0;
            let m2 = mid.listeners().objects()[idx]->Some_0;
            let asked = if ev.reason is Spawn {
                Some(ListenRequest { addr: m.addr_spec(), backlog: m.backlog_spec() })
            } else {
                None
            };
            &&& m.accepts(ev.reason)
            &&& m.step(ev.reason, m2, asked, Seq::empty(), mid.intents_until(n))
            &&& mid.listeners().objects() == self.listeners().objects().update(idx, Some(m2))
            &&& mid.listeners().allocator() == self.listeners().allocator()
            &&& mid.handlers() == self.handlers()
            &&& mid.buffers() == self.buffers()
            &&& listen == if ev.reason is Spawn {
                seq![IoRequest::Listen { handle: h, addr: m.addr_spec(), backlog: m.backlog_spec() }]
            } else {
                Seq::empty()
            }
        } else if h.spec_pool_id() == CONN_HANDLER && self.handlers().valid(h) && self.handlers().objects()[idx] is Some {
            let m = self.handlers().objects()[idx]->Some_0;
            let m2 = mid.handlers().objects()[idx]->Some_0;
            &&& m.wf() && m.accepts(ev.reason)
            &&& m.step(ev.reason, m2, Seq::empty(), mid.intents_until(n), self.buffers(), mid.buffers())
            &&& mid.handlers().objects() == self.handlers().objects().update(idx, Some(m2))
            &&& mid.handlers().allocator() == self.handlers().allocator()
            &&& mid.listeners() == self.listeners()
            &&& listen == Seq::<IoRequest>::empty()
        } else {
            &&& n == 0
            &&& mid.listeners() == self.listeners()
            &&& mid.handlers() == self.handlers()
            &&& mid.buffers() == self.buffers()
            &&& listen == Seq::<IoRequest>::empty()
        }
    }

    /// The fault that carrying out `intent` of the machine `handle` meets in
    /// `self`, if any: a full run queue for a retry or for a new handler, a
    /// taken slot or a full pool for a new handler, a receive past the end
    /// of its buffer or into a buffer that is gone, or a machine of an
    /// unknown pool to remove.
    pub open spec fn fault_of(self, handle: ObjectHandle, intent: MachineIntent) -> Option<ExecutorFault> {
        let cur = self.current();
        match intent {
            MachineIntent::Retry => if self.queue(1 - cur).len() >= self.queue_capacity() {
                Some(ExecutorFault::QueueFull)
            } else {
                None
            },
            MachineIntent::SpawnConnHandler(_) => if !self.handlers().ready_to_spawn() {
                Some(ExecutorFault::SlotTaken)
            } else if self.handlers().allocator().next_id() is None {
                Some(ExecutorFault::PoolFull)
            } else if self.queue(cur).len() >= self.queue_capacity() {
                Some(ExecutorFault::QueueFull)
            } else {
                None
            },
            MachineIntent::SubmitRecv(_, buf, offset) => if offset >= IO_BUF_SIZE {
                Some(ExecutorFault::BufferOffset)
            } else if !self.buffers().valid(buf) {
                Some(ExecutorFault::StaleBuffer)
            } else {
                None
            },
            MachineIntent::Terminate => if handle.spec_pool_id() != TCP_SERVER && handle.spec_pool_id() != CONN_HANDLER {
                Some(ExecutorFault::UnknownPool)
            } else {
                None
            },
            _ => None,
        }
    }

    /// `new` is what carrying out `intent` of the machine `handle` leaves of
    /// `self` when it meets no fault: a retry queues a fresh `Spawn` for the
    /// machine on the next run queue; a new connection handler goes into the
    /// next free slot of the handlers and its `Spawn` to the end of the
    /// current run queue; `Terminate` removes the machine from its pool; the
    /// other intents only become requests.
    pub open spec fn intent_step(self, new: Self, handle: ObjectHandle, intent: MachineIntent) -> bool {
        let cur = self.current();
        &&& new.wf()
        &&& new.current() == cur
        &&& new.queue_capacity() == self.queue_capacity()
        &&& new.buffers() == self.buffers()
        &&& match intent {
            MachineIntent::Retry => {
                &&& new.queue(1 - cur) == self.queue(1 - cur).push(RunQueueEvent { reason: MachineEvent::Spawn, handle })
                &&& new.queue(cur) == self.queue(cur)
                &&& new.listeners() == self.listeners()
                &&& new.handlers() == self.handlers()
            },
            MachineIntent::SpawnConnHandler(fixed) => {
                let id = self.handlers().allocator().next_id()->Some_0;
                let q = new.queue(cur);
                &&& q.len() == self.queue(cur).len() + 1
                &&& q.drop_last() =~= self.queue(cur)
                &&& q.last().reason == MachineEvent::Spawn
                &&& q.last().handle.bits() == pack_handle(CONN_HANDLER, id)
                &&& self.handlers().after_spawn(new.handlers(), ConnHandler::spec_new(fixed.0), Some(q.last().handle))
                &&& new.queue(1 - cur) == self.queue(1 - cur)
                &&& new.listeners() == self.listeners()
            },
            MachineIntent::Terminate => {
                &&& new.queue(0) == self.queue(0)
                &&& new.queue(1) == self.queue(1)
                &&& if handle.spec_pool_id() == TCP_SERVER {
                    self.listeners().after_despawn(new.listeners(), handle) && new.handlers() == self.handlers()
                } else {
                    self.handlers().after_despawn(new.handlers(), handle) && new.listeners() == self.listeners()
                }
            },
            _ => {
                &&& new.queue(0) == self.queue(0)
                &&& new.queue(1) == self.queue(1)
                &&& new.listeners() == self.listeners()
                &&& new.handlers() == self.handlers()
            },
        }
    }

    /// `trace` is a run of carrying out `ints` for the machine `handle`,
    /// starting from `self`: one state per intent carried out, each meeting no
    /// fault, up to the end of `ints` or to the first intent that meets one.
    pub open spec fn is_run(self, trace: Seq<Self>, handle: ObjectHandle, ints: Seq<MachineIntent>) -> bool {
        &&& 1 <= trace.len() <= ints.len() + 1
        &&& trace[0] == self
        &&& forall|i: int| 0 <= i < trace.len() - 1 ==> {
            &&& (#[trigger] trace[i].fault_of(handle, ints[i])) is None
            &&& trace[i].intent_step(trace[i + 1], handle, ints[i])
        }
        &&& trace.len() <= ints.len() ==> trace.last().fault_of(handle, ints[trace.len() - 1]) is Some
    }

    /// `new` and `r` are what carrying out the first `n` intents of the
    /// machine `handle` gives from `self`: the state after the last of them,
    /// or the fault of the first intent that meets one.
    pub open spec fn carried_out(self, new: Self, handle: ObjectHandle, n: nat, r: core::result::Result<(), ExecutorFault>) -> bool {
        let ints = self.intents_until(n);
        &&& new.wf()
        &&& exists|trace: Seq<Self>| {
            &&& #[trigger] self.is_run(trace, handle, ints)
            &&& if trace.len() == ints.len() + 1 {
                r is Ok && new == trace.last()
            } else {
                r == Err::<(), ExecutorFault>(trace.last().fault_of(handle, ints[trace.len() - 1])->Some_0)
            }
        }
    }

    /// `new` is what carrying out all first `n` intents of the machine
    /// `handle` leaves of `self`, with `reqs` the I/O requests they produce.
    pub open spec fn completed(self, new: Self, handle: ObjectHandle, n: nat, reqs: Seq<IoRequest>) -> bool {
        &&& reqs == io_requests_of(self.intents_until(n), handle, self.base())
        &&& self.carried_out(new, handle, n, Ok(()))
    }

    /// Whether `ev` names a machine of `self` that is there and cannot take
    /// the event in its state.
    pub open spec fn refuses(self, ev: RunQueueEvent) -> bool {
        let h = ev.handle;
        let idx = h.spec_index() as int;
        if h.spec_pool_id() == TCP_SERVER {
            &&& self.listeners().valid(h)
            &&& self.listeners().objects()[idx] is Some
            &&& !self.listeners().objects()[idx]->Some_0.accepts(ev.reason)
        } else if h.spec_pool_id() == CONN_HANDLER {
            let m = self.handlers().objects()[idx]->Some_0;
            &&& self.handlers().valid(h)
            &&& self.handlers().objects()[idx] is Some
            &&& !(m.wf() && m.accepts(ev.reason) && (m.state_spec() is Recv ==>
                (ev.reason matches MachineEvent::IoCompleted(res, _) ==> m.recv_result_ok(res, self.buffers()))))
        } else {
            false
        }
    }

    /// Handing `ev` to its machine went through, and carrying out the intents
    /// it submitted then met the fault `e`, leaving `new`.
    pub open spec fn failed_with(self, new: Self, ev: RunQueueEvent, e: ExecutorFault) -> bool {
        exists|popped: Self, mid: Self, n: nat, listen: Seq<IoRequest>| {
            &&& #[trigger] self.after_pop(popped)
            &&& #[trigger] popped.dispatched(ev, mid, n, listen)
            &&& #[trigger] mid.carried_out(new, ev.handle, n, Err(e))
        }
    }

    /// `new` is what handling `ev`, the oldest event of the current run
    /// queue, leaves of `self`, with `reqs` the I/O requests it produced: the
    /// event is taken off, the machine it names takes its step, and its
    /// intents are carried out; a listen the machine asked for comes first.
    pub open spec fn ran(self, new: Self, ev: RunQueueEvent, reqs: Seq<IoRequest>) -> bool {
        exists|popped: Self, mid: Self, n: nat, listen: Seq<IoRequest>| {
            &&& #[trigger] self.after_pop(popped)
            &&& #[trigger] popped.dispatched(ev, mid, n, listen)
            &&& #[trigger] mid.completed(new, ev.handle, n, reqs.subrange(listen.len() as int, reqs.len() as int))
            &&& listen.len() <= reqs.len()
            &&& reqs.subrange(0, listen.len() as int) == listen
        }
    }

    /// Takes the oldest event of the current run queue, hands it to the
    /// machine it names and carries out the machine's intents. Returns the
    /// I/O requests to submit, or `None` when the queue is empty.
    pub fn run_next(&mut self) -> (r: core::result::Result<Option<Vec<IoRequest>>, ExecutorFault>)
        requires
            old(self).wf(),
        ensures
            final(self).wf(),
            old(self).queue(old(self).current()).len() == 0 ==> r == Ok::<Option<Vec<IoRequest>>, ExecutorFault>(None)
                && *final(self) == *old(self),
            old(self).queue(old(self).current()).len() > 0 ==> {
                let ev = old(self).queue(old(self).current())[0];
                let pid = ev.handle.spec_pool_id();
                &&& pid != TCP_SERVER && pid != CONN_HANDLER ==> r == Err::<Option<Vec<IoRequest>>, ExecutorFault>(ExecutorFault::UnknownPool)
                &&& old(self).refuses(ev) ==> r == Err::<Option<Vec<IoRequest>>, ExecutorFault>(ExecutorFault::UnexpectedEvent)
                &&& (pid == TCP_SERVER || pid == CONN_HANDLER) && !old(self).refuses(ev) ==> {
                    ||| r matches Ok(Some(reqs)) && old(self).ran(*final(self), ev, reqs@)
                    ||| r matches Err(e) && is_intent_fault(e) && old(self).failed_with(*final(self), ev, e)
                }
            },
    {
        let ghost start = *self;
        proof {
            self.run_queue0.lemma_len_bound();
            self.run_queue1.lemma_len_bound();
        }
        let popped = if self.current_run_queue == 0 { self.run_queue0.pop() } else { self.run_queue1.pop() };
        let event = match popped {
            Some(e) => e,
            None => {
                return Ok(None);
            },
        };
        let ghost after_pop = *self;
        assert(start.after_pop(after_pop));
        let mut requests: Vec<IoRequest> = Vec::new();
        let n = match self.dispatch(event, &mut requests) {
            Ok(n) => n,
            Err(e) => {
                return Err(e);
            },
        };
        let ghost mid = *self;
        let ghost listen = requests@;
        match self.complete_intent(n, event.handle, &mut requests) {
            Ok(()) => {},
            Err(e) => {
                proof {
                    assert(start.failed_with(*self, event, e));
                }
                return Err(e);
            },
        }
        proof {
            assert(requests@.subrange(0, listen.len() as int) =~= listen);
            assert(requests@.subrange(listen.len() as int, requests@.len() as int)
                =~= io_requests_of(mid.intents_until(n as nat), event.handle, mid.base()));
            assert(start.ran(*self, event, requests@));
        }
        Ok(Some(requests))
    }

    /// Hands `event` to the machine it names, submitting its intents to the
    /// context. Returns how many intents it submitted.
    fn dispatch(&mut self, event: RunQueueEvent, requests: &mut Vec<IoRequest>) -> (r: core::result::Result<usize, ExecutorFault>)
        requires
            old(self).wf(),
            old(requests)@ == Seq::<IoRequest>::empty(),
        ensures
            final(self).wf(),
            event.handle.spec_pool_id() != TCP_SERVER && event.handle.spec_pool_id() != CONN_HANDLER ==>
                r == Err::<usize, ExecutorFault>(ExecutorFault::UnknownPool),
            old(self).refuses(event) ==> r == Err::<usize, ExecutorFault>(ExecutorFault::UnexpectedEvent),
            (event.handle.spec_pool_id() == TCP_SERVER || event.handle.spec_pool_id() == CONN_HANDLER)
                && !old(self).refuses(event) ==> r is Ok,
            r matches Ok(n) ==> {
                &&& n <= MAX_INTENTS
                &&& forall|i: int| 0 <= i < n ==> (#[trigger] final(self).ctx.intents@[i]) is Some
                &&& old(self).dispatched(event, *final(self), n as nat, final(requests)@)
            },
    {
        let handle = event.handle;
        let pool_id = handle.pool_id();
        self.ctx.len = 0;
        proof {
            assert(self.ctx.submitted() =~= Seq::<MachineIntent>::empty());
        }
        if pool_id == TCP_SERVER {
            proof {
                self.tcp_listener_pool.lemma_wf();
            }
            let n = match self.tcp_listener_pool.get_mut(handle) {
                Some(listener) => {
                    if !listener.can_process(event.reason) {
                        return Err(ExecutorFault::UnexpectedEvent);
                    }
                    match listener.process_event(&mut self.ctx, event.reason) {
                        Some(req) => {
                            requests.push(IoRequest::Listen { handle, addr: req.addr, backlog: req.backlog });
                        },
                        None => {},
                    }
                    self.ctx.len
                },
                None => 0,
            };
            Ok(n)
        } else if pool_id == CONN_HANDLER {
            proof {
                self.conn_handler_pool.lemma_wf();
            }
            let n = match self.conn_handler_pool.get_mut(handle) {
                Some(conn_handler) => {
                    if !conn_handler.can_process(event.reason, &self.ctx.buffers) {
                        return Err(ExecutorFault::UnexpectedEvent);
                    }
                    conn_handler.process_event(&mut self.ctx, event.reason);
                    self.ctx.len
                },
                None => 0,
            };
            Ok(n)
        } else {
            Err(ExecutorFault::UnknownPool)
        }
    }

    /// Hands the outcome of a listen to the server `handle` and carries out
    /// its intents. Returns the I/O requests to submit.
    pub fn complete_listen(&mut self, handle: ObjectHandle, outcome: Result<i32>)
        -> (r: core::result::Result<Vec<IoRequest>, ExecutorFault>)
        requires
            old(self).wf(),
        ensures
            final(self).wf(),
            r matches Ok(reqs) ==> old(self).took_listen(*final(self), handle, outcome, reqs@),
            r is Err <==> {
                &&& old(self).listeners().valid(handle)
                &&& old(self).listeners().objects()[handle.spec_index() as int] is Some
                &&& !(old(self).listeners().objects()[handle.spec_index() as int]->Some_0.state_spec() is Init)
            },
            r is Err ==> r == Err::<Vec<IoRequest>, ExecutorFault>(ExecutorFault::UnexpectedEvent),
    {
        let mut requests: Vec<IoRequest> = Vec::new();
        self.ctx.len = 0;
        proof {
            assert(self.ctx.submitted() =~= Seq::<MachineIntent>::empty());
            self.tcp_listener_pool.lemma_wf();
        }
        let n = match self.tcp_listener_pool.get_mut(handle) {
            Some(listener) => {
                if !listener.is_starting() {
                    return Err(ExecutorFault::UnexpectedEvent);
                }
                listener.on_listen(&mut self.ctx, outcome);
                self.ctx.len
            },
            None => 0,
        };
        let ghost mid = *self;
        proof {
            assert(old(self).listened(handle, outcome, mid, n as nat));
            let ints = self.intents_until(n as nat);
            let idx = handle.spec_index() as int;
            assert forall|j: int| 0 <= j < n implies never_fails((#[trigger] self.ctx.intents@[j])->Some_0) by {
                assert(ints[j] == self.ctx.intents@[j]->Some_0);
                if old(self).listeners().valid(handle) && old(self).listeners().objects()[idx] is Some {
                    let m = old(self).listeners().objects()[idx]->Some_0;
                    let m2 = self.listeners().objects()[idx]->Some_0;
                    assert(m.listen_step(outcome, m2, Seq::empty(), ints));
                    match outcome {
                        Ok(fd) => {
                            assert(ints == Seq::<MachineIntent>::empty().push(MachineIntent::SubmitMultishotAccept(Fd(fd))));
                            assert(ints.len() == n);
                            assert(j == 0);
                            assert(ints[0] == MachineIntent::SubmitMultishotAccept(Fd(fd)));
                            assert(ints[j] is SubmitMultishotAccept);
                        },
                        Err(_) => {
                            assert(ints.len() == 0);
                        },
                    }
                } else {
                    assert(n == 0);
                }
            }
        }
        match self.complete_intent(n, handle, &mut requests) {
            Ok(()) => {},
            Err(e) => {
                return Err(e);
            },
        }
        proof {
            assert(requests@ =~= io_requests_of(mid.intents_until(n as nat), handle, mid.base()));
            assert(old(self).took_listen(*self, handle, outcome, requests@));
        }
        Ok(requests)
    }

    /// `new` is what handing the listen `outcome` to the server `handle`
    /// leaves of `self`, with `reqs` the I/O requests its intents produced.
    pub open spec fn took_listen(self, new: Self, handle: ObjectHandle, outcome: Result<i32>, reqs: Seq<IoRequest>) -> bool {
        exists|mid: Self, n: nat| {
            &&& #[trigger] self.listened(handle, outcome, mid, n)
            &&& #[trigger] mid.completed(new, handle, n, reqs)
        }
    }

    /// `mid` is what handing the listen `outcome` to the server `handle`
    /// leaves of `self`: a server waiting for it takes it, submitting the
    /// first `n` intents of `mid`; a stale handle reaches no server.
    pub open spec fn listened(self, handle: ObjectHandle, outcome: Result<i32>, mid: Self, n: nat) -> bool {
        let idx = handle.spec_index() as int;
        &&& mid.wf()
        &&& mid.current() == self.current()
        &&& mid.queue_capacity() == self.queue_capacity()
        &&& mid.queue(0) == self.queue(0)
        &&& mid.queue(1) == self.queue(1)
        &&& mid.handlers() == self.handlers()
        &&& mid.buffers() == self.buffers()
        &&& if self.listeners().valid(handle) && self.listeners().objects()[idx] is Some {
            let m = self.listeners().objects()[idx]->Some_0;
            let m2 = mid.listeners().objects()[idx]->Some_0;
            &&& m.state_spec() is Init
            &&& m.listen_step(outcome, m2, Seq::empty(), mid.intents_until(n))
            &&& mid.listeners().objects() == self.listeners().objects().update(idx, Some(m2))
            &&& mid.listeners().allocator() == self.listeners().allocator()
        } else {
            n == 0 && mid.listeners() == self.listeners()
        }
    }

    /// Carries out the first `n` intents that the machine `handle` submitted.
    fn complete_intent(&mut self, n: usize, handle: ObjectHandle, requests: &mut Vec<IoRequest>)
        -> (r: core::result::Result<(), ExecutorFault>)
        requires
            old(self).wf(),
            n <= MAX_INTENTS,
            forall|i: int| 0 <= i < n ==> (#[trigger] old(self).ctx.intents@[i]) is Some,
        ensures
            final(self).wf(),
            old(self).carried_out(*final(self), handle, n as nat, r),
            (forall|j: int| 0 <= j < n ==> never_fails((#[trigger] old(self).ctx.intents@[j])->Some_0)) ==> r is Ok,
            r matches Err(e) ==> is_intent_fault(e),
            r is Ok ==> old(self).completed(*final(self), handle, n as nat, final(requests)@.subrange(
                old(requests)@.len() as int, final(requests)@.len() as int))
                && old(requests)@.len() <= final(requests)@.len()
                && final(requests)@.subrange(0, old(requests)@.len() as int) == old(requests)@,
    {
        let ghost start = *self;
        let ghost start_reqs = requests@;
        let ghost ints = start.intents_until(n as nat);
        let ghost benign = forall|j: int| 0 <= j < n ==> never_fails((#[trigger] start.ctx.intents@[j])->Some_0);
        let ghost mut trace: Seq<Self> = seq![start];
        let mut i: usize = 0;
        while i < n
            invariant
                self.wf(),
                i <= n,
                n <= MAX_INTENTS,
                forall|j: int| 0 <= j < n ==> (#[trigger] self.ctx.intents@[j]) is Some,
                self.ctx.intents@ == start.ctx.intents@,
                self.buffers() == start.buffers(),
                ints == start.intents_until(n as nat),
                requests@ == start_reqs + io_requests_of(start.intents_until(i as nat), handle, start.base()),
                start == *old(self),
                benign == forall|j: int| 0 <= j < n ==> never_fails((#[trigger] start.ctx.intents@[j])->Some_0),
                trace.len() == i + 1,
                trace[0] == start,
                trace.last() == *self,
                forall|k: int| 0 <= k < i ==> {
                    &&& (#[trigger] trace[k].fault_of(handle, ints[k])) is None
                    &&& trace[k].intent_step(trace[k + 1], handle, ints[k])
                },
            decreases n - i,
        {
            let intent = self.ctx.intents[i].unwrap();
            proof {
                assert(intent == start.ctx.intents@[i as int]->Some_0);
                assert(ints[i as int] == intent);
                if !never_fails(intent) {
                    assert(!benign);
                }
                assert(start.intents_until((i + 1) as nat) =~= start.intents_until(i as nat).push(intent));
                lemma_intents_push(start.intents_until(i as nat), intent, handle, start.base());
            }
            let ghost before_self = *self;
            match intent {
                MachineIntent::Retry => {
                    let next = self.next_run_queue_idx();
                    match self.push_event(next, RunQueueEvent { reason: MachineEvent::Spawn, handle }) {
                        Ok(()) => {},
                        Err(e) => {
                            proof {
                                assert(before_self.fault_of(handle, intent) == Some(e));
                                assert(start.is_run(trace, handle, ints));
                            }
                            return Err(e);
                        },
                    }
                },
                MachineIntent::SubmitMultishotAccept(fd) => {
                    requests.push(IoRequest::MultishotAccept { fd, user_data: u64::from(handle) });
                },
                MachineIntent::SpawnConnHandler(fixed) => {
                    if !self.conn_handler_pool.is_ready_to_spawn() {
                        proof {
                            assert(start.is_run(trace, handle, ints));
                        }
                        return Err(ExecutorFault::SlotTaken);
                    }
                    proof {
                        self.conn_handler_pool.lemma_wf();
                        self.conn_handler_pool.allocator().lemma_wf();
                    }
                    let handler = ConnHandler::new(fixed.0);
                    let spawned = match self.conn_handler_pool.spawn(handler) {
                        Some(h) => h,
                        None => {
                            proof {
                                assert(start.is_run(trace, handle, ints));
                            }
                            return Err(ExecutorFault::PoolFull);
                        },
                    };
                    let current = self.current_run_queue;
                    match self.push_event(current, RunQueueEvent { reason: MachineEvent::Spawn, handle: spawned }) {
                        Ok(()) => {},
                        Err(e) => {
                            proof {
                                assert(before_self.fault_of(handle, intent) == Some(e));
                                assert(start.is_run(trace, handle, ints));
                            }
                            return Err(e);
                        },
                    }
                },
                MachineIntent::SubmitRecv(fixed, buffer_id, offset) => {
                    let offset = offset as usize;
                    proof {
                        self.ctx.buffers.lemma_wf();
                    }
                    let buf_size = self.ctx.buffers.pool().buf_size();
                    if offset >= buf_size {
                        proof {
                            assert(start.is_run(trace, handle, ints));
                        }
                        return Err(ExecutorFault::BufferOffset);
                    }
                    if !self.ctx.buffers.is_valid(buffer_id) {
                        proof {
                            assert(start.is_run(trace, handle, ints));
                        }
                        return Err(ExecutorFault::StaleBuffer);
                    }
                    let addr = self.buffer_address(buffer_id, offset);
                    let remaining_len = (buf_size - offset) as u32;
                    requests.push(IoRequest::ReadFixed {
                        fixed,
                        buf_addr: addr,
                        len: remaining_len,
                        buf_index: #[verifier::truncate] (buffer_id.0.index as u16),
                        user_data: u64::from(handle),
                    });
                },
                MachineIntent::CloseFixed(fixed) => {
                    requests.push(IoRequest::CloseFixed { fixed, user_data: u64::from(handle) });
                },
                MachineIntent::Terminate => {
                    let pool_id = handle.pool_id();
                    if pool_id == TCP_SERVER {
                        self.tcp_listener_pool.despawn(handle);
                    } else if pool_id == CONN_HANDLER {
                        self.conn_handler_pool.despawn(handle);
                    } else {
                        proof {
                            assert(start.is_run(trace, handle, ints));
                        }
                        return Err(ExecutorFault::UnknownPool);
                    }
                },
            }
            proof {
                assert(before_self.fault_of(handle, intent) is None);
                assert(before_self.intent_step(*self, handle, intent));
                trace = trace.push(*self);
            }
            i = i + 1;
        }
        proof {
            assert(start.is_run(trace, handle, ints));
            assert(requests@.subrange(0, start_reqs.len() as int) =~= start_reqs);
            assert(requests@.subrange(start_reqs.len() as int, requests@.len() as int)
                =~= io_requests_of(start.intents_until(n as nat), handle, start.base()));
        }
        Ok(())
    }

    /// The address of byte `offset` of the buffer `handle` names.
    fn buffer_address(&self, handle: BufferHandle, offset: usize) -> (a: usize)
        requires
            self.wf(),
            self.buffers().valid(handle),
            offset < IO_BUF_SIZE,
        ensures
            a == self.buffers().buffers().address() + handle.0.index * IO_BUF_SIZE + offset,
    {
        proof {
            self.ctx.buffers.lemma_wf();
            self.ctx.buffers.buffers().lemma_address_bound();
            assert(handle.0.index * IO_BUF_SIZE + IO_BUF_SIZE <= self.buffers().buffers().num_buffers() * IO_BUF_SIZE)
                by (nonlinear_arith)
                requires handle.0.index < self.buffers().buffers().num_buffers();
        }
        self.ctx.buffers.buf_ptr(handle) + offset
    }
}

} // verus!
