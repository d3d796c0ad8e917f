use vstd::prelude::*;

use crate::error::HoarderError;
use crate::protocol::{more_flag_set, more_io, ExecutorContext, Fd, Fixed, MachineEvent, MachineIntent};

verus! {

/// The state machine of the listening socket: once listening, it asks for
/// connections to be accepted and starts a connection handler for each one.
pub struct TcpServer {
    pub state: TcpServerState,
    addr: &'static str,
    backlog: u16,
    listener_fd: i32,
}

/// Where the listening socket stands.
#[derive(Debug, Clone, Copy, PartialEq, Eq, Structural)]
pub enum TcpServerState {
    Init,
    Accepting,
    Error(HoarderError),
}

/// What the server asks of its surroundings when it starts: a socket bound to
/// `addr` and listening with the given backlog.
#[derive(Debug, Clone, Copy)]
pub struct ListenRequest {
    pub addr: &'static str,
    pub backlog: u16,
}

impl TcpServer {
    /// The state the server is in.
    pub closed spec fn state_spec(&self) -> TcpServerState {
        self.state
    }

    /// The address to listen on.
    pub closed spec fn addr_spec(&self) -> &'static str {
        self.addr
    }

    /// The listen backlog.
    pub closed spec fn backlog_spec(&self) -> u16 {
        self.backlog
    }

    /// The listening socket, once there is one; -1 before.
    pub closed spec fn listener_spec(&self) -> i32 {
        self.listener_fd
    }

    /// A server for `addr`, not yet listening.
    pub fn new(addr: &'static str, backlog: u16) -> (s: Self)
        ensures
            s.state_spec() == TcpServerState::Init,
            s.addr_spec() == addr,
            s.backlog_spec() == backlog,
            s.listener_spec() == -1,
    {
        TcpServer { state: TcpServerState::Init, addr, backlog, listener_fd: -1 }
    }

    /// Whether the server can take `event` in its current state: a spawn
    /// only at the start, a completion only after it.
    pub open spec fn accepts(&self, event: MachineEvent) -> bool {
        match event {
            MachineEvent::Spawn => self.state_spec() is Init,
            MachineEvent::IoCompleted(_, _) => !(self.state_spec() is Init),
        }
    }

    /// How many intents handling `event` submits: two for an accepted
    /// connection that re-arms the accept, one when more will follow, none
    /// otherwise.
    pub open spec fn room_needed(&self, event: MachineEvent) -> nat {
        match event {
            MachineEvent::Spawn => 0,
            MachineEvent::IoCompleted(res, flags) => if self.state_spec() is Accepting && res >= 0 {
                if more_flag_set(flags) { 1 } else { 2 }
            } else {
                0
            },
        }
    }

    /// Whether `process_event` can take `event`.
    pub fn can_process(&self, event: MachineEvent) -> (b: bool)
        ensures
            b == self.accepts(event),
    {
        match (event, self.state) {
            (MachineEvent::Spawn, TcpServerState::Init) => true,
            (MachineEvent::Spawn, _) => false,
            (MachineEvent::IoCompleted(_, _), TcpServerState::Init) => false,
            (MachineEvent::IoCompleted(_, _), _) => true,
        }
    }

    /// Whether the server waits for the outcome of its listen.
    pub fn is_starting(&self) -> (b: bool)
        ensures
            b == (self.state_spec() is Init),
    {
        match self.state {
            TcpServerState::Init => true,
            _ => false,
        }
    }

    /// The transition `process_event` makes: from `self` on `event` to
    /// `new`, asking for `listen`, with the intents going from `before` to
    /// `after`.
    pub open spec fn step(
        self,
        event: MachineEvent,
        new: Self,
        listen: Option<ListenRequest>,
        before: Seq<MachineIntent>,
        after: Seq<MachineIntent>,
    ) -> bool {
        &&& new.addr_spec() == self.addr_spec()
        &&& new.backlog_spec() == self.backlog_spec()
        &&& new.listener_spec() == self.listener_spec()
        &&& match event {
            MachineEvent::Spawn => {
                &&& listen == Some(ListenRequest { addr: self.addr_spec(), backlog: self.backlog_spec() })
                &&& new == self
                &&& after == before
            },
            MachineEvent::IoCompleted(res, flags) => {
                &&& listen is None
                &&& if self.state_spec() is Accepting {
                    if res < 0 {
                        &&& new.state_spec() == TcpServerState::Error(HoarderError::IoError(res))
                        &&& after == before
                    } else {
                        let spawn = before.push(MachineIntent::SpawnConnHandler(Fixed(res as u32)));
                        &&& new.state_spec() == self.state_spec()
                        &&& after == if more_flag_set(flags) {
                            spawn
                        } else {
                            spawn.push(MachineIntent::SubmitMultishotAccept(Fd(self.listener_spec())))
                        }
                    }
                } else {
                    new == self && after == before
                }
            },
        }
    }

    /// While accepting, every completion with a non-negative result is a new
    /// connection at that registered descriptor: the server stays accepting
    /// and the first intent it submits starts a handler there. Only a
    /// negative result is a failure, which moves it to `Error`.
    pub proof fn lemma_accept_outcome(
        self,
        res: i32,
        flags: u32,
        new: Self,
        listen: Option<ListenRequest>,
        before: Seq<MachineIntent>,
        after: Seq<MachineIntent>,
    )
        requires
            self.state_spec() is Accepting,
            self.step(MachineEvent::IoCompleted(res, flags), new, listen, before, after),
        ensures
            listen is None,
            res >= 0 ==> {
                &&& new.state_spec() is Accepting
                &&& after.len() > before.len()
                &&& after.subrange(0, before.len() as int) == before
                &&& after[before.len() as int] == MachineIntent::SpawnConnHandler(Fixed(res as u32))
            },
            res < 0 ==> new.state_spec() is Error && after == before,
    {
        if res >= 0 {
            let spawn = before.push(MachineIntent::SpawnConnHandler(Fixed(res as u32)));
            assert(spawn.subrange(0, before.len() as int) =~= before);
            assert(spawn.push(MachineIntent::SubmitMultishotAccept(Fd(self.listener_spec()))).subrange(0, before.len() as int) =~= before);
        }
    }

    /// `new` is what `on_listen(outcome)` leaves of `self`, with the intents
    /// going from `before` to `after`.
    pub open spec fn listen_step(
        self,
        outcome: Result<i32, HoarderError>,
        new: Self,
        before: Seq<MachineIntent>,
        after: Seq<MachineIntent>,
    ) -> bool {
        &&& new.addr_spec() == self.addr_spec()
        &&& new.backlog_spec() == self.backlog_spec()
        &&& match outcome {
            Ok(fd) => {
                &&& new.listener_spec() == fd
                &&& new.state_spec() == TcpServerState::Accepting
                &&& after == before.push(MachineIntent::SubmitMultishotAccept(Fd(fd)))
            },
            Err(e) => {
                &&& new.listener_spec() == self.listener_spec()
                &&& new.state_spec() == TcpServerState::Error(e)
                &&& after == before
            },
        }
    }

    /// Handles `event`.
    ///
    /// - `Spawn` asks for the listening socket: the result is a request, and
    ///   `on_listen` takes the outcome. The state stays `Init` until then.
    /// - An accepted connection starts a connection handler on its
    ///   registered descriptor, and re-arms the accept when the completion
    ///   says no more will follow; a failed accept moves to `Error`, which
    ///   keeps the completion's (negative) result as it came.
    /// - In `Error`, completions change nothing.
    pub fn process_event(&mut self, ctx: &mut ExecutorContext, event: MachineEvent) -> (listen: Option<ListenRequest>)
        requires
            old(self).accepts(event),
            old(ctx).wf(),
            old(ctx).len + old(self).room_needed(event) <= old(ctx).intents@.len(),
        ensures
            final(ctx).wf(),
            final(ctx).intents@.len() == old(ctx).intents@.len(),
            final(ctx).buffers == old(ctx).buffers,
            old(self).step(event, *final(self), listen, old(ctx).submitted(), final(ctx).submitted()),
    {
        match event {
            MachineEvent::Spawn => Some(ListenRequest { addr: self.addr, backlog: self.backlog }),
            MachineEvent::IoCompleted(res, flags) => {
                match self.state {
                    TcpServerState::Accepting => {
                        if res < 0 {
                            self.state = TcpServerState::Error(HoarderError::from(res));
                            return None;
                        }
                        let direct_descriptor_idx = Fixed(res as u32);
                        ctx.submit_intent(MachineIntent::SpawnConnHandler(direct_descriptor_idx));
                        if !more_io(flags) {
                            self.multishot_accept(ctx);
                        }
                    },
                    _ => {},
                }
                None
            },
        }
    }

    /// Takes the outcome of the listen that `process_event` asked for: the
    /// listening socket's descriptor, or the error. On success the server
    /// asks for connections to be accepted on it and moves to `Accepting`;
    /// on failure it moves to `Error`.
    pub fn on_listen(&mut self, ctx: &mut ExecutorContext, outcome: Result<i32, HoarderError>)
        requires
            old(self).state_spec() is Init,
            old(ctx).wf(),
            old(ctx).len < old(ctx).intents@.len(),
        ensures
            final(ctx).wf(),
            final(ctx).intents@.len() == old(ctx).intents@.len(),
            final(ctx).buffers == old(ctx).buffers,
            old(self).listen_step(outcome, *final(self), old(ctx).submitted(), final(ctx).submitted()),
    {
        match outcome {
            Ok(fd) => {
                self.listener_fd = fd;
                self.multishot_accept(ctx);
                self.state = TcpServerState::Accepting;
            },
            Err(e) => {
                self.state = TcpServerState::Error(e);
            },
        }
    }

    fn multishot_accept(&self, ctx: &mut ExecutorContext)
        requires
            old(ctx).wf(),
            old(ctx).len < old(ctx).intents@.len(),
        ensures
            final(ctx).wf(),
            final(ctx).intents@.len() == old(ctx).intents@.len(),
            final(ctx).len == old(ctx).len + 1,
            final(ctx).buffers == old(ctx).buffers,
            final(ctx).submitted() == old(ctx).submitted().push(MachineIntent::SubmitMultishotAccept(Fd(self.listener_spec()))),
    {
        ctx.submit_intent(MachineIntent::SubmitMultishotAccept(Fd(self.listener_fd)));
    }
}

} // verus!
