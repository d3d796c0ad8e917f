use hoarder::error::HoarderError;
use hoarder::mem::BufferPool;
use hoarder::protocol::{more_io, ExecutorContext, Fd, Fixed, MachineEvent, MachineIntent};
use hoarder::state_machine::tcp_server::{TcpServer, TcpServerState};

fn context() -> ExecutorContext {
    ExecutorContext { intents: vec![None; 16], len: 0, buffers: BufferPool::new(1).unwrap() }
}

fn submitted(ctx: &ExecutorContext) -> Vec<MachineIntent> {
    ctx.intents[..ctx.len].iter().map(|i| i.unwrap()).collect()
}

#[test]
fn more_flag_is_the_second_bit() {
    assert!(more_io(2));
    assert!(more_io(3));
    assert!(!more_io(0));
    assert!(!more_io(1));
}

#[test]
fn spawn_asks_for_the_listening_socket() {
    let mut ctx = context();
    let mut server = TcpServer::new("127.0.0.1:9000", 16);
    assert!(server.is_starting());
    assert!(server.can_process(MachineEvent::Spawn));
    assert!(!server.can_process(MachineEvent::IoCompleted(0, 0)));
    let req = server.process_event(&mut ctx, MachineEvent::Spawn).unwrap();
    assert_eq!(req.addr, "127.0.0.1:9000");
    assert_eq!(req.backlog, 16);
    assert_eq!(ctx.len, 0);
    assert_eq!(server.state, TcpServerState::Init);
}

#[test]
fn listening_arms_the_accept() {
    let mut ctx = context();
    let mut server = TcpServer::new("0.0.0.0:3000", 4096);
    server.on_listen(&mut ctx, Ok(7));
    assert_eq!(server.state, TcpServerState::Accepting);
    assert_eq!(submitted(&ctx), vec![MachineIntent::SubmitMultishotAccept(Fd(7))]);
    assert!(!server.is_starting());
    assert!(!server.can_process(MachineEvent::Spawn));
}

#[test]
fn failed_listen_is_an_error_state() {
    let mut ctx = context();
    let mut server = TcpServer::new("0.0.0.0:3000", 4096);
    server.on_listen(&mut ctx, Err(HoarderError::IoError(98)));
    assert_eq!(server.state, TcpServerState::Error(HoarderError::IoError(98)));
    assert_eq!(ctx.len, 0);
}

#[test]
fn accepted_connection_spawns_a_handler_and_rearms() {
    let mut ctx = context();
    let mut server = TcpServer::new("0.0.0.0:3000", 4096);
    server.on_listen(&mut ctx, Ok(7));
    ctx.len = 0;
    let asked = server.process_event(&mut ctx, MachineEvent::IoCompleted(5, 0));
    assert!(asked.is_none());
    assert_eq!(
        submitted(&ctx),
        vec![MachineIntent::SpawnConnHandler(Fixed(5)), MachineIntent::SubmitMultishotAccept(Fd(7))]
    );
}

#[test]
fn accepted_connection_with_more_to_come_does_not_rearm() {
    let mut ctx = context();
    let mut server = TcpServer::new("0.0.0.0:3000", 4096);
    server.on_listen(&mut ctx, Ok(7));
    ctx.len = 0;
    server.process_event(&mut ctx, MachineEvent::IoCompleted(5, 2));
    assert_eq!(submitted(&ctx), vec![MachineIntent::SpawnConnHandler(Fixed(5))]);
    assert_eq!(server.state, TcpServerState::Accepting);
}

#[test]
fn failed_accept_is_an_error_state() {
    let mut ctx = context();
    let mut server = TcpServer::new("0.0.0.0:3000", 4096);
    server.on_listen(&mut ctx, Ok(7));
    ctx.len = 0;
    server.process_event(&mut ctx, MachineEvent::IoCompleted(-24, 0));
    assert_eq!(server.state, TcpServerState::Error(HoarderError::IoError(-24)));
    assert_eq!(ctx.len, 0);
    // Later completions change nothing.
    server.process_event(&mut ctx, MachineEvent::IoCompleted(3, 0));
    assert_eq!(server.state, TcpServerState::Error(HoarderError::IoError(-24)));
    assert_eq!(ctx.len, 0);
}
