use hoarder::mem::BufferPool;
use hoarder::protocol::{ExecutorContext, MachineEvent, MachineIntent, MsgHeader, IO_BUF_ALIGN, IO_BUF_SIZE};
use hoarder::state_machine::conn_handler::{ConnHandler, ConnHandlerState, RecvPhase};

pub struct TestEnv {
    pub ctx: ExecutorContext,
}

impl TestEnv {
    pub fn new() -> Self {
        Self { ctx: ExecutorContext { intents: vec![None; 16], len: 0, buffers: BufferPool::new(4).unwrap() } }
    }

    /// The ExecutorContext of this environment
    pub fn context(&mut self) -> &mut ExecutorContext {
        &mut self.ctx
    }
}

fn header_bytes(hdr: &MsgHeader) -> Vec<u8> {
    let mut bytes = hdr.magic.to_ne_bytes().to_vec();
    bytes.push(hdr.cmd);
    bytes
}

#[test]
fn test_valid_state_transitions() {
    let mut env = TestEnv::new();
    let ctx = env.context();

    let mut ch = ConnHandler::new(1);

    ch.process_event(ctx, MachineEvent::Spawn);
    assert!(matches!(ch.state, ConnHandlerState::Recv(_)));
    ctx.len = 0;

    let test_data = "TEST".as_bytes();
    ctx.buffers.get_mut(ch.buf_handle()).unwrap()[..test_data.len()].copy_from_slice(test_data);
    ch.process_event(ctx, MachineEvent::IoCompleted(test_data.len() as i32, 0));
    assert!(matches!(ch.state, ConnHandlerState::Recv(_)));
    assert!(ctx.len == 1);
    ctx.len = 0;

    ch.process_event(ctx, MachineEvent::IoCompleted(0, 0));
    assert!(matches!(ch.state, ConnHandlerState::Closing));
    ctx.len = 0;

    ch.process_event(ctx, MachineEvent::IoCompleted(0, 0));
    assert!(matches!(ch.state, ConnHandlerState::Closed));
    ctx.len = 0;
}

#[test]
fn test_should_parse_valid_msgs() {
    let mut env = TestEnv::new();
    let ctx = env.context();

    let hdr = MsgHeader { magic: 0x1234, cmd: 1 };
    let bytes = header_bytes(&hdr);

    let mut ch = ConnHandler::new(1);
    ch.process_event(ctx, MachineEvent::Spawn);
    assert!(matches!(ch.state, ConnHandlerState::Recv(_)));
    ctx.len = 0;

    ctx.buffers.get_mut(ch.buf_handle()).unwrap()[..5].copy_from_slice(&bytes);
    ch.process_event(ctx, MachineEvent::IoCompleted(bytes.len() as i32, 0));
    match ch.state {
        ConnHandlerState::Recv(RecvPhase::ReceivingBody { header }) => {
            assert_eq!(header, hdr);
        }
        _ => assert!(false),
    }
    ctx.len = 0;
}

#[test]
fn spawn_without_free_buffer_asks_for_retry() {
    let mut pool: BufferPool<IO_BUF_SIZE, IO_BUF_ALIGN> = BufferPool::new(1).unwrap();
    let _taken = pool.allocate().unwrap();
    let mut ctx = ExecutorContext { intents: vec![None; 16], len: 0, buffers: pool };
    let mut ch = ConnHandler::new(3);
    ch.process_event(&mut ctx, MachineEvent::Spawn);
    assert!(matches!(ch.state, ConnHandlerState::Init));
    assert_eq!(ctx.len, 1);
    assert_eq!(ctx.intents[0], Some(MachineIntent::Retry));
}

#[test]
fn spawn_submits_a_receive_into_the_new_buffer() {
    let mut env = TestEnv::new();
    let ctx = env.context();
    let mut ch = ConnHandler::new(7);
    ch.process_event(ctx, MachineEvent::Spawn);
    let h = ch.buf_handle();
    assert_eq!(ctx.len, 1);
    match ctx.intents[0] {
        Some(MachineIntent::SubmitRecv(fixed, handle, offset)) => {
            assert_eq!(fixed.0, 7);
            assert_eq!(handle, h);
            assert_eq!(offset, 0);
        }
        _ => panic!("expected a receive"),
    }
}

#[test]
fn partial_header_keeps_receiving_at_the_new_offset() {
    let mut env = TestEnv::new();
    let ctx = env.context();
    let mut ch = ConnHandler::new(1);
    ch.process_event(ctx, MachineEvent::Spawn);
    ctx.len = 0;
    ch.process_event(ctx, MachineEvent::IoCompleted(3, 0));
    assert!(matches!(ch.state, ConnHandlerState::Recv(RecvPhase::ReceivingHeader)));
    assert_eq!(ctx.len, 1);
    assert!(matches!(ctx.intents[0], Some(MachineIntent::SubmitRecv(_, _, 3))));
}

#[test]
fn transient_error_resubmits_twice() {
    let mut env = TestEnv::new();
    let ctx = env.context();
    let mut ch = ConnHandler::new(1);
    ch.process_event(ctx, MachineEvent::Spawn);
    ctx.len = 0;
    ch.process_event(ctx, MachineEvent::IoCompleted(-11, 0)); // EAGAIN
    assert!(matches!(ch.state, ConnHandlerState::Recv(RecvPhase::ReceivingHeader)));
    assert_eq!(ctx.len, 2);
    assert!(matches!(ctx.intents[0], Some(MachineIntent::SubmitRecv(_, _, 0))));
    assert!(matches!(ctx.intents[1], Some(MachineIntent::SubmitRecv(_, _, 0))));
}

#[test]
fn unknown_error_resubmits_once() {
    let mut env = TestEnv::new();
    let ctx = env.context();
    let mut ch = ConnHandler::new(1);
    ch.process_event(ctx, MachineEvent::Spawn);
    ctx.len = 0;
    ch.process_event(ctx, MachineEvent::IoCompleted(-2, 0)); // ENOENT
    assert!(matches!(ch.state, ConnHandlerState::Recv(RecvPhase::ReceivingHeader)));
    assert_eq!(ctx.len, 1);
}

#[test]
fn disconnect_error_closes_and_frees_the_buffer() {
    let mut env = TestEnv::new();
    let ctx = env.context();
    let mut ch = ConnHandler::new(5);
    ch.process_event(ctx, MachineEvent::Spawn);
    let h = ch.buf_handle();
    ctx.len = 0;
    ch.process_event(ctx, MachineEvent::IoCompleted(-104, 0)); // ECONNRESET
    assert!(matches!(ch.state, ConnHandlerState::Closing));
    assert_eq!(ctx.len, 2);
    assert!(matches!(ctx.intents[0], Some(MachineIntent::CloseFixed(f)) if f.0 == 5));
    assert!(matches!(ctx.intents[1], Some(MachineIntent::SubmitRecv(_, _, 0))));
    assert!(ctx.buffers.get(h).is_none());
}

#[test]
fn failed_close_is_tried_again_then_terminates() {
    let mut env = TestEnv::new();
    let ctx = env.context();
    let mut ch = ConnHandler::new(2);
    ch.process_event(ctx, MachineEvent::Spawn);
    ch.process_event(ctx, MachineEvent::IoCompleted(0, 0));
    ctx.len = 0;
    ch.process_event(ctx, MachineEvent::IoCompleted(-9, 0));
    assert!(matches!(ch.state, ConnHandlerState::Closing));
    assert!(matches!(ctx.intents[0], Some(MachineIntent::CloseFixed(_))));
    ctx.len = 0;
    ch.process_event(ctx, MachineEvent::IoCompleted(0, 0));
    assert!(matches!(ch.state, ConnHandlerState::Closed));
    assert_eq!(ctx.intents[0], Some(MachineIntent::Terminate));
    ctx.len = 0;
    ch.process_event(ctx, MachineEvent::IoCompleted(0, 0));
    assert!(matches!(ch.state, ConnHandlerState::Closed));
    assert_eq!(ctx.len, 0);
}

#[test]
fn header_is_read_from_bytes() {
    assert!(MsgHeader::read_from_bytes(&[1, 2, 3]).is_none());
    let h = MsgHeader::read_from_bytes(&header_bytes(&MsgHeader { magic: 0xdeadbeef, cmd: 9 })).unwrap();
    assert_eq!(h, MsgHeader { magic: 0xdeadbeef, cmd: 9 });
}
