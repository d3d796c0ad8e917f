use hoarder::blob_error::HoarderError;
use hoarder::mem::BufferPool;
use hoarder::protocol::{ExecutorContext, Fixed, MachineEvent, MachineIntent};
use hoarder::state_machine::basic_conn_handler::{ConnHandler, ConnHandlerState, RecvPhase};

fn context(buffers: u32) -> ExecutorContext {
    ExecutorContext { intents: vec![None; 16], len: 0, buffers: BufferPool::new(buffers).unwrap() }
}

#[test]
fn basic_handler_receives_and_counts() {
    let mut ctx = context(2);
    let mut ch = ConnHandler::new(3);
    ch.process_event(&mut ctx, MachineEvent::Spawn);
    assert_eq!(ch.state, ConnHandlerState::Recv(RecvPhase::ReceivingHeader));
    let buf = match ctx.intents[0] {
        Some(MachineIntent::SubmitRecv(fixed, buf, 0)) => {
            assert_eq!(fixed, Fixed(3));
            buf
        }
        other => panic!("unexpected intent {:?}", other),
    };
    assert!(ctx.buffers.is_valid(buf));
    ctx.len = 0;

    ch.process_event(&mut ctx, MachineEvent::IoCompleted(10, 0));
    assert_eq!(ctx.len, 1);
    assert_eq!(ctx.intents[0], Some(MachineIntent::SubmitRecv(Fixed(3), buf, 10)));
    ctx.len = 0;

    // An error counts no bytes.
    ch.process_event(&mut ctx, MachineEvent::IoCompleted(-11, 0));
    assert_eq!(ctx.intents[0], Some(MachineIntent::SubmitRecv(Fixed(3), buf, 10)));
}

#[test]
fn basic_handler_without_buffer_fails() {
    let mut ctx = context(1);
    let _taken = ctx.buffers.allocate().unwrap();
    let mut ch = ConnHandler::new(3);
    let state = ch.on_init(&mut ctx);
    assert_eq!(state, ConnHandlerState::Error(HoarderError::BufferAllocFail));
    assert_eq!(ctx.len, 0);
}
