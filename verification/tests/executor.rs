use hoarder::executor::{Executor, ExecutorFault, IoRequest, CONN_HANDLER, LISTEN_ADDR, LISTEN_BACKLOG, TCP_SERVER};
use hoarder::mem::ObjectHandle;
use hoarder::protocol::{Fd, Fixed};

fn started() -> (Executor, ObjectHandle) {
    started_with(4)
}

fn started_with(conn_handlers: u32) -> (Executor, ObjectHandle) {
    let mut ex = Executor::new(1, conn_handlers, 2).unwrap();
    ex.seed_run_queue().unwrap();
    let reqs = ex.run_next().unwrap().unwrap();
    assert_eq!(reqs.len(), 1);
    let handle = match reqs[0] {
        IoRequest::Listen { handle, addr, backlog } => {
            assert_eq!(addr, LISTEN_ADDR);
            assert_eq!(backlog, LISTEN_BACKLOG);
            handle
        }
        other => panic!("unexpected request {:?}", other),
    };
    assert_eq!(handle.pool_id(), TCP_SERVER);
    assert!(ex.run_next().unwrap().is_none());
    (ex, handle)
}

#[test]
fn new_executor_has_its_capacities() {
    let ex = Executor::new(1, 4, 2).unwrap();
    assert_eq!(ex.conn_handler_capacity(), 4);
    assert_eq!(ex.io_buffers().count(), 2);
    assert_eq!(ex.io_buffers().buf_size(), 0x1000);
    assert_eq!(ex.next_run_queue_idx(), 1);
}

#[test]
fn empty_queue_gives_nothing() {
    let mut ex = Executor::new(1, 4, 2).unwrap();
    assert!(ex.run_next().unwrap().is_none());
}

#[test]
fn listen_outcome_arms_the_accept() {
    let (mut ex, handle) = started();
    let reqs = ex.complete_listen(handle, Ok(7)).unwrap();
    assert_eq!(reqs.len(), 1);
    match reqs[0] {
        IoRequest::MultishotAccept { fd, user_data } => {
            assert_eq!(fd, Fd(7));
            assert_eq!(user_data, u64::from(handle));
        }
        other => panic!("unexpected request {:?}", other),
    }
    // A second outcome for the same server is refused.
    assert_eq!(ex.complete_listen(handle, Ok(8)).unwrap_err(), ExecutorFault::UnexpectedEvent);
}

#[test]
fn accepted_connection_reaches_a_receive() {
    let (mut ex, handle) = started();
    ex.complete_listen(handle, Ok(7)).unwrap();

    // The accept completes into registered descriptor 5, with no more to come.
    ex.push_completion(5, 0, u64::from(handle)).unwrap();
    ex.switch_run_queue();
    let reqs = ex.run_next().unwrap().unwrap();
    assert_eq!(reqs.len(), 1);
    assert!(matches!(reqs[0], IoRequest::MultishotAccept { fd: Fd(7), .. }));

    // The new handler runs on the same round and asks for a receive.
    let reqs = ex.run_next().unwrap().unwrap();
    assert_eq!(reqs.len(), 1);
    match reqs[0] {
        IoRequest::ReadFixed { fixed, buf_addr, len, buf_index, user_data } => {
            assert_eq!(fixed, Fixed(5));
            assert_eq!(len, 0x1000);
            assert_eq!(buf_addr, ex.io_buffers().buf_ptr(buf_index as usize));
            let conn = ObjectHandle::from(user_data);
            assert_eq!(conn.pool_id(), CONN_HANDLER);
        }
        other => panic!("unexpected request {:?}", other),
    }
    assert!(ex.run_next().unwrap().is_none());
}

#[test]
fn accept_with_more_to_come_is_not_rearmed() {
    let (mut ex, handle) = started();
    ex.complete_listen(handle, Ok(7)).unwrap();
    ex.push_completion(5, 2, u64::from(handle)).unwrap();
    ex.switch_run_queue();
    let reqs = ex.run_next().unwrap().unwrap();
    assert!(reqs.is_empty());
}

#[test]
fn completion_for_an_unknown_pool_is_a_fault() {
    let mut ex = Executor::new(1, 4, 2).unwrap();
    ex.push_completion(0, 0, 9u64 << 56).unwrap();
    ex.switch_run_queue();
    assert_eq!(ex.run_next().unwrap_err(), ExecutorFault::UnknownPool);
}

#[test]
fn completion_for_a_stale_handle_reaches_no_machine() {
    let (mut ex, handle) = started();
    let stale = ObjectHandle::from(u64::from(handle) + 1);
    ex.push_completion(5, 0, u64::from(stale)).unwrap();
    ex.switch_run_queue();
    let reqs = ex.run_next().unwrap().unwrap();
    assert!(reqs.is_empty());
}

#[test]
fn full_handler_pool_is_a_fault() {
    let mut ex = Executor::new(1, 1, 2).unwrap();
    ex.seed_run_queue().unwrap();
    let reqs = ex.run_next().unwrap().unwrap();
    let handle = match reqs[0] {
        IoRequest::Listen { handle, .. } => handle,
        other => panic!("unexpected request {:?}", other),
    };
    ex.complete_listen(handle, Ok(7)).unwrap();
    ex.push_completion(5, 2, u64::from(handle)).unwrap();
    ex.push_completion(6, 2, u64::from(handle)).unwrap();
    ex.switch_run_queue();
    assert!(ex.run_next().unwrap().unwrap().is_empty());
    assert_eq!(ex.run_next().unwrap_err(), ExecutorFault::PoolFull);
}

#[test]
fn terminated_handler_frees_its_slot() {
    // One slot only, so the next connection can only land where the first was.
    let (mut ex, handle) = started_with(1);
    ex.complete_listen(handle, Ok(7)).unwrap();
    ex.push_completion(5, 2, u64::from(handle)).unwrap();
    ex.switch_run_queue();
    assert!(ex.run_next().unwrap().unwrap().is_empty());
    let first = match ex.run_next().unwrap().unwrap()[0] {
        IoRequest::ReadFixed { user_data, .. } => ObjectHandle::from(user_data),
        other => panic!("unexpected request {:?}", other),
    };

    // The peer hangs up: the handler closes the socket, then terminates.
    ex.push_completion(0, 0, u64::from(first)).unwrap();
    ex.switch_run_queue();
    let reqs = ex.run_next().unwrap().unwrap();
    assert!(matches!(reqs[0], IoRequest::CloseFixed { fixed: Fixed(5), .. }));
    ex.push_completion(0, 0, u64::from(first)).unwrap();
    ex.switch_run_queue();
    assert!(ex.run_next().unwrap().unwrap().is_empty());

    // The slot is free again: the next connection gets it, one generation on.
    ex.push_completion(6, 2, u64::from(handle)).unwrap();
    ex.switch_run_queue();
    assert!(ex.run_next().unwrap().unwrap().is_empty());
    let second = match ex.run_next().unwrap().unwrap()[0] {
        IoRequest::ReadFixed { user_data, .. } => ObjectHandle::from(user_data),
        other => panic!("unexpected request {:?}", other),
    };
    assert_eq!(second.index(), first.index());
    assert_eq!(second.generation(), first.generation() + 1);
}
