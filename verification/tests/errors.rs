use hoarder::blob_error::HoarderError as MachineError;
use hoarder::error::{Errno, HoarderError};

#[test]
fn errno_from_negative_syscall_result() {
    let e = Errno::from_raw_syscall_error(-11);
    assert_eq!(e, Errno(Errno::EAGAIN));
    assert_eq!(e.raw(), 11);
    assert_eq!(Errno::from_raw_syscall_error(-4).raw(), Errno::EINTR);
}

#[test]
fn errno_converts_both_ways() {
    let e = Errno::from(104);
    assert_eq!(e.0, Errno::ECONNRESET);
    assert_eq!(i32::from(e), 104);
}

#[test]
fn hoarder_error_from_errno_and_raw_code() {
    assert!(matches!(HoarderError::from(Errno(9)), HoarderError::IoError(9)));
    assert!(matches!(HoarderError::from(12), HoarderError::IoError(12)));
}

#[test]
fn describe_gives_each_message() {
    assert_eq!(HoarderError::PushError.describe(), "failed to push entry to queue");
    assert_eq!(HoarderError::MemAllocFail.describe(), "failed to allocate memory");
    assert_eq!(HoarderError::BufferAllocFail.describe(), "failed to allocate buffer");
    assert_eq!(HoarderError::IoError(2).describe(), "os error: 2");
    assert_eq!(HoarderError::IoError(-104).describe(), "os error: -104");
    assert_eq!(HoarderError::IoError(4095).describe(), "os error: 4095");
}

#[test]
fn syscall_result_becomes_io_error() {
    assert_eq!(MachineError::from_syscall_result(-104), MachineError::IoError(104));
    assert_eq!(MachineError::from_syscall_result(-1), MachineError::IoError(1));
    assert_eq!(MachineError::from_syscall_result(-4095), MachineError::IoError(4095));
}
