use vstd::prelude::*;

verus! {

/// The outcome of a fallible operation of the blob engine.
pub type Result<T> = core::result::Result<T, HoarderError>;

/// Errors of the blob engine's state machines.
#[derive(Debug, Clone, Copy, PartialEq, Eq, Structural)]
pub enum HoarderError {
    PushError,
    MachineType,
    MemAllocFail,
    BufferAllocFail,
    /// An OS error, by its raw (positive) error number.
    IoError(i32),
}

/// `rustix::io::Errno::from_raw_os_error`, read back with `raw_os_error`.
/// rustix stores the number in 16 bits and asserts that it is a Linux error
/// number, 1 to 4095: out of that range the constructor panics, which
/// `requires` leaves out; within it the number comes back unchanged.
#[verifier::external_body]
fn rustix_os_error(raw: i32) -> (r: i32)
    requires
        1 <= raw <= 4095,
    ensures
        r == raw,
{
    rustix::io::Errno::from_raw_os_error(raw).raw_os_error()
}

impl HoarderError {
    /// The error for a failed system call, from the negative value that the
    /// call returned.
    pub fn from_syscall_result(value: i32) -> (e: Self)
        requires
            -4095 <= value <= -1,
        ensures
            e == HoarderError::IoError((-value) as i32),
    {
        HoarderError::IoError(rustix_os_error(-value))
    }
}

} // verus!
