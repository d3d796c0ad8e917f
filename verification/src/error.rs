use vstd::prelude::*;
use vstd::string::StringExecFns;

verus! {

/// The outcome of a fallible operation of this library.
pub type Result<T> = core::result::Result<T, HoarderError>;

/// Errors shared by the collections, the allocators, the logger and the
/// listening socket.
#[derive(Debug, Clone, Copy, PartialEq, Eq, Structural)]
pub enum HoarderError {
    PushError,
    MemAllocFail,
    BufferAllocFail,
    IoError(i32),
}

impl HoarderError {
    /// The human-readable description of the error.
    pub fn describe(&self) -> (s: String)
        ensures
            s@ == describe_spec(*self),
    {
        match self {
            HoarderError::PushError => String::from_str("failed to push entry to queue"),
            HoarderError::MemAllocFail => String::from_str("failed to allocate memory"),
            HoarderError::BufferAllocFail => String::from_str("failed to allocate buffer"),
            HoarderError::IoError(errno) => os_error_message(*errno),
        }
    }
}

/// The decimal digit for `d`, below ten.
pub open spec fn digit_char(d: nat) -> char {
    if d == 0 { '0' } else if d == 1 { '1' } else if d == 2 { '2' } else if d == 3 { '3' } else if d == 4 { '4' }
    else if d == 5 { '5' } else if d == 6 { '6' } else if d == 7 { '7' } else if d == 8 { '8' } else { '9' }
}

/// The decimal digits of `n`, most significant first, without leading zeros.
pub open spec fn decimal_digits(n: nat) -> Seq<char>
    decreases n,
{
    if n < 10 {
        seq![digit_char(n)]
    } else {
        decimal_digits(n / 10).push(digit_char(n % 10))
    }
}

/// How `{}` writes the integer `x`: its decimal digits, after a minus sign
/// when it is negative.
pub open spec fn decimal_text(x: int) -> Seq<char> {
    if x < 0 { seq!['-'] + decimal_digits((-x) as nat) } else { decimal_digits(x as nat) }
}

/// The text of an OS error carrying the raw code `errno`.
pub open spec fn os_error_text(errno: i32) -> Seq<char> {
    "os error: "@ + decimal_text(errno as int)
}

/// What `HoarderError::describe` returns for `e`.
pub open spec fn describe_spec(e: HoarderError) -> Seq<char> {
    match e {
        HoarderError::PushError => "failed to push entry to queue"@,
        HoarderError::MemAllocFail => "failed to allocate memory"@,
        HoarderError::BufferAllocFail => "failed to allocate buffer"@,
        HoarderError::IoError(errno) => os_error_text(errno),
    }
}

/// The text of the decimal digit `d`.
fn digit_str(d: u32) -> (s: &'static str)
    requires
        d < 10,
    ensures
        s@ == seq![digit_char(d as nat)],
{
    proof {
        reveal_strlit("0");
        reveal_strlit("1");
        reveal_strlit("2");
        reveal_strlit("3");
        reveal_strlit("4");
        reveal_strlit("5");
        reveal_strlit("6");
        reveal_strlit("7");
        reveal_strlit("8");
        reveal_strlit("9");
    }
    if d == 0 {
        "0"
    } else if d == 1 {
        "1"
    } else if d == 2 {
        "2"
    } else if d == 3 {
        "3"
    } else if d == 4 {
        "4"
    } else if d == 5 {
        "5"
    } else if d == 6 {
        "6"
    } else if d == 7 {
        "7"
    } else if d == 8 {
        "8"
    } else {
        "9"
    }
}

/// The decimal digits of `n`.
fn digits_string(n: u32) -> (s: String)
    ensures
        s@ == decimal_digits(n as nat),
    decreases n,
{
    if n < 10 {
        String::from_str(digit_str(n))
    } else {
        let mut s = digits_string(n / 10);
        s.append(digit_str(n % 10));
        s
    }
}

/// "os error: " followed by `errno` in decimal.
fn os_error_message(errno: i32) -> (s: String)
    ensures
        s@ == os_error_text(errno),
{
    let mut s = String::from_str("os error: ");
    if errno < 0 {
        s.append("-");
        let magnitude = (-(errno as i64)) as u32;
        let digits = digits_string(magnitude);
        s.append(digits.as_str());
        proof {
            reveal_strlit("-");
            assert(s@ =~= "os error: "@ + (seq!['-'] + decimal_digits(magnitude as nat)));
        }
    } else {
        let digits = digits_string(errno as u32);
        s.append(digits.as_str());
    }
    s
}

impl From<i32> for HoarderError {
    fn from(value: i32) -> (r: Self) {
        HoarderError::IoError(value)
    }
}

impl vstd::std_specs::convert::FromSpecImpl<i32> for HoarderError {
    open spec fn obeys_from_spec() -> bool {
        true
    }

    open spec fn from_spec(v: i32) -> Self {
        HoarderError::IoError(v)
    }
}

impl From<Errno> for HoarderError {
    fn from(value: Errno) -> (r: Self) {
        HoarderError::IoError(value.0)
    }
}

impl vstd::std_specs::convert::FromSpecImpl<Errno> for HoarderError {
    open spec fn obeys_from_spec() -> bool {
        true
    }

    open spec fn from_spec(v: Errno) -> Self {
        HoarderError::IoError(v.0)
    }
}

/// A POSIX error number, as found in `errno`.
#[derive(Copy, Clone, PartialEq, Eq, Structural, PartialOrd, Ord, Hash, Debug)]
pub struct Errno(pub i32);

impl Errno {
    /// Converts the negative value that a Linux system call returns on
    /// failure into the matching error number.
    pub fn from_raw_syscall_error(val: i32) -> (e: Self)
        requires
            val != i32::MIN,
        ensures
            e.0 == -val,
    {
        Errno(-val)
    }

    /// The raw error number.
    pub fn raw(self) -> (r: i32)
        ensures
            r == self.0,
    {
        self.0
    }
}

impl Errno {
    pub const EPERM: i32 = 1;
    pub const ENOENT: i32 = 2;
    pub const ESRCH: i32 = 3;
    pub const EINTR: i32 = 4;
    pub const EIO: i32 = 5;
    pub const ENXIO: i32 = 6;
    pub const E2BIG: i32 = 7;
    pub const ENOEXEC: i32 = 8;
    pub const EBADF: i32 = 9;
    pub const ECHILD: i32 = 10;
    pub const EAGAIN: i32 = 11;
    pub const EWOULDBLOCK: i32 = 11;
    pub const ENOMEM: i32 = 12;
    pub const EACCES: i32 = 13;
    pub const EFAULT: i32 = 14;
    pub const ENOTBLK: i32 = 15;
    pub const EBUSY: i32 = 16;
    pub const EEXIST: i32 = 17;
    pub const EXDEV: i32 = 18;
    pub const ENODEV: i32 = 19;
    pub const ENOTDIR: i32 = 20;
    pub const EISDIR: i32 = 21;
    pub const EINVAL: i32 = 22;
    pub const ENFILE: i32 = 23;
    pub const EMFILE: i32 = 24;
    pub const ENOTTY: i32 = 25;
    pub const ETXTBSY: i32 = 26;
    pub const EFBIG: i32 = 27;
    pub const ENOSPC: i32 = 28;
    pub const ESPIPE: i32 = 29;
    pub const EROFS: i32 = 30;
    pub const EMLINK: i32 = 31;
    pub const EPIPE: i32 = 32;
    pub const EDOM: i32 = 33;
    pub const ERANGE: i32 = 34;
    pub const EDEADLK: i32 = 35;
    pub const EDEADLOCK: i32 = 35;
    pub const ENAMETOOLONG: i32 = 36;
    pub const ENOLCK: i32 = 37;
    pub const ENOSYS: i32 = 38;
    pub const ENOTEMPTY: i32 = 39;
    pub const ELOOP: i32 = 40;
    pub const ENOMSG: i32 = 42;
    pub const EIDRM: i32 = 43;
    pub const ECHRNG: i32 = 44;
    pub const EL2NSYNC: i32 = 45;
    pub const EL3HLT: i32 = 46;
    pub const EL3RST: i32 = 47;
    pub const ELNRNG: i32 = 48;
    pub const EUNATCH: i32 = 49;
    pub const ENOCSI: i32 = 50;
    pub const EL2HLT: i32 = 51;
    pub const EBADE: i32 = 52;
    pub const EBADR: i32 = 53;
    pub const EXFULL: i32 = 54;
    pub const ENOANO: i32 = 55;
    pub const EBADRQC: i32 = 56;
    pub const EBADSLT: i32 = 57;
    pub const EBFONT: i32 = 59;
    pub const ENOSTR: i32 = 60;
    pub const ENODATA: i32 = 61;
    pub const ETIME: i32 = 62;
    pub const ENOSR: i32 = 63;
    pub const ENONET: i32 = 64;
    pub const ENOPKG: i32 = 65;
    pub const EREMOTE: i32 = 66;
    pub const ENOLINK: i32 = 67;
    pub const EADV: i32 = 68;
    pub const ESRMNT: i32 = 69;
    pub const ECOMM: i32 = 70;
    pub const EPROTO: i32 = 71;
    pub const EMULTIHOP: i32 = 72;
    pub const EDOTDOT: i32 = 73;
    pub const EBADMSG: i32 = 74;
    pub const EOVERFLOW: i32 = 75;
    pub const ENOTUNIQ: i32 = 76;
    pub const EBADFD: i32 = 77;
    pub const EREMCHG: i32 = 78;
    pub const ELIBACC: i32 = 79;
    pub const ELIBBAD: i32 = 80;
    pub const ELIBSCN: i32 = 81;
    pub const ELIBMAX: i32 = 82;
    pub const ELIBEXEC: i32 = 83;
    pub const EILSEQ: i32 = 84;
    pub const ERESTART: i32 = 85;
    pub const ESTRPIPE: i32 = 86;
    pub const EUSERS: i32 = 87;
    pub const ENOTSOCK: i32 = 88;
    pub const EDESTADDRREQ: i32 = 89;
    pub const EMSGSIZE: i32 = 90;
    pub const EPROTOTYPE: i32 = 91;
    pub const ENOPROTOOPT: i32 = 92;
    pub const EPROTONOSUPPORT: i32 = 93;
    pub const ESOCKTNOSUPPORT: i32 = 94;
    pub const EOPNOTSUPP: i32 = 95;
    pub const EPFNOSUPPORT: i32 = 96;
    pub const EAFNOSUPPORT: i32 = 97;
    pub const EADDRINUSE: i32 = 98;
    pub const EADDRNOTAVAIL: i32 = 99;
    pub const ENETDOWN: i32 = 100;
    pub const ENETUNREACH: i32 = 101;
    pub const ENETRESET: i32 = 102;
    pub const ECONNABORTED: i32 = 103;
    pub const ECONNRESET: i32 = 104;
    pub const ENOBUFS: i32 = 105;
    pub const EISCONN: i32 = 106;
    pub const ENOTCONN: i32 = 107;
    pub const ESHUTDOWN: i32 = 108;
    pub const ETOOMANYREFS: i32 = 109;
    pub const ETIMEDOUT: i32 = 110;
    pub const ECONNREFUSED: i32 = 111;
    pub const EHOSTDOWN: i32 = 112;
    pub const EHOSTUNREACH: i32 = 113;
    pub const EALREADY: i32 = 114;
    pub const EINPROGRESS: i32 = 115;
    pub const ESTALE: i32 = 116;
    pub const EUCLEAN: i32 = 117;
    pub const ENOTNAM: i32 = 118;
    pub const ENAVAIL: i32 = 119;
    pub const EISNAM: i32 = 120;
    pub const EREMOTEIO: i32 = 121;
    pub const EDQUOT: i32 = 122;
    pub const ENOMEDIUM: i32 = 123;
    pub const EMEDIUMTYPE: i32 = 124;
    pub const ECANCELED: i32 = 125;
    pub const ENOKEY: i32 = 126;
    pub const EKEYEXPIRED: i32 = 127;
    pub const EKEYREVOKED: i32 = 128;
    pub const EKEYREJECTED: i32 = 129;
    pub const EOWNERDEAD: i32 = 130;
    pub const ENOTRECOVERABLE: i32 = 131;
    pub const ERFKILL: i32 = 132;
    pub const EHWPOISON: i32 = 133;
}

impl From<i32> for Errno {
    fn from(v: i32) -> (r: Self) {
        Errno(v)
    }
}

impl vstd::std_specs::convert::FromSpecImpl<i32> for Errno {
    open spec fn obeys_from_spec() -> bool {
        true
    }

    open spec fn from_spec(v: i32) -> Self {
        Errno(v)
    }
}

impl From<Errno> for i32 {
    fn from(e: Errno) -> (r: i32) {
        e.0
    }
}

impl vstd::std_specs::convert::FromSpecImpl<Errno> for i32 {
    open spec fn obeys_from_spec() -> bool {
        true
    }

    open spec fn from_spec(e: Errno) -> i32 {
        e.0
    }
}

} // verus!
