use std::sync::Arc;

use vstd::prelude::*;
use vstd::string::StringSliceAdditionalSpecFns;
use vstd::rwlock::{RwLock, RwLockPredicate};

use crate::error::{HoarderError, Result};
use crate::mem::AlignedBuffers;

verus! {

/// The severity of a log line.
#[derive(Debug, Clone, Copy, PartialEq, Eq, Structural)]
pub enum LogLevel {
    Print,
    Debug,
    Info,
    Warn,
    Error,
}

/// The text that starts a log line of level `level`.
pub open spec fn prefix_spec(level: LogLevel) -> Seq<char> {
    match level {
        LogLevel::Print => ""@,
        LogLevel::Debug => "[DEBUG] "@,
        LogLevel::Info => "[INFO] "@,
        LogLevel::Warn => "[WARN] "@,
        LogLevel::Error => "[ERROR] "@,
    }
}

impl LogLevel {
    /// The text that starts a log line of this level.
    pub fn prefix(self) -> (p: &'static str)
        ensures
            p@ == prefix_spec(self),
    {
        match self {
            LogLevel::Print => "",
            LogLevel::Debug => "[DEBUG] ",
            LogLevel::Info => "[INFO] ",
            LogLevel::Warn => "[WARN] ",
            LogLevel::Error => "[ERROR] ",
        }
    }
}

/// The longest log line, in bytes; longer lines are cut.
pub const MAX_LOG_LINE: usize = 512;

/// A fixed-capacity text buffer over borrowed bytes that silently cuts what
/// does not fit.
pub struct FmtBuf<'a> {
    buf: &'a mut [u8],
    pos: usize,
}

impl<'a> FmtBuf<'a> {
    /// The bytes written so far.
    pub closed spec fn written(&self) -> Seq<u8> {
        self.buf@.subrange(0, self.pos as int)
    }

    /// All bytes of the borrowed buffer: what is written, then what the
    /// buffer held before.
    pub closed spec fn contents(&self) -> Seq<u8> {
        self.buf@
    }

    /// How many bytes the buffer holds at most.
    pub closed spec fn room(&self) -> nat {
        self.buf@.len()
    }

    /// The buffer's consistency: what is written fits.
    pub closed spec fn wf(&self) -> bool {
        self.pos <= self.buf@.len()
    }

    /// An empty text buffer over `buf`.
    pub fn new(buf: &'a mut [u8]) -> (f: Self)
        ensures
            f.wf(),
            f.written() == Seq::<u8>::empty(),
            f.room() == old(buf)@.len(),
            f.contents() == old(buf)@,
    {
        let f = FmtBuf { buf, pos: 0 };
        assert(f.written() =~= Seq::<u8>::empty());
        f
    }

    /// The bytes written so far.
    pub fn as_bytes(&self) -> (b: &[u8])
        requires
            self.wf(),
        ensures
            b@ == self.written(),
    {
        vstd::slice::slice_subrange(&*self.buf, 0, self.pos)
    }

    /// Forgets what was written.
    pub fn clear(&mut self)
        requires
            old(self).wf(),
        ensures
            final(self).wf(),
            final(self).written() == Seq::<u8>::empty(),
            final(self).room() == old(self).room(),
            final(self).contents() == old(self).contents(),
    {
        self.pos = 0;
        assert(self.written() =~= Seq::<u8>::empty());
    }

    /// The number of bytes written so far.
    pub fn len(&self) -> (n: usize)
        requires
            self.wf(),
        ensures
            n == self.written().len(),
    {
        self.pos
    }

    /// Appends one log line of level `level` with text `text`: the level's
    /// prefix, the text and a newline, as many bytes of them as still fit.
    pub fn write_line(&mut self, level: LogLevel, text: &str)
        requires
            old(self).wf(),
        ensures
            final(self).wf(),
            final(self).room() == old(self).room(),
            final(self).written() == old(self).written()
                + cut(log_line_bytes(level, text@), old(self).room() - old(self).written().len()),
    {
        let ghost w0 = self.written();
        let ghost room = self.room() - w0.len();
        let prefix = level.prefix();
        self.write_str(prefix);
        let ghost w1 = self.written();
        self.write_str(text);
        let ghost w2 = self.written();
        self.write_str("\n");
        proof {
            reveal_strlit("\n");
            let a = vstd::utf8::encode_utf8(prefix_spec(level));
            let b = vstd::utf8::encode_utf8(text@);
            let c = vstd::utf8::encode_utf8(seq!['\n']);
            assert("\n"@ =~= seq!['\n']);
            assert(w1 == w0 + cut(a, room));
            assert(w2 == w1 + cut(b, room - cut(a, room).len()));
            lemma_cut_concat(a, b, room);
            assert(w2 =~= w0 + cut(a + b, room));
            lemma_cut_concat(a + b, c, room);
            assert(self.written() =~= w0 + cut(a + b + c, room));
        }
    }

    /// Appends the bytes of `s`, as many as still fit.
    pub fn write_str(&mut self, s: &str)
        requires
            old(self).wf(),
        ensures
            final(self).wf(),
            final(self).room() == old(self).room(),
            final(self).written() == old(self).written() + s.spec_bytes().take(
                vstd::math::min(s.spec_bytes().len() as int, old(self).room() - old(self).written().len())),
            final(self).contents().len() == old(self).contents().len(),
            final(self).contents().subrange(0, final(self).written().len() as int) == final(self).written(),
            final(self).contents().subrange(final(self).written().len() as int, old(self).contents().len() as int)
                == old(self).contents().subrange(final(self).written().len() as int, old(self).contents().len() as int),
    {
        let bytes = s.as_bytes();
        let available = self.buf.len() - self.pos;
        let to_write = if bytes.len() < available { bytes.len() } else { available };
        let ghost old_buf = self.buf@;
        let ghost old_pos = self.pos;
        let mut i: usize = 0;
        while i < to_write
            invariant
                i <= to_write,
                to_write <= bytes@.len(),
                old_pos + to_write <= old_buf.len(),
                self.pos == old_pos,
                old_buf.len() <= usize::MAX,
                bytes@ == s.spec_bytes(),
                self.buf@ == old_buf.subrange(0, old_pos as int) + bytes@.subrange(0, i as int)
                    + old_buf.subrange(old_pos + i, old_buf.len() as int),
            decreases to_write - i,
        {
            self.buf[self.pos + i] = bytes[i];
            i = i + 1;
            assert(self.buf@ =~= old_buf.subrange(0, old_pos as int) + bytes@.subrange(0, i as int)
                + old_buf.subrange(old_pos + i, old_buf.len() as int));
        }
        self.pos = self.pos + to_write;
        assert(self.written() =~= old_buf.subrange(0, old_pos as int) + s.spec_bytes().take(to_write as int));
    }
}

/// The bytes of one log line of level `level` and text `text`: the level's
/// prefix, the text, and a newline.
pub open spec fn log_line_bytes(level: LogLevel, text: Seq<char>) -> Seq<u8> {
    vstd::utf8::encode_utf8(prefix_spec(level)) + vstd::utf8::encode_utf8(text) + vstd::utf8::encode_utf8(seq!['\n'])
}

/// The first `min(len, room)` bytes of `a`.
pub open spec fn cut(a: Seq<u8>, room: int) -> Seq<u8> {
    a.take(vstd::math::min(a.len() as int, room))
}

/// Cutting two pieces one after the other to what room is left is cutting
/// them joined.
proof fn lemma_cut_concat(a: Seq<u8>, b: Seq<u8>, room: int)
    requires
        room >= 0,
    ensures
        cut(a, room) + cut(b, room - cut(a, room).len()) == cut(a + b, room),
{
    if room <= a.len() {
        assert(cut(a, room) + cut(b, room - cut(a, room).len()) =~= cut(a + b, room));
    } else {
        assert(cut(a, room) + cut(b, room - cut(a, room).len()) =~= cut(a + b, room));
    }
}

/// The alignment of the logger's buffers.
pub const LOG_BUF_ALIGN: usize = 0x1000;

/// The shared state of a logger: two buffers, one that log lines go into
/// and one that the consumer drained last, swapped on every drain.
pub struct Logger {
    buf0: AlignedBuffers,
    buf1: AlignedBuffers,
    offset0: usize,
    offset1: usize,
    active: usize,
    buf_size: usize,
}

impl Logger {
    /// The logger's consistency: both buffers of `buf_size` bytes, the
    /// offsets within them, and the buffer not written to empty.
    pub closed spec fn wf(&self) -> bool {
        &&& self.buf0.wf()
        &&& self.buf1.wf()
        &&& self.buf0.num_buffers() == 1
        &&& self.buf1.num_buffers() == 1
        &&& self.buf0.buffer_size() == self.buf_size
        &&& self.buf1.buffer_size() == self.buf_size
        &&& self.offset0 <= self.buf_size
        &&& self.offset1 <= self.buf_size
        &&& self.active <= 1
        &&& self.active == 0 ==> self.offset1 == 0
        &&& self.active == 1 ==> self.offset0 == 0
    }

    /// The index of the buffer that log lines go into.
    pub closed spec fn active_index(&self) -> nat {
        self.active as nat
    }

    /// The bytes logged into buffer `i` and not yet drained.
    pub closed spec fn logged(&self, i: int) -> Seq<u8> {
        if i == 0 {
            self.buf0.buffer(0).subrange(0, self.offset0 as int)
        } else {
            self.buf1.buffer(0).subrange(0, self.offset1 as int)
        }
    }

    /// The bytes logged and not yet drained, oldest first.
    pub open spec fn pending(&self) -> Seq<u8> {
        self.logged(self.active_index() as int)
    }

    /// The size of each buffer: the most bytes that can wait to be drained.
    pub closed spec fn capacity(&self) -> nat {
        self.buf_size as nat
    }

    /// Consequences of `wf` that callers use.
    pub proof fn lemma_wf(&self)
        requires
            self.wf(),
        ensures
            self.active_index() <= 1,
            self.logged(1 - self.active_index()) == Seq::<u8>::empty(),
            self.pending().len() <= self.capacity(),
    {
        self.buf0.lemma_buffer_len_one();
        self.buf1.lemma_buffer_len_one();
        assert(self.logged(1 - self.active_index()) =~= Seq::<u8>::empty());
    }

    /// Allocates the two buffers, both empty, the first one active; fails
    /// with `MemAllocFail` when the memory cannot be had.
    pub fn create(buf_size: usize) -> (r: Result<Logger>)
        requires
            buf_size >= 0x1000,
            buf_size % LOG_BUF_ALIGN == 0,
            buf_size <= isize::MAX,
        ensures
            r is Err ==> (r matches Err(HoarderError::MemAllocFail)),
            r matches Ok(l) ==> {
                &&& l.wf()
                &&& l.capacity() == buf_size
                &&& l.active_index() == 0
                &&& l.pending() == Seq::<u8>::empty()
                &&& l.logged(1) == Seq::<u8>::empty()
            },
    {
        proof {
            lemma_page_is_pow2();
        }
        let buf0 = AlignedBuffers::new(1, buf_size, LOG_BUF_ALIGN)?;
        let buf1 = AlignedBuffers::new(1, buf_size, LOG_BUF_ALIGN)?;
        let l = Logger { buf0, buf1, offset0: 0, offset1: 0, active: 0, buf_size };
        assert(l.pending() =~= Seq::<u8>::empty());
        assert(l.logged(1) =~= Seq::<u8>::empty());
        Ok(l)
    }

    /// `new` is what `append(data)` leaves of `self` when it returns `r`:
    /// `data` after the pending bytes when it fits, else `PushError` and
    /// nothing changed.
    pub open spec fn after_append(self, new: Self, data: Seq<u8>, r: Result<()>) -> bool {
        &&& new.wf()
        &&& new.capacity() == self.capacity()
        &&& new.active_index() == self.active_index()
        &&& self.pending().len() + data.len() <= self.capacity() ==> r is Ok && new.pending() == self.pending() + data
        &&& self.pending().len() + data.len() > self.capacity() ==> (r matches Err(HoarderError::PushError)) && new == self
        &&& new.logged(1 - self.active_index()) == self.logged(1 - self.active_index())
    }

    /// `new` is what `drain` leaves of `self` when it returns `out`: the
    /// pending bytes, with the buffers swapped and nothing pending any more.
    pub open spec fn after_drain(self, new: Self, out: Seq<u8>) -> bool {
        &&& new.wf()
        &&& new.capacity() == self.capacity()
        &&& out == self.pending()
        &&& new.active_index() == 1 - self.active_index()
        &&& new.pending() == Seq::<u8>::empty()
        &&& new.logged(self.active_index() as int) == Seq::<u8>::empty()
    }

    /// Appends `data` to the active buffer; fails with `PushError`, changing
    /// nothing, when it does not fit.
    pub fn append(&mut self, data: &[u8]) -> (r: Result<()>)
        requires
            old(self).wf(),
        ensures
            old(self).after_append(*final(self), data@, r),
    {
        proof {
            self.buf0.lemma_buffer_len_one();
            self.buf1.lemma_buffer_len_one();
        }
        let offset = if self.active == 0 { self.offset0 } else { self.offset1 };
        let fits = match offset.checked_add(data.len()) {
            Some(end) => end <= self.buf_size,
            None => false,
        };
        if !fits {
            return Err(HoarderError::PushError);
        }
        let ghost before = *self;
        if self.active == 0 {
            self.buf0.write_at(0, offset, data);
            self.offset0 = offset + data.len();
            proof {
                self.buf0.lemma_buffer_len_one();
                assert(self.pending() =~= before.pending() + data@);
            }
        } else {
            self.buf1.write_at(0, offset, data);
            self.offset1 = offset + data.len();
            proof {
                self.buf1.lemma_buffer_len_one();
                assert(self.pending() =~= before.pending() + data@);
            }
        }
        Ok(())
    }

    /// Swaps the buffers and takes what the formerly active one held: the
    /// pending bytes, returned in order, after which nothing is pending.
    pub fn drain(&mut self) -> (out: Vec<u8>)
        requires
            old(self).wf(),
        ensures
            old(self).after_drain(*final(self), out@),
    {
        proof {
            self.buf0.lemma_buffer_len_one();
            self.buf1.lemma_buffer_len_one();
        }
        let ghost before = *self;
        let out = if self.active == 0 {
            let bytes = vstd::slice::slice_subrange(self.buf0.buf(0), 0, self.offset0);
            let v = vstd::slice::slice_to_vec(bytes);
            self.offset0 = 0;
            self.active = 1;
            v
        } else {
            let bytes = vstd::slice::slice_subrange(self.buf1.buf(0), 0, self.offset1);
            let v = vstd::slice::slice_to_vec(bytes);
            self.offset1 = 0;
            self.active = 0;
            v
        };
        assert(self.pending() =~= Seq::<u8>::empty());
        assert(self.logged(before.active as int) =~= Seq::<u8>::empty());
        out
    }

    /// Draining hands out every byte appended since the previous drain, in
    /// the order appended, with nothing lost and nothing repeated: starting
    /// from nothing pending (as after `create` or a drain), successful appends
    /// of `data[0]`, ..., `data[n-1]` followed by a drain yield their
    /// concatenation.
    pub proof fn lemma_drain_returns_appended(
        states: Seq<Logger>,
        data: Seq<Seq<u8>>,
        last: Logger,
        out: Seq<u8>,
    )
        requires
            states.len() == data.len() + 1,
            states[0].wf(),
            states[0].pending() == Seq::<u8>::empty(),
            forall|i: int| 0 <= i < data.len() ==> #[trigger] states[i].after_append(states[i + 1], data[i], Ok(())),
            states.last().after_drain(last, out),
        ensures
            out == data.flatten(),
            last.pending() == Seq::<u8>::empty(),
    {
        let n = data.len() as int;
        Self::lemma_pending_after_appends(states, data, n);
        assert(data.take(n) =~= data);
    }

    /// After the first `i` appends of `lemma_drain_returns_appended`, the
    /// pending bytes are the concatenation of what they appended.
    proof fn lemma_pending_after_appends(states: Seq<Logger>, data: Seq<Seq<u8>>, i: int)
        requires
            states.len() == data.len() + 1,
            0 <= i <= data.len(),
            states[0].pending() == Seq::<u8>::empty(),
            forall|j: int| 0 <= j < data.len() ==> #[trigger] states[j].after_append(states[j + 1], data[j], Ok(())),
        ensures
            states[i].pending() == data.take(i).flatten(),
        decreases i,
    {
        if i == 0 {
            assert(data.take(0) =~= Seq::<Seq<u8>>::empty());
        } else {
            Self::lemma_pending_after_appends(states, data, i - 1);
            let k = i - 1;
            assert(states[k].after_append(states[k + 1], data[k], Ok(())));
            assert(k + 1 == i);
            assert(data.take(i) =~= data.take(i - 1).push(data[i - 1]));
            data.take(i - 1).lemma_flatten_push(data[i - 1]);
        }
    }

    /// `pieces` is what a last flush of `self` reads: the bytes waiting in
    /// buffer 0, then those waiting in buffer 1, leaving out an empty one.
    pub open spec fn flushed(self, pieces: Seq<Seq<u8>>) -> bool {
        &&& pieces.len() <= 2
        &&& forall|i: int| 0 <= i < pieces.len() ==> 0 < (#[trigger] pieces[i]).len() <= self.capacity()
        &&& pieces.flatten() == self.logged(0) + self.logged(1)
    }

    /// A last flush reads exactly the bytes waiting to be drained, whichever
    /// buffer is active: starting from nothing pending (as after `create` or
    /// a drain), successful appends of `data[0]`, ..., `data[n-1]` followed
    /// by a flush read, joined, their concatenation.
    pub proof fn lemma_flush_shows_appended(states: Seq<Logger>, data: Seq<Seq<u8>>, pieces: Seq<Seq<u8>>)
        requires
            states.len() == data.len() + 1,
            states[0].wf(),
            states[0].pending() == Seq::<u8>::empty(),
            forall|i: int| 0 <= i < data.len() ==> #[trigger] states[i].after_append(states[i + 1], data[i], Ok(())),
            states.last().flushed(pieces),
        ensures
            pieces.flatten() == data.flatten(),
    {
        let n = data.len() as int;
        Self::lemma_pending_after_appends(states, data, n);
        assert(data.take(n) =~= data);
        if n > 0 {
            let i = n - 1;
            assert(states[i].after_append(states[i + 1], data[i], Ok(())));
            assert(i + 1 == n);
        }
        assert(states.last() == states[n]);
        states.last().lemma_wf();
        let l = states.last();
        if l.active_index() == 0 {
            assert(l.logged(0) + l.logged(1) =~= l.pending());
        } else {
            assert(l.logged(0) + l.logged(1) =~= l.pending());
        }
    }

    /// Reads, without taking them, the bytes waiting in each buffer, buffer
    /// 0 first, leaving out an empty one.
    pub fn flush_pieces(&self) -> (pieces: Vec<Vec<u8>>)
        requires
            self.wf(),
        ensures
            self.flushed(pieces@.map_values(|v: Vec<u8>| v@)),
    {
        proof {
            self.lemma_wf();
            self.buf0.lemma_buffer_len_one();
            self.buf1.lemma_buffer_len_one();
        }
        let first = self.logged_bytes(0);
        let second = self.logged_bytes(1);
        let ghost a = first@;
        let ghost b = second@;
        let mut pieces: Vec<Vec<u8>> = Vec::new();
        if first.len() > 0 {
            pieces.push(first);
        }
        if second.len() > 0 {
            pieces.push(second);
        }
        proof {
            let ps = pieces@.map_values(|v: Vec<u8>| v@);
            reveal_with_fuel(Seq::flatten, 3);
            assert(ps.flatten() =~= a + b);
        }
        pieces
    }

    /// The bytes logged into buffer `index` and not yet drained.
    pub fn logged_bytes(&self, index: usize) -> (out: Vec<u8>)
        requires
            self.wf(),
            index <= 1,
        ensures
            out@ == self.logged(index as int),
    {
        proof {
            self.buf0.lemma_buffer_len_one();
            self.buf1.lemma_buffer_len_one();
        }
        if index == 0 {
            vstd::slice::slice_to_vec(vstd::slice::slice_subrange(self.buf0.buf(0), 0, self.offset0))
        } else {
            vstd::slice::slice_to_vec(vstd::slice::slice_subrange(self.buf1.buf(0), 0, self.offset1))
        }
    }
}

/// 0x1000 is a power of two.
proof fn lemma_page_is_pow2()
    ensures
        vstd::arithmetic::power2::is_pow2(LOG_BUF_ALIGN as int),
{
    reveal_with_fuel(vstd::arithmetic::power2::is_pow2, 13);
}

} // verus!

verus! {

/// What the lock around a shared logger guarantees of it: it is consistent
/// and its buffers are `buf_size` bytes.
pub struct LoggerLock {
    pub buf_size: usize,
}

impl RwLockPredicate<Logger> for LoggerLock {
    open spec fn inv(self, v: Logger) -> bool {
        v.wf() && v.capacity() == self.buf_size
    }
}

/// The writing end of a logger, shared by everyone who logs.
pub struct Producer {
    shared: Arc<RwLock<Logger, LoggerLock>>,
    buf_size: usize,
}

/// The reading end of a logger.
pub struct Consumer {
    shared: Arc<RwLock<Logger, LoggerLock>>,
    buf_size: usize,
}

impl Producer {
    #[verifier::type_invariant]
    closed spec fn lock_matches(self) -> bool {
        self.shared.pred().buf_size == self.buf_size
    }

    /// The most bytes that can wait to be consumed.
    pub closed spec fn capacity(&self) -> nat {
        self.buf_size as nat
    }

    /// The lock that guards the shared logger.
    pub closed spec fn lock_spec(&self) -> RwLock<Logger, LoggerLock> {
        *self.shared
    }

    /// Appends `data` to the log as one piece. Fails with `PushError`,
    /// appending nothing, when the bytes waiting to be consumed leave no room
    /// for it, which is always so when it is longer than the capacity.
    pub fn push(&self, data: &[u8]) -> (r: Result<()>)
        ensures
            r is Err ==> (r matches Err(HoarderError::PushError)),
            data@.len() > self.capacity() ==> r is Err,
    {
        proof {
            use_type_invariant(self);
        }
        let (mut logger, handle) = self.shared.acquire_write();
        let r = logger.append(data);
        handle.release_write(logger);
        r
    }

    /// Reads, without taking them, the bytes that wait to be consumed in each
    /// buffer, buffer 0 first, leaving out empty buffers. Meant for a last
    /// flush, such as from a panic hook.
    pub fn panic_flush(&self) -> (pieces: Vec<Vec<u8>>)
        ensures
            pieces@.len() <= 2,
            forall|i: int| 0 <= i < pieces@.len() ==> 0 < (#[trigger] pieces@[i])@.len() <= self.capacity(),
    {
        proof {
            use_type_invariant(self);
        }
        let guard = self.shared.acquire_read();
        let pieces = guard.borrow().flush_pieces();
        guard.release_read();
        proof {
            let ps = pieces@.map_values(|v: Vec<u8>| v@);
            assert forall|i: int| 0 <= i < pieces@.len() implies 0 < (#[trigger] pieces@[i])@.len() <= self.capacity() by {
                assert(ps[i] == pieces@[i]@);
            }
        }
        pieces
    }
}

impl Consumer {
    #[verifier::type_invariant]
    closed spec fn lock_matches(self) -> bool {
        self.shared.pred().buf_size == self.buf_size
    }

    /// The most bytes that can wait to be consumed.
    pub closed spec fn capacity(&self) -> nat {
        self.buf_size as nat
    }

    /// The lock that guards the shared logger.
    pub closed spec fn lock_spec(&self) -> RwLock<Logger, LoggerLock> {
        *self.shared
    }

    /// Takes everything logged since the previous `consume`: `None` when
    /// nothing was, else the bytes in one piece, never empty and never more
    /// than the capacity.
    pub fn consume(&self) -> (out: Option<Vec<u8>>)
        ensures
            out matches Some(v) ==> 0 < v@.len() <= self.capacity(),
    {
        proof {
            use_type_invariant(self);
        }
        let (mut logger, handle) = self.shared.acquire_write();
        proof {
            logger.lemma_wf();
        }
        let data = logger.drain();
        handle.release_write(logger);
        if data.len() > 0 {
            Some(data)
        } else {
            None
        }
    }
}

impl Logger {
    /// A logger whose buffers hold `buf_size` bytes each, as a producer and
    /// a consumer that share it; fails with `MemAllocFail` when the memory
    /// cannot be had.
    pub fn new(buf_size: usize) -> (r: Result<(Producer, Consumer)>)
        requires
            buf_size >= 0x1000,
            buf_size % LOG_BUF_ALIGN == 0,
            buf_size <= isize::MAX,
        ensures
            r is Err ==> (r matches Err(HoarderError::MemAllocFail)),
            r matches Ok(pc) ==> {
                &&& pc.0.capacity() == buf_size
                &&& pc.1.capacity() == buf_size
                &&& pc.0.lock_spec() == pc.1.lock_spec()
            },
    {
        let logger = Logger::create(buf_size)?;
        let lock = RwLock::new(logger, Ghost(LoggerLock { buf_size }));
        let shared = Arc::new(lock);
        let producer = Producer { shared: shared.clone(), buf_size };
        Ok((producer, Consumer { shared, buf_size }))
    }
}

} // verus!
