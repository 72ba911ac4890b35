//! Bytes that were received but not read yet.

use vstd::prelude::*;

verus! {

/// Where a read puts the bytes.
pub struct ReadBuf {
    /// The bytes that were put in so far.
    pub filled: Vec<u8>,
    /// How many bytes there is room for in all.
    pub capacity: usize,
}

impl ReadBuf {
    /// No more bytes were put in than there is room for.
    pub open spec fn wf(&self) -> bool {
        self.filled@.len() <= self.capacity
    }

    /// How many bytes there is still room for.
    pub open spec fn room(&self) -> nat {
        (self.capacity - self.filled@.len()) as nat
    }

    /// A buffer with room for `capacity` bytes.
    pub fn new(capacity: usize) -> (r: ReadBuf)
        ensures
            r.wf(),
            r.capacity == capacity,
            r.filled@ == Seq::<u8>::empty(),
    {
        ReadBuf { filled: Vec::new(), capacity }
    }

    /// Returns how many bytes there is still room for.
    pub fn remaining(&self) -> (r: usize)
        requires
            self.wf(),
        ensures
            r == self.room(),
    {
        self.capacity - self.filled.len()
    }
}

/// The smaller of two numbers.
pub open spec fn min_of(a: nat, b: nat) -> nat {
    if a <= b {
        a
    } else {
        b
    }
}

/// A byte buffer with a cursor: what stands before the cursor has been read.
#[derive(Debug)]
pub struct Buffer {
    buffer: Vec<u8>,
    buffer_cursor: usize,
}

impl View for Buffer {
    type V = Seq<u8>;

    /// The bytes that have not been read yet.
    closed spec fn view(&self) -> Seq<u8> {
        self.buffer@.skip(self.buffer_cursor as int)
    }
}

impl Buffer {
    /// The cursor stands inside the buffer.
    pub closed spec fn wf(&self) -> bool {
        self.buffer_cursor <= self.buffer@.len()
    }

    /// A buffer in which nothing of `buffer` has been read yet.
    pub fn new_from_vec(buffer: Vec<u8>) -> (r: Buffer)
        ensures
            r.wf(),
            r@ == buffer@,
    {
        let r = Buffer { buffer, buffer_cursor: 0 };
        assert(r@ =~= buffer@);
        r
    }

    /// An empty buffer.
    pub fn new() -> (r: Buffer)
        ensures
            r.wf(),
            r@ == Seq::<u8>::empty(),
    {
        let r = Buffer { buffer: Vec::new(), buffer_cursor: 0 };
        assert(r@ =~= Seq::empty());
        r
    }

    /// Returns how many bytes have not been read yet.
    pub fn remaining_bytes(&self) -> (r: usize)
        requires
            self.wf(),
        ensures
            r == self@.len(),
    {
        self.buffer.len() - self.buffer_cursor
    }

    /// Returns the bytes that have not been read yet.
    pub fn remaining(&self) -> (r: &[u8])
        requires
            self.wf(),
        ensures
            r@ == self@,
    {
        let r: &[u8] = vstd::slice::slice_subrange(
            self.buffer.as_slice(),
            self.buffer_cursor,
            self.buffer.len(),
        );
        assert(r@ =~= self@);
        r
    }

    /// Puts as many bytes into `read` as it has room for, and takes them out of the buffer
    /// unless they are only looked at (`is_poll`). Returns how many these are.
    pub fn read(&mut self, is_poll: bool, read: &mut ReadBuf) -> (n: usize)
        requires
            old(self).wf(),
            old(read).wf(),
        ensures
            final(self).wf(),
            final(read).wf(),
            final(read).capacity == old(read).capacity,
            n == min_of(old(self)@.len(), old(read).room()),
            final(read).filled@ == old(read).filled@ + old(self)@.take(n as int),
            final(self)@ == (if is_poll {
                old(self)@
            } else {
                old(self)@.skip(n as int)
            }),
    {
        let len: usize = self.buffer.len();
        let remaining_bytes: usize = self.remaining_bytes();
        let room: usize = read.remaining();
        let to_write: usize = if remaining_bytes <= room {
            remaining_bytes
        } else {
            room
        };
        let mut i: usize = 0;
        assert(read.filled@ =~= old(read).filled@ + old(self)@.take(0));
        while i < to_write
            invariant
                self == old(self),
                old(self).wf(),
                len == old(self).buffer@.len(),
                i <= to_write,
                to_write == min_of(old(self)@.len(), old(read).room()),
                old(read).wf(),
                read.capacity == old(read).capacity,
                read.filled@ == old(read).filled@ + old(self)@.take(i as int),
            decreases to_write - i,
        {
            read.filled.push(self.buffer[self.buffer_cursor + i]);
            i = i + 1;
            assert(old(self)@.take(i as int) =~= old(self)@.take(i - 1).push(
                old(self)@[i - 1],
            ));
            assert(read.filled@ =~= old(read).filled@ + old(self)@.take(i as int));
        }
        if !is_poll {
            self.buffer_cursor = self.buffer_cursor + to_write;
            assert(self@ =~= old(self)@.skip(to_write as int));
            if self.remaining_bytes() == 0 {
                self.buffer_cursor = 0;
                self.buffer.clear();
                assert(self@ =~= old(self)@.skip(to_write as int));
            }
        }
        to_write
    }

    /// Appends what has not been read of `buf`.
    pub fn write(&mut self, buf: Buffer)
        requires
            old(self).wf(),
            buf.wf(),
        ensures
            final(self).wf(),
            final(self)@ == old(self)@ + buf@,
    {
        self.buffer.extend_from_slice(buf.remaining());
        assert(self@ =~= old(self)@ + buf@);
    }
}

/// What is read and what is left are what there was, in order.
pub proof fn law_reading_keeps_every_byte(bytes: Seq<u8>, n: int)
    requires
        0 <= n <= bytes.len(),
    ensures
        bytes.take(n) + bytes.skip(n) == bytes,
{
    assert(bytes.take(n) + bytes.skip(n) =~= bytes);
}

/// As much is read as there is and as there is room for.
pub proof fn law_read_fills_the_room(a: nat, b: nat)
    ensures
        min_of(a, b) <= a,
        min_of(a, b) <= b,
        min_of(a, b) == a || min_of(a, b) == b,
{
}

} // verus!
