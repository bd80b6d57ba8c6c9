//! The bounded writer: a fixed-capacity byte buffer with a position cursor
//! and a truncation flag. One byte is always reserved for a terminator, so
//! the cursor never passes `capacity - 1`; every byte at or beyond the
//! cursor stays zero, so the written text is always null-terminated.

use vstd::prelude::*;

use vstd::pervasive::VecAdditionalExecFns;

verus! {

/// The truncation signal: the buffer could not take a whole write. Not an
/// error; it tells the caller to stop writing and keep what fits.
#[derive(Clone, Copy, PartialEq, Eq, Structural, Debug)]
pub struct Truncated;

/// A fixed-capacity output buffer. The capacity is set at construction and
/// never changes; writes advance `pos` and never touch the reserved last
/// byte, which stays zero as a terminator.
pub struct OutputBuffer {
    buf: Vec<u8>,
    pos: usize,
    truncated: bool,
}

impl OutputBuffer {
    /// The whole backing buffer, terminator region included.
    pub closed spec fn bytes(self) -> Seq<u8> {
        self.buf@
    }

    /// How many bytes of text have been written.
    pub closed spec fn pos_spec(self) -> int {
        self.pos as int
    }

    /// The fixed capacity, in bytes, terminator byte included.
    pub closed spec fn capacity_spec(self) -> int {
        self.buf@.len() as int
    }

    /// Whether a write has already overflowed the buffer.
    pub closed spec fn truncated_spec(self) -> bool {
        self.truncated
    }

    /// The text written so far.
    pub open spec fn written(self) -> Seq<u8> {
        self.bytes().subrange(0, self.pos_spec())
    }

    /// The buffer's invariant: the cursor reserves the terminator byte, and
    /// everything at or beyond the cursor is zero. Once truncated, the
    /// buffer is full to the reserved byte.
    pub open spec fn wf(self) -> bool {
        &&& self.bytes().len() == self.capacity_spec()
        &&& 1 <= self.capacity_spec() <= 0x7fff_ffff
        &&& 0 <= self.pos_spec() <= self.capacity_spec() - 1
        &&& (forall|i: int|
            self.pos_spec() <= i < self.capacity_spec() ==> self.bytes()[i] == 0)
        &&& (self.truncated_spec() ==> self.pos_spec() == self.capacity_spec() - 1)
    }

    /// A zero-filled buffer of the given capacity. The capacity bound keeps
    /// the byte count representable in the boundary's return type.
    pub fn new(capacity: usize) -> (w: OutputBuffer)
        requires
            1 <= capacity <= 0x7fff_ffff,
        ensures
            w.wf(),
            w.capacity_spec() == capacity,
            w.pos_spec() == 0,
            !w.truncated_spec(),
            w.bytes() == Seq::new(capacity as nat, |i: int| 0u8),
    {
        let mut buf: Vec<u8> = Vec::new();
        let mut i: usize = 0;
        while i < capacity
            invariant
                i <= capacity,
                buf@ == Seq::new(i as nat, |j: int| 0u8),
            decreases capacity - i,
        {
            buf.push(0);
            proof {
                assert(buf@ =~= Seq::new((i + 1) as nat, |j: int| 0u8));
            }
            i += 1;
        }
        OutputBuffer { buf, pos: 0, truncated: false }
    }

    /// Zero-fills the buffer and rewinds it: position back to zero, the
    /// truncation flag cleared.
    pub fn reset(&mut self)
        requires
            old(self).wf(),
        ensures
            final(self).wf(),
            final(self).capacity_spec() == old(self).capacity_spec(),
            final(self).pos_spec() == 0,
            !final(self).truncated_spec(),
            final(self).bytes() == Seq::new(old(self).capacity_spec() as nat, |i: int| 0u8),
    {
        let ghost orig = *self;
        let mut i: usize = 0;
        while i < self.buf.len()
            invariant
                i <= self.buf.len(),
                self.buf@.len() == orig.buf@.len(),
                forall|j: int| 0 <= j < i ==> self.buf@[j] == 0,
            decreases self.buf.len() - i,
        {
            self.buf.set(i, 0);
            i += 1;
        }
        self.pos = 0;
        self.truncated = false;
        proof {
            assert(self.bytes() =~= Seq::new(orig.capacity_spec() as nat, |i: int| 0u8));
        }
    }

    /// Appends as much of `text` as fits before the reserved terminator
    /// byte. When all of it fits the write succeeds whole; otherwise the
    /// buffer takes exactly the prefix that fits, records truncation, and
    /// signals it. A truncated buffer takes nothing further.
    pub fn write(&mut self, text: &Vec<u8>) -> (r: Result<(), Truncated>)
        requires
            old(self).wf(),
        ensures
            final(self).wf(),
            final(self).capacity_spec() == old(self).capacity_spec(),
            ({
                let rem = old(self).capacity_spec() - 1 - old(self).pos_spec();
                if text@.len() <= rem {
                    &&& r is Ok
                    &&& final(self).pos_spec() == old(self).pos_spec() + text@.len()
                    &&& final(self).written() == old(self).written() + text@
                    &&& final(self).truncated_spec() == old(self).truncated_spec()
                } else {
                    &&& r is Err
                    &&& final(self).pos_spec() == old(self).capacity_spec() - 1
                    &&& final(self).written() == old(self).written() + text@.subrange(0, rem)
                    &&& final(self).truncated_spec()
                }
            }),
    {
        let ghost orig = *self;
        let rem: usize = self.buf.len() - 1 - self.pos;
        let fits: bool = text.len() <= rem;
        let k: usize = if fits {
            text.len()
        } else {
            rem
        };
        let mut j: usize = 0;
        while j < k
            invariant
                orig.wf(),
                j <= k,
                k <= text@.len(),
                self.pos == orig.pos_spec(),
                self.truncated == orig.truncated_spec(),
                self.buf@.len() == orig.capacity_spec(),
                orig.pos_spec() + k <= orig.capacity_spec() - 1,
                forall|i: int| 0 <= i < orig.pos_spec() ==> self.buf@[i] == orig.bytes()[i],
                forall|i: int| 0 <= i < j ==> self.buf@[orig.pos_spec() + i] == text@[i],
                forall|i: int|
                    orig.pos_spec() + j <= i < orig.capacity_spec() ==> self.buf@[i] == orig.bytes()[i],
            decreases k - j,
        {
            let b: u8 = text[j];
            self.buf.set(self.pos + j, b);
            j += 1;
        }
        self.pos = self.pos + k;
        proof {
            assert(self.written() =~= orig.written() + text@.subrange(0, k as int));
            assert forall|i: int|
                self.pos_spec() <= i < self.capacity_spec() implies self.bytes()[i] == 0 by {
                assert(self.bytes()[i] == orig.bytes()[i]);
                assert(orig.bytes()[i] == 0);
            }
        }
        if fits {
            Ok(())
        } else {
            self.truncated = true;
            Err(Truncated)
        }
    }

    /// How many bytes of text stand in the buffer.
    pub fn position(&self) -> (r: usize)
        ensures
            r == self.pos_spec(),
    {
        self.pos
    }

    /// The buffer's fixed capacity.
    pub fn capacity(&self) -> (r: usize)
        ensures
            r == self.capacity_spec(),
    {
        self.buf.len()
    }

    /// Whether a write has overflowed the buffer.
    pub fn is_truncated(&self) -> (r: bool)
        ensures
            r == self.truncated_spec(),
    {
        self.truncated
    }

    /// One byte of the backing buffer; past the cursor it is the zero
    /// terminator.
    pub fn byte_at(&self, i: usize) -> (r: u8)
        requires
            i < self.capacity_spec(),
        ensures
            r == self.bytes()[i as int],
    {
        self.buf[i]
    }

    /// A copy of the text written so far.
    pub fn contents(&self) -> (r: Vec<u8>)
        requires
            self.wf(),
        ensures
            r@ == self.written(),
    {
        let mut r: Vec<u8> = Vec::new();
        let mut i: usize = 0;
        while i < self.pos
            invariant
                i <= self.pos,
                self.pos <= self.buf@.len(),
                r@ == self.buf@.subrange(0, i as int),
            decreases self.pos - i,
        {
            r.push(self.buf[i]);
            proof {
                assert(r@ =~= self.buf@.subrange(0, i + 1));
            }
            i += 1;
        }
        r
    }

    /// The written text never reaches the buffer's last byte, and the
    /// terminator byte at the cursor is zero: no write ever lands at or
    /// past the capacity.
    pub proof fn lemma_in_bounds(self)
        requires
            self.wf(),
        ensures
            self.bytes().len() == self.capacity_spec(),
            self.written().len() < self.capacity_spec(),
            self.bytes()[self.pos_spec()] == 0,
    {
    }
}

} // verus!
