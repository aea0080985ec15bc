//! The reusable read buffer: bytes read off the stream are cached here, and
//! frames are taken off the front.  The buffer compacts -- copies the unread
//! bytes to the front -- only when its tail has no room for the next read.
//!
//! The cached bytes form a queue: whatever way the stream's reads split the
//! byte sequence, filling the chunks in order and taking frames off the
//! front yields the same frames.

use vstd::prelude::*;

verus! {

/// A fixed-capacity byte queue over a reusable backing store.
pub struct ByteBuffer {
    data: Vec<u8>,
    head: usize,
    tail: usize,
}

impl ByteBuffer {
    /// The cursor order and capacity never change.
    pub closed spec fn wf(self) -> bool {
        self.head <= self.tail <= self.data@.len()
    }

    /// The bytes read off the stream and not yet consumed, in order.
    pub closed spec fn cached(self) -> Seq<u8> {
        self.data@.subrange(self.head as int, self.tail as int)
    }

    /// The size of the backing store.
    pub closed spec fn capacity(self) -> int {
        self.data@.len() as int
    }

    /// The room left at the tail for the next read.
    pub closed spec fn spec_tail_space(self) -> int {
        self.data@.len() - self.tail
    }

    pub fn new(size: usize) -> (r: ByteBuffer)
        ensures
            r.wf(),
            r.cached() == Seq::<u8>::empty(),
            r.capacity() == size,
            r.spec_tail_space() == size,
    {
        let mut data: Vec<u8> = Vec::new();
        let mut i: usize = 0;
        while i < size
            invariant
                data@.len() == i,
                i <= size,
            decreases size - i,
        {
            data.push(0u8);
            i = i + 1;
        }
        let r = ByteBuffer { head: 0, tail: 0, data };
        proof {
            assert(r.cached() =~= Seq::<u8>::empty());
        }
        r
    }

    /// How many read bytes wait in the buffer.
    pub fn cached_bytes(&self) -> (n: usize)
        requires
            self.wf(),
        ensures
            n == self.cached().len(),
    {
        self.tail - self.head
    }

    /// How much room the tail has before a compaction is needed.
    pub fn tail_space(&self) -> (n: usize)
        requires
            self.wf(),
        ensures
            n == self.spec_tail_space(),
    {
        self.data.len() - self.tail
    }

    /// Copies the unread bytes to the front, making the whole free space
    /// available at the tail.  The cached bytes are unchanged.
    pub fn compact(&mut self)
        requires
            old(self).wf(),
        ensures
            final(self).wf(),
            final(self).cached() == old(self).cached(),
            final(self).capacity() == old(self).capacity(),
            final(self).spec_tail_space() == final(self).capacity() - final(self).cached().len(),
    {
        let cached: usize = self.tail - self.head;
        let mut i: usize = 0;
        while i < cached
            invariant
                self.head + cached == self.tail,
                self.tail <= self.data@.len(),
                i <= cached,
                self.head == old(self).head,
                self.tail == old(self).tail,
                self.data@.len() == old(self).data@.len(),
                forall|j: int|
                    i <= j < cached ==> self.data@[self.head + j] == old(self).cached()[j],
                self.data@.subrange(0, i as int) == old(self).cached().take(i as int),
            decreases cached - i,
        {
            let b = self.data[self.head + i];
            self.data.set(i, b);
            proof {
                assert(self.data@.subrange(0, i + 1) =~= old(self).cached().take(i + 1));
            }
            i = i + 1;
        }
        self.head = 0;
        self.tail = cached;
        proof {
            assert(self.cached() =~= old(self).cached().take(cached as int));
            assert(old(self).cached().take(cached as int) =~= old(self).cached());
        }
    }

    /// Appends bytes the stream's read delivered.
    pub fn fill(&mut self, chunk: &[u8])
        requires
            old(self).wf(),
            chunk@.len() <= old(self).spec_tail_space(),
        ensures
            final(self).wf(),
            final(self).cached() == old(self).cached() + chunk@,
            final(self).capacity() == old(self).capacity(),
            final(self).spec_tail_space() == old(self).spec_tail_space() - chunk@.len(),
    {
        let total: usize = self.data.len();
        let mut i: usize = 0;
        while i < chunk.len()
            invariant
                old(self).wf(),
                i <= chunk@.len(),
                chunk@.len() <= old(self).spec_tail_space(),
                self.head == old(self).head,
                self.tail == old(self).tail + i,
                self.tail <= self.data@.len(),
                self.data@.len() == total,
                self.data@.len() == old(self).data@.len(),
                self.data@.subrange(self.head as int, self.tail as int) == old(self).cached()
                    + chunk@.take(i as int),
            decreases chunk@.len() - i,
        {
            let ghost snap = self.data@;
            let ghost t0 = self.tail;
            self.data.set(self.tail, chunk[i]);
            self.tail = self.tail + 1;
            proof {
                assert(self.data@.subrange(self.head as int, self.tail as int) =~= snap.subrange(
                    self.head as int,
                    t0 as int,
                ).push(chunk@[i as int]));
                assert(chunk@.take(i + 1) =~= chunk@.take(i as int).push(chunk@[i as int]));
                assert(old(self).cached() + chunk@.take(i + 1) =~= (old(self).cached()
                    + chunk@.take(i as int)).push(chunk@[i as int]));
            }
            i = i + 1;
        }
        proof {
            assert(chunk@.take(chunk@.len() as int) =~= chunk@);
            assert(self.cached() =~= old(self).cached() + chunk@);
        }
    }

    /// Reads `bytes` bytes off the front of the queue without consuming
    /// them, or reports that the queue does not hold that many yet.
    pub fn peek_bytes(&self, bytes: usize) -> (r: Option<Vec<u8>>)
        requires
            self.wf(),
        ensures
            r is Some <==> bytes <= self.cached().len(),
            r matches Some(v) ==> v@ == self.cached().take(bytes as int),
    {
        if bytes > self.tail - self.head {
            return None;
        }
        let mut out: Vec<u8> = Vec::new();
        let mut i: usize = 0;
        while i < bytes
            invariant
                self.wf(),
                i <= bytes,
                self.head + bytes <= self.tail,
                out@ == self.cached().take(i as int),
            decreases bytes - i,
        {
            out.push(self.data[self.head + i]);
            proof {
                assert(self.cached().take(i + 1) =~= self.cached().take(i as int).push(
                    self.data@[self.head + i],
                ));
            }
            i = i + 1;
        }
        Some(out)
    }

    /// Takes `bytes` bytes off the front of the queue, or reports that the
    /// queue does not hold that many yet.
    pub fn read_bytes(&mut self, bytes: usize) -> (r: Option<Vec<u8>>)
        requires
            old(self).wf(),
        ensures
            final(self).wf(),
            final(self).capacity() == old(self).capacity(),
            r is Some <==> bytes <= old(self).cached().len(),
            r matches Some(v) ==> v@ == old(self).cached().take(bytes as int)
                && final(self).cached() == old(self).cached().skip(bytes as int),
            r is None ==> *final(self) == *old(self),
    {
        if bytes > self.tail - self.head {
            return None;
        }
        let mut out: Vec<u8> = Vec::new();
        let mut i: usize = 0;
        while i < bytes
            invariant
                old(self).wf(),
                *self == *old(self),
                i <= bytes,
                self.head + bytes <= self.tail,
                out@ == old(self).cached().take(i as int),
            decreases bytes - i,
        {
            out.push(self.data[self.head + i]);
            proof {
                assert(old(self).cached().take(i + 1) =~= old(self).cached().take(i as int).push(
                    self.data@[self.head + i],
                ));
            }
            i = i + 1;
        }
        self.head = self.head + bytes;
        proof {
            assert(self.cached() =~= old(self).cached().skip(bytes as int));
        }
        Some(out)
    }
}

/// Frames concatenated on the stream come out whole and in order: however
/// the reads split the bytes, the cached sequence is their concatenation,
/// its first `|F1|` bytes are the first frame, and what follows starts with
/// the second.
pub proof fn lemma_concatenated_frames(b: Seq<u8>, f1: Seq<u8>, f2: Seq<u8>)
    requires
        b == f1 + f2,
    ensures
        b.take(f1.len() as int) == f1,
        b.skip(f1.len() as int) == f2,
{
    assert(b.take(f1.len() as int) =~= f1);
    assert(b.skip(f1.len() as int) =~= f2);
}

} // verus!
