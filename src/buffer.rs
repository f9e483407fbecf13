use vstd::prelude::*;

verus! {

/// Position `x` on a circle of `cap` slots, for `0 <= x < 2 * cap`.
pub open spec fn wrap(x: int, cap: int) -> int {
    if x < cap {
        x
    } else {
        x - cap
    }
}

/// Where the two cursors of the circular buffer stand.
///
/// `write_head` is where bytes are next written out of the buffer; `read_head`
/// is where bytes are next read into it. Equal cursors would be ambiguous, so
/// the empty and the full buffer are cases of their own.
#[derive(Debug, Clone, Copy, PartialEq, Eq, Structural)]
pub enum BufferHeads {
    /// Nothing is buffered: the whole storage is free, reading starts at 0.
    ReadReady,
    /// The storage is full; writing out starts at the given point.
    WriteReady(usize),
    /// Both free space and buffered bytes exist.
    DuplexReady { write_head: usize, read_head: usize },
}

impl BufferHeads {
    /// The cursors are inside a storage of `cap` bytes, and distinct when both are tracked.
    pub open spec fn wf(self, cap: nat) -> bool {
        &&& cap > 0
        &&& match self {
            BufferHeads::ReadReady => true,
            BufferHeads::WriteReady(p) => p < cap,
            BufferHeads::DuplexReady { write_head, read_head } =>
                write_head < cap && read_head < cap && write_head != read_head,
        }
    }

    /// Forward distance from the write-out cursor to the read-in cursor.
    pub open spec fn filled_len(self, cap: nat) -> nat {
        match self {
            BufferHeads::ReadReady => 0,
            BufferHeads::WriteReady(_) => cap,
            BufferHeads::DuplexReady { write_head, read_head } =>
                if write_head < read_head {
                    (read_head - write_head) as nat
                } else {
                    (cap - write_head + read_head) as nat
                },
        }
    }

    /// Forward distance from the read-in cursor to the write-out cursor.
    pub open spec fn free_len(self, cap: nat) -> nat {
        match self {
            BufferHeads::ReadReady => cap,
            BufferHeads::WriteReady(_) => 0,
            BufferHeads::DuplexReady { write_head, read_head } =>
                if read_head < write_head {
                    (write_head - read_head) as nat
                } else {
                    (cap - read_head + write_head) as nat
                },
        }
    }

    /// Index of the first buffered byte.
    pub open spec fn filled_start(self) -> nat {
        match self {
            BufferHeads::ReadReady => 0,
            BufferHeads::WriteReady(p) => p as nat,
            BufferHeads::DuplexReady { write_head, .. } => write_head as nat,
        }
    }

    /// Index of the first free byte.
    pub open spec fn free_start(self) -> nat {
        match self {
            BufferHeads::ReadReady => 0,
            BufferHeads::WriteReady(p) => p as nat,
            BufferHeads::DuplexReady { read_head, .. } => read_head as nat,
        }
    }

    pub open spec fn spec_read_ready(&self) -> bool {
        !(self is WriteReady)
    }

    pub open spec fn spec_write_ready(&self) -> bool {
        !(self is ReadReady)
    }

    /// Records that `amount` free bytes were filled.
    pub fn advance_read(self, amount: usize, max: usize) -> (r: Self)
        requires
            self.wf(max as nat),
            self.read_ready(),
            0 < amount <= self.free_len(max as nat),
        ensures
            r.wf(max as nat),
            r.filled_len(max as nat) == self.filled_len(max as nat) + amount,
            r.filled_start() == self.filled_start(),
            r.free_start() == wrap(self.free_start() + amount, max as int),
    {
        let (read_head, write_head) = match self {
            BufferHeads::ReadReady => (0usize, 0usize),
            BufferHeads::WriteReady(_) => (0usize, 0usize),
            BufferHeads::DuplexReady { write_head, read_head } => (read_head, write_head),
        };
        let read_head: usize = if amount >= max - read_head {
            amount - (max - read_head)
        } else {
            read_head + amount
        };
        if read_head == write_head {
            BufferHeads::WriteReady(write_head)
        } else {
            BufferHeads::DuplexReady { write_head, read_head }
        }
    }

    /// Records that `amount` buffered bytes were written out.
    pub fn advance_write(self, amount: usize, max: usize) -> (r: Self)
        requires
            self.wf(max as nat),
            self.write_ready(),
            0 < amount <= self.filled_len(max as nat),
        ensures
            r.wf(max as nat),
            r.filled_len(max as nat) == self.filled_len(max as nat) - amount,
            r.filled_len(max as nat) > 0 ==> r.filled_start() == wrap(
                self.filled_start() + amount,
                max as int,
            ),
            r.filled_len(max as nat) > 0 ==> r.free_start() == self.free_start(),
    {
        let (write_head, read_head) = match self {
            BufferHeads::ReadReady => (0usize, 0usize),
            BufferHeads::WriteReady(point) => (point, point),
            BufferHeads::DuplexReady { write_head, read_head } => (write_head, read_head),
        };
        let write_head: usize = if amount >= max - write_head {
            amount - (max - write_head)
        } else {
            write_head + amount
        };
        if write_head == read_head {
            BufferHeads::ReadReady
        } else {
            BufferHeads::DuplexReady { write_head, read_head }
        }
    }

    /// True unless the storage is full.
    #[verifier::when_used_as_spec(spec_read_ready)]
    pub fn read_ready(&self) -> (r: bool)
        ensures
            r == self.spec_read_ready(),
    {
        match *self {
            BufferHeads::WriteReady(_) => false,
            _ => true,
        }
    }

    /// True unless the storage is empty.
    #[verifier::when_used_as_spec(spec_write_ready)]
    pub fn write_ready(&self) -> (r: bool)
        ensures
            r == self.spec_write_ready(),
    {
        match *self {
            BufferHeads::ReadReady => false,
            _ => true,
        }
    }
}

/// Free and buffered space always add up to the whole storage.
pub proof fn lemma_lengths_cover_capacity(h: BufferHeads, cap: nat)
    requires
        h.wf(cap),
    ensures
        h.free_len(cap) + h.filled_len(cap) == cap,
        h.free_start() == wrap((h.filled_start() + h.filled_len(cap)) as int, cap as int),
{
}

/// A well-formed buffer can always read or write: it is never full and empty at once.
pub proof fn lemma_always_ready(h: BufferHeads, cap: nat)
    requires
        h.wf(cap),
    ensures
        h.read_ready() || h.write_ready(),
        h.read_ready() <==> h.free_len(cap) > 0,
        h.write_ready() <==> h.filled_len(cap) > 0,
{
}

/// A fixed circular storage split into a free arc and a buffered arc.
pub struct DuplexBuffer {
    buffer: Vec<u8>,
    heads: BufferHeads,
}

/// The current views of a [`DuplexBuffer`]: how many bytes can be read in, and
/// the buffered bytes in order, as at most two segments of the storage.
pub struct Buffers<'a> {
    pub room: usize,
    pub write: [&'a [u8]; 2],
}

impl DuplexBuffer {
    /// The backing storage.
    pub closed spec fn storage(&self) -> Seq<u8> {
        self.buffer@
    }

    pub closed spec fn heads(&self) -> BufferHeads {
        self.heads
    }

    pub open spec fn capacity(&self) -> nat {
        self.storage().len()
    }

    pub open spec fn wf(&self) -> bool {
        self.heads().wf(self.capacity())
    }

    /// The buffered bytes, oldest first.
    pub open spec fn filled(&self) -> Seq<u8> {
        Seq::new(
            self.heads().filled_len(self.capacity()),
            |i: int| self.storage()[wrap(self.heads().filled_start() + i, self.capacity() as int)],
        )
    }

    /// The free arc, in the order it is filled.
    pub open spec fn free(&self) -> Seq<u8> {
        Seq::new(
            self.heads().free_len(self.capacity()),
            |i: int| self.storage()[wrap(self.heads().free_start() + i, self.capacity() as int)],
        )
    }

    /// Number of bytes that can be read in.
    pub open spec fn room(&self) -> nat {
        self.heads().free_len(self.capacity())
    }

    /// Takes `buffer` as the storage; nothing is buffered yet.
    pub fn new(buffer: Vec<u8>) -> (r: Self)
        requires
            buffer@.len() > 0,
        ensures
            r.wf(),
            r.storage() == buffer@,
            r.heads() == BufferHeads::ReadReady,
            r.filled() == Seq::<u8>::empty(),
            r.room() == buffer@.len(),
    {
        let r = DuplexBuffer { buffer, heads: BufferHeads::ReadReady };
        assert(r.filled() =~= Seq::<u8>::empty());
        r
    }

    pub fn capacity_len(&self) -> (r: usize)
        ensures
            r == self.capacity(),
    {
        self.buffer.len()
    }

    /// The free length and the buffered bytes as one or two segments: the
    /// first runs from the oldest byte towards the end of the storage, the
    /// second continues from its start.
    pub fn get_buffers(&self) -> (r: Buffers<'_>)
        requires
            self.wf(),
        ensures
            r.room == self.room(),
            r.write[0]@ + r.write[1]@ == self.filled(),
            r.write[0]@.len() == if self.filled().len() == 0 {
                0
            } else if self.heads().filled_start() + self.filled().len() <= self.capacity() {
                self.filled().len()
            } else {
                (self.capacity() - self.heads().filled_start()) as nat
            },
    {
        let s = self.buffer.as_slice();
        let cap = s.len();
        match self.heads {
            BufferHeads::ReadReady => {
                let empty = vstd::slice::slice_subrange(s, 0, 0);
                let r = Buffers { room: cap, write: [empty, empty] };
                assert(r.write[0]@ + r.write[1]@ =~= self.filled());
                r
            },
            BufferHeads::WriteReady(point) => {
                let (head, tail) = s.split_at(point);
                let r = Buffers { room: 0, write: [tail, head] };
                assert(r.write[0]@ + r.write[1]@ =~= self.filled());
                r
            },
            BufferHeads::DuplexReady { write_head, read_head } => {
                if write_head < read_head {
                    let seg = vstd::slice::slice_subrange(s, write_head, read_head);
                    let empty = vstd::slice::slice_subrange(s, 0, 0);
                    let r = Buffers { room: cap - read_head + write_head, write: [seg, empty] };
                    assert(r.write[0]@ + r.write[1]@ =~= self.filled());
                    r
                } else {
                    let tail = vstd::slice::slice_subrange(s, write_head, cap);
                    let head = vstd::slice::slice_subrange(s, 0, read_head);
                    let r = Buffers { room: write_head - read_head, write: [tail, head] };
                    assert(r.write[0]@ + r.write[1]@ =~= self.filled());
                    r
                }
            },
        }
    }

    /// True if there is room to read into.
    pub fn read_ready(&self) -> (r: bool)
        requires
            self.wf(),
        ensures
            r == self.heads().read_ready(),
            r == (self.room() > 0),
    {
        self.heads.read_ready()
    }

    /// True if there are buffered bytes to write out.
    pub fn write_ready(&self) -> (r: bool)
        requires
            self.wf(),
        ensures
            r == self.heads().write_ready(),
            r == (self.filled().len() > 0),
    {
        self.heads.write_ready()
    }

    /// Copies `data` into the free arc and marks it as buffered.
    pub fn fill(&mut self, data: &[u8])
        requires
            old(self).wf(),
            0 < data@.len() <= old(self).room(),
        ensures
            final(self).wf(),
            final(self).capacity() == old(self).capacity(),
            final(self).filled() == old(self).filled() + data@,
    {
        proof {
            lemma_lengths_cover_capacity(self.heads, self.capacity());
        }
        let ghost prev = *self;
        let cap = self.buffer.len();
        let start: usize = match self.heads {
            BufferHeads::ReadReady => 0,
            BufferHeads::WriteReady(p) => p,
            BufferHeads::DuplexReady { read_head, .. } => read_head,
        };
        let n = data.len();
        let mut i: usize = 0;
        while i < n
            invariant
                i <= n,
                n == data@.len(),
                cap == self.buffer@.len(),
                cap == prev.capacity(),
                self.heads == prev.heads(),
                start == prev.heads().free_start(),
                start < cap,
                n <= prev.room(),
                prev.wf(),
                prev.heads().free_len(cap as nat) + prev.heads().filled_len(cap as nat) == cap,
                prev.heads().free_start() == wrap(
                    (prev.heads().filled_start() + prev.heads().filled_len(cap as nat)) as int,
                    cap as int,
                ),
                self.filled() == prev.filled(),
                forall|j: int| 0 <= j < i ==> self.buffer@[wrap(start + j, cap as int)] == data@[j],
            decreases n - i,
        {
            let pos: usize = if i >= cap - start {
                i - (cap - start)
            } else {
                start + i
            };
            self.buffer.set(pos, data[i]);
            i = i + 1;
            assert(self.filled() =~= prev.filled());
        }
        proof {
            assert(self.free().take(n as int) =~= data@);
        }
        self.advance_read(n);
    }

    /// Marks the first `amount` bytes of the free arc as buffered.
    pub fn advance_read(&mut self, amount: usize)
        requires
            old(self).wf(),
            0 < amount <= old(self).room(),
        ensures
            final(self).wf(),
            final(self).storage() == old(self).storage(),
            final(self).filled() == old(self).filled() + old(self).free().take(amount as int),
            final(self).free() == old(self).free().skip(amount as int),
    {
        proof {
            lemma_lengths_cover_capacity(self.heads, self.capacity());
        }
        let ghost prev = *self;
        let cap = self.buffer.len();
        self.heads = self.heads.advance_read(amount, cap);
        proof {
            lemma_lengths_cover_capacity(self.heads, self.capacity());
            assert(self.filled() =~= prev.filled() + prev.free().take(amount as int));
            assert(self.free() =~= prev.free().skip(amount as int));
        }
    }

    /// Drops the first `amount` buffered bytes, which were written out.
    pub fn advance_write(&mut self, amount: usize)
        requires
            old(self).wf(),
            0 < amount <= old(self).filled().len(),
        ensures
            final(self).wf(),
            final(self).storage() == old(self).storage(),
            final(self).filled() == old(self).filled().skip(amount as int),
    {
        let ghost prev = *self;
        let cap = self.buffer.len();
        self.heads = self.heads.advance_write(amount, cap);
        proof {
            assert(self.filled() =~= prev.filled().skip(amount as int));
        }
    }
}

/// Total length of a pair of byte segments.
pub fn pair_len(pair: &[&[u8]; 2]) -> (r: usize)
    requires
        pair@[0]@.len() + pair@[1]@.len() <= usize::MAX,
    ensures
        r == pair@[0]@.len() + pair@[1]@.len(),
{
    pair[0].len() + pair[1].len()
}

} // verus!
