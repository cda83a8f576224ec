//! A bounded byte buffer holding the most recent output of a child process.
//!
//! Appending makes room by evicting whole lines from the front, so that the
//! retained history starts at a line boundary whenever that is possible.
use vstd::prelude::*;
use vstd::slice::slice_subrange;

verus! {

/// The byte that ends a line.
pub const NEWLINE: u8 = 10;

/// The capacity of a buffer made by `LogBuffer::default`.
pub const DEFAULT_CAPACITY: usize = 4096;

/// `s` without its first line: every byte up to and including the first
/// newline is removed; without a newline, nothing is left.
pub open spec fn drop_line(s: Seq<u8>) -> Seq<u8>
    decreases s.len(),
{
    if s.len() == 0 {
        s
    } else if s[0] == NEWLINE {
        s.drop_first()
    } else {
        drop_line(s.drop_first())
    }
}

/// Dropping a line from a non-empty sequence makes it strictly shorter.
pub proof fn lemma_drop_line_shorter(s: Seq<u8>)
    ensures
        drop_line(s).len() <= s.len(),
        s.len() > 0 ==> drop_line(s).len() < s.len(),
    decreases s.len(),
{
    if s.len() > 0 && s[0] != NEWLINE {
        lemma_drop_line_shorter(s.drop_first());
    }
}

/// The contents `s` after evicting leading lines until `need` more bytes fit
/// in `cap`, or nothing is left.
pub open spec fn make_room(s: Seq<u8>, need: nat, cap: nat) -> Seq<u8>
    decreases s.len(),
    via make_room_decreases
{
    if s.len() == 0 || s.len() + need <= cap {
        s
    } else {
        make_room(drop_line(s), need, cap)
    }
}

#[via_fn]
proof fn make_room_decreases(s: Seq<u8>, need: nat, cap: nat) {
    lemma_drop_line_shorter(s);
}

/// The contents of a buffer of capacity `cap` holding `s` after `b` is appended.
pub open spec fn appended(s: Seq<u8>, b: Seq<u8>, cap: nat) -> Seq<u8> {
    if b.len() >= cap {
        b.subrange(b.len() - cap, b.len() as int)
    } else {
        make_room(s, b.len(), cap) + b
    }
}

/// Position in the backing storage of the `i`-th live byte.
pub open spec fn slot(head: int, i: int, cap: int) -> int {
    if head + i < cap {
        head + i
    } else {
        head + i - cap
    }
}

/// A fixed-capacity circular byte buffer with line-aware eviction.
pub struct LogBuffer {
    storage: Vec<u8>,
    head: usize,
    len: usize,
}

impl View for LogBuffer {
    type V = Seq<u8>;

    closed spec fn view(&self) -> Seq<u8> {
        Seq::new(
            self.len as nat,
            |i: int| self.storage@[slot(self.head as int, i, self.storage@.len() as int)],
        )
    }
}

impl LogBuffer {
    /// The fixed capacity of the buffer.
    pub closed spec fn capacity(&self) -> nat {
        self.storage@.len()
    }

    /// The internal representation is consistent.
    pub closed spec fn wf(&self) -> bool {
        &&& self.len <= self.storage@.len()
        &&& (self.head < self.storage@.len() || (self.head == 0 && self.storage@.len() == 0))
    }

    /// Makes an empty buffer that retains at most `cap` bytes.
    pub fn with_capacity(cap: usize) -> (r: Self)
        ensures
            r.wf(),
            r.capacity() == cap,
            r@ == Seq::<u8>::empty(),
    {
        let r = LogBuffer { storage: vec![0u8; cap], head: 0, len: 0 };
        assert(r@ =~= Seq::<u8>::empty());
        r
    }

    /// The number of bytes held.
    pub fn len(&self) -> (r: usize)
        requires
            self.wf(),
        ensures
            r == self@.len(),
    {
        self.len
    }

    /// Whether no byte is held.
    pub fn is_empty(&self) -> (r: bool)
        requires
            self.wf(),
        ensures
            r == (self@.len() == 0),
    {
        self.len == 0
    }

    /// Whether the buffer holds `capacity` bytes at most: true of every
    /// well-formed buffer.
    pub proof fn lemma_within_capacity(&self)
        requires
            self.wf(),
        ensures
            self@.len() <= self.capacity(),
    {
    }

    fn clear(&mut self)
        requires
            old(self).wf(),
        ensures
            final(self).wf(),
            final(self).capacity() == old(self).capacity(),
            final(self)@ == Seq::<u8>::empty(),
    {
        self.head = 0;
        self.len = 0;
        assert(self@ =~= Seq::<u8>::empty());
    }

    fn pop_front(&mut self) -> (b: u8)
        requires
            old(self).wf(),
            old(self)@.len() > 0,
        ensures
            final(self).wf(),
            final(self).capacity() == old(self).capacity(),
            b == old(self)@[0],
            final(self)@ == old(self)@.drop_first(),
    {
        let b = self.storage[self.head];
        if self.head == self.storage.len() - 1 {
            self.head = 0;
        } else {
            self.head = self.head + 1;
        }
        self.len = self.len - 1;
        assert(self@ =~= old(self)@.drop_first());
        b
    }

    fn push_back(&mut self, b: u8)
        requires
            old(self).wf(),
            old(self)@.len() < old(self).capacity(),
        ensures
            final(self).wf(),
            final(self).capacity() == old(self).capacity(),
            final(self)@ == old(self)@.push(b),
    {
        let cap = self.storage.len();
        let idx = if self.head < cap - self.len {
            self.head + self.len
        } else {
            self.head - (cap - self.len)
        };
        self.storage.set(idx, b);
        self.len = self.len + 1;
        assert(self@ =~= old(self)@.push(b));
    }

    /// Appends `data[start..]`, which must fit without eviction.
    fn push_all(&mut self, data: &[u8], start: usize)
        requires
            old(self).wf(),
            start <= data@.len(),
            old(self)@.len() + (data@.len() - start) <= old(self).capacity(),
        ensures
            final(self).wf(),
            final(self).capacity() == old(self).capacity(),
            final(self)@ == old(self)@ + data@.subrange(start as int, data@.len() as int),
    {
        let mut i: usize = start;
        while i < data.len()
            invariant
                self.wf(),
                self.capacity() == old(self).capacity(),
                start <= i <= data@.len(),
                self@ == old(self)@ + data@.subrange(start as int, i as int),
                old(self)@.len() + (data@.len() - start) <= old(self).capacity(),
            decreases data@.len() - i,
        {
            self.push_back(data[i]);
            i = i + 1;
            assert(data@.subrange(start as int, i as int) =~= data@.subrange(
                start as int,
                i - 1,
            ).push(data@[i - 1]));
        }
    }

    /// Evicts the first line, newline included.
    fn evict_line(&mut self)
        requires
            old(self).wf(),
        ensures
            final(self).wf(),
            final(self).capacity() == old(self).capacity(),
            final(self)@ == drop_line(old(self)@),
    {
        while self.len > 0
            invariant
                self.wf(),
                self.capacity() == old(self).capacity(),
                drop_line(self@) == drop_line(old(self)@),
            decreases self@.len(),
        {
            let ghost before = self@;
            let b = self.pop_front();
            if b == NEWLINE {
                return;
            }
        }
    }

    /// Appends `data`. When `data` is at least as long as the capacity, the
    /// buffer ends up holding the trailing `capacity` bytes of `data`;
    /// otherwise whole lines are evicted from the front until `data` fits.
    pub fn append(&mut self, data: &[u8])
        requires
            old(self).wf(),
        ensures
            final(self).wf(),
            final(self).capacity() == old(self).capacity(),
            final(self)@ == appended(old(self)@, data@, old(self).capacity()),
    {
        let n = data.len();
        let cap = self.storage.len();
        if n >= cap {
            self.clear();
            self.push_all(data, n - cap);
            assert(self@ =~= data@.subrange(n - cap, n as int));
            return;
        }
        while cap - self.len < n
            invariant
                self.wf(),
                self.capacity() == cap,
                cap == old(self).capacity(),
                n == data@.len(),
                n < cap,
                make_room(self@, n as nat, cap as nat) == make_room(
                    old(self)@,
                    n as nat,
                    cap as nat,
                ),
            decreases self@.len(),
        {
            let ghost before = self@;
            self.evict_line();
            proof {
                lemma_drop_line_shorter(before);
            }
        }
        self.push_all(data, 0);
        assert(data@.subrange(0, n as int) =~= data@);
    }

    /// The live contents as two contiguous slices, oldest bytes first.
    pub fn with_buffers(&self) -> (r: (&[u8], &[u8]))
        requires
            self.wf(),
        ensures
            r.0@ + r.1@ == self@,
    {
        let cap = self.storage.len();
        let all = self.storage.as_slice();
        if self.head <= cap - self.len {
            let first = slice_subrange(all, self.head, self.head + self.len);
            let second = slice_subrange(all, 0, 0);
            assert(first@ + second@ =~= self@);
            (first, second)
        } else {
            let first = slice_subrange(all, self.head, cap);
            let second = slice_subrange(all, 0, self.head - (cap - self.len));
            assert(first@ + second@ =~= self@);
            (first, second)
        }
    }
}

impl Default for LogBuffer {
    fn default() -> (r: Self)
        ensures
            r.wf(),
            r.capacity() == DEFAULT_CAPACITY,
            r@ == Seq::<u8>::empty(),
    {
        LogBuffer::with_capacity(DEFAULT_CAPACITY)
    }
}

/// Evicting lines to make room for `need < cap` bytes leaves room for them.
pub proof fn lemma_make_room_fits(s: Seq<u8>, need: nat, cap: nat)
    requires
        need < cap,
    ensures
        make_room(s, need, cap).len() + need <= cap,
    decreases s.len(),
{
    if !(s.len() == 0 || s.len() + need <= cap) {
        lemma_drop_line_shorter(s);
        lemma_make_room_fits(drop_line(s), need, cap);
    }
}

/// Whatever is appended, a buffer never holds more than its capacity, and an
/// input at least as long as the capacity leaves exactly its own suffix of
/// that length.
pub proof fn lemma_append_bounded(s: Seq<u8>, b: Seq<u8>, cap: nat)
    requires
        s.len() <= cap,
    ensures
        appended(s, b, cap).len() <= cap,
        b.len() >= cap ==> appended(s, b, cap) == b.subrange(b.len() - cap, b.len() as int),
{
    if b.len() < cap {
        lemma_make_room_fits(s, b.len(), cap);
    }
}

} // verus!
