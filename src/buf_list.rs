//! A bounded list of byte buffers that drops the oldest when full.
use vstd::prelude::*;

verus! {

/// The buffers of `list`, one after another.
pub open spec fn concat(list: Seq<Seq<u8>>) -> Seq<u8>
    decreases list.len(),
{
    if list.len() == 0 {
        Seq::empty()
    } else {
        concat(list.drop_last()) + list.last()
    }
}

/// The number of buffers made by `BufList::default`.
pub const DEFAULT_BUFFERS: usize = 8;

/// At most `cap` buffers, oldest first.
pub struct BufList {
    cap: usize,
    list: Vec<Vec<u8>>,
}

impl BufList {
    /// The buffers held, oldest first.
    pub closed spec fn spec_list(&self) -> Seq<Seq<u8>> {
        self.list@.map_values(|b: Vec<u8>| b@)
    }

    /// The most buffers kept.
    pub closed spec fn spec_cap(&self) -> nat {
        self.cap as nat
    }

    /// An empty list that keeps at most `cap` buffers.
    pub fn with_capacity(cap: usize) -> (r: Self)
        ensures
            r.spec_cap() == cap,
            r.spec_list() == Seq::<Seq<u8>>::empty(),
    {
        let r = BufList { cap, list: Vec::new() };
        assert(r.spec_list() =~= Seq::<Seq<u8>>::empty());
        r
    }

    /// Appends `buf`, first dropping the oldest buffer when `cap` are held.
    pub fn push(&mut self, buf: Vec<u8>)
        ensures
            final(self).spec_cap() == old(self).spec_cap(),
            final(self).spec_list() == if old(self).spec_list().len() >= old(self).spec_cap()
                && old(self).spec_list().len() > 0 {
                old(self).spec_list().drop_first().push(buf@)
            } else {
                old(self).spec_list().push(buf@)
            },
    {
        let ghost b = buf@;
        if self.list.len() >= self.cap && self.list.len() > 0 {
            self.list.remove(0);
            self.list.push(buf);
            assert(self.spec_list() =~= old(self).spec_list().drop_first().push(b));
        } else {
            self.list.push(buf);
            assert(self.spec_list() =~= old(self).spec_list().push(b));
        }
    }

    fn concat_all(&self) -> (r: Vec<u8>)
        ensures
            r@ == concat(self.spec_list()),
    {
        let mut out: Vec<u8> = Vec::new();
        let mut i: usize = 0;
        while i < self.list.len()
            invariant
                i <= self.list@.len(),
                out@ == concat(self.spec_list().subrange(0, i as int)),
            decreases self.list@.len() - i,
        {
            let b = &self.list[i];
            let mut j: usize = 0;
            let ghost base = out@;
            while j < b.len()
                invariant
                    j <= b@.len(),
                    out@ == base + b@.subrange(0, j as int),
                decreases b@.len() - j,
            {
                out.push(b[j]);
                j = j + 1;
                assert(b@.subrange(0, j as int) =~= b@.subrange(0, j - 1).push(b@[j - 1]));
            }
            assert(b@.subrange(0, j as int) =~= b@);
            assert(self.spec_list().subrange(0, i + 1).drop_last() =~= self.spec_list().subrange(
                0,
                i as int,
            ));
            i = i + 1;
        }
        assert(self.spec_list().subrange(0, i as int) =~= self.spec_list());
        out
    }

    /// All buffers, oldest first, as one.
    pub fn peek(&self) -> (r: Vec<u8>)
        ensures
            r@ == concat(self.spec_list()),
    {
        self.concat_all()
    }

    /// All buffers, oldest first, as one; the list is left empty.
    pub fn consume(&mut self) -> (r: Vec<u8>)
        ensures
            r@ == concat(old(self).spec_list()),
            final(self).spec_cap() == old(self).spec_cap(),
            final(self).spec_list() == Seq::<Seq<u8>>::empty(),
    {
        let r = self.concat_all();
        self.list.clear();
        assert(self.spec_list() =~= Seq::<Seq<u8>>::empty());
        r
    }
}

impl Default for BufList {
    fn default() -> (r: Self)
        ensures
            r.spec_cap() == DEFAULT_BUFFERS,
            r.spec_list() == Seq::<Seq<u8>>::empty(),
    {
        BufList::with_capacity(DEFAULT_BUFFERS)
    }
}

} // verus!
