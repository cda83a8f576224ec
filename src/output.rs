//! The output of one child process: its recent history and the subscribers
//! that are sent each new chunk.
use vstd::prelude::*;
use crate::log_buf::{LogBuffer, appended};
use crate::subscriber_list::{SubscriberList, has_id};

verus! {

/// Recent output of a child together with the subscribers streaming it.
///
/// Attaching a subscriber and publishing a chunk both take `&mut self`, so a
/// subscriber is attached either wholly before or wholly after a publish: it
/// receives the history at that moment, then every later chunk.
pub struct OutputHub<T> {
    history: LogBuffer,
    subscribers: SubscriberList<T>,
    /// The bytes addressed to each subscriber since it was attached.
    received: Ghost<Map<u64, Seq<u8>>>,
}

impl<T> OutputHub<T> {
    /// The retained history.
    pub closed spec fn spec_history(&self) -> Seq<u8> {
        self.history@
    }

    /// The capacity of the history.
    pub closed spec fn spec_capacity(&self) -> nat {
        self.history.capacity()
    }

    /// The subscribers with their ids, oldest first.
    pub closed spec fn spec_subscribers(&self) -> Seq<(u64, T)> {
        self.subscribers.spec_entries()
    }

    /// The id the next attached subscriber gets.
    pub closed spec fn spec_next_id(&self) -> u64 {
        self.subscribers.spec_next_id()
    }

    /// For each attached subscriber, the bytes addressed to it since it was
    /// attached: the history at that moment, then each chunk published since.
    pub closed spec fn spec_received(&self) -> Map<u64, Seq<u8>> {
        self.received@
    }

    pub closed spec fn wf(&self) -> bool {
        &&& self.history.wf()
        &&& self.subscribers.wf()
        &&& forall|id: u64|
            has_id(self.subscribers.spec_entries(), id) ==> #[trigger] self.received@.dom().contains(
                id,
            )
    }

    /// A hub with no subscriber whose history keeps at most `cap` bytes.
    pub fn with_capacity(cap: usize) -> (r: Self)
        ensures
            r.wf(),
            r.spec_history() == Seq::<u8>::empty(),
            r.spec_capacity() == cap,
            r.spec_subscribers() == Seq::<(u64, T)>::empty(),
            r.spec_next_id() == 0,
    {
        OutputHub {
            history: LogBuffer::with_capacity(cap),
            subscribers: SubscriberList::new(),
            received: Ghost(Map::empty()),
        }
    }

    /// The retained history as one vector.
    pub fn history(&self) -> (r: Vec<u8>)
        requires
            self.wf(),
        ensures
            r@ == self.spec_history(),
    {
        let (a, b) = self.history.with_buffers();
        let mut v: Vec<u8> = Vec::new();
        let mut i: usize = 0;
        while i < a.len()
            invariant
                i <= a@.len(),
                v@ == a@.subrange(0, i as int),
            decreases a@.len() - i,
        {
            v.push(a[i]);
            i = i + 1;
            assert(a@.subrange(0, i as int) =~= a@.subrange(0, i - 1).push(a@[i - 1]));
        }
        let mut j: usize = 0;
        while j < b.len()
            invariant
                i == a@.len(),
                j <= b@.len(),
                v@ == a@.subrange(0, i as int) + b@.subrange(0, j as int),
            decreases b@.len() - j,
        {
            v.push(b[j]);
            j = j + 1;
            assert(b@.subrange(0, j as int) =~= b@.subrange(0, j - 1).push(b@[j - 1]));
        }
        assert(a@.subrange(0, i as int) =~= a@);
        assert(b@.subrange(0, j as int) =~= b@);
        v
    }

    /// Attaches `subscriber`: returns its id and the history it is to be sent
    /// first. `None`, with nothing changed, once every id has been handed out.
    pub fn attach(&mut self, subscriber: T) -> (r: Option<(u64, Vec<u8>)>)
        requires
            old(self).wf(),
        ensures
            final(self).wf(),
            final(self).spec_history() == old(self).spec_history(),
            final(self).spec_capacity() == old(self).spec_capacity(),
            r is None <==> old(self).spec_next_id() == u64::MAX,
            r is Some ==> r->Some_0.0 == old(self).spec_next_id() && final(self).spec_next_id()
                == old(self).spec_next_id() + 1,
            match r {
                Some((id, snapshot)) => {
                    &&& snapshot@ == old(self).spec_history()
                    &&& !has_id(old(self).spec_subscribers(), id)
                    &&& final(self).spec_subscribers() == old(self).spec_subscribers().push(
                        (id, subscriber),
                    )
                    &&& final(self).spec_received() == old(self).spec_received().insert(
                        id,
                        old(self).spec_history(),
                    )
                },
                None => final(self).spec_subscribers() == old(self).spec_subscribers()
                    && final(self).spec_received() == old(self).spec_received(),
            },
    {
        let snapshot = self.history();
        match self.subscribers.subscribe(subscriber) {
            Some(id) => {
                self.received = Ghost(self.received@.insert(id, self.history@));
                assert forall|k: u64| has_id(self.subscribers.spec_entries(), k) implies #[trigger] self.received@.dom().contains(
                    k,
                ) by {
                    if k != id {
                        let p = choose|p: int|
                            0 <= p < self.subscribers.spec_entries().len()
                                && #[trigger] self.subscribers.spec_entries()[p].0 == k;
                        assert(p < old(self).subscribers.spec_entries().len());
                        assert(old(self).subscribers.spec_entries()[p].0 == k);
                    }
                }
                Some((id, snapshot))
            },
            None => None,
        }
    }

    /// Detaches the subscriber with id `id` and returns it, if attached.
    pub fn detach(&mut self, id: u64) -> (r: Option<T>)
        requires
            old(self).wf(),
        ensures
            final(self).wf(),
            final(self).spec_history() == old(self).spec_history(),
            final(self).spec_capacity() == old(self).spec_capacity(),
            final(self).spec_received() == old(self).spec_received(),
            final(self).spec_next_id() == old(self).spec_next_id(),
            match r {
                Some(v) => exists|p: int|
                    0 <= p < old(self).spec_subscribers().len() && #[trigger] old(
                        self,
                    ).spec_subscribers()[p] == (id, v) && final(self).spec_subscribers() == old(
                        self,
                    ).spec_subscribers().remove(p),
                None => !has_id(old(self).spec_subscribers(), id) && final(self).spec_subscribers()
                    == old(self).spec_subscribers(),
            },
    {
        let r = self.subscribers.cancel(id);
        assert forall|k: u64| has_id(self.subscribers.spec_entries(), k) implies #[trigger] self.received@.dom().contains(
            k,
        ) by {
            let q = choose|q: int|
                0 <= q < self.subscribers.spec_entries().len()
                    && #[trigger] self.subscribers.spec_entries()[q].0 == k;
            match r {
                Some(v) => {
                    let p = choose|p: int|
                        0 <= p < old(self).subscribers.spec_entries().len() && #[trigger] old(
                            self,
                        ).subscribers.spec_entries()[p] == (id, v)
                            && self.subscribers.spec_entries() == old(
                            self,
                        ).subscribers.spec_entries().remove(p);
                    let oq = if q < p { q } else { q + 1 };
                    assert(old(self).subscribers.spec_entries()[oq].0 == k);
                },
                None => {
                    assert(old(self).subscribers.spec_entries()[q].0 == k);
                },
            }
        }
        proof {
            if r is Some {
                let v = r->Some_0;
                let p = choose|p: int|
                    0 <= p < old(self).subscribers.spec_entries().len() && #[trigger] old(
                        self,
                    ).subscribers.spec_entries()[p] == (id, v)
                        && self.subscribers.spec_entries() == old(
                        self,
                    ).subscribers.spec_entries().remove(p);
                assert(old(self).spec_subscribers()[p] == (id, v));
            }
        }
        r
    }

    /// Publishes a chunk of output: appends it to the history and addresses
    /// it to every attached subscriber, after everything addressed to it
    /// before. The caller then sends `data` to each of `subscribers()`.
    pub fn write_output(&mut self, data: &[u8])
        requires
            old(self).wf(),
        ensures
            final(self).wf(),
            final(self).spec_capacity() == old(self).spec_capacity(),
            final(self).spec_history() == appended(
                old(self).spec_history(),
                data@,
                old(self).spec_capacity(),
            ),
            published(final(self), old(self), data@),
            final(self).spec_next_id() == old(self).spec_next_id(),
    {
        self.history.append(data);
        let ghost subs = self.subscribers.spec_entries();
        let ghost before = self.received@;
        self.received = Ghost(
            Map::new(
                |id: u64| before.dom().contains(id),
                |id: u64|
                    if has_id(subs, id) {
                        before[id] + data@
                    } else {
                        before[id]
                    },
            ),
        );
        assert(self.received@.dom() =~= before.dom());
    }

    /// The attached subscribers with their ids, oldest first.
    pub fn subscribers(&self) -> (r: &Vec<(u64, T)>)
        requires
            self.wf(),
        ensures
            r@ == self.spec_subscribers(),
    {
        self.subscribers.entries()
    }
}

/// Chunks one after another.
pub open spec fn chunks_joined(chunks: Seq<Seq<u8>>) -> Seq<u8>
    decreases chunks.len(),
{
    if chunks.len() == 0 {
        Seq::empty()
    } else {
        chunks_joined(chunks.drop_last()) + chunks.last()
    }
}

/// Whether hub `after` is hub `before` once chunk `data` was published: the
/// same subscribers, each addressed `data` after what it was addressed
/// before.
pub open spec fn published<T>(after: &OutputHub<T>, before: &OutputHub<T>, data: Seq<u8>) -> bool {
    &&& after.spec_subscribers() == before.spec_subscribers()
    &&& after.spec_received().dom() == before.spec_received().dom()
    &&& forall|id: u64|
        has_id(before.spec_subscribers(), id) ==> #[trigger] after.spec_received()[id]
            == before.spec_received()[id] + data
    &&& forall|id: u64|
        before.spec_received().dom().contains(id) && !has_id(before.spec_subscribers(), id)
            ==> #[trigger] after.spec_received()[id] == before.spec_received()[id]
}

/// A subscriber attached before a run of publishes is addressed, in order,
/// what it was addressed at attachment followed by every published chunk,
/// and stays attached.
pub proof fn lemma_publishes_in_order<T>(hubs: Seq<OutputHub<T>>, chunks: Seq<Seq<u8>>, id: u64)
    requires
        hubs.len() == chunks.len() + 1,
        has_id(hubs[0].spec_subscribers(), id),
        forall|i: int|
            0 <= i < chunks.len() ==> published(&#[trigger] hubs[i + 1], &hubs[i], chunks[i]),
    ensures
        has_id(hubs.last().spec_subscribers(), id),
        hubs.last().spec_received()[id] == hubs[0].spec_received()[id] + chunks_joined(chunks),
    decreases chunks.len(),
{
    if chunks.len() == 0 {
        assert(hubs[0].spec_received()[id] + chunks_joined(chunks) =~= hubs[0].spec_received()[id]);
    } else {
        let n = chunks.len() - 1;
        let hs = hubs.drop_last();
        let cs = chunks.drop_last();
        assert forall|i: int| 0 <= i < cs.len() implies published(&#[trigger] hs[i + 1], &hs[i], cs[i]) by {
            assert(published(&hubs[i + 1], &hubs[i], chunks[i]));
        }
        lemma_publishes_in_order(hs, cs, id);
        assert(published(&hubs[n + 1], &hubs[n], chunks[n]));
        assert(hs.last() == hubs[n]);
        assert(hubs.last().spec_received()[id] =~= hubs[0].spec_received()[id] + chunks_joined(
            chunks,
        ));
    }
}

} // verus!
