//! A keyed set of subscribers: subscribe, cancel, and visit in order.
use vstd::prelude::*;

verus! {

/// Ids of `entries` are strictly increasing and all below `next`.
pub open spec fn ids_ordered<T>(entries: Seq<(u64, T)>, next: u64) -> bool {
    &&& forall|i: int, j: int|
        0 <= i < j < entries.len() ==> #[trigger] entries[i].0 < #[trigger] entries[j].0
    &&& forall|i: int| 0 <= i < entries.len() ==> #[trigger] entries[i].0 < next
}

/// Whether some entry of `entries` has id `id`.
pub open spec fn has_id<T>(entries: Seq<(u64, T)>, id: u64) -> bool {
    exists|i: int| 0 <= i < entries.len() && #[trigger] entries[i].0 == id
}

/// Subscribers keyed by ids handed out in increasing order.
pub struct SubscriberList<T> {
    entries: Vec<(u64, T)>,
    next_id: u64,
}

impl<T> SubscriberList<T> {
    /// The subscribers with their ids, oldest first.
    pub closed spec fn spec_entries(&self) -> Seq<(u64, T)> {
        self.entries@
    }

    /// The id the next subscriber gets.
    pub closed spec fn spec_next_id(&self) -> u64 {
        self.next_id
    }

    pub open spec fn wf(&self) -> bool {
        ids_ordered(self.spec_entries(), self.spec_next_id())
    }

    /// An empty list.
    pub fn new() -> (r: Self)
        ensures
            r.wf(),
            r.spec_entries() == Seq::<(u64, T)>::empty(),
            r.spec_next_id() == 0,
    {
        SubscriberList { entries: Vec::new(), next_id: 0 }
    }

    /// Adds `subscriber` under a fresh id and returns the id; `None`, with
    /// nothing added, once every id has been handed out.
    pub fn subscribe(&mut self, subscriber: T) -> (r: Option<u64>)
        requires
            old(self).wf(),
        ensures
            final(self).wf(),
            match r {
                Some(id) => id == old(self).spec_next_id() && !has_id(old(self).spec_entries(), id)
                    && final(self).spec_entries() == old(self).spec_entries().push(
                    (id, subscriber),
                ) && final(self).spec_next_id() == id + 1,
                None => old(self).spec_next_id() == u64::MAX && final(self).spec_entries() == old(
                    self,
                ).spec_entries() && final(self).spec_next_id() == old(self).spec_next_id(),
            },
    {
        if self.next_id == u64::MAX {
            return None;
        }
        let id = self.next_id;
        self.entries.push((id, subscriber));
        self.next_id = id + 1;
        assert forall|i: int, j: int|
            0 <= i < j < self.entries@.len() implies #[trigger] self.entries@[i].0
            < #[trigger] self.entries@[j].0 by {
            if j < old(self).entries@.len() {
                assert(old(self).entries@[i].0 < old(self).entries@[j].0);
            } else {
                assert(old(self).entries@[i].0 < id);
            }
        }
        assert(forall|i: int|
            0 <= i < self.entries@.len() ==> #[trigger] self.entries@[i].0 < self.next_id);
        Some(id)
    }

    /// Removes the subscriber with id `id` and returns it; `None`, with
    /// nothing removed, when no subscriber has that id.
    pub fn cancel(&mut self, id: u64) -> (r: Option<T>)
        requires
            old(self).wf(),
        ensures
            final(self).wf(),
            final(self).spec_next_id() == old(self).spec_next_id(),
            match r {
                Some(v) => exists|p: int|
                    0 <= p < old(self).spec_entries().len() && #[trigger] old(
                        self,
                    ).spec_entries()[p] == (id, v) && final(self).spec_entries() == old(
                        self,
                    ).spec_entries().remove(p),
                None => !has_id(old(self).spec_entries(), id) && final(self).spec_entries()
                    == old(self).spec_entries(),
            },
    {
        let mut i: usize = 0;
        while i < self.entries.len()
            invariant
                self.entries@ == old(self).entries@,
                self.next_id == old(self).next_id,
                old(self).wf(),
                i <= self.entries@.len(),
                forall|k: int| 0 <= k < i ==> #[trigger] self.entries@[k].0 != id,
            decreases self.entries@.len() - i,
        {
            if self.entries[i].0 == id {
                let e = self.entries.remove(i);
                assert(old(self).entries@[i as int] == (id, e.1));
                assert forall|a: int, b: int|
                    0 <= a < b < self.entries@.len() implies #[trigger] self.entries@[a].0
                    < #[trigger] self.entries@[b].0 by {
                    let oa = if a < i { a } else { a + 1 };
                    let ob = if b < i { b } else { b + 1 };
                    assert(self.entries@[a] == old(self).entries@[oa]);
                    assert(self.entries@[b] == old(self).entries@[ob]);
                    assert(old(self).entries@[oa].0 < old(self).entries@[ob].0);
                }
                assert forall|a: int| 0 <= a < self.entries@.len() implies #[trigger] self.entries@[a].0
                    < self.next_id by {
                    let oa = if a < i { a } else { a + 1 };
                    assert(self.entries@[a] == old(self).entries@[oa]);
                }
                return Some(e.1);
            }
            i = i + 1;
        }
        None
    }

    /// Removes every subscriber.
    pub fn close(&mut self)
        requires
            old(self).wf(),
        ensures
            final(self).wf(),
            final(self).spec_entries() == Seq::<(u64, T)>::empty(),
            final(self).spec_next_id() == old(self).spec_next_id(),
    {
        self.entries.clear();
    }

    /// The subscribers with their ids, oldest first.
    pub fn entries(&self) -> (r: &Vec<(u64, T)>)
        ensures
            r@ == self.spec_entries(),
    {
        &self.entries
    }

    /// The number of subscribers.
    pub fn len(&self) -> (r: usize)
        ensures
            r == self.spec_entries().len(),
    {
        self.entries.len()
    }
}

} // verus!
