//! Splitting a vector after the last element that satisfies a predicate.
use vstd::prelude::*;

verus! {

/// Whether `pred` is false of every element of `s` from position `from` on.
pub open spec fn none_from<T, F: Fn(&T) -> bool>(pred: F, s: Seq<T>, from: int) -> bool {
    forall|j: int| from <= j < s.len() ==> call_ensures(pred, (&s[j],), false)
}

/// Splitting a sequence of items on a predicate.
pub trait VecExt {
    type Item;

    /// The items, in order.
    spec fn spec_items(&self) -> Seq<Self::Item>;

    /// Finds the last item for which `pred` holds; removes it and all items
    /// before it and returns them in order. `None`, with nothing removed,
    /// when `pred` holds of no item.
    fn split_off_with<F: Fn(&Self::Item) -> bool>(&mut self, pred: F) -> (r: Option<
        Vec<Self::Item>,
    >)
        requires
            forall|i: int|
                0 <= i < old(self).spec_items().len() ==> call_requires(
                    pred,
                    (&old(self).spec_items()[i],),
                ),
        ensures
            match r {
                Some(head) => exists|i: int|
                    0 <= i < old(self).spec_items().len() && call_ensures(
                        pred,
                        (&old(self).spec_items()[i],),
                        true,
                    ) && none_from(pred, old(self).spec_items(), i + 1) && head@ == old(
                        self,
                    ).spec_items().subrange(0, i + 1) && final(self).spec_items() == old(
                        self,
                    ).spec_items().subrange(i + 1, old(self).spec_items().len() as int),
                None => none_from(pred, old(self).spec_items(), 0) && final(self).spec_items()
                    == old(self).spec_items(),
            },
    ;
}

impl<T> VecExt for Vec<T> {
    type Item = T;

    open spec fn spec_items(&self) -> Seq<T> {
        self@
    }

    fn split_off_with<F: Fn(&T) -> bool>(&mut self, pred: F) -> (r: Option<Vec<T>>) {
        assert(old(self).spec_items() == old(self)@);
        let mut i = self.len();
        while i > 0
            invariant
                i <= self@.len(),
                self@ == old(self)@,
                forall|k: int|
                    0 <= k < old(self).spec_items().len() ==> call_requires(
                        pred,
                        (&old(self).spec_items()[k],),
                    ),
                none_from(pred, self@, i as int),
            decreases i,
        {
            assert(old(self).spec_items()[i - 1] == self@[i - 1]);
            let item = &self[i - 1];
            if pred(item) {
                let ghost at: int = i - 1;
                let mut tail = self.split_off(i);
                std::mem::swap(self, &mut tail);
                let ghost o = old(self).spec_items();
                assert(call_ensures(pred, (&o[at],), true));
                assert(tail@ =~= o.subrange(0, at + 1));
                assert(self@ =~= o.subrange(at + 1, o.len() as int));
                assert(0 <= at < o.len() && call_ensures(pred, (&o[at],), true) && none_from(
                    pred,
                    o,
                    at + 1,
                ) && tail@ == o.subrange(0, at + 1) && self.spec_items() == o.subrange(
                    at + 1,
                    o.len() as int,
                ));
                return Some(tail);
            }
            i = i - 1;
        }
        None
    }
}

} // verus!
