//! Merging independently paced block sources into one evolving aggregate
//! snapshot ("combine latest").

use vstd::prelude::*;

use crate::block::Block;
use crate::message::Message;

verus! {

/// The ordered concatenation of every source's latest batch.
pub open spec fn concat_batches<M>(slots: Seq<Seq<Block<M>>>) -> Seq<Block<M>>
    decreases slots.len(),
{
    if slots.len() == 0 {
        Seq::empty()
    } else {
        concat_batches(slots.drop_last()) + slots.last()
    }
}

/// Combine-latest over a fixed set of sources: one slot per source holds the
/// most recently observed batch, and every arrival yields a new aggregate.
pub struct Combiner<M> {
    slots: Vec<Vec<Block<M>>>,
}

impl<M> View for Combiner<M> {
    type V = Seq<Seq<Block<M>>>;

    closed spec fn view(&self) -> Seq<Seq<Block<M>>> {
        self.slots@.map_values(|batch: Vec<Block<M>>| batch@)
    }
}

impl<M: Message> Combiner<M> {
    /// A combiner for `sources` sources, every slot initially empty.
    pub fn new(sources: usize) -> (c: Combiner<M>)
        ensures
            c@.len() == sources,
            forall|i: int| 0 <= i < sources ==> c@[i] == Seq::<Block<M>>::empty(),
    {
        let mut slots: Vec<Vec<Block<M>>> = Vec::new();
        let mut i: usize = 0;
        while i < sources
            invariant
                i <= sources,
                slots@.len() == i,
                forall|j: int| 0 <= j < i ==> slots@[j]@ == Seq::<Block<M>>::empty(),
            decreases sources - i,
        {
            slots.push(Vec::new());
            i = i + 1;
        }
        Combiner { slots }
    }

    /// How many sources feed this combiner.
    pub fn len(&self) -> (n: usize)
        ensures
            n == self@.len(),
    {
        self.slots.len()
    }

    /// Replaces `source`'s latest batch and returns the new aggregate: the
    /// concatenation, in fixed source order, of every source's latest batch.
    /// Emissions therefore happen exactly once per arrival, and a source
    /// that has not produced yet contributes nothing.
    pub fn arrive(&mut self, source: usize, batch: Vec<Block<M>>) -> (snapshot: Vec<Block<M>>)
        requires
            source < old(self)@.len(),
        ensures
            final(self)@ == old(self)@.update(source as int, batch@),
            snapshot@ == concat_batches(final(self)@),
    {
        self.slots.set(source, batch);
        proof {
            assert(self@ =~= old(self)@.update(source as int, batch@));
        }
        let ghost gslots = self@;
        let mut snapshot: Vec<Block<M>> = Vec::new();
        let mut i: usize = 0;
        proof {
            assert(gslots.take(0).len() == 0);
            assert(snapshot@ =~= concat_batches(gslots.take(0)));
        }
        while i < self.slots.len()
            invariant
                i <= self.slots@.len(),
                self@ == gslots,
                gslots == self.slots@.map_values(|batch: Vec<Block<M>>| batch@),
                snapshot@ == concat_batches(gslots.take(i as int)),
            decreases self.slots@.len() - i,
        {
            let slot = &self.slots[i];
            let ghost prev = snapshot@;
            let mut j: usize = 0;
            while j < slot.len()
                invariant
                    j <= slot@.len(),
                    snapshot@ == prev + slot@.take(j as int),
                decreases slot@.len() - j,
            {
                snapshot.push(slot[j].duplicate());
                proof {
                    assert(snapshot@ =~= prev + slot@.take(j + 1));
                }
                j = j + 1;
            }
            proof {
                assert(slot@.take(slot@.len() as int) =~= slot@);
                let upto = gslots.take(i + 1);
                assert(upto.drop_last() =~= gslots.take(i as int));
                assert(upto.last() == gslots[i as int]);
                assert(gslots[i as int] == slot@);
                assert(snapshot@ == concat_batches(gslots.take(i + 1)));
            }
            i = i + 1;
        }
        proof {
            assert(gslots.take(gslots.len() as int) =~= gslots);
        }
        snapshot
    }
}

} // verus!
