//! The sequential post-processor's reordering core: a cursor and an inbox
//! that turn out-of-order block arrivals into a strictly ascending, gap-free
//! run of ready blocks.
//!
//! Blocks below the activation height are discarded.  Each accepted block is
//! buffered; whenever the buffer holds the cursor's height, that block is
//! released and the cursor advances.  `accept`'s contract states the
//! monotonic-cursor law: the blocks released by one call are exactly the
//! heights `[old cursor, new cursor)`, in ascending order, each exactly once,
//! and the cursor never moves backward.

use vstd::prelude::*;
use vstd::hash_map::HashMapWithView;

verus! {

/// Reorders out-of-order arrivals into sequential, gap-free output.
#[verifier::reject_recursive_types(T)]
pub struct BlockSequencer<T> {
    activation: u64,
    cursor: u64,
    inbox: HashMapWithView<u64, T>,
}

impl<T> BlockSequencer<T> {
    /// Buffered heights stay below `u64::MAX`, so the cursor can always
    /// advance past a released block.  Established by `new` and preserved by
    /// `accept`.
    pub open spec fn wf(&self) -> bool {
        &&& self.inbox().dom().finite()
        &&& forall|h: u64| self.inbox().contains_key(h) ==> h < u64::MAX
    }

    /// The height below which arrivals are discarded.
    pub closed spec fn activation(&self) -> u64 {
        self.activation
    }

    /// The next height to release.
    pub closed spec fn cursor(&self) -> u64 {
        self.cursor
    }

    /// The buffered blocks, keyed by height.
    pub closed spec fn inbox(&self) -> Map<u64, T> {
        self.inbox@
    }

    /// A fresh sequencer: the cursor starts at the activation height and
    /// nothing is buffered.
    pub fn new(activation_height: u64) -> (r: BlockSequencer<T>)
        ensures
            r.wf(),
            r.activation() == activation_height,
            r.cursor() == activation_height,
            r.inbox() == Map::<u64, T>::empty(),
    {
        proof {
            broadcast use vstd::std_specs::hash::axiom_u64_obeys_hash_table_key_model;
        }
        BlockSequencer {
            activation: activation_height,
            cursor: activation_height,
            inbox: HashMapWithView::new(),
        }
    }

    /// Accepts one arrival and releases every block that is now in order.
    ///
    /// - An arrival below the activation height is discarded and nothing
    ///   changes.
    /// - Otherwise the arrival is buffered, and the run of buffered heights
    ///   starting at the cursor is released: `ready` holds exactly the
    ///   heights `[old cursor, new cursor)` in strictly ascending order,
    ///   each with its buffered block, each exactly once.
    /// - The cursor never moves backward, and the new cursor's height is not
    ///   buffered, so a gap never advances the cursor.
    pub fn accept(&mut self, height: u64, block: T) -> (ready: Vec<(u64, T)>)
        requires
            old(self).wf(),
            height < u64::MAX,
        ensures
            final(self).wf(),
            final(self).activation() == old(self).activation(),
            height < old(self).activation() ==> {
                &&& ready@.len() == 0
                &&& final(self).cursor() == old(self).cursor()
                &&& final(self).inbox() == old(self).inbox()
            },
            height >= old(self).activation() ==> {
                let buffered = old(self).inbox().insert(height, block);
                &&& final(self).cursor() >= old(self).cursor()
                &&& ready@.len() == final(self).cursor() - old(self).cursor()
                &&& forall|i: int| 0 <= i < ready@.len() ==> {
                    &&& (#[trigger] ready@[i]).0 == old(self).cursor() + i
                    &&& buffered.contains_key(ready@[i].0)
                    &&& ready@[i].1 == buffered[ready@[i].0]
                }
                &&& !buffered.contains_key(final(self).cursor())
                &&& final(self).inbox() == buffered.remove_keys(
                    Set::new(|h: u64| old(self).cursor() <= h < final(self).cursor()),
                )
            },
    {
        let mut ready: Vec<(u64, T)> = Vec::new();
        if height < self.activation {
            return ready;
        }
        self.inbox.insert(height, block);
        let ghost buffered = self.inbox@;
        let ghost c0 = self.cursor;
        proof {
            assert forall|h: u64| buffered.contains_key(h) implies h < u64::MAX by {
                if h != height {
                    assert(old(self).inbox().contains_key(h));
                }
            }
        }
        loop
            invariant
                c0 <= self.cursor,
                ready@.len() == self.cursor - c0,
                forall|i: int| 0 <= i < ready@.len() ==> {
                    &&& (#[trigger] ready@[i]).0 == c0 + i
                    &&& buffered.contains_key(ready@[i].0)
                    &&& ready@[i].1 == buffered[ready@[i].0]
                },
                self.inbox@ == buffered.remove_keys(
                    Set::new(|h: u64| c0 <= h < self.cursor),
                ),
                buffered.dom().finite(),
                self.inbox@.dom().finite(),
                forall|h: u64| buffered.contains_key(h) ==> h < u64::MAX,
                self.activation == old(self).activation,
            ensures
                c0 <= self.cursor,
                ready@.len() == self.cursor - c0,
                forall|i: int| 0 <= i < ready@.len() ==> {
                    &&& (#[trigger] ready@[i]).0 == c0 + i
                    &&& buffered.contains_key(ready@[i].0)
                    &&& ready@[i].1 == buffered[ready@[i].0]
                },
                self.inbox@ == buffered.remove_keys(
                    Set::new(|h: u64| c0 <= h < self.cursor),
                ),
                self.inbox@.dom().finite(),
                self.activation == old(self).activation,
                !buffered.contains_key(self.cursor),
            decreases self.inbox@.len(),
        {
            let cur = self.cursor;
            let ghost pre_remove = self.inbox@;
            match self.inbox.remove(&cur) {
                Some(next_block) => {
                    proof {
                        assert(buffered.contains_key(cur));
                        assert(buffered[cur] == next_block);
                        pre_remove.lemma_remove_key_len(cur);
                    }
                    ready.push((cur, next_block));
                    self.cursor = cur + 1;
                    proof {
                        assert(self.inbox@ =~= buffered.remove_keys(
                            Set::new(|h: u64| c0 <= h < self.cursor),
                        ));
                    }
                },
                None => {
                    proof {
                        assert(!buffered.contains_key(self.cursor));
                    }
                    break;
                },
            }
        }
        proof {
            assert forall|h: u64| self.inbox@.contains_key(h) implies h < u64::MAX by {
                assert(buffered.contains_key(h));
            }
        }
        ready
    }
}

} // verus!
