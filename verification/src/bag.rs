//! The 7-bag piece randomizer.
//!
//! Kinds are drawn from the back of a bag that holds each of the seven
//! kinds at most once. Whenever a draw (or a peek) finds the bag
//! empty, it is refilled with a random permutation of all seven kinds,
//! so every run of seven draws taken from a fresh bag hands out each
//! kind exactly once, and no kind can stay away for more than twelve
//! draws.

use vstd::prelude::*;
use vstd::multiset::Multiset;
use crate::tetromino::{all_kinds, TetrominoType};
use ::rand::seq::SliceRandom;

verus! {

broadcast use vstd::seq_lib::group_to_multiset_ensures;

/// The multiset holding each of the seven kinds exactly once.
pub open spec fn full_bag() -> Multiset<TetrominoType> {
    all_kinds().to_multiset()
}

/// A full bag holds each kind exactly once.
pub proof fn lemma_full_bag_each_kind_once(t: TetrominoType)
    ensures
        full_bag().count(t) == 1,
{
    let ks = all_kinds();
    assert(ks.no_duplicates());
    ks.lemma_multiset_has_no_duplicates();
    assert(ks.contains(t)) by {
        match t {
            TetrominoType::I => assert(ks[0] == t),
            TetrominoType::O => assert(ks[1] == t),
            TetrominoType::T => assert(ks[2] == t),
            TetrominoType::S => assert(ks[3] == t),
            TetrominoType::Z => assert(ks[4] == t),
            TetrominoType::J => assert(ks[5] == t),
            TetrominoType::L => assert(ks[6] == t),
        }
    }
    assert(ks.to_multiset().contains(t));
}

/// Seven draws that empty a full bag return each kind exactly once:
/// drawing from the back hands out the bag's contents in reverse, a
/// permutation of the full bag.
pub proof fn lemma_full_bag_draws_each_kind_once(bag: Seq<TetrominoType>, t: TetrominoType)
    requires
        bag.to_multiset() == full_bag(),
    ensures
        bag.reverse().to_multiset().count(t) == 1,
        bag.len() == 7,
{
    bag.lemma_reverse_to_multiset();
    lemma_full_bag_each_kind_once(t);
    assert(bag.to_multiset().len() == full_bag().len());
    assert(all_kinds().to_multiset().len() == all_kinds().len());
}

/// Produces the piece-kind sequence under the 7-bag fairness rule.
pub struct BagRandomizer {
    bag: Vec<TetrominoType>,
}

impl View for BagRandomizer {
    type V = Seq<TetrominoType>;

    /// The kinds still in the current bag; draws take the last one.
    closed spec fn view(&self) -> Seq<TetrominoType> {
        self.bag@
    }
}

/// Relies on rand 0.8's `SliceRandom::shuffle`: a Fisher-Yates pass
/// that permutes the vector in place by swaps, so the new contents are
/// exactly the old ones, in some order.
#[verifier::external_body]
fn shuffle_kinds(v: &mut Vec<TetrominoType>)
    ensures
        final(v)@.len() == old(v)@.len(),
        final(v)@.to_multiset() == old(v)@.to_multiset(),
{
    v.shuffle(&mut ::rand::thread_rng());
}

impl BagRandomizer {
    /// The bag never repeats a kind and never exceeds seven entries.
    pub open spec fn wf(self) -> bool {
        self@.no_duplicates() && self@.len() <= 7
    }

    /// A randomizer whose bag starts full: a random permutation of the
    /// seven kinds.
    pub fn new() -> (r: BagRandomizer)
        ensures
            r.wf(),
            r@.to_multiset() == full_bag(),
            r@.len() == 7,
    {
        let mut randomizer = BagRandomizer { bag: Vec::new() };
        randomizer.refill_bag();
        randomizer
    }

    /// Refills the bag with a fresh permutation of all seven kinds.
    fn refill_bag(&mut self)
        ensures
            final(self).wf(),
            final(self)@.to_multiset() == full_bag(),
            final(self)@.len() == 7,
    {
        self.bag = TetrominoType::all_types();
        shuffle_kinds(&mut self.bag);
        proof {
            assert(all_kinds().no_duplicates());
            assert(all_kinds().to_multiset().len() == all_kinds().len());
            assert(self.bag@.to_multiset().len() == self.bag@.len());
            all_kinds().lemma_multiset_has_no_duplicates();
            self.bag@.lemma_multiset_has_no_duplicates_conv();
        }
    }

    /// Draws the next kind: the bag's last entry, after a refill if the
    /// bag was empty. The drawn kind leaves the bag.
    pub fn next(&mut self) -> (t: TetrominoType)
        requires
            old(self).wf(),
        ensures
            final(self).wf(),
            old(self)@.len() > 0 ==> {
                &&& t == old(self)@.last()
                &&& final(self)@ == old(self)@.drop_last()
            },
            old(self)@.len() == 0 ==> {
                &&& final(self)@.to_multiset().insert(t) == full_bag()
                &&& final(self)@.len() == 6
            },
    {
        if self.bag.is_empty() {
            self.refill_bag();
        }
        let ghost before = self.bag@;
        let t = self.bag.pop().unwrap();
        proof {
            assert(before =~= self.bag@.push(t));
            assert(before.to_multiset() == self.bag@.to_multiset().insert(t));
            assert(self.bag@.no_duplicates()) by {
                assert(forall|k: int| 0 <= k < self.bag@.len() ==> self.bag@[k] == before[k]);
            }
        }
        t
    }

    /// Returns the kind the next draw would return, without drawing
    /// it; refills the bag first if it was empty.
    pub fn peek(&mut self) -> (t: TetrominoType)
        requires
            old(self).wf(),
        ensures
            final(self).wf(),
            final(self)@.len() > 0,
            t == final(self)@.last(),
            old(self)@.len() > 0 ==> *final(self) == *old(self),
            old(self)@.len() == 0 ==> final(self)@.to_multiset() == full_bag(),
    {
        if self.bag.is_empty() {
            self.refill_bag();
        }
        self.bag[self.bag.len() - 1]
    }
}

} // verus!
