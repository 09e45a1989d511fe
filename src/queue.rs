//! The queue of upcoming pieces, refilled one shuffled bag of all seven
//! piece types at a time.
use vstd::prelude::*;
use vstd::multiset::Multiset;
use std::collections::VecDeque;
use bevy_turborand::{DelegatedRng, GlobalRng};
use crate::piece::Tetromino;

verus! {

broadcast use vstd::std_specs::vecdeque::group_vec_dequeue_axioms, vstd::seq_lib::group_to_multiset_ensures;

#[verifier::external_type_specification]
#[verifier::external_body]
pub struct ExGlobalRng(GlobalRng);

/// Relies on bevy_turborand's `DelegatedRng::u8` over the range `0..bound`:
/// the value it draws lies in that range.
#[verifier::external_body]
fn draw_below(rng: &mut GlobalRng, bound: u8) -> (r: u8)
    requires
        0 < bound,
    ensures
        r < bound,
{
    rng.u8(0..bound)
}

/// All seven piece types, in the order a new bag starts with.
pub open spec fn full_bag() -> Seq<Tetromino> {
    seq![
        Tetromino::I,
        Tetromino::O,
        Tetromino::T,
        Tetromino::S,
        Tetromino::Z,
        Tetromino::J,
        Tetromino::L,
    ]
}

/// Seven draws that a bag accepts: the `k`-th picks one of the `7 - k`
/// types still in the bag.
pub open spec fn valid_draws(draws: Seq<u8>) -> bool {
    &&& draws.len() == 7
    &&& forall|k: int| 0 <= k < 7 ==> #[trigger] draws[k] < 7 - k
}

/// The types taken out of `bag` by `draws`, in order: each draw removes the
/// type at that index of what is left.
pub open spec fn bag_order(bag: Seq<Tetromino>, draws: Seq<u8>) -> Seq<Tetromino>
    decreases draws.len(),
{
    if draws.len() == 0 || bag.len() <= draws[0] {
        seq![]
    } else {
        seq![bag[draws[0] as int]] + bag_order(bag.remove(draws[0] as int), draws.drop_first())
    }
}

/// Taking a whole bag out in any valid order yields each of its items once.
pub proof fn lemma_bag_order_permutes(bag: Seq<Tetromino>, draws: Seq<u8>)
    requires
        draws.len() == bag.len(),
        forall|k: int| 0 <= k < draws.len() ==> #[trigger] draws[k] < bag.len() - k,
    ensures
        bag_order(bag, draws).to_multiset() == bag.to_multiset(),
    decreases draws.len(),
{
    if draws.len() > 0 {
        let i = draws[0] as int;
        let rest = draws.drop_first();
        assert forall|k: int| 0 <= k < rest.len() implies #[trigger] rest[k] < bag.remove(i).len() - k by {
            assert(rest[k] == draws[k + 1]);
        }
        lemma_bag_order_permutes(bag.remove(i), rest);
        let tail = bag_order(bag.remove(i), rest);
        vstd::seq_lib::lemma_multiset_commutative(seq![bag[i]], tail);
        assert(seq![bag[i]].to_multiset() =~= Multiset::empty().insert(bag[i])) by {
            assert(seq![bag[i]] =~= Seq::<Tetromino>::empty().push(bag[i]));
        }
        assert(bag.remove(i).to_multiset() == bag.to_multiset().remove(bag[i]));
        assert(bag.to_multiset().count(bag[i]) > 0);
        assert(bag_order(bag, draws).to_multiset() =~= bag.to_multiset());
    } else {
        assert(bag =~= Seq::<Tetromino>::empty());
    }
}

/// Any seven valid draws from one fresh bag give exactly one piece of each
/// type.
pub proof fn lemma_bag_fill_is_fair(draws: Seq<u8>)
    requires
        valid_draws(draws),
    ensures
        bag_order(full_bag(), draws).len() == 7,
        bag_order(full_bag(), draws).to_multiset() == full_bag().to_multiset(),
{
    lemma_bag_order_permutes(full_bag(), draws);
    vstd::seq_lib::to_multiset_len(bag_order(full_bag(), draws));
    vstd::seq_lib::to_multiset_len(full_bag());
}

/// Upcoming pieces, head first.
pub struct TetroQueue {
    queue: VecDeque<Tetromino>,
}

impl View for TetroQueue {
    type V = Seq<Tetromino>;

    closed spec fn view(&self) -> Seq<Tetromino> {
        self.queue@
    }
}

impl Default for TetroQueue {
    fn default() -> (r: TetroQueue)
        ensures
            r@ == Seq::<Tetromino>::empty(),
    {
        TetroQueue { queue: VecDeque::new() }
    }
}

impl TetroQueue {
    /// The number of queued pieces.
    pub fn len(&self) -> (r: usize)
        ensures
            r == self@.len(),
    {
        self.queue.len()
    }

    /// Appends a piece at the tail.
    pub fn push(&mut self, tetromino: Tetromino)
        ensures
            final(self)@ == old(self)@.push(tetromino),
    {
        self.queue.push_back(tetromino);
    }

    /// Removes and returns the head, or `None` when the queue is empty.
    pub fn pop(&mut self) -> (r: Option<Tetromino>)
        ensures
            old(self)@.len() == 0 ==> r.is_none() && final(self)@ == old(self)@,
            old(self)@.len() > 0 ==> r == Some(old(self)@[0]) && final(self)@ == old(self)@.drop_first(),
    {
        self.queue.pop_front()
    }

    /// The piece at `index` from the head, if there is one.
    pub fn get(&self, index: usize) -> (r: Option<&Tetromino>)
        ensures
            index < self@.len() ==> r == Some(&self@[index as int]),
            index >= self@.len() ==> r.is_none(),
    {
        if index < self.queue.len() {
            Some(&self.queue[index])
        } else {
            None
        }
    }

    /// Appends one bag: the seven piece types in the order that `draws`
    /// takes them out of a fresh bag.
    pub fn fill_with_draws(&mut self, draws: &Vec<u8>)
        requires
            valid_draws(draws@),
        ensures
            final(self)@ == old(self)@ + bag_order(full_bag(), draws@),
    {
        let mut bag: Vec<Tetromino> = vec![
            Tetromino::I,
            Tetromino::O,
            Tetromino::T,
            Tetromino::S,
            Tetromino::Z,
            Tetromino::J,
            Tetromino::L,
        ];
        assert(bag@ =~= full_bag());
        assert(draws@.skip(0) =~= draws@);
        let mut k: usize = 0;
        while k < 7
            invariant
                0 <= k <= 7,
                valid_draws(draws@),
                bag@.len() == 7 - k,
                self@ + bag_order(bag@, draws@.skip(k as int)) == old(self)@ + bag_order(
                    full_bag(),
                    draws@,
                ),
            decreases 7 - k,
        {
            let index = draws[k] as usize;
            let ghost rest = draws@.skip(k as int);
            assert(rest.drop_first() =~= draws@.skip(k + 1));
            assert(rest[0] == draws@[k as int]);
            let tetromino = bag.remove(index);
            self.push(tetromino);
            assert(self@ + bag_order(bag@, draws@.skip(k + 1)) =~= old(self)@ + bag_order(
                full_bag(),
                draws@,
            ));
            k = k + 1;
        }
        assert(draws@.skip(7) =~= Seq::<u8>::empty());
        assert(self@ =~= old(self)@ + bag_order(full_bag(), draws@));
    }

    /// Appends one bag shuffled with `rng`: seven pieces, one of each type.
    pub fn fill_queue(&mut self, rng: &mut GlobalRng)
        ensures
            exists|draws: Seq<u8>|
                valid_draws(draws) && final(self)@ == old(self)@ + bag_order(full_bag(), draws),
            final(self)@.len() == old(self)@.len() + 7,
            final(self)@.subrange(old(self)@.len() as int, final(self)@.len() as int).to_multiset()
                == full_bag().to_multiset(),
    {
        let mut draws: Vec<u8> = Vec::new();
        let mut k: u8 = 0;
        while k < 7
            invariant
                0 <= k <= 7,
                draws@.len() == k,
                forall|j: int| 0 <= j < k ==> #[trigger] draws@[j] < 7 - j,
            decreases 7 - k,
        {
            let d = draw_below(rng, 7 - k);
            draws.push(d);
            k = k + 1;
        }
        self.fill_with_draws(&draws);
        proof {
            lemma_bag_fill_is_fair(draws@);
            assert(valid_draws(draws@) && self@ == old(self)@ + bag_order(full_bag(), draws@));
            let added = bag_order(full_bag(), draws@);
            assert(self@.subrange(old(self)@.len() as int, self@.len() as int) =~= added);
        }
    }
}

} // verus!
