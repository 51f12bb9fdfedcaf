//! The pool of undrawn pieces.
use vstd::prelude::*;

use crate::random::roll_below;
use crate::{BoardSpace, Crew};

verus! {

/// The pieces not yet drawn, by crew.
#[derive(Clone, Copy, Debug, PartialEq, Eq, Structural)]
pub struct Bag {
    pub rogues: u8,
    pub goons: u8,
    pub bullies: u8,
}

impl View for Bag {
    type V = BoardSpace;

    /// The bag's contents as a tally.
    open spec fn view(&self) -> BoardSpace {
        BoardSpace { rogues: self.rogues, bullies: self.bullies, goons: self.goons }
    }
}

impl Bag {
    /// The crew that a roll picks: the pieces lined up rogues first, then
    /// goons, then bullies, and the roll counted from the front.
    pub open spec fn pick(tally: BoardSpace, roll: int) -> Crew {
        if roll < tally.rogues {
            Crew::Rogues
        } else if roll < tally.rogues + tally.goons {
            Crew::Goons
        } else {
            Crew::Bullies
        }
    }

    /// A bag with no piece in it.
    pub fn empty() -> (r: Bag)
        ensures
            r@ == BoardSpace::vacant(),
    {
        Bag { rogues: 0, goons: 0, bullies: 0 }
    }

    /// A bag holding the given pieces.
    pub fn from_slice(slice: &[Crew]) -> (r: Bag)
        requires
            forall|c: Crew| #[trigger] slice@.to_multiset().count(c) <= 255,
        ensures
            r@ == BoardSpace::of(slice@),
            forall|c: Crew| #[trigger] r@.count(c) == slice@.to_multiset().count(c),
    {
        proof {
            BoardSpace::lemma_of_multiset_bounded(slice@);
        }
        let mut bag = Bag::empty();
        let mut i: usize = 0;
        while i < slice.len()
            invariant
                i <= slice@.len(),
                forall|c: Crew| #[trigger] slice@.to_multiset().count(c) <= 255,
                bag@ == BoardSpace::of(slice@.subrange(0, i as int)),
            decreases slice@.len() - i,
        {
            proof {
                broadcast use vstd::multiset::group_multiset_axioms;

                let done = slice@.subrange(0, i + 1);
                assert(done.drop_last() =~= slice@.subrange(0, i as int));
                assert(slice@ =~= done + slice@.subrange(i + 1, slice@.len() as int));
                vstd::seq_lib::lemma_multiset_commutative(done, slice@.subrange(i + 1, slice@.len() as int));
                assert forall|c: Crew| #[trigger] done.to_multiset().count(c) <= 255 by {
                    assert(slice@.to_multiset().count(c) <= 255);
                }
                BoardSpace::lemma_of_multiset_bounded(done);
                done.drop_last().to_multiset_ensures();
                assert(done.drop_last().push(slice@[i as int]) =~= done);
                assert(done.to_multiset() =~= done.drop_last().to_multiset().insert(slice@[i as int]));
                assert forall|c: Crew| #[trigger] done.drop_last().to_multiset().count(c) <= 255 by {
                    assert(done.to_multiset().count(c) <= 255);
                }
                BoardSpace::lemma_of_multiset_bounded(done.drop_last());
                assert(done.to_multiset().count(slice@[i as int]) == done.drop_last().to_multiset().count(slice@[i as int]) + 1);
            }
            bag.replace(slice[i]);
            i = i + 1;
        }
        assert(slice@.subrange(0, i as int) =~= slice@);
        bag
    }

    /// Number of pieces of `crew` in the bag.
    pub fn get_crew(&self, crew: Crew) -> (r: u8)
        ensures
            r == self@.count(crew),
    {
        match crew {
            Crew::Rogues => self.rogues,
            Crew::Goons => self.goons,
            Crew::Bullies => self.bullies,
        }
    }

    /// Takes out the piece that `roll` picks.
    pub fn draw_at(&mut self, roll: u8) -> (r: Crew)
        requires
            roll < old(self)@.total(),
        ensures
            r == Bag::pick(old(self)@, roll as int),
            old(self)@.count(r) > 0,
            final(self)@ == old(self)@.removed(r, 1),
    {
        if roll < self.rogues {
            self.rogues = self.rogues - 1;
            Crew::Rogues
        } else {
            let rest = roll - self.rogues;
            if rest < self.goons {
                self.goons = self.goons - 1;
                Crew::Goons
            } else {
                self.bullies = self.bullies - 1;
                Crew::Bullies
            }
        }
    }

    /// Takes out one piece at random, each piece in the bag as likely as any
    /// other.
    pub fn draw(&mut self) -> (r: Crew)
        requires
            0 < old(self)@.total() <= 255,
        ensures
            old(self)@.count(r) > 0,
            final(self)@ == old(self)@.removed(r, 1),
    {
        let total = self.rogues + self.goons + self.bullies;

        let roll = roll_below(total);
        self.draw_at(roll)
    }

    /// Puts one piece of `crew` back.
    pub fn replace(&mut self, crew: Crew)
        requires
            old(self)@.count(crew) < 255,
        ensures
            final(self)@ == old(self)@.added(crew, 1),
    {
        match crew {
            Crew::Rogues => self.rogues = self.rogues + 1,
            Crew::Goons => self.goons = self.goons + 1,
            Crew::Bullies => self.bullies = self.bullies + 1,
        }
    }
}

} // verus!
