//! A fixed-capacity tally of pieces per crew: a zone, a hand, or one of the
//! two tie-break tallies.
use std::cmp::Ordering;

use vstd::prelude::*;

use crate::{Crew, Reason};

verus! {

/// A space on the board, including player hands.
#[derive(Clone, Copy, Debug, PartialEq, Eq, Structural)]
pub struct BoardSpace {
    pub rogues: u8,
    pub bullies: u8,
    pub goons: u8,
}

impl BoardSpace {
    /// A space that holds no piece.
    pub open spec fn vacant() -> BoardSpace {
        BoardSpace { rogues: 0, bullies: 0, goons: 0 }
    }

    /// A space that holds no piece.
    pub fn empty() -> (r: BoardSpace)
        ensures
            r == BoardSpace::vacant(),
    {
        BoardSpace { rogues: 0, bullies: 0, goons: 0 }
    }

    /// Number of pieces of `crew` held here.
    pub open spec fn count(self, crew: Crew) -> int {
        match crew {
            Crew::Rogues => self.rogues as int,
            Crew::Bullies => self.bullies as int,
            Crew::Goons => self.goons as int,
        }
    }

    /// Number of pieces held here, all crews together.
    pub open spec fn total(self) -> int {
        self.rogues + self.bullies + self.goons
    }

    /// This space with the count of `crew` replaced by `n`.
    pub open spec fn with_count(self, crew: Crew, n: u8) -> BoardSpace {
        match crew {
            Crew::Rogues => BoardSpace { rogues: n, ..self },
            Crew::Bullies => BoardSpace { bullies: n, ..self },
            Crew::Goons => BoardSpace { goons: n, ..self },
        }
    }

    /// This space with `amount` more pieces of `crew`, the count stopping at
    /// the largest value a counter holds.
    pub open spec fn added(self, crew: Crew, amount: int) -> BoardSpace {
        self.with_count(
            crew,
            if self.count(crew) + amount > 255 {
                255u8
            } else {
                (self.count(crew) + amount) as u8
            },
        )
    }

    /// This space with `amount` fewer pieces of `crew`.
    pub open spec fn removed(self, crew: Crew, amount: int) -> BoardSpace {
        self.with_count(crew, (self.count(crew) - amount) as u8)
    }

    /// The tally of a sequence of pieces.
    pub open spec fn of(pieces: Seq<Crew>) -> BoardSpace
        decreases pieces.len(),
    {
        if pieces.len() == 0 {
            BoardSpace::vacant()
        } else {
            BoardSpace::of(pieces.drop_last()).added(pieces.last(), 1)
        }
    }

    /// A tally of up to 255 pieces counts each of them.
    pub proof fn lemma_of_total(pieces: Seq<Crew>)
        requires
            pieces.len() <= 255,
        ensures
            BoardSpace::of(pieces).total() == pieces.len(),
        decreases pieces.len(),
    {
        if pieces.len() > 0 {
            BoardSpace::lemma_of_total(pieces.drop_last());
        }
    }

    /// Tallying two sequences one after the other adds their tallies.
    pub proof fn lemma_of_concat(a: Seq<Crew>, b: Seq<Crew>)
        requires
            a.len() + b.len() <= 255,
        ensures
            forall|c: Crew| #[trigger] BoardSpace::of(a + b).count(c) == BoardSpace::of(a).count(c) + BoardSpace::of(b).count(c),
        decreases b.len(),
    {
        if b.len() == 0 {
            assert(a + b =~= a);
        } else {
            let ab = a + b;
            assert(ab.drop_last() =~= a + b.drop_last());
            assert(ab.last() == b.last());
            BoardSpace::lemma_of_concat(a, b.drop_last());
            BoardSpace::lemma_of_total(a + b.drop_last());
            BoardSpace::lemma_of_total(a);
            BoardSpace::lemma_of_total(b.drop_last());
            assert(BoardSpace::of(ab) == BoardSpace::of(ab.drop_last()).added(b.last(), 1));
            assert(BoardSpace::of(b) == BoardSpace::of(b.drop_last()).added(b.last(), 1));
            assert forall|c: Crew| #[trigger] BoardSpace::of(ab).count(c) == BoardSpace::of(a).count(c) + BoardSpace::of(b).count(c) by {
                assert(BoardSpace::of(ab.drop_last()).count(c) == BoardSpace::of(a).count(c) + BoardSpace::of(b.drop_last()).count(c));
            }
        }
    }

    /// Splitting a range of pieces in two splits its tally.
    pub proof fn lemma_of_split(s: Seq<Crew>, i: int, j: int, k: int)
        requires
            0 <= i <= j <= k <= s.len(),
            k - i <= 255,
        ensures
            forall|c: Crew| #[trigger] BoardSpace::of(s.subrange(i, k)).count(c) == BoardSpace::of(s.subrange(i, j)).count(c) + BoardSpace::of(s.subrange(j, k)).count(c),
    {
        assert(s.subrange(i, k) =~= s.subrange(i, j) + s.subrange(j, k));
        BoardSpace::lemma_of_concat(s.subrange(i, j), s.subrange(j, k));
    }

    /// The tally of a sequence counts what its multiset counts.
    pub proof fn lemma_of_multiset(s: Seq<Crew>)
        requires
            s.len() <= 255,
        ensures
            forall|c: Crew| #[trigger] BoardSpace::of(s).count(c) == s.to_multiset().count(c),
        decreases s.len(),
    {
        broadcast use vstd::multiset::group_multiset_axioms;

        if s.len() == 0 {
            s.to_multiset_ensures();
            assert forall|c: Crew| #[trigger] s.to_multiset().count(c) == 0 by {
                assert(!s.contains(c));
            }
        } else {
            let rest = s.drop_last();
            BoardSpace::lemma_of_multiset(rest);
            BoardSpace::lemma_of_total(rest);
            rest.to_multiset_ensures();
            assert(rest.push(s.last()) =~= s);
            assert(s.to_multiset() =~= rest.to_multiset().insert(s.last()));
            assert(BoardSpace::of(s) == BoardSpace::of(rest).added(s.last(), 1));
            assert forall|c: Crew| #[trigger] BoardSpace::of(s).count(c) == s.to_multiset().count(c) by {
                assert(BoardSpace::of(rest).count(c) == rest.to_multiset().count(c));
            }
        }
    }

    /// With at most 255 pieces of each crew, the tally of a sequence counts
    /// what its multiset counts.
    pub proof fn lemma_of_multiset_bounded(s: Seq<Crew>)
        requires
            forall|c: Crew| #[trigger] s.to_multiset().count(c) <= 255,
        ensures
            forall|c: Crew| #[trigger] BoardSpace::of(s).count(c) == s.to_multiset().count(c),
        decreases s.len(),
    {
        broadcast use vstd::multiset::group_multiset_axioms;

        if s.len() == 0 {
            s.to_multiset_ensures();
            assert forall|c: Crew| #[trigger] s.to_multiset().count(c) == 0 by {
                assert(!s.contains(c));
            }
        } else {
            let rest = s.drop_last();
            rest.to_multiset_ensures();
            assert(rest.push(s.last()) =~= s);
            assert(s.to_multiset() =~= rest.to_multiset().insert(s.last()));
            assert forall|c: Crew| #[trigger] rest.to_multiset().count(c) <= 255 by {
                assert(s.to_multiset().count(c) <= 255);
            }
            BoardSpace::lemma_of_multiset_bounded(rest);
            assert(BoardSpace::of(s) == BoardSpace::of(rest).added(s.last(), 1));
            assert forall|c: Crew| #[trigger] BoardSpace::of(s).count(c) == s.to_multiset().count(c) by {
                assert(BoardSpace::of(rest).count(c) == rest.to_multiset().count(c));
                assert(s.to_multiset().count(c) <= 255);
            }
        }
    }

    /// Returns the number of crew members of the given type in this space.
    pub fn get_crew(self, crew: Crew) -> (r: u8)
        ensures
            r == self.count(crew),
    {
        match crew {
            Crew::Rogues => self.rogues,
            Crew::Bullies => self.bullies,
            Crew::Goons => self.goons,
        }
    }

    /// The starting space of a home base: two pieces of its crew.
    pub fn home_base(crew: Crew) -> (r: BoardSpace)
        ensures
            r == BoardSpace::vacant().with_count(crew, 2),
    {
        match crew {
            Crew::Rogues => BoardSpace { rogues: 2, ..BoardSpace::empty() },
            Crew::Bullies => BoardSpace { bullies: 2, ..BoardSpace::empty() },
            Crew::Goons => BoardSpace { goons: 2, ..BoardSpace::empty() },
        }
    }

    /// A handle on the counter of `crew`.
    pub fn get_crew_mut(&mut self, crew: Crew) -> (r: &mut u8)
        ensures
            *r == old(self).count(crew),
            *final(self) == old(self).with_count(crew, *final(r)),
    {
        match crew {
            Crew::Rogues => &mut self.rogues,
            Crew::Bullies => &mut self.bullies,
            Crew::Goons => &mut self.goons,
        }
    }

    /// Removes `amount` pieces of `crew`; fails, changing nothing, when fewer
    /// are here.
    pub fn subtract_crew(&mut self, crew: Crew, amount: u8) -> (r: Result<(), Reason>)
        ensures
            r is Ok <==> amount <= old(self).count(crew),
            r is Ok ==> *final(self) == old(self).removed(crew, amount as int),
            r is Err ==> r == Err::<(), Reason>(Reason::InsufficientPieces) && *final(self) == *old(
                self,
            ),
    {
        let count = self.get_crew_mut(crew);
        match count.checked_sub(amount) {
            Some(diff) => {
                *count = diff;
                Ok(())
            },
            None => Err(Reason::InsufficientPieces),
        }
    }

    /// Adds `amount` pieces of `crew`; the count stops at the largest value a
    /// counter holds.
    pub fn add_crew(&mut self, crew: Crew, amount: u8)
        ensures
            *final(self) == old(self).added(crew, amount as int),
    {
        let count = self.get_crew_mut(crew);
        *count = count.saturating_add(amount);
    }

    /// Succeeds when at least `amount` pieces of `crew` are here.
    pub fn check_crew(self, crew: Crew, amount: u8) -> (r: Result<(), Reason>)
        ensures
            r is Ok <==> amount <= self.count(crew),
            r is Err ==> r == Err::<(), Reason>(Reason::InsufficientPieces),
    {
        if self.get_crew(crew) < amount {
            return Err(Reason::InsufficientPieces);
        }
        Ok(())
    }

    /// `crew` holds strictly more pieces here than each of the other two.
    pub open spec fn leads(self, crew: Crew) -> bool {
        match crew {
            Crew::Rogues => self.rogues > self.bullies && self.rogues > self.goons,
            Crew::Bullies => self.bullies > self.rogues && self.bullies > self.goons,
            Crew::Goons => self.goons > self.rogues && self.goons > self.bullies,
        }
    }

    /// `crew` holds strictly fewer pieces here than each of the other two.
    pub open spec fn trails(self, crew: Crew) -> bool {
        match crew {
            Crew::Rogues => self.rogues < self.bullies && self.rogues < self.goons,
            Crew::Bullies => self.bullies < self.rogues && self.bullies < self.goons,
            Crew::Goons => self.goons < self.rogues && self.goons < self.bullies,
        }
    }

    /// The crew with a strict majority here, if there is one.
    pub open spec fn leader(self) -> Option<Crew> {
        if self.leads(Crew::Rogues) {
            Some(Crew::Rogues)
        } else if self.leads(Crew::Bullies) {
            Some(Crew::Bullies)
        } else if self.leads(Crew::Goons) {
            Some(Crew::Goons)
        } else {
            None
        }
    }

    /// The crew with strictly the fewest pieces here, if there is one.
    pub open spec fn laggard(self) -> Option<Crew> {
        if self.trails(Crew::Rogues) {
            Some(Crew::Rogues)
        } else if self.trails(Crew::Bullies) {
            Some(Crew::Bullies)
        } else if self.trails(Crew::Goons) {
            Some(Crew::Goons)
        } else {
            None
        }
    }

    /// All three crews hold the same number of pieces here.
    pub open spec fn level(self) -> bool {
        self.rogues == self.bullies && self.bullies == self.goons
    }

    /// Of two crews tied on pieces, the one with more swords, else the one
    /// with more flags, else neither.
    pub open spec fn duel(a: Crew, b: Crew, swords: BoardSpace, flags: BoardSpace) -> Option<Crew> {
        if swords.count(a) > swords.count(b) {
            Some(a)
        } else if swords.count(a) < swords.count(b) {
            Some(b)
        } else if flags.count(a) > flags.count(b) {
            Some(a)
        } else if flags.count(a) < flags.count(b) {
            Some(b)
        } else {
            None
        }
    }

    /// The crew that controls this space, given the sword and flag tallies.
    /// An empty space has no controller. When all three counts are equal, the
    /// sword tally decides, then the flag tally; otherwise a strict majority
    /// decides, and a two-way tie at the top goes to the tied crew with more
    /// swords, then more flags.
    pub open spec fn control(self, swords: BoardSpace, flags: BoardSpace) -> Option<Crew> {
        if self.total() == 0 {
            None
        } else if self.level() {
            if swords.leader() is Some {
                swords.leader()
            } else {
                flags.leader()
            }
        } else if self.leader() is Some {
            self.leader()
        } else if self.rogues == self.bullies {
            BoardSpace::duel(Crew::Rogues, Crew::Bullies, swords, flags)
        } else if self.rogues == self.goons {
            BoardSpace::duel(Crew::Rogues, Crew::Goons, swords, flags)
        } else {
            BoardSpace::duel(Crew::Bullies, Crew::Goons, swords, flags)
        }
    }

    /// The three crews, by number of pieces here, most first.
    pub fn get_sorted_crews(self) -> (r: [Crew; 3])
        ensures
            r[0] != r[1] && r[0] != r[2] && r[1] != r[2],
            self.count(r[0]) >= self.count(r[1]) >= self.count(r[2]),
    {
        let mut crews = [Crew::Rogues, Crew::Bullies, Crew::Goons];
        if self.get_crew(crews[0]) < self.get_crew(crews[1]) {
            crews = [crews[1], crews[0], crews[2]];
        }
        if self.get_crew(crews[1]) < self.get_crew(crews[2]) {
            crews = [crews[0], crews[2], crews[1]];
        }
        if self.get_crew(crews[0]) < self.get_crew(crews[1]) {
            crews = [crews[1], crews[0], crews[2]];
        }
        crews
    }

    /// Of two crews, the one with more of `tally`, or `None` on a tie.
    fn higher(tally: BoardSpace, a: Crew, b: Crew) -> (r: Option<Crew>)
        requires
            a != b,
        ensures
            r == if tally.count(a) > tally.count(b) {
                Some(a)
            } else if tally.count(a) < tally.count(b) {
                Some(b)
            } else {
                None::<Crew>
            },
    {
        if tally.get_crew(a) > tally.get_crew(b) {
            Some(a)
        } else if tally.get_crew(a) < tally.get_crew(b) {
            Some(b)
        } else {
            None
        }
    }

    /// The crew that controls this space, given the sword and flag tallies.
    pub fn controller(self, swords: BoardSpace, flags: BoardSpace) -> (r: Option<Crew>)
        ensures
            r == self.control(swords, flags),
    {
        let sword_sort = swords.get_sorted_crews();
        let flag_sort = flags.get_sorted_crews();

        if self.rogues == 0 && self.bullies == 0 && self.goons == 0 {
            return None;
        }
        if self.rogues == self.bullies && self.rogues == self.goons {
            if swords.get_crew(sword_sort[0]) == swords.get_crew(sword_sort[1]) {
                if flags.get_crew(flag_sort[0]) == flags.get_crew(flag_sort[1]) {
                    return None;
                }
                return Some(flag_sort[0]);
            }
            return Some(sword_sort[0]);
        }
        if self.rogues > self.bullies && self.rogues > self.goons {
            return Some(Crew::Rogues);
        }
        if self.bullies > self.goons && self.bullies > self.rogues {
            return Some(Crew::Bullies);
        }
        if self.goons > self.rogues && self.goons > self.bullies {
            return Some(Crew::Goons);
        }
        let (a, b) = if self.rogues == self.bullies {
            (Crew::Rogues, Crew::Bullies)
        } else if self.rogues == self.goons {
            (Crew::Rogues, Crew::Goons)
        } else {
            (Crew::Bullies, Crew::Goons)
        };
        match BoardSpace::higher(swords, a, b) {
            Some(crew) => Some(crew),
            None => BoardSpace::higher(flags, a, b),
        }
    }

    /// The same rule as `controller`, reached by ranking the crews of this
    /// space first.
    pub fn controlling_crew(self, swords: BoardSpace, flags: BoardSpace) -> (r: Option<Crew>)
        ensures
            r == self.control(swords, flags),
    {
        let flag_sort = flags.get_sorted_crews();
        let sword_sort = swords.get_sorted_crews();

        if self.rogues == 0 && self.bullies == 0 && self.goons == 0 {
            return None;
        }
        if self.rogues == self.goons && self.rogues == self.bullies {
            if swords.get_crew(sword_sort[0]) == swords.get_crew(sword_sort[1]) {
                if flags.get_crew(flag_sort[0]) == flags.get_crew(flag_sort[1]) {
                    return None;
                }
                return Some(flag_sort[0]);
            }
            return Some(sword_sort[0]);
        }

        let self_sort = self.get_sorted_crews();
        if self.get_crew(self_sort[0]) != self.get_crew(self_sort[1]) {
            return Some(self_sort[0]);
        }
        match BoardSpace::higher(swords, self_sort[0], self_sort[1]) {
            Some(crew) => Some(crew),
            None => BoardSpace::higher(flags, self_sort[0], self_sort[1]),
        }
    }

    /// The crew with strictly the fewest pieces here, if there is one: the
    /// controller of the space with every count turned upside down, with no
    /// swords or flags to break ties.
    pub fn loser(self) -> (r: Option<Crew>)
        ensures
            r == self.laggard(),
    {
        let inverse = BoardSpace {
            rogues: 255 - self.rogues,
            bullies: 255 - self.bullies,
            goons: 255 - self.goons,
        };
        inverse.controller(BoardSpace::empty(), BoardSpace::empty())
    }

    /// How one integer compares with another.
    pub open spec fn compare(x: int, y: int) -> Ordering {
        if x < y {
            Ordering::Less
        } else if x > y {
            Ordering::Greater
        } else {
            Ordering::Equal
        }
    }

    /// How hand `a` ranks against hand `b`: more of the winning crew ranks
    /// higher; on a tie, fewer of the losing crew ranks higher; with no
    /// losing crew such a tie stays equal.
    pub open spec fn rank(a: BoardSpace, b: BoardSpace, winning_crew: Crew, losing_crew: Option<Crew>) -> Ordering {
        let first = BoardSpace::compare(a.count(winning_crew), b.count(winning_crew));
        if first != Ordering::Equal {
            first
        } else {
            match losing_crew {
                None => Ordering::Equal,
                Some(losing) => BoardSpace::compare(b.count(losing), a.count(losing)),
            }
        }
    }

    fn compare_counts(x: u8, y: u8) -> (r: Ordering)
        ensures
            r == BoardSpace::compare(x as int, y as int),
    {
        if x < y {
            Ordering::Less
        } else if x > y {
            Ordering::Greater
        } else {
            Ordering::Equal
        }
    }

    /// Orders two hands for the final ranking.
    pub fn winning_sort(a: BoardSpace, b: BoardSpace, winning_crew: Crew, losing_crew: Option<Crew>) -> (r: Ordering)
        ensures
            r == BoardSpace::rank(a, b, winning_crew, losing_crew),
    {
        let first = BoardSpace::compare_counts(a.get_crew(winning_crew), b.get_crew(winning_crew));
        match first {
            Ordering::Equal => match losing_crew {
                None => Ordering::Equal,
                Some(losing) => BoardSpace::compare_counts(b.get_crew(losing), a.get_crew(losing)),
            },
            _ => first,
        }
    }
}

} // verus!
