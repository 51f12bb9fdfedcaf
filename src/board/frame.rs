//! What each of the board's updaters changes, and that it changes nothing
//! else. The board's contracts are stated over these updaters; a caller
//! reads them with `broadcast use group_board_frame;`.
use vstd::prelude::*;

use super::Board;
use crate::{BoardSpace, Crew, Player, Zone};

verus! {

/// What `Board::with_space` changes, and that it changes nothing else.
pub broadcast proof fn lemma_with_space(b: Board, zone: Zone, s: BoardSpace)
    ensures
        #![trigger b.with_space(zone, s)]
        forall|z: Zone| #[trigger] b.with_space(zone, s).space(z) == if z == zone { s } else { b.space(z) },
        forall|q: Player| #[trigger] b.with_space(zone, s).hand(q) == b.hand(q),
        b.with_space(zone, s).bag_tally() == b.bag_tally(),
        b.with_space(zone, s).swords() == b.swords(),
        b.with_space(zone, s).flags() == b.flags(),
        b.with_space(zone, s).players() == b.players(),
        b.with_space(zone, s).mover() == b.mover(),
        b.with_space(zone, s).negotiating() == b.negotiating(),
        b.with_space(zone, s).streak() == b.streak(),
{
    reveal(Board::space);
    reveal(Board::hand);
    reveal(Board::bag_tally);
    reveal(Board::swords);
    reveal(Board::flags);
    reveal(Board::players);
    reveal(Board::mover);
    reveal(Board::negotiating);
    reveal(Board::streak);
    reveal(Board::with_space);
}

/// What `Board::with_hand` changes, and that it changes nothing else.
pub broadcast proof fn lemma_with_hand(b: Board, player: Player, s: BoardSpace)
    ensures
        #![trigger b.with_hand(player, s)]
        forall|z: Zone| #[trigger] b.with_hand(player, s).space(z) == b.space(z),
        forall|q: Player| #[trigger] b.with_hand(player, s).hand(q) == if q == player { s } else { b.hand(q) },
        b.with_hand(player, s).bag_tally() == b.bag_tally(),
        b.with_hand(player, s).swords() == b.swords(),
        b.with_hand(player, s).flags() == b.flags(),
        b.with_hand(player, s).players() == b.players(),
        b.with_hand(player, s).mover() == b.mover(),
        b.with_hand(player, s).negotiating() == b.negotiating(),
        b.with_hand(player, s).streak() == b.streak(),
{
    reveal(Board::space);
    reveal(Board::hand);
    reveal(Board::bag_tally);
    reveal(Board::swords);
    reveal(Board::flags);
    reveal(Board::players);
    reveal(Board::mover);
    reveal(Board::negotiating);
    reveal(Board::streak);
    reveal(Board::with_hand);
}

/// What `Board::with_bag` changes, and that it changes nothing else.
pub broadcast proof fn lemma_with_bag(b: Board, t: BoardSpace)
    ensures
        #![trigger b.with_bag(t)]
        forall|z: Zone| #[trigger] b.with_bag(t).space(z) == b.space(z),
        forall|q: Player| #[trigger] b.with_bag(t).hand(q) == b.hand(q),
        b.with_bag(t).bag_tally() == t,
        b.with_bag(t).swords() == b.swords(),
        b.with_bag(t).flags() == b.flags(),
        b.with_bag(t).players() == b.players(),
        b.with_bag(t).mover() == b.mover(),
        b.with_bag(t).negotiating() == b.negotiating(),
        b.with_bag(t).streak() == b.streak(),
{
    reveal(Board::space);
    reveal(Board::hand);
    reveal(Board::bag_tally);
    reveal(Board::swords);
    reveal(Board::flags);
    reveal(Board::players);
    reveal(Board::mover);
    reveal(Board::negotiating);
    reveal(Board::streak);
    reveal(Board::with_bag);
}

/// What `Board::with_swords` changes, and that it changes nothing else.
pub broadcast proof fn lemma_with_swords(b: Board, s: BoardSpace)
    ensures
        #![trigger b.with_swords(s)]
        forall|z: Zone| #[trigger] b.with_swords(s).space(z) == b.space(z),
        forall|q: Player| #[trigger] b.with_swords(s).hand(q) == b.hand(q),
        b.with_swords(s).bag_tally() == b.bag_tally(),
        b.with_swords(s).swords() == s,
        b.with_swords(s).flags() == b.flags(),
        b.with_swords(s).players() == b.players(),
        b.with_swords(s).mover() == b.mover(),
        b.with_swords(s).negotiating() == b.negotiating(),
        b.with_swords(s).streak() == b.streak(),
{
    reveal(Board::space);
    reveal(Board::hand);
    reveal(Board::bag_tally);
    reveal(Board::swords);
    reveal(Board::flags);
    reveal(Board::players);
    reveal(Board::mover);
    reveal(Board::negotiating);
    reveal(Board::streak);
    reveal(Board::with_swords);
}

/// What `Board::with_flags` changes, and that it changes nothing else.
pub broadcast proof fn lemma_with_flags(b: Board, s: BoardSpace)
    ensures
        #![trigger b.with_flags(s)]
        forall|z: Zone| #[trigger] b.with_flags(s).space(z) == b.space(z),
        forall|q: Player| #[trigger] b.with_flags(s).hand(q) == b.hand(q),
        b.with_flags(s).bag_tally() == b.bag_tally(),
        b.with_flags(s).swords() == b.swords(),
        b.with_flags(s).flags() == s,
        b.with_flags(s).players() == b.players(),
        b.with_flags(s).mover() == b.mover(),
        b.with_flags(s).negotiating() == b.negotiating(),
        b.with_flags(s).streak() == b.streak(),
{
    reveal(Board::space);
    reveal(Board::hand);
    reveal(Board::bag_tally);
    reveal(Board::swords);
    reveal(Board::flags);
    reveal(Board::players);
    reveal(Board::mover);
    reveal(Board::negotiating);
    reveal(Board::streak);
    reveal(Board::with_flags);
}

/// What `Board::with_mover` changes, and that it changes nothing else.
pub broadcast proof fn lemma_with_mover(b: Board, player: Player)
    ensures
        #![trigger b.with_mover(player)]
        forall|z: Zone| #[trigger] b.with_mover(player).space(z) == b.space(z),
        forall|q: Player| #[trigger] b.with_mover(player).hand(q) == b.hand(q),
        b.with_mover(player).bag_tally() == b.bag_tally(),
        b.with_mover(player).swords() == b.swords(),
        b.with_mover(player).flags() == b.flags(),
        b.with_mover(player).players() == b.players(),
        b.with_mover(player).mover() == player,
        b.with_mover(player).negotiating() == b.negotiating(),
        b.with_mover(player).streak() == b.streak(),
{
    reveal(Board::space);
    reveal(Board::hand);
    reveal(Board::bag_tally);
    reveal(Board::swords);
    reveal(Board::flags);
    reveal(Board::players);
    reveal(Board::mover);
    reveal(Board::negotiating);
    reveal(Board::streak);
    reveal(Board::with_mover);
}

/// What `Board::with_negotiating` changes, and that it changes nothing else.
pub broadcast proof fn lemma_with_negotiating(b: Board, open: bool)
    ensures
        #![trigger b.with_negotiating(open)]
        forall|z: Zone| #[trigger] b.with_negotiating(open).space(z) == b.space(z),
        forall|q: Player| #[trigger] b.with_negotiating(open).hand(q) == b.hand(q),
        b.with_negotiating(open).bag_tally() == b.bag_tally(),
        b.with_negotiating(open).swords() == b.swords(),
        b.with_negotiating(open).flags() == b.flags(),
        b.with_negotiating(open).players() == b.players(),
        b.with_negotiating(open).mover() == b.mover(),
        b.with_negotiating(open).negotiating() == open,
        b.with_negotiating(open).streak() == b.streak(),
{
    reveal(Board::space);
    reveal(Board::hand);
    reveal(Board::bag_tally);
    reveal(Board::swords);
    reveal(Board::flags);
    reveal(Board::players);
    reveal(Board::mover);
    reveal(Board::negotiating);
    reveal(Board::streak);
    reveal(Board::with_negotiating);
}

/// What `Board::with_streak` changes, and that it changes nothing else.
pub broadcast proof fn lemma_with_streak(b: Board, n: u8)
    ensures
        #![trigger b.with_streak(n)]
        forall|z: Zone| #[trigger] b.with_streak(n).space(z) == b.space(z),
        forall|q: Player| #[trigger] b.with_streak(n).hand(q) == b.hand(q),
        b.with_streak(n).bag_tally() == b.bag_tally(),
        b.with_streak(n).swords() == b.swords(),
        b.with_streak(n).flags() == b.flags(),
        b.with_streak(n).players() == b.players(),
        b.with_streak(n).mover() == b.mover(),
        b.with_streak(n).negotiating() == b.negotiating(),
        b.with_streak(n).streak() == n as int,
{
    reveal(Board::space);
    reveal(Board::hand);
    reveal(Board::bag_tally);
    reveal(Board::swords);
    reveal(Board::flags);
    reveal(Board::players);
    reveal(Board::mover);
    reveal(Board::negotiating);
    reveal(Board::streak);
    reveal(Board::with_streak);
}

/// Putting back a zone's own pieces changes nothing.
pub broadcast proof fn lemma_with_space_same(b: Board, zone: Zone)
    ensures
        #[trigger] b.with_space(zone, b.space(zone)) == b,
{
    reveal(Board::space);
    reveal(Board::with_space);
}

/// Putting back a player's own hand changes nothing.
pub broadcast proof fn lemma_with_hand_same(b: Board, player: Player)
    ensures
        #[trigger] b.with_hand(player, b.hand(player)) == b,
{
    reveal(Board::hand);
    reveal(Board::with_hand);
}

/// Replacing a zone's pieces changes each crew's total by the difference.
pub broadcast proof fn lemma_total_with_space(b: Board, zone: Zone, s: BoardSpace, c: Crew)
    ensures
        #[trigger] b.with_space(zone, s).crew_total(c) == b.crew_total(c) - b.space(zone).count(c)
            + s.count(c),
{
    reveal(Board::crew_total);
    lemma_with_space(b, zone, s);
    match zone {
        Zone::Red => {},
        Zone::Green => {},
        Zone::Blue => {},
        Zone::Orange => {},
        Zone::Yellow => {},
        Zone::Cyan => {},
        Zone::Magenta => {},
        Zone::Purple => {},
        Zone::White => {},
        Zone::Black => {},
        Zone::Gray => {},
    }
}

/// Replacing a hand changes each crew's total by the difference.
pub broadcast proof fn lemma_total_with_hand(b: Board, player: Player, s: BoardSpace, c: Crew)
    ensures
        #[trigger] b.with_hand(player, s).crew_total(c) == b.crew_total(c) - b.hand(player).count(c)
            + s.count(c),
{
    reveal(Board::crew_total);
    lemma_with_hand(b, player, s);
    match player {
        Player::Alpha => {},
        Player::Beta => {},
        Player::Gamma => {},
        Player::Delta => {},
        Player::Epsilon => {},
    }
}

/// Replacing the bag's contents changes each crew's total by the difference.
pub broadcast proof fn lemma_total_with_bag(b: Board, t: BoardSpace, c: Crew)
    ensures
        #[trigger] b.with_bag(t).crew_total(c) == b.crew_total(c) - b.bag_tally().count(c) + t.count(c),
{
    reveal(Board::crew_total);
    lemma_with_bag(b, t);
}

/// `Board::with_swords` moves no piece.
pub broadcast proof fn lemma_total_with_swords(b: Board, s: BoardSpace, c: Crew)
    ensures
        #[trigger] b.with_swords(s).crew_total(c) == b.crew_total(c),
{
    reveal(Board::crew_total);
    lemma_with_swords(b, s);
}

/// `Board::with_flags` moves no piece.
pub broadcast proof fn lemma_total_with_flags(b: Board, s: BoardSpace, c: Crew)
    ensures
        #[trigger] b.with_flags(s).crew_total(c) == b.crew_total(c),
{
    reveal(Board::crew_total);
    lemma_with_flags(b, s);
}

/// `Board::with_mover` moves no piece.
pub broadcast proof fn lemma_total_with_mover(b: Board, p: Player, c: Crew)
    ensures
        #[trigger] b.with_mover(p).crew_total(c) == b.crew_total(c),
{
    reveal(Board::crew_total);
    lemma_with_mover(b, p);
}

/// `Board::with_negotiating` moves no piece.
pub broadcast proof fn lemma_total_with_negotiating(b: Board, open: bool, c: Crew)
    ensures
        #[trigger] b.with_negotiating(open).crew_total(c) == b.crew_total(c),
{
    reveal(Board::crew_total);
    lemma_with_negotiating(b, open);
}

/// `Board::with_streak` moves no piece.
pub broadcast proof fn lemma_total_with_streak(b: Board, n: u8, c: Crew)
    ensures
        #[trigger] b.with_streak(n).crew_total(c) == b.crew_total(c),
{
    reveal(Board::crew_total);
    lemma_with_streak(b, n);
}

/// Each counter's pieces of a crew are among that crew's total.
pub broadcast proof fn lemma_total_bounds(b: Board, c: Crew)
    ensures
        #![trigger b.crew_total(c)]
        forall|z: Zone| 0 <= #[trigger] b.space(z).count(c) <= b.crew_total(c),
        forall|p: Player| 0 <= #[trigger] b.hand(p).count(c) <= b.crew_total(c),
        0 <= b.bag_tally().count(c) <= b.crew_total(c),
{
    reveal(Board::crew_total);
}

pub broadcast group group_board_frame {
    lemma_total_with_space,
    lemma_total_with_hand,
    lemma_total_with_bag,
    lemma_total_with_swords,
    lemma_total_with_flags,
    lemma_total_with_mover,
    lemma_total_with_negotiating,
    lemma_total_with_streak,
    lemma_total_bounds,
    lemma_with_space_same,
    lemma_with_hand_same,
    lemma_with_space,
    lemma_with_hand,
    lemma_with_bag,
    lemma_with_swords,
    lemma_with_flags,
    lemma_with_mover,
    lemma_with_negotiating,
    lemma_with_streak,
}

} // verus!
