//! The game state and the rules that change it.
use vstd::prelude::*;

use crate::constants::{adjacent, default_bag, is_adjacent, nth_zone, zone_at, ZONES_TO_FILL};
use crate::random::shuffle_pieces;
use std::cmp::Ordering;

pub mod frame;

use frame::group_board_frame;
use crate::{Action, Bag, BoardSpace, Crew, Error, Player, Reason, TurnResult, Winner, Zone};

verus! {

/// The board is the game state. It tracks everything about the game.
#[derive(Clone, Copy, Debug)]
pub struct Board {
    bag: Bag,
    red: BoardSpace,
    green: BoardSpace,
    blue: BoardSpace,
    orange: BoardSpace,
    yellow: BoardSpace,
    cyan: BoardSpace,
    magenta: BoardSpace,
    purple: BoardSpace,
    white: BoardSpace,
    black: BoardSpace,
    gray: BoardSpace,
    alpha: BoardSpace,
    beta: BoardSpace,
    gamma: BoardSpace,
    delta: BoardSpace,
    epsilon: BoardSpace,
    swords: BoardSpace,
    flags: BoardSpace,
    num_players: u8,
    next_player: Player,
    current_negotiation: bool,
    consecutive_negotiations: u8,
}

impl Board {
    /// The pieces in a zone.
    #[verifier::opaque]
    pub closed spec fn space(self, zone: Zone) -> BoardSpace {
        match zone {
            Zone::Red => self.red,
            Zone::Green => self.green,
            Zone::Blue => self.blue,
            Zone::Orange => self.orange,
            Zone::Yellow => self.yellow,
            Zone::Cyan => self.cyan,
            Zone::Magenta => self.magenta,
            Zone::Purple => self.purple,
            Zone::White => self.white,
            Zone::Black => self.black,
            Zone::Gray => self.gray,
        }
    }

    /// The pieces in a player's hand.
    #[verifier::opaque]
    pub closed spec fn hand(self, player: Player) -> BoardSpace {
        match player {
            Player::Alpha => self.alpha,
            Player::Beta => self.beta,
            Player::Gamma => self.gamma,
            Player::Delta => self.delta,
            Player::Epsilon => self.epsilon,
        }
    }

    /// The pieces in the bag.
    #[verifier::opaque]
    pub closed spec fn bag_tally(self) -> BoardSpace {
        self.bag@
    }

    /// Successful battles, by attacking crew.
    #[verifier::opaque]
    pub closed spec fn swords(self) -> BoardSpace {
        self.swords
    }

    /// Successful marches, by marching crew.
    #[verifier::opaque]
    pub closed spec fn flags(self) -> BoardSpace {
        self.flags
    }

    /// Number of players in the game.
    #[verifier::opaque]
    pub closed spec fn players(self) -> int {
        self.num_players as int
    }

    /// The player whose turn it is.
    #[verifier::opaque]
    pub closed spec fn mover(self) -> Player {
        self.next_player
    }

    /// A negotiation is open.
    #[verifier::opaque]
    pub closed spec fn negotiating(self) -> bool {
        self.current_negotiation
    }

    /// Number of negotiations ended so far.
    #[verifier::opaque]
    pub closed spec fn streak(self) -> int {
        self.consecutive_negotiations as int
    }

    /// This board with the pieces of `zone` replaced.
    #[verifier::opaque]
    pub closed spec fn with_space(self, zone: Zone, s: BoardSpace) -> Board {
        match zone {
            Zone::Red => Board { red: s, ..self },
            Zone::Green => Board { green: s, ..self },
            Zone::Blue => Board { blue: s, ..self },
            Zone::Orange => Board { orange: s, ..self },
            Zone::Yellow => Board { yellow: s, ..self },
            Zone::Cyan => Board { cyan: s, ..self },
            Zone::Magenta => Board { magenta: s, ..self },
            Zone::Purple => Board { purple: s, ..self },
            Zone::White => Board { white: s, ..self },
            Zone::Black => Board { black: s, ..self },
            Zone::Gray => Board { gray: s, ..self },
        }
    }

    /// This board with the hand of `player` replaced.
    #[verifier::opaque]
    pub closed spec fn with_hand(self, player: Player, s: BoardSpace) -> Board {
        match player {
            Player::Alpha => Board { alpha: s, ..self },
            Player::Beta => Board { beta: s, ..self },
            Player::Gamma => Board { gamma: s, ..self },
            Player::Delta => Board { delta: s, ..self },
            Player::Epsilon => Board { epsilon: s, ..self },
        }
    }

    /// This board with the bag's contents replaced.
    #[verifier::opaque]
    pub closed spec fn with_bag(self, t: BoardSpace) -> Board {
        Board { bag: Bag { rogues: t.rogues, goons: t.goons, bullies: t.bullies }, ..self }
    }

    /// This board with the sword tally replaced.
    #[verifier::opaque]
    pub closed spec fn with_swords(self, s: BoardSpace) -> Board {
        Board { swords: s, ..self }
    }

    /// This board with the flag tally replaced.
    #[verifier::opaque]
    pub closed spec fn with_flags(self, s: BoardSpace) -> Board {
        Board { flags: s, ..self }
    }

    /// This board with the turn handed to `player`.
    #[verifier::opaque]
    pub closed spec fn with_mover(self, player: Player) -> Board {
        Board { next_player: player, ..self }
    }

    /// This board with a negotiation opened or closed.
    #[verifier::opaque]
    pub closed spec fn with_negotiating(self, open: bool) -> Board {
        Board { current_negotiation: open, ..self }
    }

    /// This board with the count of ended negotiations replaced.
    #[verifier::opaque]
    pub closed spec fn with_streak(self, n: u8) -> Board {
        Board { consecutive_negotiations: n, ..self }
    }

    /// Pieces of `crew` in the zones, the hands and the bag.
    #[verifier::opaque]
    pub open spec fn crew_total(self, crew: Crew) -> int {
        self.space(Zone::Red).count(crew) + self.space(Zone::Green).count(crew) + self.space(
            Zone::Blue,
        ).count(crew) + self.space(Zone::Orange).count(crew) + self.space(Zone::Yellow).count(crew)
            + self.space(Zone::Cyan).count(crew) + self.space(Zone::Magenta).count(crew)
            + self.space(Zone::Purple).count(crew) + self.space(Zone::White).count(crew)
            + self.space(Zone::Black).count(crew) + self.space(Zone::Gray).count(crew) + self.hand(
            Player::Alpha,
        ).count(crew) + self.hand(Player::Beta).count(crew) + self.hand(Player::Gamma).count(crew)
            + self.hand(Player::Delta).count(crew) + self.hand(Player::Epsilon).count(crew)
            + self.bag_tally().count(crew)
    }

    /// Pieces in the zones, the hands and the bag; the sword and flag tallies
    /// are not pieces.
    pub open spec fn pieces(self) -> int {
        self.crew_total(Crew::Rogues) + self.crew_total(Crew::Bullies) + self.crew_total(
            Crew::Goons,
        )
    }

    /// Pieces accounted for: those in the zones, the hands and the bag, and
    /// one for each sword and flag, since each successful battle or march
    /// spends a piece from hand and counts one of these in its place.
    pub open spec fn accounted(self) -> int {
        self.pieces() + self.swords().total() + self.flags().total()
    }

    /// The seat whose turn follows the current one: the next active seat,
    /// back to the first after the last.
    pub open spec fn next_seat(self) -> Player {
        if self.mover().seat() + 1 < self.players() {
            Player::at(self.mover().seat() + 1)
        } else {
            Player::Alpha
        }
    }

    /// The board is one that play can reach: two to five players, the turn
    /// with an active seat, the inactive hands empty, at most the pieces a
    /// game starts with accounted for, and a piece in the bag whenever no
    /// negotiation is open.
    pub open spec fn wf(self) -> bool {
        &&& 2 <= self.players() <= 5
        &&& self.mover().seat() < self.players()
        &&& forall|p: Player| p.seat() >= self.players() ==> #[trigger] self.hand(p) == BoardSpace::vacant()
        &&& self.accounted() <= 63
        &&& !self.negotiating() ==> self.bag_tally().total() >= 1
    }

    /// The zone holds enough pieces for `crew` to battle there, removing
    /// `rogues`, `bullies` and `goons`: as many of its own as it removes in
    /// all, and of each crew at least as many as are removed.
    pub open spec fn can_battle(space: BoardSpace, crew: Crew, rogues: u8, bullies: u8, goons: u8) -> bool {
        &&& space.count(crew) >= rogues + bullies + goons
        &&& space.rogues >= rogues
        &&& space.bullies >= bullies
        &&& space.goons >= goons
    }

    /// Why `action` is refused on this board, if it is.
    pub open spec fn refusal(self, action: Action) -> Option<Reason> {
        let hand = self.hand(self.mover());
        if self.negotiating() && !(action is EndNegotiation) {
            Some(Reason::NegotiationInProgress)
        } else {
            match action {
                Action::Recruit(crew, _) => if hand.count(crew) < 1 {
                    Some(Reason::InsufficientPieces)
                } else {
                    None
                },
                Action::March(crew, from, to, amount) => if !adjacent(from, to) {
                    Some(Reason::CannotMarchFromTo)
                } else if hand.count(crew) < 1 || self.space(from).count(crew) < amount {
                    Some(Reason::InsufficientPieces)
                } else {
                    None
                },
                Action::Battle(crew, zone, rogues, bullies, goons) => if (BoardSpace {
                    rogues,
                    bullies,
                    goons,
                }).count(crew) > 0 {
                    Some(Reason::CannotRemoveFromAttackingFaction)
                } else if rogues + bullies + goons == 0 {
                    Some(Reason::MustRemoveWhenAttacking)
                } else if hand.count(crew) < 1 || !Board::can_battle(
                    self.space(zone),
                    crew,
                    rogues,
                    bullies,
                    goons,
                ) {
                    Some(Reason::InsufficientPieces)
                } else {
                    None
                },
                Action::StartNegotiation => None,
                Action::EndNegotiation(crew) => if hand.count(crew) < 1 {
                    Some(Reason::InsufficientPieces)
                } else {
                    None
                },
            }
        }
    }

    /// The board after the player whose turn it is has carried out `action`
    /// (but for opening a negotiation, see `opened`), before the turn passes:
    /// - recruiting plays a piece from hand into the zone;
    /// - marching spends a piece from hand, moves the pieces and counts a flag;
    /// - battling spends a piece from hand, counts a sword and returns the
    ///   removed pieces to the bag;
    /// - ending a negotiation returns a piece from hand to the bag.
    pub open spec fn applied(self, action: Action) -> Board {
        let p = self.mover();
        let hand = self.hand(p);
        match action {
            Action::Recruit(crew, zone) => self.with_hand(p, hand.removed(crew, 1)).with_space(
                zone,
                self.space(zone).added(crew, 1),
            ),
            Action::March(crew, from, to, amount) => self.with_hand(
                p,
                hand.removed(crew, 1),
            ).with_space(from, self.space(from).removed(crew, amount as int)).with_flags(
                self.flags().added(crew, 1),
            ).with_space(to, self.space(to).added(crew, amount as int)),
            Action::Battle(crew, zone, rogues, bullies, goons) => self.with_hand(
                p,
                hand.removed(crew, 1),
            ).with_swords(self.swords().added(crew, 1)).with_space(
                zone,
                self.space(zone).removed(Crew::Rogues, rogues as int).removed(
                    Crew::Bullies,
                    bullies as int,
                ).removed(Crew::Goons, goons as int),
            ).with_bag(
                self.bag_tally().added(Crew::Rogues, rogues as int).added(
                    Crew::Bullies,
                    bullies as int,
                ).added(Crew::Goons, goons as int),
            ),
            Action::StartNegotiation => self,
            Action::EndNegotiation(crew) => self.with_hand(p, hand.removed(crew, 1)).with_bag(
                self.bag_tally().added(crew, 1),
            ).with_negotiating(false).with_streak(
                if self.streak() + 1 > 255 {
                    255u8
                } else {
                    (self.streak() + 1) as u8
                },
            ),
        }
    }

    /// The board after the player whose turn it is opens a negotiation and
    /// draws `drawn` from the bag.
    pub open spec fn opened(self, drawn: Crew) -> Board {
        let p = self.mover();
        self.with_bag(self.bag_tally().removed(drawn, 1)).with_hand(
            p,
            self.hand(p).added(drawn, 1),
        ).with_negotiating(true)
    }

    /// This board with the turn passed on.
    pub open spec fn turned(self) -> Board {
        self.with_mover(self.next_seat())
    }

    /// The board after `action`, where `drawn` is the piece drawn if the
    /// action opens a negotiation. A refused action changes nothing but the
    /// turn, which passes on all the same unless a negotiation is open; a
    /// negotiation's opening keeps the turn with its player.
    pub open spec fn successor(self, action: Action, drawn: Crew) -> Board {
        match self.refusal(action) {
            Some(Reason::NegotiationInProgress) => self,
            Some(_) => self.turned(),
            None => match action {
                Action::StartNegotiation => self.opened(drawn),
                _ => self.applied(action).turned(),
            },
        }
    }

    /// What an operation returns when its action meets `refusal`.
    pub open spec fn outcome(refusal: Option<Reason>) -> Result<(), Reason> {
        match refusal {
            Some(reason) => Err(reason),
            None => Ok(()),
        }
    }

    /// The pieces in a zone.
    pub fn get_space(&self, zone: Zone) -> (r: &BoardSpace)
        ensures
            *r == self.space(zone),
    {
        reveal(Board::space);
        match zone {
            Zone::Red => &self.red,
            Zone::Green => &self.green,
            Zone::Blue => &self.blue,
            Zone::Orange => &self.orange,
            Zone::Yellow => &self.yellow,
            Zone::Cyan => &self.cyan,
            Zone::Magenta => &self.magenta,
            Zone::Purple => &self.purple,
            Zone::White => &self.white,
            Zone::Black => &self.black,
            Zone::Gray => &self.gray,
        }
    }

    /// A handle on the pieces in a zone.
    pub fn get_space_mut(&mut self, zone: Zone) -> (r: &mut BoardSpace)
        ensures
            *r == old(self).space(zone),
            *final(self) == old(self).with_space(zone, *final(r)),
    {
        reveal(Board::space);
        reveal(Board::with_space);
        match zone {
            Zone::Red => &mut self.red,
            Zone::Green => &mut self.green,
            Zone::Blue => &mut self.blue,
            Zone::Orange => &mut self.orange,
            Zone::Yellow => &mut self.yellow,
            Zone::Cyan => &mut self.cyan,
            Zone::Magenta => &mut self.magenta,
            Zone::Purple => &mut self.purple,
            Zone::White => &mut self.white,
            Zone::Black => &mut self.black,
            Zone::Gray => &mut self.gray,
        }
    }

    /// The pieces in a player's hand.
    pub fn get_hand(&self, player: Player) -> (r: &BoardSpace)
        ensures
            *r == self.hand(player),
    {
        reveal(Board::hand);
        match player {
            Player::Alpha => &self.alpha,
            Player::Beta => &self.beta,
            Player::Gamma => &self.gamma,
            Player::Delta => &self.delta,
            Player::Epsilon => &self.epsilon,
        }
    }

    /// A handle on the pieces in a player's hand.
    pub fn get_hand_mut(&mut self, player: Player) -> (r: &mut BoardSpace)
        ensures
            *r == old(self).hand(player),
            *final(self) == old(self).with_hand(player, *final(r)),
    {
        reveal(Board::hand);
        reveal(Board::with_hand);
        match player {
            Player::Alpha => &mut self.alpha,
            Player::Beta => &mut self.beta,
            Player::Gamma => &mut self.gamma,
            Player::Delta => &mut self.delta,
            Player::Epsilon => &mut self.epsilon,
        }
    }

    /// The hand of the player whose turn it is.
    pub fn get_current_hand(&self) -> (r: BoardSpace)
        ensures
            r == self.hand(self.mover()),
    {
        broadcast use group_board_frame;

        *self.get_hand(self.next_player())
    }

    /// Successful battles, by attacking crew.
    pub fn get_swords(&self) -> (r: BoardSpace)
        ensures
            r == self.swords(),
    {
        reveal(Board::swords);
        self.swords
    }

    /// Successful marches, by marching crew.
    pub fn get_flags(&self) -> (r: BoardSpace)
        ensures
            r == self.flags(),
    {
        reveal(Board::flags);
        self.flags
    }

    /// The pieces in the bag.
    pub fn get_bag(&self) -> (r: Bag)
        ensures
            r@ == self.bag_tally(),
    {
        reveal(Board::bag_tally);
        self.bag
    }

    /// The player whose turn it is.
    pub fn next_player(&self) -> (r: Player)
        ensures
            r == self.mover(),
    {
        reveal(Board::mover);
        self.next_player
    }

    /// Number of players in the game.
    pub fn num_players(&self) -> (r: u8)
        ensures
            r == self.players(),
    {
        reveal(Board::players);
        self.num_players
    }

    /// Whether a negotiation is open.
    pub fn in_negotiation(&self) -> (r: bool)
        ensures
            r == self.negotiating(),
    {
        reveal(Board::negotiating);
        self.current_negotiation
    }

    /// Number of negotiations ended so far.
    pub fn consecutive_negotiations(&self) -> (r: u8)
        ensures
            r == self.streak(),
    {
        reveal(Board::streak);
        self.consecutive_negotiations
    }

    /// Plays a piece of `crew` from the hand of `player`; fails, changing
    /// nothing, when the hand holds none.
    pub fn play_crew(&mut self, player: Player, crew: Crew) -> (r: Result<(), Reason>)
        ensures
            r is Ok <==> old(self).hand(player).count(crew) >= 1,
            r is Ok ==> *final(self) == old(self).with_hand(
                player,
                old(self).hand(player).removed(crew, 1),
            ),
            r is Err ==> r == Err::<(), Reason>(Reason::InsufficientPieces) && *final(self) == *old(
                self,
            ),
    {
        broadcast use group_board_frame;

        let hand = self.get_hand_mut(player);
        hand.subtract_crew(crew, 1)
    }

    /// Passes the turn to the next active seat.
    pub fn advance_turn(&mut self)
        requires
            2 <= old(self).players() <= 5,
        ensures
            *final(self) == old(self).turned(),
    {
        reveal(Board::players);
        reveal(Board::mover);
        reveal(Board::with_mover);
        self.next_player = match self.next_player {
            Player::Alpha => Player::Beta,
            Player::Beta => if self.num_players > 2 {
                Player::Gamma
            } else {
                Player::Alpha
            },
            Player::Gamma => if self.num_players > 3 {
                Player::Delta
            } else {
                Player::Alpha
            },
            Player::Delta => if self.num_players > 4 {
                Player::Epsilon
            } else {
                Player::Alpha
            },
            Player::Epsilon => Player::Alpha,
        };
    }

    /// Counts a sword for `crew`.
    fn add_sword(&mut self, crew: Crew)
        ensures
            *final(self) == old(self).with_swords(old(self).swords().added(crew, 1)),
    {
        reveal(Board::swords);
        reveal(Board::with_swords);
        self.swords.add_crew(crew, 1);
    }

    /// Counts a flag for `crew`.
    fn add_flag(&mut self, crew: Crew)
        ensures
            *final(self) == old(self).with_flags(old(self).flags().added(crew, 1)),
    {
        reveal(Board::flags);
        reveal(Board::with_flags);
        self.flags.add_crew(crew, 1);
    }

    /// Returns `amount` pieces of `crew` to the bag.
    fn return_crew(bag: &mut Bag, crew: Crew, amount: u8)
        requires
            old(bag)@.count(crew) + amount <= 255,
        ensures
            final(bag)@ == old(bag)@.added(crew, amount as int),
    {
        let mut i: u8 = 0;
        while i < amount
            invariant
                i <= amount,
                old(bag)@.count(crew) + amount <= 255,
                bag@ == old(bag)@.added(crew, i as int),
            decreases amount - i,
        {
            bag.replace(crew);
            i = i + 1;
        }
    }

    /// Returns removed rogues, bullies and goons to the bag.
    fn return_to_bag(&mut self, rogues: u8, bullies: u8, goons: u8)
        requires
            old(self).bag_tally().total() + rogues + bullies + goons <= 255,
        ensures
            *final(self) == old(self).with_bag(
                old(self).bag_tally().added(Crew::Rogues, rogues as int).added(
                    Crew::Bullies,
                    bullies as int,
                ).added(Crew::Goons, goons as int),
            ),
    {
        reveal(Board::bag_tally);
        reveal(Board::with_bag);
        Board::return_crew(&mut self.bag, Crew::Rogues, rogues);
        Board::return_crew(&mut self.bag, Crew::Bullies, bullies);
        Board::return_crew(&mut self.bag, Crew::Goons, goons);
    }

    /// Puts one piece of `crew` back in the bag.
    fn return_piece(&mut self, crew: Crew)
        requires
            old(self).bag_tally().total() < 255,
        ensures
            *final(self) == old(self).with_bag(old(self).bag_tally().added(crew, 1)),
    {
        reveal(Board::bag_tally);
        reveal(Board::with_bag);
        self.bag.replace(crew);
    }

    /// Draws a piece from the bag.
    fn draw_piece(&mut self) -> (r: Crew)
        requires
            0 < old(self).bag_tally().total() <= 255,
        ensures
            old(self).bag_tally().count(r) > 0,
            *final(self) == old(self).with_bag(old(self).bag_tally().removed(r, 1)),
    {
        reveal(Board::bag_tally);
        reveal(Board::with_bag);
        self.bag.draw()
    }

    /// Opens or closes a negotiation.
    fn set_negotiation(&mut self, open: bool)
        ensures
            *final(self) == old(self).with_negotiating(open),
    {
        reveal(Board::with_negotiating);
        self.current_negotiation = open;
    }

    /// Counts one more ended negotiation.
    fn count_negotiation(&mut self)
        ensures
            *final(self) == old(self).with_streak(
                if old(self).streak() + 1 > 255 {
                    255u8
                } else {
                    (old(self).streak() + 1) as u8
                },
            ),
    {
        reveal(Board::streak);
        reveal(Board::with_streak);
        self.consecutive_negotiations = self.consecutive_negotiations.saturating_add(1);
    }

    /// Plays a piece of `crew` from hand into `zone`.
    pub fn recruit(&mut self, player: Player, crew: Crew, zone: Zone) -> (r: Result<(), Reason>)
        requires
            player == old(self).mover(),
            !old(self).negotiating(),
        ensures
            r == Board::outcome(old(self).refusal(Action::Recruit(crew, zone))),
            r is Ok ==> *final(self) == old(self).applied(Action::Recruit(crew, zone)),
            r is Err ==> *final(self) == *old(self),
    {
        broadcast use group_board_frame;

        self.play_crew(player, crew)?;
        self.get_space_mut(zone).add_crew(crew, 1);
        Ok(())
    }

    /// Spends a piece of `crew` from hand to move `amount` pieces of `crew`
    /// from `from` to the adjacent `to`, and counts a flag for `crew`.
    pub fn march(&mut self, player: Player, crew: Crew, from: Zone, to: Zone, amount: u8) -> (r: Result<(), Reason>)
        requires
            player == old(self).mover(),
            !old(self).negotiating(),
        ensures
            r == Board::outcome(old(self).refusal(Action::March(crew, from, to, amount))),
            r is Ok ==> *final(self) == old(self).applied(Action::March(crew, from, to, amount)),
            r is Err ==> *final(self) == *old(self),
    {
        broadcast use group_board_frame;

        if !is_adjacent(from, to) {
            return Err(Reason::CannotMarchFromTo);
        }
        self.get_hand(player).check_crew(crew, 1)?;
        self.get_space(from).check_crew(crew, amount)?;
        self.play_crew(player, crew)?;
        self.get_space_mut(from).subtract_crew(crew, amount)?;
        self.add_flag(crew);
        self.get_space_mut(to).add_crew(crew, amount);
        Ok(())
    }

    /// Spends a piece of `crew` from hand to remove `rogues`, `bullies` and
    /// `goons` from `zone`, returning them to the bag, and counts a sword for
    /// `crew`.
    pub fn battle(&mut self, player: Player, crew: Crew, zone: Zone, rogues: u8, bullies: u8, goons: u8) -> (r: Result<(), Reason>)
        requires
            old(self).bag_tally().total() + old(self).space(zone).total() <= 255,
            player == old(self).mover(),
            !old(self).negotiating(),
        ensures
            r == Board::outcome(old(self).refusal(Action::Battle(crew, zone, rogues, bullies, goons))),
            r is Ok ==> *final(self) == old(self).applied(Action::Battle(crew, zone, rogues, bullies, goons)),
            r is Err ==> *final(self) == *old(self),
    {
        broadcast use group_board_frame;

        let own = match crew {
            Crew::Rogues => rogues,
            Crew::Bullies => bullies,
            Crew::Goons => goons,
        };
        if own > 0 {
            return Err(Reason::CannotRemoveFromAttackingFaction);
        }
        let removal: u16 = rogues as u16 + bullies as u16 + goons as u16;
        if removal == 0 {
            return Err(Reason::MustRemoveWhenAttacking);
        }
        self.get_hand(player).check_crew(crew, 1)?;
        let space = *self.get_space(zone);
        if removal > 255 {
            return Err(Reason::InsufficientPieces);
        }
        space.check_crew(crew, removal as u8)?;
        space.check_crew(Crew::Rogues, rogues)?;
        space.check_crew(Crew::Bullies, bullies)?;
        space.check_crew(Crew::Goons, goons)?;

        self.play_crew(player, crew)?;
        self.add_sword(crew);
        let target = self.get_space_mut(zone);
        target.subtract_crew(Crew::Rogues, rogues)?;
        target.subtract_crew(Crew::Bullies, bullies)?;
        target.subtract_crew(Crew::Goons, goons)?;
        self.return_to_bag(rogues, bullies, goons);
        Ok(())
    }

    /// Opens a negotiation: `player` draws a piece from the bag.
    pub fn start_negotiation(&mut self, player: Player) -> (r: Result<(), Reason>)
        requires
            player == old(self).mover(),
            0 < old(self).bag_tally().total() <= 255,
        ensures
            r is Ok,
            exists|drawn: Crew| #[trigger] old(self).bag_tally().count(drawn) > 0 && *final(self) == old(self).opened(drawn),
    {
        broadcast use group_board_frame;

        let crew = self.draw_piece();
        self.get_hand_mut(player).add_crew(crew, 1);
        self.set_negotiation(true);
        Ok(())
    }

    /// Closes a negotiation: `player` returns a piece of `crew` to the bag.
    pub fn end_negotiation(&mut self, player: Player, crew: Crew) -> (r: Result<(), Reason>)
        requires
            player == old(self).mover(),
            old(self).bag_tally().total() < 255,
        ensures
            r == Board::outcome(old(self).refusal(Action::EndNegotiation(crew))),
            r is Ok ==> *final(self) == old(self).applied(Action::EndNegotiation(crew)),
            r is Err ==> *final(self) == *old(self),
    {
        broadcast use group_board_frame;

        self.play_crew(player, crew)?;
        self.return_piece(crew);
        self.set_negotiation(false);
        self.count_negotiation();
        Ok(())
    }

    /// Number of the first `n` zones, in the board's fixed order, that `crew`
    /// controls.
    pub open spec fn zones_held(self, crew: Crew, n: int) -> int
        decreases n,
    {
        if n <= 0 {
            0
        } else {
            self.zones_held(crew, n - 1) + if self.space(zone_at(n - 1)).control(
                self.swords(),
                self.flags(),
            ) == Some(crew) {
                1int
            } else {
                0int
            }
        }
    }

    /// Number of zones each crew controls.
    pub open spec fn scores(self) -> BoardSpace {
        BoardSpace {
            rogues: self.zones_held(Crew::Rogues, 11) as u8,
            bullies: self.zones_held(Crew::Bullies, 11) as u8,
            goons: self.zones_held(Crew::Goons, 11) as u8,
        }
    }

    /// How many turns from now `player` moves: 0 for the player whose turn it
    /// is. Seats outside the game come after every seat in it.
    pub open spec fn turn_distance(self, player: Player) -> int {
        if player.seat() >= self.players() {
            player.seat()
        } else if player.seat() >= self.mover().seat() {
            player.seat() - self.mover().seat()
        } else {
            player.seat() + self.players() - self.mover().seat()
        }
    }

    /// `p` ranks above `q`: a better hand by `BoardSpace::rank` with the
    /// winning and losing crews given, or an equal hand and an earlier turn.
    pub open spec fn beats(self, p: Player, q: Player, winning_crew: Crew, losing_crew: Option<Crew>) -> bool {
        let o = BoardSpace::rank(self.hand(p), self.hand(q), winning_crew, losing_crew);
        o == Ordering::Greater || (o == Ordering::Equal && self.turn_distance(p) < self.turn_distance(
            q,
        ))
    }

    /// `p` wins the game: the zones give an overall controlling crew, and `p`
    /// ranks above every other seat with it and with the crew that holds the
    /// fewest zones.
    pub open spec fn crowned(self, p: Player) -> bool {
        &&& self.scores().control(self.swords(), self.flags()) matches Some(w)
        &&& forall|q: Player| q != p ==> #[trigger] self.beats(p, q, w, self.scores().laggard())
    }

    /// `w` is how the game on this board ends: a draw when no crew controls
    /// the board overall, else the crowned player.
    pub open spec fn decided(self, w: Winner) -> bool {
        match w {
            Winner::Draw => self.scores().control(self.swords(), self.flags()) is None,
            Winner::Player(p) => self.crowned(p),
        }
    }

    /// `v` is what a successful action reports on this board: the end of the
    /// game once as many negotiations have ended as there are players,
    /// nothing before.
    pub open spec fn reports(self, v: Option<Winner>) -> bool {
        if self.streak() >= self.players() {
            v matches Some(w) && self.decided(w)
        } else {
            v is None
        }
    }

    /// On a board that play can reach, ranking seats is a strict total
    /// order: of two seats one ranks above the other, and ranking above
    /// carries over.
    pub proof fn lemma_beats_order(self, p: Player, q: Player, r: Player, winning_crew: Crew, losing_crew: Option<Crew>)
        requires
            self.wf(),
        ensures
            p != q ==> self.beats(p, q, winning_crew, losing_crew) || self.beats(q, p, winning_crew, losing_crew),
            !(self.beats(p, q, winning_crew, losing_crew) && self.beats(q, p, winning_crew, losing_crew)),
            self.beats(p, q, winning_crew, losing_crew) && self.beats(q, r, winning_crew, losing_crew)
                ==> self.beats(p, r, winning_crew, losing_crew),
    {
    }

    fn turn_distance_of(&self, player: Player) -> (r: u8)
        requires
            self.wf(),
        ensures
            r == self.turn_distance(player),
    {
        broadcast use group_board_frame;

        let seat = player_seat(player);
        let current = player_seat(self.next_player());
        let count = self.num_players();
        if seat >= count {
            seat
        } else if seat >= current {
            seat - current
        } else {
            seat + count - current
        }
    }

    fn outranks(&self, p: Player, q: Player, winning_crew: Crew, losing_crew: Option<Crew>) -> (r: bool)
        requires
            self.wf(),
        ensures
            r == self.beats(p, q, winning_crew, losing_crew),
    {
        broadcast use group_board_frame;

        match BoardSpace::winning_sort(*self.get_hand(p), *self.get_hand(q), winning_crew, losing_crew) {
            Ordering::Greater => true,
            Ordering::Less => false,
            Ordering::Equal => self.turn_distance_of(p) < self.turn_distance_of(q),
        }
    }

    /// The winner, or `None` on a draw: each zone scores for the crew that
    /// controls it, the crew that controls those scores wins the board, and
    /// the seats are ranked by their hands against it.
    pub fn score(&self) -> (r: Option<Player>)
        requires
            self.wf(),
        ensures
            r is None <==> self.scores().control(self.swords(), self.flags()) is None,
            r matches Some(p) ==> self.crowned(p),
    {
        broadcast use group_board_frame;

        let swords = self.get_swords();
        let flags = self.get_flags();
        let mut scores = BoardSpace::empty();
        let mut i: usize = 0;
        while i < 11
            invariant
                i <= 11,
                swords == self.swords(),
                flags == self.flags(),
                forall|c: Crew| #[trigger] scores.count(c) == self.zones_held(c, i as int),
                forall|c: Crew| 0 <= #[trigger] self.zones_held(c, i as int) <= i,
            decreases 11 - i,
        {
            let zone = nth_zone(i);
            let ghost before = scores;
            let ruler = self.get_space(zone).controller(swords, flags);
            if let Some(crew) = ruler {
                scores.add_crew(crew, 1);
            }
            proof {
                assert forall|c: Crew| scores.count(c) == #[trigger] self.zones_held(c, i + 1) && 0
                    <= self.zones_held(c, i + 1) <= i + 1 by {
                    assert(before.count(c) == self.zones_held(c, i as int));
                    assert(self.zones_held(c, i as int) <= i);
                    assert(ruler == self.space(zone_at(i as int)).control(self.swords(), self.flags()));
                    assert(self.zones_held(c, i + 1) == self.zones_held(c, i as int) + if ruler == Some(c) {
                        1int
                    } else {
                        0int
                    });
                    assert(scores.count(c) == before.count(c) + if ruler == Some(c) {
                        1int
                    } else {
                        0int
                    });
                }
            }
            i = i + 1;
        }
        assert(scores.count(Crew::Rogues) == self.zones_held(Crew::Rogues, 11));
        assert(scores.count(Crew::Bullies) == self.zones_held(Crew::Bullies, 11));
        assert(scores.count(Crew::Goons) == self.zones_held(Crew::Goons, 11));
        assert(scores == self.scores());
        let winning_crew = match scores.controller(swords, flags) {
            None => return None,
            Some(crew) => crew,
        };
        let losing_crew = scores.loser();
        let mut best = Player::Alpha;
        let mut j: usize = 1;
        while j < 5
            invariant
                1 <= j <= 5,
                self.wf(),
                best.seat() < j,
                forall|k: int| 0 <= k < j && Player::at(k) != best ==> #[trigger] self.beats(best, Player::at(k), winning_crew, losing_crew),
            decreases 5 - j,
        {
            let challenger = Player::nth(j);
            let ghost previous = best;
            if self.outranks(challenger, best, winning_crew, losing_crew) {
                best = challenger;
            }
            proof {
                assert forall|k: int| 0 <= k < j + 1 && Player::at(k) != best implies #[trigger] self.beats(
                    best,
                    Player::at(k),
                    winning_crew,
                    losing_crew,
                ) by {
                    self.lemma_beats_order(challenger, previous, Player::at(k), winning_crew, losing_crew);
                    self.lemma_beats_order(previous, challenger, Player::at(k), winning_crew, losing_crew);
                    if k < j && Player::at(k) != previous {
                        assert(self.beats(previous, Player::at(k), winning_crew, losing_crew));
                    }
                }
            }
            j = j + 1;
        }
        assert forall|q: Player| q != best implies #[trigger] self.beats(best, q, winning_crew, losing_crew) by {
            assert(Player::at(q.seat()) == q);
        }
        Some(best)
    }

    /// The board as a game for `num_players` starts when the shuffled pool
    /// is `pieces`: the home bases hold two pieces of their crew; the k-th
    /// neutral zone holds pieces 2k and 2k+1; each seat in the game, in turn
    /// order, holds the next eight; the bag holds the rest. No sword or flag
    /// is counted, no negotiation has happened, and the first seat moves.
    pub open spec fn dealt(self, num_players: int, pieces: Seq<Crew>) -> bool {
        &&& self.players() == num_players
        &&& self.mover() == Player::Alpha
        &&& !self.negotiating()
        &&& self.streak() == 0
        &&& self.swords() == BoardSpace::vacant()
        &&& self.flags() == BoardSpace::vacant()
        &&& self.space(Zone::Red) == BoardSpace::vacant().with_count(Crew::Rogues, 2)
        &&& self.space(Zone::Green) == BoardSpace::vacant().with_count(Crew::Goons, 2)
        &&& self.space(Zone::Blue) == BoardSpace::vacant().with_count(Crew::Bullies, 2)
        &&& forall|k: int|
            0 <= k < 8 ==> #[trigger] self.space(zone_at(3 + k)) == BoardSpace::of(
                pieces.subrange(2 * k, 2 * k + 2),
            )
        &&& forall|j: int|
            0 <= j < 5 ==> #[trigger] self.hand(Player::at(j)) == if j < num_players {
                BoardSpace::of(pieces.subrange(16 + 8 * j, 24 + 8 * j))
            } else {
                BoardSpace::vacant()
            }
        &&& self.bag_tally() == BoardSpace::of(pieces.subrange(16 + 8 * num_players, 57))
    }

    /// A board for `num_players` with the home bases seeded and nothing
    /// else placed.
    fn starting(num_players: u8) -> (r: Board)
        ensures
            r.players() == num_players,
            r.mover() == Player::Alpha,
            !r.negotiating(),
            r.streak() == 0,
            r.swords() == BoardSpace::vacant(),
            r.flags() == BoardSpace::vacant(),
            r.space(Zone::Red) == BoardSpace::vacant().with_count(Crew::Rogues, 2),
            r.space(Zone::Green) == BoardSpace::vacant().with_count(Crew::Goons, 2),
            r.space(Zone::Blue) == BoardSpace::vacant().with_count(Crew::Bullies, 2),
            forall|k: int| 0 <= k < 8 ==> #[trigger] r.space(zone_at(3 + k)) == BoardSpace::vacant(),
            forall|p: Player| #[trigger] r.hand(p) == BoardSpace::vacant(),
            r.bag_tally() == BoardSpace::vacant(),
            forall|c: Crew| #[trigger] r.crew_total(c) == 2,
    {
        reveal(Board::space);
        reveal(Board::hand);
        reveal(Board::bag_tally);
        reveal(Board::swords);
        reveal(Board::flags);
        reveal(Board::players);
        reveal(Board::mover);
        reveal(Board::negotiating);
        reveal(Board::streak);
        reveal(Board::crew_total);
        Board {
            bag: Bag::empty(),
            red: BoardSpace::home_base(Crew::Rogues),
            green: BoardSpace::home_base(Crew::Goons),
            blue: BoardSpace::home_base(Crew::Bullies),
            orange: BoardSpace::empty(),
            yellow: BoardSpace::empty(),
            cyan: BoardSpace::empty(),
            magenta: BoardSpace::empty(),
            purple: BoardSpace::empty(),
            white: BoardSpace::empty(),
            black: BoardSpace::empty(),
            gray: BoardSpace::empty(),
            alpha: BoardSpace::empty(),
            beta: BoardSpace::empty(),
            gamma: BoardSpace::empty(),
            delta: BoardSpace::empty(),
            epsilon: BoardSpace::empty(),
            swords: BoardSpace::empty(),
            flags: BoardSpace::empty(),
            num_players,
            next_player: Player::Alpha,
            current_negotiation: false,
            consecutive_negotiations: 0,
        }
    }

    /// Fills the bag with `pieces`.
    fn fill_bag(&mut self, pieces: &[Crew])
        requires
            pieces@.len() <= 255,
        ensures
            *final(self) == old(self).with_bag(BoardSpace::of(pieces@)),
    {
        reveal(Board::with_bag);
        proof {
            BoardSpace::lemma_of_multiset(pieces@);
            BoardSpace::lemma_of_total(pieces@);
            assert forall|c: Crew| #[trigger] pieces@.to_multiset().count(c) <= 255 by {
                assert(BoardSpace::of(pieces@).count(c) == pieces@.to_multiset().count(c));
            }
        }
        self.bag = Bag::from_slice(pieces);
    }

    /// The tally of two pieces.
    proof fn lemma_of_pair(s: Seq<Crew>, i: int)
        requires
            0 <= i,
            i + 2 <= s.len(),
        ensures
            BoardSpace::of(s.subrange(i, i + 2)) == BoardSpace::vacant().added(s[i], 1).added(
                s[i + 1],
                1,
            ),
    {
        let two = s.subrange(i, i + 2);
        let one = s.subrange(i, i + 1);
        assert(two.drop_last() =~= one);
        assert(one.drop_last() =~= Seq::<Crew>::empty());
        assert(BoardSpace::of(Seq::<Crew>::empty()) == BoardSpace::vacant());
        assert(BoardSpace::of(one) == BoardSpace::vacant().added(s[i], 1));
        assert(BoardSpace::of(two) == BoardSpace::of(one).added(s[i + 1], 1));
    }

    /// Deals `pieces` onto a board that holds only its home bases: two to
    /// each neutral zone, eight to each seat in the game, the rest to the bag.
    fn setup(&mut self, pieces: &[Crew])
        requires
            pieces@.len() == 57,
            2 <= old(self).players() <= 5,
            old(self).mover() == Player::Alpha,
            !old(self).negotiating(),
            old(self).streak() == 0,
            old(self).swords() == BoardSpace::vacant(),
            old(self).flags() == BoardSpace::vacant(),
            old(self).space(Zone::Red) == BoardSpace::vacant().with_count(Crew::Rogues, 2),
            old(self).space(Zone::Green) == BoardSpace::vacant().with_count(Crew::Goons, 2),
            old(self).space(Zone::Blue) == BoardSpace::vacant().with_count(Crew::Bullies, 2),
            forall|k: int| 0 <= k < 8 ==> #[trigger] old(self).space(zone_at(3 + k)) == BoardSpace::vacant(),
            forall|p: Player| #[trigger] old(self).hand(p) == BoardSpace::vacant(),
            old(self).bag_tally() == BoardSpace::vacant(),
            forall|c: Crew| #[trigger] old(self).crew_total(c) == 2,
        ensures
            final(self).dealt(old(self).players(), pieces@),
            forall|c: Crew| #[trigger] final(self).crew_total(c) == 2 + BoardSpace::of(pieces@).count(c),
    {
        broadcast use group_board_frame;

        let ghost n = self.players();
        let mut k: usize = 0;
        while k < ZONES_TO_FILL
            invariant
                k <= 8,
                pieces@.len() == 57,
                self.players() == n,
                2 <= n <= 5,
                self.mover() == Player::Alpha,
                !self.negotiating(),
                self.streak() == 0,
                self.swords() == BoardSpace::vacant(),
                self.flags() == BoardSpace::vacant(),
                self.space(Zone::Red) == BoardSpace::vacant().with_count(Crew::Rogues, 2),
                self.space(Zone::Green) == BoardSpace::vacant().with_count(Crew::Goons, 2),
                self.space(Zone::Blue) == BoardSpace::vacant().with_count(Crew::Bullies, 2),
                forall|i: int| 0 <= i < k ==> #[trigger] self.space(zone_at(3 + i)) == BoardSpace::of(
                    pieces@.subrange(2 * i, 2 * i + 2),
                ),
                forall|i: int| k <= i < 8 ==> #[trigger] self.space(zone_at(3 + i)) == BoardSpace::vacant(),
                forall|p: Player| #[trigger] self.hand(p) == BoardSpace::vacant(),
                self.bag_tally() == BoardSpace::vacant(),
                forall|c: Crew| #[trigger] self.crew_total(c) == 2 + BoardSpace::of(pieces@.subrange(0, 2 * k)).count(c),
            decreases 8 - k,
        {
            let zone = nth_zone(3 + k);
            let mut space = BoardSpace::empty();
            space.add_crew(pieces[2 * k], 1);
            space.add_crew(pieces[2 * k + 1], 1);
            proof {
                Board::lemma_of_pair(pieces@, 2 * k as int);
                BoardSpace::lemma_of_split(pieces@, 0, 2 * k as int, 2 * k + 2);
                assert(zone == zone_at(3 + k as int));
            }
            let ghost before = *self;
            *self.get_space_mut(zone) = space;
            proof {
                frame::lemma_with_space(before, zone, space);
                assert forall|c: Crew| #[trigger] self.crew_total(c) == 2 + BoardSpace::of(
                    pieces@.subrange(0, 2 * k + 2),
                ).count(c) by {
                    frame::lemma_total_with_space(before, zone, space, c);
                    assert(before.space(zone) == BoardSpace::vacant());
                }
            }
            k = k + 1;
        }
        let count = self.num_players() as usize;
        let mut j: usize = 0;
        while j < count
            invariant
                j <= count,
                count == n,
                pieces@.len() == 57,
                self.players() == n,
                2 <= n <= 5,
                self.mover() == Player::Alpha,
                !self.negotiating(),
                self.streak() == 0,
                self.swords() == BoardSpace::vacant(),
                self.flags() == BoardSpace::vacant(),
                self.space(Zone::Red) == BoardSpace::vacant().with_count(Crew::Rogues, 2),
                self.space(Zone::Green) == BoardSpace::vacant().with_count(Crew::Goons, 2),
                self.space(Zone::Blue) == BoardSpace::vacant().with_count(Crew::Bullies, 2),
                forall|i: int| 0 <= i < 8 ==> #[trigger] self.space(zone_at(3 + i)) == BoardSpace::of(
                    pieces@.subrange(2 * i, 2 * i + 2),
                ),
                forall|i: int| 0 <= i < j ==> #[trigger] self.hand(Player::at(i)) == BoardSpace::of(
                    pieces@.subrange(16 + 8 * i, 24 + 8 * i),
                ),
                forall|i: int| j <= i < 5 ==> #[trigger] self.hand(Player::at(i)) == BoardSpace::vacant(),
                self.bag_tally() == BoardSpace::vacant(),
                forall|c: Crew| #[trigger] self.crew_total(c) == 2 + BoardSpace::of(pieces@.subrange(0, 16 + 8 * j)).count(c),
            decreases count - j,
        {
            let start = 16 + 8 * j;
            let mut hand = BoardSpace::empty();
            let mut i: usize = 0;
            while i < 8
                invariant
                    i <= 8,
                    start == 16 + 8 * j,
                    j < 5,
                    pieces@.len() == 57,
                    hand == BoardSpace::of(pieces@.subrange(start as int, start + i)),
                decreases 8 - i,
            {
                proof {
                    assert(pieces@.subrange(start as int, start + i + 1).drop_last() =~= pieces@.subrange(start as int, start + i));
                    BoardSpace::lemma_of_total(pieces@.subrange(start as int, start + i));
                }
                hand.add_crew(pieces[start + i], 1);
                i = i + 1;
            }
            proof {
                BoardSpace::lemma_of_split(pieces@, 0, start as int, start + 8);
            }
            let player = Player::nth(j);
            let ghost before = *self;
            *self.get_hand_mut(player) = hand;
            proof {
                frame::lemma_with_hand(before, player, hand);
                assert forall|c: Crew| #[trigger] self.crew_total(c) == 2 + BoardSpace::of(
                    pieces@.subrange(0, start + 8),
                ).count(c) by {
                    frame::lemma_total_with_hand(before, player, hand, c);
                    assert(before.hand(player) == BoardSpace::vacant());
                }
            }
            j = j + 1;
        }
        let rest = vstd::slice::slice_subrange(pieces, 16 + 8 * count, 57);
        proof {
            BoardSpace::lemma_of_split(pieces@, 0, 16 + 8 * count, 57);
            assert(pieces@.subrange(0, 57) =~= pieces@);
        }
        self.fill_bag(rest);
    }

    /// A new game for `num_players` dealt from `pieces`, the pool in the
    /// order it was shuffled into. Fails unless there are two to five
    /// players.
    pub fn build_with(num_players: u8, pieces: &[Crew]) -> (r: Result<Board, Reason>)
        requires
            pieces@.len() == 57,
        ensures
            r is Ok <==> 2 <= num_players <= 5,
            r is Err ==> r == Err::<Board, Reason>(Reason::BadPlayerCount),
            r matches Ok(b) ==> b.dealt(num_players as int, pieces@) && b.wf() && forall|c: Crew|
                #[trigger] b.crew_total(c) == 2 + BoardSpace::of(pieces@).count(c),
    {
        broadcast use group_board_frame;

        if num_players < 2 || num_players > 5 {
            return Err(Reason::BadPlayerCount);
        }
        let mut board = Board::starting(num_players);
        board.setup(pieces);
        proof {
            BoardSpace::lemma_of_total(pieces@);
            BoardSpace::lemma_of_total(pieces@.subrange(16 + 8 * num_players, 57));
            assert forall|p: Player| p.seat() >= board.players() implies #[trigger] board.hand(p) == BoardSpace::vacant() by {
                assert(Player::at(p.seat()) == p);
            }
        }
        Ok(board)
    }

    /// A new game for `num_players`, dealt from the starting pool shuffled
    /// at random. Fails unless there are two to five players.
    pub fn build(num_players: u8) -> (r: Result<Board, Reason>)
        ensures
            r is Ok <==> 2 <= num_players <= 5,
            r is Err ==> r == Err::<Board, Reason>(Reason::BadPlayerCount),
            r matches Ok(b) ==> {
                &&& b.wf()
                &&& b.pieces() == 63
                &&& b.accounted() == 63
                &&& forall|c: Crew| #[trigger] b.crew_total(c) == 21
                &&& exists|pieces: Seq<Crew>| pieces.len() == 57 && #[trigger] b.dealt(num_players as int, pieces)
            },
    {
        if num_players < 2 || num_players > 5 {
            return Err(Reason::BadPlayerCount);
        }
        let mut pool = default_bag();
        let ghost before = pool@;
        shuffle_pieces(&mut pool);
        proof {
            BoardSpace::lemma_of_multiset(before);
            BoardSpace::lemma_of_multiset(pool@);
        }
        let r = Board::build_with(num_players, pool.as_slice());
        proof {
            assert forall|c: Crew| #[trigger] BoardSpace::of(pool@).count(c) == 19 by {
                assert(BoardSpace::of(pool@).count(c) == pool@.to_multiset().count(c));
                assert(BoardSpace::of(before).count(c) == before.to_multiset().count(c));
            }
            if let Ok(b) = r {
                assert(b.crew_total(Crew::Rogues) == 21);
                assert(b.crew_total(Crew::Bullies) == 21);
                assert(b.crew_total(Crew::Goons) == 21);
            }
        }
        r
    }

    /// Play keeps a board one that play can reach, and pieces are neither
    /// made nor lost: after any action, refused or not, the zones, hands and
    /// bag hold as many pieces as before, but for the piece from hand that a
    /// successful march or battle spends, and that piece is counted as a flag
    /// or a sword. So every board that play reaches accounts for the 63
    /// pieces a game starts with.
    pub proof fn lemma_pieces_conserved(board: Board, action: Action, drawn: Crew)
        requires
            board.wf(),
            board.refusal(action) is None && action is StartNegotiation ==> board.bag_tally().count(
                drawn,
            ) > 0,
        ensures
            board.successor(action, drawn).wf(),
            board.successor(action, drawn).accounted() == board.accounted(),
            board.successor(action, drawn).pieces() == board.pieces() - if board.refusal(action) is None
                && (action is March || action is Battle) {
                1int
            } else {
                0int
            },
    {
        match board.refusal(action) {
            Some(_) => Board::lemma_refused_kept(board, action),
            None => match action {
                Action::Recruit(..) => Board::lemma_recruit_kept(board, action),
                Action::March(..) => Board::lemma_march_kept(board, action),
                Action::Battle(..) => Board::lemma_battle_kept(board, action),
                Action::StartNegotiation => Board::lemma_opening_kept(board, drawn),
                Action::EndNegotiation(..) => Board::lemma_closing_kept(board, action),
            },
        }
    }

    proof fn lemma_turned_kept(board: Board)
        requires
            board.wf(),
        ensures
            board.turned().wf(),
            board.turned().pieces() == board.pieces(),
            board.turned().accounted() == board.accounted(),
            board.turned().bag_tally() == board.bag_tally(),
            board.turned().negotiating() == board.negotiating(),
    {
        broadcast use group_board_frame;

    }

    proof fn lemma_refused_kept(board: Board, action: Action)
        requires
            board.wf(),
            board.refusal(action) is Some,
        ensures
            board.successor(action, Crew::Rogues).wf(),
            board.successor(action, Crew::Rogues).pieces() == board.pieces(),
            board.successor(action, Crew::Rogues).accounted() == board.accounted(),
    {
        Board::lemma_turned_kept(board);
    }

    proof fn lemma_recruit_kept(board: Board, action: Action)
        requires
            board.wf(),
            board.refusal(action) is None,
            action is Recruit,
        ensures
            board.applied(action).turned().wf(),
            board.applied(action).turned().pieces() == board.pieces(),
            board.applied(action).turned().accounted() == board.accounted(),
    {
        broadcast use group_board_frame;

        let next = board.applied(action);
        assert(next.pieces() == board.pieces());
        assert(next.wf());
        Board::lemma_turned_kept(next);
    }

    proof fn lemma_march_kept(board: Board, action: Action)
        requires
            board.wf(),
            board.refusal(action) is None,
            action is March,
        ensures
            board.applied(action).turned().wf(),
            board.applied(action).turned().pieces() == board.pieces() - 1,
            board.applied(action).turned().accounted() == board.accounted(),
    {
        broadcast use group_board_frame;

        let next = board.applied(action);
        assert(next.pieces() == board.pieces() - 1);
        assert(next.wf());
        Board::lemma_turned_kept(next);
    }

    proof fn lemma_battle_kept(board: Board, action: Action)
        requires
            board.wf(),
            board.refusal(action) is None,
            action is Battle,
        ensures
            board.applied(action).turned().wf(),
            board.applied(action).turned().pieces() == board.pieces() - 1,
            board.applied(action).turned().accounted() == board.accounted(),
    {
        broadcast use group_board_frame;

        let next = board.applied(action);
        assert(next.pieces() == board.pieces() - 1);
        assert(next.wf());
        Board::lemma_turned_kept(next);
    }

    proof fn lemma_opening_kept(board: Board, drawn: Crew)
        requires
            board.wf(),
            !board.negotiating(),
            board.bag_tally().count(drawn) > 0,
        ensures
            board.opened(drawn).wf(),
            board.opened(drawn).pieces() == board.pieces(),
            board.opened(drawn).accounted() == board.accounted(),
    {
        broadcast use group_board_frame;

    }

    proof fn lemma_closing_kept(board: Board, action: Action)
        requires
            board.wf(),
            board.refusal(action) is None,
            action is EndNegotiation,
        ensures
            board.applied(action).turned().wf(),
            board.applied(action).turned().pieces() == board.pieces(),
            board.applied(action).turned().accounted() == board.accounted(),
    {
        broadcast use group_board_frame;

        let next = board.applied(action);
        assert(next.pieces() == board.pieces());
        assert(next.wf());
        Board::lemma_turned_kept(next);
    }

    /// The action takes more pieces than the hand or a zone holds: a march
    /// or battle, past the checks that come first, with no piece of its crew
    /// in hand or too few pieces where it takes them.
    pub open spec fn overdraws(self, action: Action) -> bool {
        let hand = self.hand(self.mover());
        match action {
            Action::March(crew, from, to, amount) => adjacent(from, to) && (hand.count(crew) < 1
                || self.space(from).count(crew) < amount),
            Action::Battle(crew, zone, rogues, bullies, goons) => {
                &&& (BoardSpace { rogues, bullies, goons }).count(crew) == 0
                &&& rogues + bullies + goons > 0
                &&& (hand.count(crew) < 1 || self.space(zone).rogues < rogues || self.space(zone).bullies
                    < bullies || self.space(zone).goons < goons)
            },
            _ => false,
        }
    }

    /// No counter goes below zero: a march or battle that would take more
    /// pieces than are there is refused as short of pieces, and leaves the
    /// board as it was but for the turn.
    pub proof fn lemma_no_overdraw(board: Board, action: Action, drawn: Crew)
        requires
            board.wf(),
            !board.negotiating(),
            board.overdraws(action),
        ensures
            board.refusal(action) == Some(Reason::InsufficientPieces),
            board.successor(action, drawn) == board.turned(),
    {
    }

    /// Black and Green do not touch: a march between them is refused,
    /// whatever pieces the board holds, and leaves the board as it was but
    /// for the turn.
    pub proof fn lemma_no_march_black_to_green(board: Board, crew: Crew, amount: u8, drawn: Crew)
        requires
            !board.negotiating(),
        ensures
            !adjacent(Zone::Black, Zone::Green),
            board.refusal(Action::March(crew, Zone::Black, Zone::Green, amount)) == Some(
                Reason::CannotMarchFromTo,
            ),
            board.successor(Action::March(crew, Zone::Black, Zone::Green, amount), drawn)
                == board.turned(),
    {
    }

    /// A battle that would remove pieces of the attacking crew itself is
    /// refused, whatever the zone holds.
    pub proof fn lemma_no_self_removal(board: Board, crew: Crew, zone: Zone, rogues: u8, bullies: u8, goons: u8, drawn: Crew)
        requires
            !board.negotiating(),
            (BoardSpace { rogues, bullies, goons }).count(crew) > 0,
        ensures
            board.refusal(Action::Battle(crew, zone, rogues, bullies, goons)) == Some(
                Reason::CannotRemoveFromAttackingFaction,
            ),
            board.successor(Action::Battle(crew, zone, rogues, bullies, goons), drawn)
                == board.turned(),
    {
    }

    /// A battle that removes nothing is refused.
    pub proof fn lemma_no_empty_battle(board: Board, crew: Crew, zone: Zone, drawn: Crew)
        requires
            !board.negotiating(),
        ensures
            board.refusal(Action::Battle(crew, zone, 0, 0, 0)) == Some(
                Reason::MustRemoveWhenAttacking,
            ),
            board.successor(Action::Battle(crew, zone, 0, 0, 0), drawn) == board.turned(),
    {
    }

    /// Once a negotiation opens, every action but ending it is refused and
    /// changes nothing, the drawn piece staying in hand.
    pub proof fn lemma_negotiation_gates(board: Board, drawn: Crew, action: Action, next_drawn: Crew)
        requires
            board.wf(),
            board.refusal(Action::StartNegotiation) is None,
            board.bag_tally().count(drawn) > 0,
            !(action is EndNegotiation),
        ensures
            board.successor(Action::StartNegotiation, drawn).refusal(action) == Some(
                Reason::NegotiationInProgress,
            ),
            board.successor(Action::StartNegotiation, drawn).successor(action, next_drawn)
                == board.successor(Action::StartNegotiation, drawn),
            board.successor(Action::StartNegotiation, drawn).hand(board.mover()) == board.hand(
                board.mover(),
            ).added(drawn, 1),
    {
        broadcast use group_board_frame;

    }

    /// On a board that play can reach, neither the bag nor a zone holds more
    /// than the pieces a game starts with.
    proof fn lemma_room(board: Board)
        requires
            board.wf(),
        ensures
            board.bag_tally().total() <= 63,
            forall|z: Zone| #[trigger] board.space(z).total() <= 63,
    {
        broadcast use group_board_frame;

        assert(board.bag_tally().count(Crew::Rogues) <= board.crew_total(Crew::Rogues));
        assert(board.bag_tally().count(Crew::Bullies) <= board.crew_total(Crew::Bullies));
        assert(board.bag_tally().count(Crew::Goons) <= board.crew_total(Crew::Goons));
        assert forall|z: Zone| #[trigger] board.space(z).total() <= 63 by {
            assert(board.space(z).count(Crew::Rogues) <= board.crew_total(Crew::Rogues));
            assert(board.space(z).count(Crew::Bullies) <= board.crew_total(Crew::Bullies));
            assert(board.space(z).count(Crew::Goons) <= board.crew_total(Crew::Goons));
        }
    }

    /// Carries out an action that no open negotiation blocks, for the player
    /// whose turn it is.
    #[verifier::rlimit(30)]
    fn perform(&mut self, action: Action) -> (r: Result<(), Reason>)
        requires
            old(self).wf(),
            !old(self).negotiating() || action is EndNegotiation,
        ensures
            old(self).refusal(action) matches Some(reason) ==> r == Err::<(), Reason>(reason),
            old(self).refusal(action) is None ==> r is Ok,
            r is Err ==> *final(self) == *old(self),
            r is Ok && !(action is StartNegotiation) ==> *final(self) == old(self).applied(action),
            action is StartNegotiation ==> exists|drawn: Crew| #[trigger] old(self).bag_tally().count(drawn) > 0
                && *final(self) == old(self).opened(drawn),
    {
        proof {
            Board::lemma_room(*self);
        }
        let player = self.next_player();
        match action {
            Action::EndNegotiation(crew) => {
                self.end_negotiation(player, crew)
            },
            Action::Battle(crew, zone, rogues, bullies, goons) => self.battle(
                player,
                crew,
                zone,
                rogues,
                bullies,
                goons,
            ),
            Action::March(crew, from, to, amount) => self.march(player, crew, from, to, amount),
            Action::StartNegotiation => self.start_negotiation(player),
            Action::Recruit(crew, zone) => self.recruit(player, crew, zone),
        }
    }

    /// Carries out `action` for the player whose turn it is, and reports the
    /// winner once the game is over. A refused action leaves the board as it
    /// was, but that the turn passes unless a negotiation is open.
    pub fn process_action(self, action: Action) -> (r: TurnResult)
        requires
            self.wf(),
        ensures
            r.0.wf(),
            exists|drawn: Crew| #[trigger] self.successor(action, drawn) == r.0 && (self.refusal(action) is None
                && action is StartNegotiation ==> self.bag_tally().count(drawn) > 0),
            self.refusal(action) matches Some(reason) ==> r.1 == Err::<Option<Winner>, Error>(
                Error { action, reason },
            ),
            self.refusal(action) is None ==> (r.1 matches Ok(v) && r.0.reports(v)),
    {
        if self.in_negotiation() && !matches!(action, Action::EndNegotiation(_)) {
            proof {
                Board::lemma_pieces_conserved(self, action, Crew::Rogues);
            }
            return TurnResult(self, Err(Error { action, reason: Reason::NegotiationInProgress }));
        }
        let mut next = self;
        let res = next.perform(action);
        let ghost performed = next;
        assert(next.players() == self.players()) by {
            broadcast use group_board_frame;

        }
        if !matches!(action, Action::StartNegotiation) {
            next.advance_turn();
        }
        proof {
            let drawn = if action is StartNegotiation {
                choose|c: Crew| #[trigger] self.bag_tally().count(c) > 0 && performed == self.opened(c)
            } else {
                Crew::Rogues
            };
            assert(self.successor(action, drawn) == next);
            Board::lemma_pieces_conserved(self, action, drawn);
        }
        match res {
            Err(reason) => TurnResult(next, Err(Error { action, reason })),
            Ok(()) => {
                let verdict = if next.consecutive_negotiations() >= next.num_players() {
                    Some(
                        match next.score() {
                            None => Winner::Draw,
                            Some(p) => Winner::Player(p),
                        },
                    )
                } else {
                    None
                };
                TurnResult(next, Ok(verdict))
            },
        }
    }
}

/// Position of a seat in turn order, from 0.
fn player_seat(player: Player) -> (r: u8)
    ensures
        r == player.seat(),
{
    match player {
        Player::Alpha => 0,
        Player::Beta => 1,
        Player::Gamma => 2,
        Player::Delta => 3,
        Player::Epsilon => 4,
    }
}

} // verus!
