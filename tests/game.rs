use tergiversators::constants::{default_bag, is_adjacent};
use tergiversators::{
    start_game, take_turn, Action, Bag, Board, BoardSpace, Crew, Error, Player, Reason,
    TurnResult, Winner, Zone,
};

const ZONES: [Zone; 11] = [
    Zone::Red,
    Zone::Green,
    Zone::Blue,
    Zone::Orange,
    Zone::Yellow,
    Zone::Cyan,
    Zone::Magenta,
    Zone::Purple,
    Zone::White,
    Zone::Black,
    Zone::Gray,
];

const PLAYERS: [Player; 5] = [
    Player::Alpha,
    Player::Beta,
    Player::Gamma,
    Player::Delta,
    Player::Epsilon,
];

const CREWS: [Crew; 3] = [Crew::Rogues, Crew::Bullies, Crew::Goons];

fn crew_total(board: &Board, crew: Crew) -> u32 {
    let mut total = u32::from(board.get_bag().get_crew(crew));
    for zone in ZONES {
        total += u32::from(board.get_space(zone).get_crew(crew));
    }
    for player in PLAYERS {
        total += u32::from(board.get_hand(player).get_crew(crew));
    }
    total
}

fn pieces(board: &Board) -> u32 {
    CREWS.iter().map(|&c| crew_total(board, c)).sum()
}

fn space_total(space: BoardSpace) -> u32 {
    u32::from(space.rogues) + u32::from(space.bullies) + u32::from(space.goons)
}

/// Two players dealt from the pool in its starting order: every neutral
/// zone holds two bullies, the first seat three bullies and five goons, the
/// second eight goons.
fn ordered_game() -> Board {
    let pool = default_bag();
    Board::build_with(2, pool.as_slice()).unwrap()
}

fn turn(board: Board, action: Action) -> (Board, Result<Option<Winner>, Error>) {
    let TurnResult(next, res) = take_turn(board, action);
    (next, res)
}

#[test]
fn start_game_rejects_bad_player_counts() {
    assert_eq!(start_game(0).err(), Some(Reason::BadPlayerCount));
    assert_eq!(start_game(1).err(), Some(Reason::BadPlayerCount));
    assert_eq!(start_game(6).err(), Some(Reason::BadPlayerCount));
    assert_eq!(Error::BAD_PLAYER_COUNT, Reason::BadPlayerCount);
    for n in 2..=5 {
        assert!(start_game(n).is_ok());
    }
}

#[test]
fn start_game_deals_every_piece() {
    for n in 2..=5u8 {
        let board = start_game(n).unwrap();
        assert_eq!(pieces(&board), 63);
        for crew in CREWS {
            assert_eq!(crew_total(&board, crew), 21);
        }
        assert_eq!(board.get_space(Zone::Red).get_crew(Crew::Rogues), 2);
        assert_eq!(board.get_space(Zone::Green).get_crew(Crew::Goons), 2);
        assert_eq!(board.get_space(Zone::Blue).get_crew(Crew::Bullies), 2);
        for zone in &ZONES[3..] {
            assert_eq!(space_total(*board.get_space(*zone)), 2);
        }
        for (seat, player) in PLAYERS.iter().enumerate() {
            let expected = if seat < usize::from(n) { 8 } else { 0 };
            assert_eq!(space_total(*board.get_hand(*player)), expected);
        }
        let bag = board.get_bag();
        let in_bag = u32::from(bag.get_crew(Crew::Rogues)) + u32::from(bag.get_crew(Crew::Bullies)) + u32::from(bag.get_crew(Crew::Goons));
        assert_eq!(in_bag, 41 - 8 * u32::from(n));
        assert_eq!(board.next_player(), Player::Alpha);
        assert!(!board.in_negotiation());
        assert_eq!(board.num_players(), n);
    }
}

#[test]
fn start_game_shuffles_the_pool() {
    let mut all_in_order = true;
    for _ in 0..20 {
        let board = start_game(2).unwrap();
        if *board.get_space(Zone::Orange) != (BoardSpace { bullies: 2, ..BoardSpace::empty() }) {
            all_in_order = false;
        }
    }
    assert!(!all_in_order);
}

#[test]
fn build_with_deals_in_order() {
    let board = ordered_game();
    for zone in &ZONES[3..] {
        assert_eq!(*board.get_space(*zone), BoardSpace { bullies: 2, ..BoardSpace::empty() });
    }
    assert_eq!(
        *board.get_hand(Player::Alpha),
        BoardSpace { rogues: 0, bullies: 3, goons: 5 }
    );
    assert_eq!(*board.get_hand(Player::Beta), BoardSpace { goons: 8, ..BoardSpace::empty() });
    assert_eq!(*board.get_hand(Player::Gamma), BoardSpace::empty());
    assert_eq!(board.get_bag().get_crew(Crew::Goons), 6);
    assert_eq!(board.get_bag().get_crew(Crew::Rogues), 19);
    assert_eq!(board.get_bag().get_crew(Crew::Bullies), 0);
}

#[test]
fn recruit_moves_a_piece_from_hand_to_zone() {
    let board = start_game(2).unwrap();
    let crew = CREWS
        .iter()
        .copied()
        .find(|&c| board.get_current_hand().get_crew(c) > 0)
        .unwrap();
    let hand_before = board.get_hand(Player::Alpha).get_crew(crew);
    let zone_before = board.get_space(Zone::Cyan).get_crew(crew);
    let (next, res) = turn(board, Action::Recruit(crew, Zone::Cyan));
    assert_eq!(res, Ok(None));
    assert_eq!(next.get_hand(Player::Alpha).get_crew(crew), hand_before - 1);
    assert_eq!(next.get_space(Zone::Cyan).get_crew(crew), zone_before + 1);
    assert_eq!(next.next_player(), Player::Beta);
    assert_eq!(pieces(&next), 63);
}

#[test]
fn turns_cycle_through_the_seats_in_play() {
    for n in 2..=5u8 {
        let mut board = start_game(n).unwrap();
        let mut seen = Vec::new();
        for _ in 0..n {
            seen.push(board.next_player());
            let (next, _) = turn(board, Action::Battle(Crew::Rogues, Zone::Red, 0, 0, 0));
            board = next;
        }
        assert_eq!(board.next_player(), Player::Alpha);
        assert_eq!(seen, PLAYERS[..usize::from(n)].to_vec());
    }
}

#[test]
fn march_battle_and_pieces_spent() {
    let board = ordered_game();
    let (board, res) = turn(board, Action::March(Crew::Bullies, Zone::Blue, Zone::Purple, 2));
    assert_eq!(res, Ok(None));
    assert_eq!(*board.get_space(Zone::Blue), BoardSpace::empty());
    assert_eq!(board.get_space(Zone::Purple).get_crew(Crew::Bullies), 4);
    assert_eq!(board.get_hand(Player::Alpha).get_crew(Crew::Bullies), 2);
    assert_eq!(board.get_flags(), BoardSpace { bullies: 1, ..BoardSpace::empty() });
    assert_eq!(pieces(&board), 62);

    let (board, res) = turn(board, Action::Recruit(Crew::Goons, Zone::Purple));
    assert_eq!(res, Ok(None));
    let (board, res) = turn(board, Action::Recruit(Crew::Goons, Zone::Cyan));
    assert_eq!(res, Ok(None));
    assert_eq!(pieces(&board), 62);

    let (board, res) = turn(board, Action::Battle(Crew::Goons, Zone::Purple, 0, 1, 0));
    assert_eq!(res, Ok(None));
    assert_eq!(
        *board.get_space(Zone::Purple),
        BoardSpace { rogues: 0, bullies: 3, goons: 1 }
    );
    assert_eq!(board.get_bag().get_crew(Crew::Bullies), 1);
    assert_eq!(board.get_swords(), BoardSpace { goons: 1, ..BoardSpace::empty() });
    assert_eq!(board.get_hand(Player::Beta).get_crew(Crew::Goons), 6);
    assert_eq!(pieces(&board), 61);
}

#[test]
fn march_between_zones_that_do_not_touch_is_refused() {
    let board = ordered_game();
    let action = Action::March(Crew::Bullies, Zone::Black, Zone::Green, 1);
    let (next, res) = turn(board, action);
    assert_eq!(res, Err(Error { action, reason: Reason::CannotMarchFromTo }));
    assert_eq!(Error::CANNOT_MARCH_FROM_TO, Reason::CannotMarchFromTo);
    assert_eq!(*next.get_space(Zone::Black), *board.get_space(Zone::Black));
    assert_eq!(*next.get_hand(Player::Alpha), *board.get_hand(Player::Alpha));
    assert_eq!(next.next_player(), Player::Beta);
    assert!(!is_adjacent(Zone::Black, Zone::Green));
    assert!(is_adjacent(Zone::Green, Zone::Cyan));
}

#[test]
fn battle_removing_own_crew_is_refused() {
    let board = ordered_game();
    let action = Action::Battle(Crew::Rogues, Zone::Red, 1, 0, 0);
    let (next, res) = turn(board, action);
    assert_eq!(
        res,
        Err(Error { action, reason: Reason::CannotRemoveFromAttackingFaction })
    );
    assert_eq!(
        Error::CANNOT_REMOVE_FROM_ATTACKING_FACTION,
        Reason::CannotRemoveFromAttackingFaction
    );
    assert_eq!(*next.get_space(Zone::Red), *board.get_space(Zone::Red));
}

#[test]
fn battle_removing_nothing_is_refused() {
    let board = ordered_game();
    let action = Action::Battle(Crew::Rogues, Zone::Red, 0, 0, 0);
    let (_, res) = turn(board, action);
    assert_eq!(res, Err(Error { action, reason: Reason::MustRemoveWhenAttacking }));
    assert_eq!(Error::MUST_REMOVE_WHEN_ATTACKING, Reason::MustRemoveWhenAttacking);
}

#[test]
fn overdraws_are_refused_and_change_nothing_but_the_turn() {
    let board = ordered_game();
    let action = Action::March(Crew::Bullies, Zone::Blue, Zone::Purple, 3);
    let (next, res) = turn(board, action);
    assert_eq!(res, Err(Error { action, reason: Reason::InsufficientPieces }));
    assert_eq!(*next.get_space(Zone::Blue), *board.get_space(Zone::Blue));
    assert_eq!(*next.get_hand(Player::Alpha), *board.get_hand(Player::Alpha));
    assert_eq!(next.get_flags(), BoardSpace::empty());
    assert_eq!(next.next_player(), Player::Beta);

    let action = Action::Recruit(Crew::Rogues, Zone::Red);
    let (after, res) = turn(next, action);
    assert_eq!(res, Err(Error { action, reason: Reason::InsufficientPieces }));
    assert_eq!(*after.get_hand(Player::Beta), *next.get_hand(Player::Beta));

    let action = Action::Battle(Crew::Bullies, Zone::Orange, 0, 0, 1);
    let (after2, res) = turn(after, action);
    assert_eq!(res, Err(Error { action, reason: Reason::InsufficientPieces }));
    assert_eq!(*after2.get_space(Zone::Orange), *after.get_space(Zone::Orange));
    assert_eq!(after2.get_swords(), BoardSpace::empty());
}

#[test]
fn negotiation_blocks_other_actions() {
    let board = ordered_game();
    let (open, res) = turn(board, Action::StartNegotiation);
    assert_eq!(res, Ok(None));
    assert!(open.in_negotiation());
    assert_eq!(open.next_player(), Player::Alpha);
    assert_eq!(space_total(open.get_current_hand()), 9);
    assert_eq!(pieces(&open), 63);

    let action = Action::Recruit(Crew::Goons, Zone::Cyan);
    let (blocked, res) = turn(open, action);
    assert_eq!(res, Err(Error { action, reason: Reason::NegotiationInProgress }));
    assert_eq!(Error::NEGOTIATION_IN_PROGRESS, Reason::NegotiationInProgress);
    assert_eq!(*blocked.get_hand(Player::Alpha), *open.get_hand(Player::Alpha));
    assert_eq!(blocked.get_bag(), open.get_bag());
    assert_eq!(blocked.next_player(), Player::Alpha);
    assert!(blocked.in_negotiation());

    let (closed, res) = turn(blocked, Action::EndNegotiation(Crew::Goons));
    assert_eq!(res, Ok(None));
    assert!(!closed.in_negotiation());
    assert_eq!(closed.consecutive_negotiations(), 1);
    assert_eq!(closed.next_player(), Player::Beta);
    assert_eq!(space_total(*closed.get_hand(Player::Alpha)), 8);
    assert_eq!(pieces(&closed), 63);
}

#[test]
fn game_ends_after_a_negotiation_per_player() {
    let board = ordered_game();
    let (board, res) = turn(board, Action::EndNegotiation(Crew::Goons));
    assert_eq!(res, Ok(None));
    let (board, res) = turn(board, Action::EndNegotiation(Crew::Goons));
    assert_eq!(res, Ok(Some(Winner::Player(Player::Alpha))));
    assert_eq!(board.score(), Some(Player::Alpha));
}

#[test]
fn bag_draws_by_position() {
    let mut bag = Bag::from_slice(&[Crew::Rogues, Crew::Goons, Crew::Bullies, Crew::Bullies]);
    assert_eq!(bag.draw_at(0), Crew::Rogues);
    assert_eq!(bag.draw_at(0), Crew::Goons);
    assert_eq!(bag.draw_at(1), Crew::Bullies);
    assert_eq!(bag.get_crew(Crew::Bullies), 1);
    assert_eq!(bag.get_crew(Crew::Rogues), 0);
    bag.replace(Crew::Rogues);
    assert_eq!(bag.get_crew(Crew::Rogues), 1);
}

#[test]
fn bag_draw_stays_within_the_bag() {
    for _ in 0..50 {
        let mut bag = Bag::from_slice(&[Crew::Rogues, Crew::Rogues, Crew::Rogues]);
        assert_eq!(bag.draw(), Crew::Rogues);
        assert_eq!(bag.get_crew(Crew::Rogues), 2);
    }
    let mut bag = Bag::from_slice(&[Crew::Goons, Crew::Bullies, Crew::Rogues, Crew::Goons]);
    let mut drawn = Vec::new();
    for _ in 0..4 {
        drawn.push(bag.draw());
    }
    assert_eq!(drawn.iter().filter(|&&c| c == Crew::Goons).count(), 2);
    assert_eq!(drawn.iter().filter(|&&c| c == Crew::Bullies).count(), 1);
    assert_eq!(drawn.iter().filter(|&&c| c == Crew::Rogues).count(), 1);
}

#[test]
fn control_on_a_known_board() {
    let space = BoardSpace { rogues: 2, bullies: 1, goons: 1 };
    assert_eq!(
        space.controller(BoardSpace::empty(), BoardSpace::empty()),
        Some(Crew::Rogues)
    );
    let level = BoardSpace { rogues: 1, bullies: 1, goons: 1 };
    assert_eq!(level.controller(BoardSpace::empty(), BoardSpace::empty()), None);
    assert_eq!(BoardSpace::empty().controller(BoardSpace::empty(), BoardSpace::empty()), None);
    let swords = BoardSpace { rogues: 3, bullies: 3, goons: 0 };
    let flags = BoardSpace { rogues: 0, bullies: 0, goons: 5 };
    assert_eq!(level.controller(swords, flags), Some(Crew::Goons));
    assert_eq!(level.controlling_crew(swords, flags), Some(Crew::Goons));
}

#[test]
fn loser_is_the_strict_minimum() {
    assert_eq!(BoardSpace { rogues: 1, bullies: 2, goons: 3 }.loser(), Some(Crew::Rogues));
    assert_eq!(BoardSpace { rogues: 4, bullies: 2, goons: 3 }.loser(), Some(Crew::Bullies));
    assert_eq!(BoardSpace { rogues: 2, bullies: 2, goons: 3 }.loser(), None);
    assert_eq!(BoardSpace { rogues: 1, bullies: 1, goons: 1 }.loser(), None);
}

#[test]
fn sorted_crews_most_first() {
    let space = BoardSpace { rogues: 1, bullies: 5, goons: 3 };
    assert_eq!(space.get_sorted_crews(), [Crew::Bullies, Crew::Goons, Crew::Rogues]);
    assert_eq!(BoardSpace::home_base(Crew::Goons), BoardSpace { goons: 2, ..BoardSpace::empty() });
}

#[test]
fn add_crew_stops_at_the_top() {
    let mut space = BoardSpace { rogues: 250, bullies: 0, goons: 0 };
    space.add_crew(Crew::Rogues, 10);
    assert_eq!(space.rogues, 255);
}

#[test]
fn empty_zone_has_no_controller() {
    let swords = BoardSpace { rogues: 1, bullies: 0, goons: 0 };
    let flags = BoardSpace { rogues: 0, bullies: 0, goons: 2 };
    assert_eq!(BoardSpace::empty().controller(swords, flags), None);
    assert_eq!(BoardSpace::empty().controlling_crew(swords, flags), None);
}

#[test]
fn bag_holds_up_to_255_of_each_crew() {
    let mut pieces = Vec::new();
    for _ in 0..100 {
        pieces.push(Crew::Rogues);
        pieces.push(Crew::Goons);
        pieces.push(Crew::Bullies);
    }
    let bag = Bag::from_slice(&pieces);
    assert_eq!(bag.get_crew(Crew::Rogues), 100);
    assert_eq!(bag.get_crew(Crew::Goons), 100);
    assert_eq!(bag.get_crew(Crew::Bullies), 100);
}

#[test]
fn spent_pieces_are_counted_as_flags_and_swords() {
    let board = ordered_game();
    let tallies = |b: &Board| space_total(b.get_swords()) + space_total(b.get_flags());
    let (board, _) = turn(board, Action::March(Crew::Bullies, Zone::Blue, Zone::Purple, 2));
    assert_eq!(pieces(&board) + tallies(&board), 63);
    let (board, _) = turn(board, Action::Recruit(Crew::Goons, Zone::Purple));
    let (board, _) = turn(board, Action::Recruit(Crew::Goons, Zone::Cyan));
    let (board, _) = turn(board, Action::Battle(Crew::Goons, Zone::Purple, 0, 1, 0));
    assert_eq!(pieces(&board), 61);
    assert_eq!(pieces(&board) + tallies(&board), 63);
}
