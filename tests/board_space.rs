use std::cmp::Ordering;

use tergiversators::{BoardSpace, Crew, Error};

#[test]
fn board_space_subtract_crew_removes_crew() {
    let mut space = BoardSpace::home_base(Crew::Rogues);
    space.subtract_crew(Crew::Rogues, 1).unwrap();
    assert_eq!(
        space,
        BoardSpace {
            rogues: 1,
            ..BoardSpace::empty()
        }
    );
}

#[test]
fn board_space_subtract_crew_fails_if_not_enough_crew() {
    let mut space = BoardSpace::home_base(Crew::Rogues);
    assert_eq!(
        space.subtract_crew(Crew::Rogues, 3),
        Err(Error::NOT_ENOUGH_STONES_IN_ZONE)
    );
}

#[test]
fn board_space_add_crew_adds_crew() {
    let mut space = BoardSpace::home_base(Crew::Rogues);
    space.add_crew(Crew::Rogues, 1);
    assert_eq!(
        space,
        BoardSpace {
            rogues: 3,
            ..BoardSpace::empty()
        }
    );
}

#[test]
fn board_space_check_crew_passes_if_enough_crew() {
    let space = BoardSpace::home_base(Crew::Rogues);
    assert_eq!(space.check_crew(Crew::Rogues, 2), Ok(()));
}

#[test]
fn board_space_check_crew_fails_if_not_enough_crew() {
    let space = BoardSpace::home_base(Crew::Rogues);
    assert_eq!(
        space.check_crew(Crew::Rogues, 3),
        Err(Error::NOT_ENOUGH_STONES_IN_ZONE)
    );
}

#[test]
fn returns_none_if_total_tie() {
    let space = BoardSpace {
        rogues: 1,
        bullies: 1,
        goons: 1,
    };
    assert_eq!(space.controller(BoardSpace::empty(), BoardSpace::empty()), None);
}

#[test]
fn returns_rogues_if_rogues_win() {
    let space = BoardSpace {
        rogues: 2,
        bullies: 1,
        goons: 1,
    };
    assert_eq!(
        space.controller(BoardSpace::empty(), BoardSpace::empty()),
        Some(Crew::Rogues)
    );
}

#[test]
fn returns_bullies_if_bullies_win() {
    let space = BoardSpace {
        rogues: 1,
        bullies: 2,
        goons: 1,
    };
    assert_eq!(
        space.controller(BoardSpace::empty(), BoardSpace::empty()),
        Some(Crew::Bullies)
    );
}

#[test]
fn returns_goons_if_goons_win() {
    let space = BoardSpace {
        rogues: 1,
        bullies: 1,
        goons: 2,
    };
    assert_eq!(
        space.controller(BoardSpace::empty(), BoardSpace::empty()),
        Some(Crew::Goons)
    );
}

#[test]
fn uses_swords_to_break_ties() {
    let space = BoardSpace {
        rogues: 2,
        bullies: 2,
        goons: 1,
    };
    let swords = BoardSpace {
        rogues: 1,
        bullies: 0,
        goons: 3,
    };
    assert_eq!(
        space.controller(swords, BoardSpace::empty()),
        Some(Crew::Rogues)
    );
}

#[test]
fn uses_flags_to_break_sword_ties() {
    let space = BoardSpace {
        rogues: 2,
        bullies: 2,
        goons: 1,
    };
    let swords = BoardSpace {
        rogues: 1,
        bullies: 1,
        goons: 3,
    };
    let flags = BoardSpace {
        rogues: 1,
        bullies: 0,
        goons: 3,
    };
    assert_eq!(space.controller(swords, flags), Some(Crew::Rogues));
}

#[test]
fn returns_winning_faction() {
    let space = BoardSpace {
        rogues: 2,
        bullies: 1,
        goons: 1,
    };
    assert_eq!(
        space.controlling_crew(BoardSpace::empty(), BoardSpace::empty()),
        Some(Crew::Rogues)
    );
}

#[test]
fn returns_sword_winner() {
    let space = BoardSpace {
        rogues: 1,
        bullies: 1,
        goons: 1,
    };
    let swords = BoardSpace {
        rogues: 1,
        bullies: 0,
        goons: 3,
    };
    assert_eq!(
        space.controlling_crew(swords, BoardSpace::empty()),
        Some(Crew::Goons)
    );
}

#[test]
fn returns_flag_winner() {
    let space = BoardSpace {
        rogues: 1,
        bullies: 1,
        goons: 1,
    };
    let swords = BoardSpace {
        rogues: 1,
        bullies: 0,
        goons: 1,
    };
    let flags = BoardSpace {
        rogues: 1,
        bullies: 3,
        goons: 1,
    };
    assert_eq!(space.controlling_crew(swords, flags), Some(Crew::Bullies));
}

#[test]
fn returns_none() {
    let space = BoardSpace {
        rogues: 1,
        bullies: 1,
        goons: 1,
    };
    assert_eq!(
        space.controlling_crew(BoardSpace::empty(), BoardSpace::empty()),
        None
    );
}

#[test]
fn board_space_returns_greater_if_a_has_more_winning_crew() {
    let a = BoardSpace {
        rogues: 2,
        bullies: 1,
        goons: 1,
    };
    let b = BoardSpace {
        rogues: 1,
        bullies: 2,
        goons: 1,
    };
    assert_eq!(
        BoardSpace::winning_sort(a, b, Crew::Rogues, None),
        Ordering::Greater
    );
}

#[test]
fn board_space_returns_less_if_b_has_more_winning_crew() {
    let a = BoardSpace {
        rogues: 1,
        bullies: 2,
        goons: 1,
    };
    let b = BoardSpace {
        rogues: 2,
        bullies: 1,
        goons: 1,
    };
    assert_eq!(
        BoardSpace::winning_sort(a, b, Crew::Rogues, None),
        Ordering::Less
    );
}

#[test]
fn board_space_returns_less_if_a_has_more_losing_crew() {
    let a = BoardSpace {
        rogues: 1,
        bullies: 2,
        goons: 1,
    };
    let b = BoardSpace {
        rogues: 1,
        bullies: 1,
        goons: 2,
    };
    assert_eq!(
        BoardSpace::winning_sort(a, b, Crew::Rogues, Some(Crew::Bullies)),
        Ordering::Less
    );
}

#[test]
fn board_space_returns_greater_if_b_has_more_losing_crew() {
    let a = BoardSpace {
        rogues: 1,
        bullies: 1,
        goons: 2,
    };
    let b = BoardSpace {
        rogues: 1,
        bullies: 2,
        goons: 1,
    };
    assert_eq!(
        BoardSpace::winning_sort(a, b, Crew::Rogues, Some(Crew::Bullies)),
        Ordering::Greater
    );
}

#[test]
fn board_space_returns_equal_if_both_have_same_losing_crew() {
    let a = BoardSpace {
        rogues: 1,
        bullies: 1,
        goons: 2,
    };
    let b = BoardSpace {
        rogues: 1,
        bullies: 1,
        goons: 2,
    };
    assert_eq!(
        BoardSpace::winning_sort(a, b, Crew::Rogues, Some(Crew::Bullies)),
        Ordering::Equal
    );
}

#[test]
fn board_space_returns_equal_if_no_losing_crew() {
    let a = BoardSpace {
        rogues: 1,
        bullies: 1,
        goons: 2,
    };
    let b = BoardSpace {
        rogues: 1,
        bullies: 1,
        goons: 2,
    };
    assert_eq!(
        BoardSpace::winning_sort(a, b, Crew::Rogues, None),
        Ordering::Equal
    );
}
