//! The fixed data of the board: which zones touch, which are neutral, and
//! the pieces a game starts with.
use vstd::prelude::*;

use crate::{BoardSpace, Crew, Zone};

verus! {

/// Number of neutral zones, each dealt two pieces at the start.
pub const ZONES_TO_FILL: usize = 8;

/// A march may go from `from` to `to`.
pub open spec fn adjacent(from: Zone, to: Zone) -> bool {
    match from {
        Zone::Green => to == Zone::Cyan || to == Zone::Yellow,
        Zone::Red => to == Zone::Gray || to == Zone::Orange,
        Zone::Black => to == Zone::Gray || to == Zone::Purple || to == Zone::White,
        Zone::Blue => to == Zone::Magenta || to == Zone::Purple || to == Zone::White,
        Zone::Gray => to == Zone::Black || to == Zone::Purple || to == Zone::Red,
        Zone::Magenta => to == Zone::Blue || to == Zone::Cyan || to == Zone::Purple,
        Zone::Orange => to == Zone::Cyan || to == Zone::Red || to == Zone::Yellow,
        Zone::White => to == Zone::Black || to == Zone::Blue || to == Zone::Purple,
        Zone::Yellow => to == Zone::Cyan || to == Zone::Green || to == Zone::Orange,
        Zone::Cyan => to == Zone::Green || to == Zone::Magenta || to == Zone::Orange || to
            == Zone::Yellow,
        Zone::Purple => to == Zone::Black || to == Zone::Blue || to == Zone::Gray || to
            == Zone::Magenta || to == Zone::White,
    }
}

/// Whether a march may go from `from` to `to`.
pub fn is_adjacent(from: Zone, to: Zone) -> (r: bool)
    ensures
        r == adjacent(from, to),
{
    match from {
        Zone::Green => matches!(to, Zone::Cyan | Zone::Yellow),
        Zone::Red => matches!(to, Zone::Gray | Zone::Orange),
        Zone::Black => matches!(to, Zone::Gray | Zone::Purple | Zone::White),
        Zone::Blue => matches!(to, Zone::Magenta | Zone::Purple | Zone::White),
        Zone::Gray => matches!(to, Zone::Black | Zone::Purple | Zone::Red),
        Zone::Magenta => matches!(to, Zone::Blue | Zone::Cyan | Zone::Purple),
        Zone::Orange => matches!(to, Zone::Cyan | Zone::Red | Zone::Yellow),
        Zone::White => matches!(to, Zone::Black | Zone::Blue | Zone::Purple),
        Zone::Yellow => matches!(to, Zone::Cyan | Zone::Green | Zone::Orange),
        Zone::Cyan => matches!(to, Zone::Green | Zone::Magenta | Zone::Orange | Zone::Yellow),
        Zone::Purple => matches!(
            to,
            Zone::Black | Zone::Blue | Zone::Gray | Zone::Magenta | Zone::White
        ),
    }
}

/// The zone at position `i` of the board's fixed order, home bases first.
pub open spec fn zone_at(i: int) -> Zone {
    if i <= 0 {
        Zone::Red
    } else if i == 1 {
        Zone::Green
    } else if i == 2 {
        Zone::Blue
    } else if i == 3 {
        Zone::Orange
    } else if i == 4 {
        Zone::Yellow
    } else if i == 5 {
        Zone::Cyan
    } else if i == 6 {
        Zone::Magenta
    } else if i == 7 {
        Zone::Purple
    } else if i == 8 {
        Zone::White
    } else if i == 9 {
        Zone::Black
    } else {
        Zone::Gray
    }
}

/// The zone at position `i` of the board's fixed order, home bases first.
pub fn nth_zone(i: usize) -> (r: Zone)
    requires
        i < 11,
    ensures
        r == zone_at(i as int),
{
    match i {
        0 => Zone::Red,
        1 => Zone::Green,
        2 => Zone::Blue,
        3 => Zone::Orange,
        4 => Zone::Yellow,
        5 => Zone::Cyan,
        6 => Zone::Magenta,
        7 => Zone::Purple,
        8 => Zone::White,
        9 => Zone::Black,
        _ => Zone::Gray,
    }
}

/// The pieces a game starts with besides the six on the home bases: nineteen
/// bullies, then nineteen goons, then nineteen rogues.
pub fn default_bag() -> (r: Vec<Crew>)
    ensures
        r@.len() == 57,
        BoardSpace::of(r@) == (BoardSpace { rogues: 19, bullies: 19, goons: 19 }),
{
    let mut pieces: Vec<Crew> = Vec::new();
    let mut i: usize = 0;
    while i < 57
        invariant
            i <= 57,
            pieces@.len() == i,
            BoardSpace::of(pieces@) == (BoardSpace {
                rogues: if i > 38 { (i - 38) as u8 } else { 0u8 },
                bullies: if i < 19 { i as u8 } else { 19u8 },
                goons: if i < 19 { 0u8 } else if i < 38 { (i - 19) as u8 } else { 19u8 },
            }),
        decreases 57 - i,
    {
        let crew = if i < 19 {
            Crew::Bullies
        } else if i < 38 {
            Crew::Goons
        } else {
            Crew::Rogues
        };
        proof {
            assert(pieces@.push(crew).drop_last() =~= pieces@);
        }
        pieces.push(crew);
        i = i + 1;
    }
    pieces
}

} // verus!
