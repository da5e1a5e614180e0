use vstd::prelude::*;
use crate::player::Player;
use crate::player::stepped;
use crate::player::TURN_STEP;
use crate::fixed::saturated;

verus! {

/// Which of the four arrow keys are held down.
#[derive(Clone, Copy, Debug, PartialEq, Eq, Structural)]
pub struct Keys {
    pub left: bool,
    pub right: bool,
    pub up: bool,
    pub down: bool,
}

/// A direction as the cosine and the sine of its angle, in fixed point.
#[derive(Clone, Copy, Debug, PartialEq, Eq, Structural)]
pub struct Heading {
    pub dx: i64,
    pub dy: i64,
}

/// The heading of the viewer after each way a turn can go: one step to the
/// left, none, and one step to the right.
#[derive(Clone, Copy, Debug, PartialEq, Eq, Structural)]
pub struct Headings {
    pub left: Heading,
    pub ahead: Heading,
    pub right: Heading,
}

/// The angle that the viewer faces after the keys have turned it: a step to
/// the left for the left key, then one to the right for the right key.
pub open spec fn turned(a: int, keys: Keys) -> int {
    saturated(
        saturated(
            a - (if keys.left {
                TURN_STEP as int
            } else {
                0
            }),
        ) + (if keys.right {
            TURN_STEP as int
        } else {
            0
        }),
    )
}

/// The heading that goes with the turn that the keys ask for.
pub open spec fn heading_for(keys: Keys, headings: Headings) -> Heading {
    if keys.left && !keys.right {
        headings.left
    } else if keys.right && !keys.left {
        headings.right
    } else {
        headings.ahead
    }
}

/// The viewer after the keys have turned and walked it: turned first, then
/// walked a step along the new heading for the up key, then a step against
/// it for the down key.
pub open spec fn after_events(player: Player, keys: Keys, headings: Headings) -> Player {
    let heading = heading_for(keys, headings);
    let first = if keys.up {
        stepped(player.pos, heading.dx as int, heading.dy as int, true)
    } else {
        player.pos
    };
    let second = if keys.down {
        stepped(first, heading.dx as int, heading.dy as int, false)
    } else {
        first
    };
    Player { pos: second, a: turned(player.a as int, keys) as i64, fov: player.fov }
}

/// Turns and walks the viewer as the held keys ask, whatever stands in the
/// way.
pub fn process_events(keys: &Keys, player: &mut Player, headings: &Headings)
    ensures
        *final(player) == after_events(*old(player), *keys, *headings),
{
    player.turn(keys.left, keys.right);
    let heading = if keys.left && !keys.right {
        headings.left
    } else if keys.right && !keys.left {
        headings.right
    } else {
        headings.ahead
    };
    player.advance(keys.up, keys.down, heading.dx, heading.dy);
}

} // verus!
