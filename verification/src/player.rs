use vstd::prelude::*;
use crate::board::in_limit;

verus! {

/// The player's king.  `target_x`, `target_y` is the square it stands on for
/// the rules; `half_x`, `half_y` is where it is drawn, in half squares, as it
/// slides towards that square half a square per frame.  `sub_round` counts
/// the moves made in the current round and `energy` pays for abilities.
#[derive(Clone, Copy, Debug, PartialEq, Eq, Structural)]
pub struct Player {
    pub half_x: i64,
    pub half_y: i64,
    pub target_x: i64,
    pub target_y: i64,
    pub sub_round: u8,
    pub energy: i64,
}

/// Both the square and the drawn position are within the model's limit.
pub open spec fn player_in_limit(p: Player) -> bool {
    &&& in_limit(p.target_x as int)
    &&& in_limit(p.target_y as int)
    &&& in_limit(p.half_x as int)
    &&& in_limit(p.half_y as int)
}

/// One half square from `from` towards `to`, or `to` itself when there.
pub open spec fn slide(from: int, to: int) -> int {
    if from < to {
        from + 1
    } else if from > to {
        from - 1
    } else {
        from
    }
}

/// What one key press does to a coordinate of the target square: one square
/// back or forward, never past the board's edge at `0` and `15`.
pub open spec fn nudge(v: int, back: bool) -> int {
    if back {
        if v > 0 {
            v - 1
        } else {
            v
        }
    } else {
        if v < 15 {
            v + 1
        } else {
            v
        }
    }
}

impl Player {
    /// Slides the drawn position half a square towards the target square on
    /// each axis.
    pub fn update_pos(&mut self)
        requires
            player_in_limit(*old(self)),
            in_limit(2 * old(self).target_x),
            in_limit(2 * old(self).target_y),
        ensures
            final(self).half_x == slide(old(self).half_x as int, 2 * old(self).target_x),
            final(self).half_y == slide(old(self).half_y as int, 2 * old(self).target_y),
            final(self).target_x == old(self).target_x,
            final(self).target_y == old(self).target_y,
            final(self).sub_round == old(self).sub_round,
            final(self).energy == old(self).energy,
    {
        let tx = 2 * self.target_x;
        let ty = 2 * self.target_y;
        if tx > self.half_x {
            self.half_x = self.half_x + 1;
        }
        if tx < self.half_x {
            self.half_x = self.half_x - 1;
        }
        if ty > self.half_y {
            self.half_y = self.half_y + 1;
        }
        if ty < self.half_y {
            self.half_y = self.half_y - 1;
        }
    }
}

/// The player after the movement keys of a frame (see `player_movement`).
pub open spec fn after_keys(p: Player, left: bool, right: bool, up: bool, down: bool) -> Player {
    Player {
        target_x: (if left {
            nudge(p.target_x as int, true)
        } else if right {
            nudge(p.target_x as int, false)
        } else {
            p.target_x as int
        }) as i64,
        target_y: (if !left && !right && up {
            nudge(p.target_y as int, true)
        } else if !left && !right && down {
            nudge(p.target_y as int, false)
        } else {
            p.target_y as int
        }) as i64,
        ..p
    }
}

/// Moves the target square by the first of the player's movement keys that
/// was pressed this frame, in the order left, right, up, down, and says
/// whether one was pressed, which makes it a move even at the board's edge.
pub fn player_movement(player: &mut Player, left: bool, right: bool, up: bool, down: bool) -> (moved: bool)
    ensures
        moved == (left || right || up || down),
        final(player).target_x == (if left {
            nudge(old(player).target_x as int, true)
        } else if right {
            nudge(old(player).target_x as int, false)
        } else {
            old(player).target_x as int
        }),
        final(player).target_y == (if !left && !right && up {
            nudge(old(player).target_y as int, true)
        } else if !left && !right && down {
            nudge(old(player).target_y as int, false)
        } else {
            old(player).target_y as int
        }),
        final(player).half_x == old(player).half_x,
        final(player).half_y == old(player).half_y,
        final(player).sub_round == old(player).sub_round,
        final(player).energy == old(player).energy,
        *final(player) == after_keys(*old(player), left, right, up, down),
{
    let mut new_move = false;
    if left {
        new_move = true;
        if player.target_x > 0 {
            player.target_x = player.target_x - 1;
        }
    } else if right {
        new_move = true;
        if player.target_x < 15 {
            player.target_x = player.target_x + 1;
        }
    } else if up {
        new_move = true;
        if player.target_y > 0 {
            player.target_y = player.target_y - 1;
        }
    } else if down {
        new_move = true;
        if player.target_y < 15 {
            player.target_y = player.target_y + 1;
        }
    }
    new_move
}

} // verus!
