use vstd::prelude::*;

verus! {

/// 1 when `held`, else 0.
pub open spec fn held_as_int(held: bool) -> int {
    if held {
        1
    } else {
        0
    }
}

/// The step on each axis that the held movement keys ask for: `up` and
/// `down` add and take one along y, `right` and `left` along x.
pub fn movement_direction(up: bool, down: bool, left: bool, right: bool) -> (d: (i8, i8))
    ensures
        d.0 == held_as_int(right) - held_as_int(left),
        d.1 == held_as_int(up) - held_as_int(down),
{
    let mut x: i8 = 0;
    let mut y: i8 = 0;
    if up {
        y = y + 1;
    }
    if down {
        y = y - 1;
    }
    if left {
        x = x - 1;
    }
    if right {
        x = x + 1;
    }
    (x, y)
}

/// What a click on a tile asks for.
#[derive(Debug, Clone, Copy, PartialEq, Eq, Structural)]
pub enum ClickAction {
    Reveal,
    Flag,
}

/// The action a mouse click asks for: a left click reveals, a right click
/// flags, and a left click wins when both buttons went down together.
pub fn click_action(left_pressed: bool, right_pressed: bool) -> (action: Option<ClickAction>)
    ensures
        left_pressed ==> action == Some(ClickAction::Reveal),
        !left_pressed && right_pressed ==> action == Some(ClickAction::Flag),
        !left_pressed && !right_pressed ==> action is None,
{
    if left_pressed {
        Some(ClickAction::Reveal)
    } else if right_pressed {
        Some(ClickAction::Flag)
    } else {
        None
    }
}

/// Holding both keys of an axis, or neither, moves nowhere along it.
pub proof fn lemma_opposite_keys_cancel(up: bool, down: bool, left: bool, right: bool)
    ensures
        up == down ==> held_as_int(up) - held_as_int(down) == 0,
        left == right ==> held_as_int(right) - held_as_int(left) == 0,
{
}

/// Each axis of a movement direction is -1, 0 or 1.
pub proof fn lemma_direction_is_unit(up: bool, down: bool, left: bool, right: bool)
    ensures
        -1 <= held_as_int(right) - held_as_int(left) <= 1,
        -1 <= held_as_int(up) - held_as_int(down) <= 1,
{
}

} // verus!
