//! The software cursor of the shell.

use vstd::prelude::*;

use crate::number::Vec2;

verus! {

/// Where the cursor is drawn.
#[derive(Clone, Copy, Debug, PartialEq, Eq, Structural)]
pub struct SoftwareCursor {
    pub shown: bool,
    /// Its upper left corner; none before it first followed the pointer.
    pub corner: Option<Vec2>,
}

impl SoftwareCursor {
    /// The cursor of a pointer, given the corner that goes with its place; none
    /// where the pointer is away from the host.
    pub open spec fn following(corner: Option<Vec2>) -> SoftwareCursor {
        match corner {
            Some(corner) => SoftwareCursor { shown: true, corner: Some(corner) },
            None => SoftwareCursor { shown: false, corner: Some(Vec2::origin()) },
        }
    }

    /// The two are drawn alike: both or neither are shown, at corners that are
    /// the same numbers.
    pub open spec fn looks_like(self, other: SoftwareCursor) -> bool {
        &&& self.shown == other.shown
        &&& match (self.corner, other.corner) {
            (Some(corner), Some(other)) => corner.same(other),
            (None, None) => true,
            _ => false,
        }
    }

    /// A cursor that is not shown and was never placed.
    pub fn new() -> (cursor: Self)
        ensures
            cursor == (SoftwareCursor { shown: false, corner: None }),
    {
        SoftwareCursor { shown: false, corner: None }
    }

    /// Follows the pointer, and says whether the shell has to be drawn anew:
    /// just where the cursor does not look as before.
    pub fn follow(&mut self, corner: Option<Vec2>) -> (redraw: bool)
        ensures
            redraw == !old(self).looks_like(SoftwareCursor::following(corner)),
            *final(self) == (if redraw {
                SoftwareCursor::following(corner)
            } else {
                *old(self)
            }),
    {
        let (shown, next) = match corner {
            Some(corner) => (true, corner),
            None => (false, Vec2::zero()),
        };
        let stays = match self.corner {
            Some(corner) => corner.equals(next),
            None => false,
        };
        if self.shown == shown && stays {
            return false;
        }
        self.shown = shown;
        self.corner = Some(next);
        true
    }
}

/// A pointer that stays at one place is drawn once, unless its place is no
/// number.
pub proof fn a_resting_cursor_is_not_redrawn(corner: Option<Vec2>)
    requires
        corner matches Some(place) ==> !place.x.nan() && !place.y.nan(),
    ensures
        SoftwareCursor::following(corner).looks_like(SoftwareCursor::following(corner)),
{
}

/// The cursor of a pointer on the host is shown at the corner that goes with its
/// place; that of a pointer away from it is hidden.
pub proof fn cursors_follow_the_pointer(corner: Vec2)
    ensures
        SoftwareCursor::following(Some(corner)).shown,
        SoftwareCursor::following(Some(corner)).corner == Some(corner),
        !SoftwareCursor::following(None).shown,
        SoftwareCursor::following(None).corner matches Some(hidden) && hidden.x.bits == 0
            && hidden.y.bits == 0,
{
}

/// A cursor that appears, disappears, or moves on either axis looks different.
pub proof fn moved_cursors_look_different(first: SoftwareCursor, second: SoftwareCursor)
    ensures
        first.shown != second.shown ==> !first.looks_like(second),
        first.corner is Some != second.corner is Some ==> !first.looks_like(second),
        first.corner is Some && second.corner is Some && !(first.corner->0).x.same(
            (second.corner->0).x,
        ) ==> !first.looks_like(second),
        first.corner is Some && second.corner is Some && !(first.corner->0).y.same(
            (second.corner->0).y,
        ) ==> !first.looks_like(second),
        first.looks_like(second) == second.looks_like(first),
{
}

} // verus!
