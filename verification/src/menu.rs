use vstd::prelude::*;

verus! {

// The one piece of menu logic that is not window plumbing: whether a
// click landed on a centered button.

/// A button's center and extent, in milli-units.
#[derive(Clone, Copy, Debug, PartialEq, Eq, Structural)]
pub struct ButtonRect {
    pub x: i64,
    pub y: i64,
    pub s_x: i64,
    pub s_y: i64,
}

impl ButtonRect {
    /// Whether a point lies on the button: within half the extent of the
    /// center on both axes.
    #[allow(non_snake_case)]
    pub fn isInIt(&mut self, x: i64, y: i64) -> (r: bool)
        requires
            0 <= self.s_x <= 1_000_000_000,
            0 <= self.s_y <= 1_000_000_000,
            -1_000_000_000 <= self.x <= 1_000_000_000,
            -1_000_000_000 <= self.y <= 1_000_000_000,
        ensures
            *final(self) == *old(self),
            r == {
                let b = *old(self);
                &&& b.x - b.s_x / 2 <= x <= b.x + b.s_x / 2
                &&& b.y - b.s_y / 2 <= y <= b.y + b.s_y / 2
            },
    {
        if self.x - self.s_x / 2 <= x && x <= self.x + self.s_x / 2 {
            if self.y - self.s_y / 2 <= y && y <= self.y + self.s_y / 2 {
                return true;
            }
        }
        false
    }
}

} // verus!
