use vstd::prelude::*;

verus! {

/// Largest pointer column; the pointer may sit on the right edge.
pub const MAX_X: i16 = 640;

/// Largest pointer row; the pointer may sit on the bottom edge.
pub const MAX_Y: i16 = 480;

/// Pins one coordinate into `0..=max`.
pub open spec fn clamp(v: int, max: int) -> int {
    if v < 0 {
        0
    } else if v >= max {
        max
    } else {
        v
    }
}

/// Position of the mouse pointer on the 640x480 screen.
pub struct State(i16, i16);

impl State {
    #[verifier::type_invariant]
    spec fn on_screen(self) -> bool {
        &&& 0 <= self.0 <= MAX_X
        &&& 0 <= self.1 <= MAX_Y
    }

    /// Column and row of the pointer.
    pub closed spec fn pos(self) -> (int, int) {
        (self.0 as int, self.1 as int)
    }

    /// The pointer in the top-left corner.
    pub fn new() -> (s: Self)
        ensures
            s.pos() == (0int, 0int),
    {
        State(0, 0)
    }

    /// Applies one movement report of the mouse: `dx` to the right, `dy` upwards (the screen's
    /// rows grow downwards), then pins the pointer to the screen. Returns the new position.
    pub fn on_complete(&mut self, dx: i16, dy: i16) -> (r: (usize, usize))
        requires
            i16::MIN <= old(self).pos().0 + dx <= i16::MAX,
            i16::MIN <= old(self).pos().1 - dy <= i16::MAX,
        ensures
            final(self).pos() == (
                clamp(old(self).pos().0 + dx, MAX_X as int),
                clamp(old(self).pos().1 - dy, MAX_Y as int),
            ),
            0 <= final(self).pos().0 <= MAX_X,
            0 <= final(self).pos().1 <= MAX_Y,
            r.0 == final(self).pos().0,
            r.1 == final(self).pos().1,
    {
        proof {
            use_type_invariant(&*self);
        }
        let mut x: i16 = self.0 + dx;
        let mut y: i16 = self.1 - dy;
        if x < 0 {
            x = 0;
        }
        if y < 0 {
            y = 0;
        }
        if x >= MAX_X {
            x = MAX_X;
        }
        if y >= MAX_Y {
            y = MAX_Y;
        }
        *self = State(x, y);
        (x as usize, y as usize)
    }

    /// Column and row of the pointer.
    pub fn position(&self) -> (r: (usize, usize))
        ensures
            r.0 == self.pos().0,
            r.1 == self.pos().1,
    {
        proof {
            use_type_invariant(self);
        }
        (self.0 as usize, self.1 as usize)
    }
}

/// A report with no movement leaves the pointer where it is, and a movement that stays on
/// the screen is undone by the opposite movement.
pub proof fn lemma_moves_cancel(x: int, y: int, dx: int, dy: int)
    requires
        0 <= x <= MAX_X,
        0 <= y <= MAX_Y,
    ensures
        clamp(x + 0, MAX_X as int) == x,
        clamp(y - 0, MAX_Y as int) == y,
        0 <= x + dx <= MAX_X ==> clamp(clamp(x + dx, MAX_X as int) - dx, MAX_X as int) == x,
        0 <= y - dy <= MAX_Y ==> clamp(clamp(y - dy, MAX_Y as int) + dy, MAX_Y as int) == y,
{
}

} // verus!
