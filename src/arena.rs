use crate::config::ARENA_RADIUS;
use crate::vector::Vec2;
use vstd::prelude::*;

verus! {

/// The circular play area.
#[derive(Clone, Copy, Debug, PartialEq, Eq, Structural)]
pub struct Arena {
    pub center: Vec2,
    pub radius: i64,
}

impl Arena {
    pub open spec fn wf(self) -> bool {
        self.center.within(0x100_0000_0000) && 0 <= self.radius <= 0x100_0000_0000
    }

    /// `pos` lies farther from the center than the radius.
    pub open spec fn is_outside(self, pos: Vec2) -> bool {
        (pos.x - self.center.x) * (pos.x - self.center.x) + (pos.y - self.center.y) * (pos.y
            - self.center.y) > self.radius * self.radius
    }

    pub open spec fn new_spec() -> Arena {
        Arena { center: Vec2 { x: 0, y: 0 }, radius: ARENA_RADIUS }
    }

    /// The arena centered on the origin.
    pub fn new() -> (r: Arena)
        ensures
            r == Arena::new_spec(),
            r.wf(),
    {
        Arena { center: Vec2 { x: 0, y: 0 }, radius: ARENA_RADIUS }
    }

    /// Whether `pos` lies outside the arena.
    pub fn outside(&self, pos: Vec2) -> (r: bool)
        requires
            self.wf(),
            pos.within(0x1000_0000_0000),
        ensures
            r == self.is_outside(pos),
    {
        let d = Vec2 { x: pos.x - self.center.x, y: pos.y - self.center.y };
        let rr = self.radius as i128;
        assert(0 <= rr * rr <= 0x1_0000_0000_0000_0000_0000) by (nonlinear_arith)
            requires
                0 <= rr <= 0x100_0000_0000,
        ;
        d.length_squared() > rr * rr
    }
}

} // verus!
