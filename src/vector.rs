use vstd::prelude::*;

verus! {

/// A two-dimensional integer vector.
#[derive(Clone, Copy, Debug, PartialEq, Eq, Structural)]
pub struct Vec2D {
    pub x: i32,
    pub y: i32,
}

impl std::ops::Add for Vec2D {
    type Output = Self;

    /// Component-wise sum.
    fn add(self, rhs: Self) -> (r: Self) {
        Vec2D { x: self.x + rhs.x, y: self.y + rhs.y }
    }
}

impl vstd::std_specs::ops::AddSpecImpl for Vec2D {
    open spec fn obeys_add_spec() -> bool {
        true
    }

    /// Both component sums fit in `i32`.
    open spec fn add_req(self, rhs: Self) -> bool {
        i32::MIN <= self.x + rhs.x <= i32::MAX && i32::MIN <= self.y + rhs.y <= i32::MAX
    }

    open spec fn add_spec(self, rhs: Self) -> Self {
        Vec2D { x: (self.x + rhs.x) as i32, y: (self.y + rhs.y) as i32 }
    }
}

} // verus!
