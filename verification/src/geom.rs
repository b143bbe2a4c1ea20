use vstd::prelude::*;

verus! {

/// Largest half-extent a rectangle of the game may have (1000 units).
pub const EXTENT_LIMIT: i64 = 1_000_000;

/// Bound on the center coordinates of a rectangle at rest between ticks.
pub const COORD_LIMIT: i64 = 2_000_000;

/// Bound on the center coordinates of a rectangle in the middle of a tick,
/// after integration but before goal handling has pulled it back.
pub const FLIGHT_LIMIT: i64 = 500_000_000;

/// A plane vector in milliunits.
#[derive(Clone, Copy, PartialEq, Eq, Structural, Debug)]
pub struct Vec2 {
    pub x: i64,
    pub y: i64,
}

/// An axis-aligned rectangle given by its center and half-extents.
#[derive(Clone, Copy, PartialEq, Eq, Structural, Debug)]
pub struct Rect {
    pub center: Vec2,
    pub extent: Vec2,
}

/// Mathematical model of a vector.
pub ghost struct GVec2 {
    pub x: int,
    pub y: int,
}

/// Mathematical model of a rectangle.
pub ghost struct GRect {
    pub center: GVec2,
    pub extent: GVec2,
}

impl View for Vec2 {
    type V = GVec2;

    open spec fn view(&self) -> GVec2 {
        GVec2 { x: self.x as int, y: self.y as int }
    }
}

impl View for Rect {
    type V = GRect;

    open spec fn view(&self) -> GRect {
        GRect { center: self.center@, extent: self.extent@ }
    }
}

/// Absolute value.
pub open spec fn iabs(v: int) -> int {
    if v < 0 {
        -v
    } else {
        v
    }
}

/// Squared euclidean length of a vector.
pub open spec fn norm_sq(v: GVec2) -> int {
    v.x * v.x + v.y * v.y
}

/// Two rectangles overlap iff, on both axes independently, the distance
/// between the centers is at most the sum of the half-extents.
pub open spec fn rects_overlap(a: GRect, b: GRect) -> bool {
    &&& iabs(a.center.x - b.center.x) <= a.extent.x + b.extent.x
    &&& iabs(a.center.y - b.center.y) <= a.extent.y + b.extent.y
}

impl GRect {
    /// Extents are non-negative and small; the center may be anywhere a body
    /// can reach in the middle of a tick.
    pub open spec fn in_flight(self) -> bool {
        &&& 0 <= self.extent.x <= EXTENT_LIMIT
        &&& 0 <= self.extent.y <= EXTENT_LIMIT
        &&& -FLIGHT_LIMIT <= self.center.x <= FLIGHT_LIMIT
        &&& -FLIGHT_LIMIT <= self.center.y <= FLIGHT_LIMIT
    }

    /// A rectangle at rest between ticks: in flight range, and near the field.
    pub open spec fn wf(self) -> bool {
        &&& self.in_flight()
        &&& -COORD_LIMIT <= self.center.x <= COORD_LIMIT
        &&& -COORD_LIMIT <= self.center.y <= COORD_LIMIT
    }
}

impl Rect {
    /// The rectangle with the given center and half-extents.
    pub fn new(cx: i64, cy: i64, ex: i64, ey: i64) -> (r: Rect)
        ensures
            r@ == (GRect {
                center: GVec2 { x: cx as int, y: cy as int },
                extent: GVec2 { x: ex as int, y: ey as int },
            }),
    {
        Rect { center: Vec2 { x: cx, y: cy }, extent: Vec2 { x: ex, y: ey } }
    }

    /// The rectangle as `[center x, center y, half-extent x, half-extent y]`.
    pub fn as_array(&self) -> (r: [i64; 4])
        ensures
            r[0] == self.center.x,
            r[1] == self.center.y,
            r[2] == self.extent.x,
            r[3] == self.extent.y,
    {
        [self.center.x, self.center.y, self.extent.x, self.extent.y]
    }

    /// The axis-aligned overlap test used for every collision in the game.
    pub fn intersects(&self, other: &Rect) -> (r: bool)
        requires
            self@.in_flight(),
            other@.in_flight(),
        ensures
            r == rects_overlap(self@, other@),
    {
        let dx: i64 = self.center.x - other.center.x;
        let dy: i64 = self.center.y - other.center.y;
        let adx: i64 = if dx < 0 {
            -dx
        } else {
            dx
        };
        let ady: i64 = if dy < 0 {
            -dy
        } else {
            dy
        };
        adx <= self.extent.x + other.extent.x && ady <= self.extent.y + other.extent.y
    }
}

/// Overlap does not depend on the order of the two rectangles.
pub proof fn lemma_overlap_symmetric(a: GRect, b: GRect)
    ensures
        rects_overlap(a, b) == rects_overlap(b, a),
{
}

} // verus!
