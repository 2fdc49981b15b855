//! Grid coordinates, the four unit directions and distance tests.
//!
//! Distances are never computed as real numbers. A range is given in quarter
//! tiles, and a distance test compares squares, so every answer is exact.

use vstd::prelude::*;

verus! {

/// One of the two axes of the grid.
#[derive(Debug, Clone, Copy, PartialEq, Eq, Structural)]
pub enum Axis {
    Horizontal,
    Vertical,
}

/// A cell of the grid. `x` grows to the right, `y` grows downwards.
#[derive(Debug, Clone, Copy, PartialEq, Eq, Structural, Hash)]
pub struct Coordinate {
    pub x: i32,
    pub y: i32,
}

/// One step up, as a value of specifications.
pub open spec fn spec_up() -> Coordinate {
    Coordinate { x: 0, y: -1i32 }
}

/// One step down, as a value of specifications.
pub open spec fn spec_down() -> Coordinate {
    Coordinate { x: 0, y: 1 }
}

/// One step to the left, as a value of specifications.
pub open spec fn spec_left() -> Coordinate {
    Coordinate { x: -1i32, y: 0 }
}

/// One step to the right, as a value of specifications.
pub open spec fn spec_right() -> Coordinate {
    Coordinate { x: 1, y: 0 }
}

/// One step up.
#[verifier::when_used_as_spec(spec_up)]
pub fn up() -> (c: Coordinate)
    ensures
        c == spec_up(),
{
    Coordinate { x: 0, y: -1 }
}

/// One step down.
#[verifier::when_used_as_spec(spec_down)]
pub fn down() -> (c: Coordinate)
    ensures
        c == spec_down(),
{
    Coordinate { x: 0, y: 1 }
}

/// One step to the left.
#[verifier::when_used_as_spec(spec_left)]
pub fn left() -> (c: Coordinate)
    ensures
        c == spec_left(),
{
    Coordinate { x: -1, y: 0 }
}

/// One step to the right.
#[verifier::when_used_as_spec(spec_right)]
pub fn right() -> (c: Coordinate)
    ensures
        c == spec_right(),
{
    Coordinate { x: 1, y: 0 }
}

/// Whether `v` is the value of some `i32`.
pub open spec fn fits_i32(v: int) -> bool {
    i32::MIN <= v <= i32::MAX
}

/// The square of the Euclidean distance between two cells.
pub open spec fn distance_squared(a: Coordinate, b: Coordinate) -> int {
    (a.x - b.x) * (a.x - b.x) + (a.y - b.y) * (a.y - b.y)
}

/// Whether two cells lie at most `range_quarters / 4` tiles apart.
pub open spec fn within_quarters(a: Coordinate, b: Coordinate, range_quarters: u32) -> bool {
    16 * distance_squared(a, b) <= range_quarters * range_quarters
}

/// Whether two cells lie less than `range_quarters / 4` tiles apart.
pub open spec fn strictly_within_quarters(a: Coordinate, b: Coordinate, range_quarters: u32) -> bool {
    16 * distance_squared(a, b) < range_quarters * range_quarters
}

impl Coordinate {
    /// The coordinate with the given components; a component above
    /// `i32::MAX` wraps around, as the conversion of the integer does.
    pub fn new(x: u32, y: u32) -> (c: Coordinate)
        ensures
            c == (Coordinate { x: x as i32, y: y as i32 }),
    {
        Coordinate { x: #[verifier::truncate] (x as i32), y: #[verifier::truncate] (y as i32) }
    }

    /// A coordinate drawn by chance, with `x` from `x_low` to below
    /// `x_high` and `y` from `y_low` to below `y_high`.
    pub fn random(x_low: i32, x_high: i32, y_low: i32, y_high: i32) -> (c: Coordinate)
        requires
            x_low < x_high,
            y_low < y_high,
        ensures
            x_low <= c.x < x_high,
            y_low <= c.y < y_high,
    {
        let dx: u32 = crate::random::roll(0, (x_high as i64 - x_low as i64 - 1) as u32);
        let dy: u32 = crate::random::roll(0, (y_high as i64 - y_low as i64 - 1) as u32);
        Coordinate { x: (x_low as i64 + dx as i64) as i32, y: (y_low as i64 + dy as i64) as i32 }
    }

    /// The coordinate `(0, 0)`.
    pub fn zero() -> (c: Coordinate)
        ensures
            c == (Coordinate { x: 0, y: 0 }),
    {
        Coordinate { x: 0, y: 0 }
    }

    /// The coordinate whose two components are both `xy`.
    pub fn uniform(xy: u32) -> (c: Coordinate)
        ensures
            c == (Coordinate { x: xy as i32, y: xy as i32 }),
    {
        Coordinate { x: #[verifier::truncate] (xy as i32), y: #[verifier::truncate] (xy as i32) }
    }

    /// Whether the component-wise sum is a coordinate.
    pub open spec fn can_plus(self, rhs: Coordinate) -> bool {
        fits_i32(self.x + rhs.x) && fits_i32(self.y + rhs.y)
    }

    /// Whether the component-wise difference is a coordinate.
    pub open spec fn can_minus(self, rhs: Coordinate) -> bool {
        fits_i32(self.x - rhs.x) && fits_i32(self.y - rhs.y)
    }

    /// The component-wise sum.
    pub fn plus(self, rhs: Coordinate) -> (c: Coordinate)
        requires
            self.can_plus(rhs),
        ensures
            c.x == self.x + rhs.x,
            c.y == self.y + rhs.y,
    {
        Coordinate { x: self.x + rhs.x, y: self.y + rhs.y }
    }

    /// The component-wise sum, or `None` where a component leaves `i32`.
    pub fn checked_plus(self, rhs: Coordinate) -> (c: Option<Coordinate>)
        ensures
            c is Some <==> self.can_plus(rhs),
            c is Some ==> c->0.x == self.x + rhs.x && c->0.y == self.y + rhs.y,
    {
        match (self.x.checked_add(rhs.x), self.y.checked_add(rhs.y)) {
            (Some(x), Some(y)) => Some(Coordinate { x, y }),
            _ => None,
        }
    }

    /// The component-wise difference.
    pub fn minus(self, rhs: Coordinate) -> (c: Coordinate)
        requires
            self.can_minus(rhs),
        ensures
            c.x == self.x - rhs.x,
            c.y == self.y - rhs.y,
    {
        Coordinate { x: self.x - rhs.x, y: self.y - rhs.y }
    }

    /// The component-wise difference, or `None` where a component leaves `i32`.
    pub fn checked_minus(self, rhs: Coordinate) -> (c: Option<Coordinate>)
        ensures
            c is Some <==> self.can_minus(rhs),
            c is Some ==> c->0.x == self.x - rhs.x && c->0.y == self.y - rhs.y,
    {
        match (self.x.checked_sub(rhs.x), self.y.checked_sub(rhs.y)) {
            (Some(x), Some(y)) => Some(Coordinate { x, y }),
            _ => None,
        }
    }

    /// Both components multiplied by `rhs`.
    pub fn times(self, rhs: i32) -> (c: Coordinate)
        requires
            fits_i32(self.x * rhs),
            fits_i32(self.y * rhs),
        ensures
            c.x == self.x * rhs,
            c.y == self.y * rhs,
    {
        Coordinate { x: self.x * rhs, y: self.y * rhs }
    }

    /// The square of the Euclidean distance to `other`.
    pub fn distance_squared(self, other: Coordinate) -> (d: u128)
        ensures
            d == distance_squared(self, other),
            d <= 2 * 0xffff_ffff * 0xffff_ffff,
    {
        let dx: i128 = self.x as i128 - other.x as i128;
        let dy: i128 = self.y as i128 - other.y as i128;
        assert(-0xffff_ffff <= dx <= 0xffff_ffff);
        assert(-0xffff_ffff <= dy <= 0xffff_ffff);
        assert(0 <= dx * dx <= 0xffff_ffff * 0xffff_ffff) by (nonlinear_arith)
            requires
                -0xffff_ffff <= dx <= 0xffff_ffff,
        ;
        assert(0 <= dy * dy <= 0xffff_ffff * 0xffff_ffff) by (nonlinear_arith)
            requires
                -0xffff_ffff <= dy <= 0xffff_ffff,
        ;
        let sum: i128 = dx * dx + dy * dy;
        sum as u128
    }

    /// Whether `other` lies at most `range_quarters / 4` tiles away.
    pub fn within_range(self, other: Coordinate, range_quarters: u32) -> (b: bool)
        ensures
            b == within_quarters(self, other, range_quarters),
    {
        let d: u128 = self.distance_squared(other);
        let r: u128 = range_quarters as u128;
        assert(0 <= r * r <= 0xffff_ffff * 0xffff_ffff) by (nonlinear_arith)
            requires
                0 <= r <= 0xffff_ffff,
        ;
        16 * d <= r * r
    }

    /// Whether `other` lies less than `range_quarters / 4` tiles away.
    pub fn strictly_within_range(self, other: Coordinate, range_quarters: u32) -> (b: bool)
        ensures
            b == strictly_within_quarters(self, other, range_quarters),
    {
        let d: u128 = self.distance_squared(other);
        let r: u128 = range_quarters as u128;
        assert(0 <= r * r <= 0xffff_ffff * 0xffff_ffff) by (nonlinear_arith)
            requires
                0 <= r <= 0xffff_ffff,
        ;
        16 * d < r * r
    }
}

impl Default for Coordinate {
    fn default() -> (c: Coordinate)
        ensures
            c == (Coordinate { x: 0, y: 0 }),
    {
        Coordinate { x: 0, y: 0 }
    }
}

/// The direction opposite to `direction`.
pub fn reverse_direction(direction: &Coordinate) -> (c: Coordinate)
    requires
        direction.x != i32::MIN,
        direction.y != i32::MIN,
    ensures
        c.x == -direction.x,
        c.y == -direction.y,
{
    Coordinate { x: -direction.x, y: -direction.y }
}

/// The four cells that share an edge with `candidate`: above, below, left, right.
pub open spec fn adjacent_cells(candidate: Coordinate) -> Seq<Coordinate> {
    seq![
        Coordinate { x: candidate.x, y: (candidate.y - 1) as i32 },
        Coordinate { x: candidate.x, y: (candidate.y + 1) as i32 },
        Coordinate { x: (candidate.x - 1) as i32, y: candidate.y },
        Coordinate { x: (candidate.x + 1) as i32, y: candidate.y },
    ]
}

/// The four cells that share an edge with `candidate`, in the order up, down,
/// left, right.
pub fn calculate_adjacent(candidate: Coordinate) -> (cells: [Coordinate; 4])
    requires
        i32::MIN < candidate.x < i32::MAX,
        i32::MIN < candidate.y < i32::MAX,
    ensures
        cells@ == adjacent_cells(candidate),
{
    let cells = [
        candidate.plus(up()),
        candidate.plus(down()),
        candidate.plus(left()),
        candidate.plus(right()),
    ];
    assert(cells@ =~= adjacent_cells(candidate));
    cells
}

} // verus!
