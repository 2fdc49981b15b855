//! Axis-aligned boxes on the grid: containment, overlap, sizes, and the boxes
//! that scan the surroundings of a box.

use vstd::prelude::*;
use crate::error::Error;
use crate::map::utils::{fits_i32, Axis, Coordinate};
use crate::random::{random_ratio, roll};

verus! {

/// An axis-aligned box, given by its top-left and bottom-right cells, both of
/// which belong to it.
#[derive(Debug, Clone, Copy, PartialEq, Eq, Structural, Hash)]
pub struct BoxExtends {
    pub top_left: Coordinate,
    pub bottom_right: Coordinate,
}

/// The quotient of `a` by two, rounded towards zero.
pub open spec fn half_towards_zero(a: int) -> int {
    if a >= 0 {
        a / 2
    } else {
        -((-a) / 2)
    }
}

/// A side below this length, or equal to it, is not split further.
pub const SPLIT_THRESHOLD: i32 = 8;

impl BoxExtends {
    /// Whether `point` lies in the box, borders included.
    pub open spec fn spec_contains_point(self, point: Coordinate) -> bool {
        &&& self.top_left.x <= point.x <= self.bottom_right.x
        &&& self.top_left.y <= point.y <= self.bottom_right.y
    }

    /// Whether both corners of `other` lie in the box.
    pub open spec fn spec_contains(self, other: BoxExtends) -> bool {
        self.spec_contains_point(other.top_left) && self.spec_contains_point(other.bottom_right)
    }

    /// Whether one of the four corners of `other` lies in the box.
    pub open spec fn holds_corner_of(self, other: BoxExtends) -> bool {
        ||| self.spec_contains_point(other.top_left)
        ||| self.spec_contains_point(other.bottom_right)
        ||| self.spec_contains_point(Coordinate { x: other.bottom_right.x, y: other.top_left.y })
        ||| self.spec_contains_point(Coordinate { x: other.top_left.x, y: other.bottom_right.y })
    }

    /// Whether one of the two boxes holds a corner of the other.
    pub open spec fn spec_overlaps(self, other: BoxExtends) -> bool {
        self.holds_corner_of(other) || other.holds_corner_of(self)
    }

    /// The number of cells along the horizontal side.
    pub open spec fn width(self) -> int {
        self.bottom_right.x - self.top_left.x + 1
    }

    /// The number of cells along the vertical side.
    pub open spec fn height(self) -> int {
        self.bottom_right.y - self.top_left.y + 1
    }

    /// The number of cells along the side that runs along `axis`.
    pub open spec fn axis_size(self, axis: Axis) -> int {
        match axis {
            Axis::Horizontal => self.width(),
            Axis::Vertical => self.height(),
        }
    }

    /// The number of cells of the box, where its corners are in order.
    pub open spec fn area(self) -> int {
        self.width() * self.height()
    }

    /// The number of cells of the box that do not lie on its border.
    pub open spec fn inner_area(self) -> int {
        if self.width() - 2 <= 0 || self.height() - 2 <= 0 {
            0
        } else {
            (self.width() - 2) * (self.height() - 2)
        }
    }

    /// The cell in the middle of the box; of two middle cells, the one nearer
    /// to the top-left corner.
    pub open spec fn spec_center(self) -> (int, int) {
        (
            half_towards_zero(self.bottom_right.x - self.top_left.x) + self.top_left.x,
            half_towards_zero(self.bottom_right.y - self.top_left.y) + self.top_left.y,
        )
    }

    /// The square box of side `size` whose top-left cell is the origin.
    pub fn new_square(size: u32) -> (b: BoxExtends)
        requires
            size >= 1,
        ensures
            b.top_left == (Coordinate { x: 0, y: 0 }),
            b.bottom_right == (Coordinate { x: (size - 1) as u32 as i32, y: (size - 1) as u32 as i32 }),
    {
        BoxExtends { top_left: Coordinate::zero(), bottom_right: Coordinate::uniform(size - 1) }
    }

    /// Whether both corners of `other` lie in the box.
    pub fn contains(&self, other: &BoxExtends) -> (b: bool)
        ensures
            b == self.spec_contains(*other),
    {
        self.contains_point(other.top_left) && self.contains_point(other.bottom_right)
    }

    /// The cell in the middle of the box.
    pub fn center(&self) -> (c: Coordinate)
        ensures
            (c.x as int, c.y as int) == self.spec_center(),
    {
        let x: i64 = (self.bottom_right.x as i64 - self.top_left.x as i64) / 2
            + self.top_left.x as i64;
        let y: i64 = (self.bottom_right.y as i64 - self.top_left.y as i64) / 2
            + self.top_left.y as i64;
        Coordinate { x: x as i32, y: y as i32 }
    }

    /// Whether one of the two boxes holds a corner of the other. Two boxes
    /// that cross without holding a corner of each other do not count.
    pub fn overlaps(&self, other: &BoxExtends) -> (b: bool)
        ensures
            b == self.spec_overlaps(*other),
    {
        let self_top_right = Coordinate { x: self.bottom_right.x, y: self.top_left.y };
        let self_bottom_left = Coordinate { x: self.top_left.x, y: self.bottom_right.y };
        let other_top_right = Coordinate { x: other.bottom_right.x, y: other.top_left.y };
        let other_bottom_left = Coordinate { x: other.top_left.x, y: other.bottom_right.y };

        let self_overlaps_other = self.contains_point(other.top_left) || self.contains_point(
            other.bottom_right,
        ) || self.contains_point(other_top_right) || self.contains_point(other_bottom_left);

        let other_overlaps_self = other.contains_point(self.top_left) || other.contains_point(
            self.bottom_right,
        ) || other.contains_point(self_top_right) || other.contains_point(self_bottom_left);

        self_overlaps_other || other_overlaps_self
    }

    /// Whether `point` lies in the box, borders included.
    pub fn contains_point(&self, point: Coordinate) -> (b: bool)
        ensures
            b == self.spec_contains_point(point),
    {
        self.top_left.x <= point.x && point.x <= self.bottom_right.x && self.top_left.y <= point.y
            && point.y <= self.bottom_right.y
    }

    /// The number of cells along the side that runs along `axis`: from `x = 3`
    /// to `x = 5` the size is 3.
    pub fn get_axis_size(&self, axis: Axis) -> (n: i32)
        requires
            fits_i32(self.axis_size(axis)),
            fits_i32(self.axis_size(axis) - 1),
        ensures
            n == self.axis_size(axis),
    {
        match axis {
            Axis::Horizontal => self.bottom_right.x - self.top_left.x + 1,
            Axis::Vertical => self.bottom_right.y - self.top_left.y + 1,
        }
    }

    /// The number of cells of the box.
    pub fn get_area(&self) -> (n: i32)
        requires
            fits_i32(self.width()),
            fits_i32(self.width() - 1),
            fits_i32(self.height()),
            fits_i32(self.height() - 1),
            fits_i32(self.area()),
        ensures
            n == self.area(),
    {
        let delta_x: i32 = self.bottom_right.x - self.top_left.x + 1;
        let delta_y: i32 = self.bottom_right.y - self.top_left.y + 1;

        delta_x * delta_y
    }

    /// The number of cells of the box that do not lie on its border: the
    /// area without the walls.
    pub fn get_inner_area(&self) -> (n: i32)
        requires
            fits_i32(self.width() - 1),
            fits_i32(self.width() - 2),
            fits_i32(self.height() - 1),
            fits_i32(self.height() - 2),
            fits_i32(self.inner_area()),
        ensures
            n == self.inner_area(),
    {
        let inner_delta_x: i32 = self.bottom_right.x - self.top_left.x - 1;
        let inner_delta_y: i32 = self.bottom_right.y - self.top_left.y - 1;

        if inner_delta_x <= 0 || inner_delta_y <= 0 {
            return 0;
        }
        inner_delta_x * inner_delta_y
    }
}

/// The four boxes that scan the surroundings of `area` up to `scan_distance`
/// cells away, in the order above, below, left, right. Each is narrowed by
/// `overlap` cells at both ends of the side that it scans. The boxes above and
/// to the left stop at row and column 0 where `scan_distance` reaches beyond it.
pub open spec fn edge_vicinity_boxes(area: BoxExtends, scan_distance: i32, overlap: i32) -> Seq<
    BoxExtends,
> {
    let left = area.top_left.x;
    let top = area.top_left.y;
    let right = area.bottom_right.x;
    let bottom = area.bottom_right.y;
    seq![
        BoxExtends {
            top_left: Coordinate {
                x: (left + overlap) as i32,
                y: if scan_distance <= top { (top - scan_distance) as i32 } else { 0 },
            },
            bottom_right: Coordinate { x: (right - overlap) as i32, y: top },
        },
        BoxExtends {
            top_left: Coordinate { x: (left + overlap) as i32, y: bottom },
            bottom_right: Coordinate { x: (right - overlap) as i32, y: (bottom + scan_distance) as i32 },
        },
        BoxExtends {
            top_left: Coordinate {
                x: if scan_distance <= left { (left - scan_distance) as i32 } else { 0 },
                y: (top + overlap) as i32,
            },
            bottom_right: Coordinate { x: left, y: (bottom - overlap) as i32 },
        },
        BoxExtends {
            top_left: Coordinate { x: right, y: (top + overlap) as i32 },
            bottom_right: Coordinate { x: (right + scan_distance) as i32, y: (bottom - overlap) as i32 },
        },
    ]
}

/// Whether every sum and difference that the scanning boxes need is an `i32`.
pub open spec fn edge_vicinity_in_bounds(area: BoxExtends, scan_distance: i32, overlap: i32) -> bool {
    &&& fits_i32(area.top_left.x + overlap)
    &&& fits_i32(area.top_left.y + overlap)
    &&& fits_i32(area.bottom_right.x - overlap)
    &&& fits_i32(area.bottom_right.y - overlap)
    &&& fits_i32(area.bottom_right.x + scan_distance)
    &&& fits_i32(area.bottom_right.y + scan_distance)
    &&& (scan_distance <= area.top_left.y ==> fits_i32(area.top_left.y - scan_distance))
    &&& (scan_distance <= area.top_left.x ==> fits_i32(area.top_left.x - scan_distance))
}

/// The hit boxes that check the four sides of `area` up to `scan_distance`.
pub fn make_edge_vicinity_boxes(area: &BoxExtends, scan_distance: i32, overlap: i32) -> (boxes: Vec<
    BoxExtends,
>)
    requires
        edge_vicinity_in_bounds(*area, scan_distance, overlap),
    ensures
        boxes@ == edge_vicinity_boxes(*area, scan_distance, overlap),
{
    let above = BoxExtends {
        top_left: Coordinate {
            x: area.top_left.x + overlap,
            y: if scan_distance <= area.top_left.y {
                area.top_left.y - scan_distance
            } else {
                0
            },
        },
        bottom_right: Coordinate { x: area.bottom_right.x - overlap, y: area.top_left.y },
    };

    let below = BoxExtends {
        top_left: Coordinate { x: area.top_left.x + overlap, y: area.bottom_right.y },
        bottom_right: Coordinate {
            x: area.bottom_right.x - overlap,
            y: area.bottom_right.y + scan_distance,
        },
    };

    let left = BoxExtends {
        top_left: Coordinate {
            x: if scan_distance <= area.top_left.x {
                area.top_left.x - scan_distance
            } else {
                0
            },
            y: area.top_left.y + overlap,
        },
        bottom_right: Coordinate { x: area.top_left.x, y: area.bottom_right.y - overlap },
    };

    let right = BoxExtends {
        top_left: Coordinate { x: area.bottom_right.x, y: area.top_left.y + overlap },
        bottom_right: Coordinate {
            x: area.bottom_right.x + scan_distance,
            y: area.bottom_right.y - overlap,
        },
    };

    let mut boxes: Vec<BoxExtends> = Vec::new();
    boxes.push(above);
    boxes.push(below);
    boxes.push(left);
    boxes.push(right);
    assert(boxes@ =~= edge_vicinity_boxes(*area, scan_distance, overlap));
    boxes
}

/// How much a side of length `size` may shrink while keeping `min_side_length`.
pub open spec fn shrink_allowance(size: int, min_side_length: int) -> int {
    if size - min_side_length > 0 {
        size - min_side_length
    } else {
        0
    }
}

/// The box that results from shrinking `area` by `shrink_x` and `shrink_y`
/// cells and moving the result by the two offsets. One cell more is taken off
/// the right and the bottom side.
pub open spec fn subbox(area: BoxExtends, shrink_x: i32, shrink_y: i32, offset_x: i32, offset_y: i32)
    -> BoxExtends {
    BoxExtends {
        top_left: Coordinate {
            x: (area.top_left.x + offset_x) as i32,
            y: (area.top_left.y + offset_y) as i32,
        },
        bottom_right: Coordinate {
            x: (area.bottom_right.x - shrink_x + offset_x - 1) as i32,
            y: (area.bottom_right.y - shrink_y + offset_y - 1) as i32,
        },
    }
}

/// The box inside `area` that the four drawn numbers select: `shrink_x` and
/// `shrink_y` say by how much each side shrinks, the offsets where the smaller
/// box lies within the room that this frees.
pub fn subbox_from_draws(
    area: &BoxExtends,
    shrink_x: i32,
    shrink_y: i32,
    offset_x: i32,
    offset_y: i32,
) -> (b: BoxExtends)
    requires
        0 <= offset_x <= shrink_x,
        0 <= offset_y <= shrink_y,
        fits_i32(area.top_left.x + offset_x),
        fits_i32(area.top_left.y + offset_y),
        fits_i32(area.bottom_right.x - shrink_x),
        fits_i32(area.bottom_right.y - shrink_y),
        fits_i32(area.bottom_right.x - shrink_x + offset_x - 1),
        fits_i32(area.bottom_right.y - shrink_y + offset_y - 1),
    ensures
        b == subbox(*area, shrink_x, shrink_y, offset_x, offset_y),
{
    BoxExtends {
        top_left: Coordinate { x: area.top_left.x + offset_x, y: area.top_left.y + offset_y },
        bottom_right: Coordinate {
            x: area.bottom_right.x - shrink_x + offset_x - 1,
            y: area.bottom_right.y - shrink_y + offset_y - 1,
        },
    }
}

/// The largest distance from an axis at which a box counts as moderate.
pub const MODERATE: i32 = 0x2000_0000;

impl BoxExtends {
    /// Whether the coordinates of the box are small enough for sums and
    /// differences of a few of them to be of type `i32`.
    pub open spec fn spec_moderate(self) -> bool {
        &&& -MODERATE <= self.top_left.x <= MODERATE
        &&& -MODERATE <= self.top_left.y <= MODERATE
        &&& -MODERATE <= self.bottom_right.x <= MODERATE
        &&& -MODERATE <= self.bottom_right.y <= MODERATE
    }

    /// Whether the coordinates of the box are small enough for sums and
    /// differences of a few of them to be of type `i32`.
    pub fn is_moderate(&self) -> (b: bool)
        ensures
            b == self.spec_moderate(),
    {
        -MODERATE <= self.top_left.x && self.top_left.x <= MODERATE && -MODERATE
            <= self.top_left.y && self.top_left.y <= MODERATE && -MODERATE <= self.bottom_right.x
            && self.bottom_right.x <= MODERATE && -MODERATE <= self.bottom_right.y
            && self.bottom_right.y <= MODERATE
    }
}

/// A box within `area`, shrunk by chance along both axes as far as
/// `min_side_length` allows, and placed by chance within the room that this
/// frees. One cell more is taken off the right and the bottom side.
pub fn random_subbox(area: &BoxExtends, min_side_length: i32) -> (b: BoxExtends)
    requires
        area.spec_moderate(),
        0 <= min_side_length <= MODERATE,
    ensures
        exists|shrink_x: i32, shrink_y: i32, offset_x: i32, offset_y: i32|
            0 <= offset_x <= shrink_x && 0 <= offset_y <= shrink_y && shrink_x <= shrink_allowance(
                area.width(),
                min_side_length as int,
            ) && shrink_y <= shrink_allowance(area.height(), min_side_length as int) && b
                == #[trigger] subbox(*area, shrink_x, shrink_y, offset_x, offset_y),
{
    let old_x_size = area.get_axis_size(Axis::Horizontal);
    let old_y_size = area.get_axis_size(Axis::Vertical);
    let shrink_allowance_x: i32 = if old_x_size - min_side_length > 0 {
        old_x_size - min_side_length
    } else {
        0
    };
    let shrink_allowance_y: i32 = if old_y_size - min_side_length > 0 {
        old_y_size - min_side_length
    } else {
        0
    };
    let shrink_x: i32 = if shrink_allowance_x > 0 {
        roll(0, (shrink_allowance_x - 1) as u32) as i32
    } else {
        0
    };
    let shrink_y: i32 = if shrink_allowance_y > 0 {
        roll(0, (shrink_allowance_y - 1) as u32) as i32
    } else {
        0
    };
    let offset_x: i32 = if shrink_x <= 0 {
        0
    } else {
        roll(0, shrink_x as u32) as i32
    };
    let offset_y: i32 = if shrink_y <= 0 {
        0
    } else {
        roll(0, shrink_y as u32) as i32
    };
    subbox_from_draws(area, shrink_x, shrink_y, offset_x, offset_y)
}

/// The axis across which `area` must be cut, where only one of its sides is
/// longer than `SPLIT_THRESHOLD`: that side is cut.
pub fn forced_axis(area: &BoxExtends) -> (axis: Option<Axis>)
    requires
        fits_i32(area.width()),
        fits_i32(area.width() - 1),
        fits_i32(area.height()),
        fits_i32(area.height() - 1),
    ensures
        axis == forced(*area),
{
    let horizontal_size: i32 = area.get_axis_size(Axis::Horizontal);
    let vertical_size: i32 = area.get_axis_size(Axis::Vertical);
    if horizontal_size <= SPLIT_THRESHOLD && vertical_size > SPLIT_THRESHOLD {
        Some(Axis::Vertical)
    } else if horizontal_size > SPLIT_THRESHOLD && vertical_size <= SPLIT_THRESHOLD {
        Some(Axis::Horizontal)
    } else {
        None
    }
}

/// The two halves of `area` when it is cut at `split_point` across `axis`. The
/// row or column of the cut belongs to both halves, so that walls may overlap.
pub open spec fn halves(area: BoxExtends, axis: Axis, split_point: i32) -> (BoxExtends, BoxExtends) {
    match axis {
        Axis::Vertical => (
            BoxExtends {
                top_left: area.top_left,
                bottom_right: Coordinate { x: area.bottom_right.x, y: split_point },
            },
            BoxExtends {
                top_left: Coordinate { x: area.top_left.x, y: split_point },
                bottom_right: area.bottom_right,
            },
        ),
        Axis::Horizontal => (
            BoxExtends {
                top_left: area.top_left,
                bottom_right: Coordinate { x: split_point, y: area.bottom_right.y },
            },
            BoxExtends {
                top_left: Coordinate { x: split_point, y: area.top_left.y },
                bottom_right: area.bottom_right,
            },
        ),
    }
}

/// Whether `area` is too small to be split: both sides at most
/// `SPLIT_THRESHOLD` long.
pub open spec fn too_small_to_split(area: BoxExtends) -> bool {
    area.width() <= SPLIT_THRESHOLD && area.height() <= SPLIT_THRESHOLD
}

/// Splits `area` at `split_point` across `axis`, unless it is too small.
pub fn split_box_at(area: &BoxExtends, axis: Axis, split_point: i32) -> (r: Result<
    (BoxExtends, BoxExtends),
    Error,
>)
    requires
        fits_i32(area.width()),
        fits_i32(area.width() - 1),
        fits_i32(area.height()),
        fits_i32(area.height() - 1),
    ensures
        too_small_to_split(*area)
            ==> r == Err::<(BoxExtends, BoxExtends), Error>(Error::CannotSplit),
        !too_small_to_split(*area) ==> r == Ok::<(BoxExtends, BoxExtends), Error>(
            halves(*area, axis, split_point),
        ),
{
    let horizontal_size: i32 = area.get_axis_size(Axis::Horizontal);
    let vertical_size: i32 = area.get_axis_size(Axis::Vertical);
    if horizontal_size <= SPLIT_THRESHOLD && vertical_size <= SPLIT_THRESHOLD {
        return Err(Error::CannotSplit);
    }
    let (left, top) = (area.top_left.x, area.top_left.y);
    let (right, bottom) = (area.bottom_right.x, area.bottom_right.y);
    match axis {
        Axis::Vertical => {
            let upper = BoxExtends {
                top_left: area.top_left,
                bottom_right: Coordinate { x: right, y: split_point },
            };
            let lower = BoxExtends {
                top_left: Coordinate { x: left, y: split_point },
                bottom_right: area.bottom_right,
            };
            Ok((upper, lower))
        },
        Axis::Horizontal => {
            let left_half = BoxExtends {
                top_left: area.top_left,
                bottom_right: Coordinate { x: split_point, y: bottom },
            };
            let right_half = BoxExtends {
                top_left: Coordinate { x: split_point, y: top },
                bottom_right: area.bottom_right,
            };
            Ok((left_half, right_half))
        },
    }
}

impl Default for BoxExtends {
    fn default() -> (b: BoxExtends)
        ensures
            b.top_left == (Coordinate { x: 0, y: 0 }),
            b.bottom_right == (Coordinate { x: 0, y: 0 }),
    {
        BoxExtends { top_left: Coordinate::zero(), bottom_right: Coordinate::zero() }
    }
}

/// How far from either end a box is cut at least, in thousandths of its
/// side.
pub const LEAST_MARGIN: u32 = 350;

/// The polynomial `6x^5 - 15x^4 + 10x^3` of `x`, both in millionths, with `x`
/// cut to at most one: it rises from nought to one, slowly at both ends, so
/// that a small chance becomes smaller and a large one larger.
pub open spec fn smootherstep(x: nat) -> nat {
    let c: int = if x > 1_000_000 {
        1_000_000
    } else {
        x as int
    };
    let bracket = 6 * (c * c) + 10_000_000_000_000 - 15_000_000 * c;
    if bracket <= 0 {
        0
    } else if c * c * c * bracket / 1_000_000_000_000_000_000_000_000 > 1_000_000 {
        1_000_000
    } else {
        (c * c * c * bracket / 1_000_000_000_000_000_000_000_000) as nat
    }
}

/// The polynomial `6x^5 - 15x^4 + 10x^3` of `x`, both in millionths.
pub fn smootherstep_millionths(x: u32) -> (p: u32)
    ensures
        p == smootherstep(x as nat),
        p <= 1_000_000,
{
    let c: u128 = if x > 1_000_000 {
        1_000_000
    } else {
        x as u128
    };
    assert(c * c <= 1_000_000 * 1_000_000 && c * c * c <= 1_000_000 * 1_000_000 * 1_000_000)
        by (nonlinear_arith)
        requires
            0 <= c <= 1_000_000,
    ;
    let square: u128 = c * c;
    let cube: u128 = square * c;
    let raised: u128 = 6 * square + 10_000_000_000_000;
    let lowered: u128 = 15_000_000 * c;
    if raised <= lowered {
        return 0;
    }
    let bracket: u128 = raised - lowered;
    assert(cube * bracket <= 1_000_000_000_000_000_000 * 16_000_000_000_000) by (nonlinear_arith)
        requires
            0 <= cube <= 1_000_000_000_000_000_000,
            0 <= bracket <= 16_000_000_000_000,
    ;
    let p: u128 = cube * bracket / 1_000_000_000_000_000_000_000_000;
    if p > 1_000_000 {
        1_000_000
    } else {
        p as u32
    }
}

/// The share of the width of `area` in the sum of its sides, in millionths;
/// nought where a side has no cell.
pub open spec fn side_ratio(area: BoxExtends) -> nat {
    if area.width() <= 0 || area.height() <= 0 {
        0
    } else {
        (area.width() * 1_000_000 / (area.width() + area.height())) as nat
    }
}

/// Where `area` is cut across `axis` when the cut is to lie `fraction`
/// thousandths along the side: `fraction` is kept between the least margin
/// and as much below one.
pub open spec fn cut_point(area: BoxExtends, axis: Axis, fraction: u32) -> int {
    let kept: int = if fraction < LEAST_MARGIN {
        LEAST_MARGIN as int
    } else if fraction > 1000 - LEAST_MARGIN {
        1000 - LEAST_MARGIN
    } else {
        fraction as int
    };
    match axis {
        Axis::Vertical => area.top_left.y + kept * area.height() / 1000,
        Axis::Horizontal => area.top_left.x + kept * area.width() / 1000,
    }
}

/// Where `area` is cut across `axis`: see `cut_point`.
fn cut_at(area: &BoxExtends, axis: Axis, fraction: u32) -> (point: i32)
    requires
        fits_i32(area.width()),
        fits_i32(area.width() - 1),
        fits_i32(area.height()),
        fits_i32(area.height() - 1),
        area.axis_size(axis) > 0,
    ensures
        point == cut_point(*area, axis, fraction),
        match axis {
            Axis::Vertical => area.top_left.y <= point <= area.bottom_right.y,
            Axis::Horizontal => area.top_left.x <= point <= area.bottom_right.x,
        },
{
    let kept: i64 = if fraction < LEAST_MARGIN {
        LEAST_MARGIN as i64
    } else if fraction > 1000 - LEAST_MARGIN {
        (1000 - LEAST_MARGIN) as i64
    } else {
        fraction as i64
    };
    let size: i64 = area.get_axis_size(axis) as i64;
    assert(0 <= kept * size <= 650 * size && kept * size / 1000 < size) by (nonlinear_arith)
        requires
            350 <= kept <= 650,
            0 < size <= 0x7fff_ffff,
    ;
    let along: i64 = kept * size / 1000;
    match axis {
        Axis::Vertical => (area.top_left.y as i64 + along) as i32,
        Axis::Horizontal => (area.top_left.x as i64 + along) as i32,
    }
}

/// Splits `area` in two, unless it is too small. Where only one side is
/// long enough, that side is cut. Else the side to cut is chosen by chance:
/// the width with the chance that `smootherstep` makes of its share in the
/// sum of the sides, so that the longer side is cut far more often. The cut
/// lies `fraction` thousandths along the side, kept away from both ends by
/// the least margin.
pub fn split_box(area: &BoxExtends, fraction: u32) -> (r: Result<(BoxExtends, BoxExtends), Error>)
    requires
        fits_i32(area.width()),
        fits_i32(area.width() - 1),
        fits_i32(area.height()),
        fits_i32(area.height() - 1),
    ensures
        too_small_to_split(*area)
            ==> r == Err::<(BoxExtends, BoxExtends), Error>(Error::CannotSplit),
        !too_small_to_split(*area) ==> exists|axis: Axis|
            was_cut(*area, axis, fraction, r),
{
    let horizontal_size: i32 = area.get_axis_size(Axis::Horizontal);
    let vertical_size: i32 = area.get_axis_size(Axis::Vertical);
    if horizontal_size <= SPLIT_THRESHOLD && vertical_size <= SPLIT_THRESHOLD {
        return Err(Error::CannotSplit);
    }
    let axis = match forced_axis(area) {
        Some(axis) => axis,
        None => {
            let total: u64 = horizontal_size as u64 + vertical_size as u64;
            assert(horizontal_size * 1_000_000 / (total as int) <= 1_000_000) by (nonlinear_arith)
                requires
                    0 < horizontal_size <= total,
            ;
            let ratio: u32 = (horizontal_size as u64 * 1_000_000 / total) as u32;
            if random_ratio(smootherstep_millionths(ratio), 1_000_000) {
                Axis::Horizontal
            } else {
                Axis::Vertical
            }
        },
    };
    let split_point = cut_at(area, axis, fraction);
    let r = split_box_at(area, axis, split_point);
    assert(was_cut(*area, axis, fraction, r));
    r
}

/// The axis across which `area` must be cut, where only one of its sides
/// is longer than `SPLIT_THRESHOLD`.
pub open spec fn forced(area: BoxExtends) -> Option<Axis> {
    if area.width() <= SPLIT_THRESHOLD && area.height() > SPLIT_THRESHOLD {
        Some(Axis::Vertical)
    } else if area.width() > SPLIT_THRESHOLD && area.height() <= SPLIT_THRESHOLD {
        Some(Axis::Horizontal)
    } else {
        None
    }
}

/// Whether a cut across `axis` at `point` lies within `area`.
pub open spec fn cuts_within(area: BoxExtends, axis: Axis, point: int) -> bool {
    match axis {
        Axis::Vertical => area.top_left.y <= point <= area.bottom_right.y,
        Axis::Horizontal => area.top_left.x <= point <= area.bottom_right.x,
    }
}

/// The two halves of a box that is cut within it cover the box.
pub proof fn lemma_halves_cover(area: BoxExtends, axis: Axis, point: i32, c: Coordinate)
    requires
        cuts_within(area, axis, point as int),
        area.spec_contains_point(c),
    ensures
        halves(area, axis, point).0.spec_contains_point(c) || halves(
            area,
            axis,
            point,
        ).1.spec_contains_point(c),
{
}

/// Whether `r` is what cutting `area` across `axis`, `fraction` thousandths
/// along the side, comes to, and `axis` is one that may be cut: where only
/// one side is long enough, that side; where chance decides and is certain,
/// the side that it names.
pub open spec fn was_cut(
    area: BoxExtends,
    axis: Axis,
    fraction: u32,
    r: Result<(BoxExtends, BoxExtends), Error>,
) -> bool {
    &&& forced(area) matches Some(a) ==> axis == a
    &&& forced(area) is None && smootherstep(side_ratio(area)) == 0 ==> axis == Axis::Vertical
    &&& forced(area) is None && smootherstep(side_ratio(area)) == 1_000_000 ==> axis
        == Axis::Horizontal
    &&& fits_i32(cut_point(area, axis, fraction))
    &&& cuts_within(area, axis, cut_point(area, axis, fraction))
    &&& r == Ok::<(BoxExtends, BoxExtends), Error>(
        halves(area, axis, cut_point(area, axis, fraction) as i32),
    )
}

} // verus!
