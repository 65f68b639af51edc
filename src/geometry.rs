//! Plane geometry on fixed-point coordinates.
//!
//! A coordinate is an `i64` counting steps of `1 / UNIT` of a layout unit, so
//! one layout unit is `UNIT` steps. Two positions that differ by less than one
//! step are the same position.
use vstd::prelude::*;

verus! {

/// Steps per layout unit (two to the twentieth).
pub const UNIT: i64 = 1048576;

/// A point, or an offset between two points.
#[derive(Clone, Copy, Debug, PartialEq, Eq, Hash, Structural)]
pub struct Point {
    pub x: i64,
    pub y: i64,
}

/// A width and a height.
#[derive(Clone, Copy, Debug, PartialEq, Eq, Hash, Structural)]
pub struct Size {
    pub width: i64,
    pub height: i64,
}

/// An axis-aligned rectangle given by its top-left corner and its size.
#[derive(Clone, Copy, Debug, PartialEq, Eq, Hash, Structural)]
pub struct Rectangle {
    pub x: i64,
    pub y: i64,
    pub width: i64,
    pub height: i64,
}

/// How an element asks to be sized along one axis.
#[derive(Clone, Copy, Debug, PartialEq, Eq, Hash, Structural)]
pub enum Length {
    /// Fill all the remaining space.
    Fill,
    /// Fill a share of the remaining space.
    FillPortion(u16),
    /// Take the least space.
    Shrink,
    /// A fixed number of layout units.
    Units(u16),
}

/// The smallest and largest size an element may take.
#[derive(Clone, Copy, Debug, PartialEq, Eq, Hash, Structural)]
pub struct Limits {
    pub min: Size,
    pub max: Size,
}

/// `v` if it is not negative, else zero.
pub open spec fn floor_zero(v: int) -> int {
    if v < 0 { 0 } else { v }
}

/// `v` brought into the range of `i64`.
pub open spec fn saturate(v: int) -> int {
    if v < i64::MIN { i64::MIN as int } else if v > i64::MAX { i64::MAX as int } else { v }
}

/// `v` brought into the range of `i64`.
pub fn saturating(v: i128) -> (r: i64)
    ensures
        r == saturate(v as int),
{
    if v < i64::MIN as i128 {
        i64::MIN
    } else if v > i64::MAX as i128 {
        i64::MAX
    } else {
        v as i64
    }
}

impl Point {
    pub fn new(x: i64, y: i64) -> (r: Self)
        ensures
            r.x == x,
            r.y == y,
    {
        Point { x, y }
    }

    /// The point at the given whole layout units.
    pub fn from_units(x: i32, y: i32) -> (r: Self)
        ensures
            r.x == x * UNIT,
            r.y == y * UNIT,
    {
        Point { x: x as i64 * UNIT, y: y as i64 * UNIT }
    }

    /// The componentwise difference `self - other`, saturating at the range
    /// of `i64`.
    pub fn minus(self, other: Point) -> (r: Point)
        ensures
            r.x == saturate(self.x - other.x),
            r.y == saturate(self.y - other.y),
    {
        Point {
            x: saturating(self.x as i128 - other.x as i128),
            y: saturating(self.y as i128 - other.y as i128),
        }
    }
}

impl Size {
    pub fn new(width: i64, height: i64) -> (r: Self)
        ensures
            r.width == width,
            r.height == height,
    {
        Size { width, height }
    }
}

impl Rectangle {
    pub fn new(x: i64, y: i64, width: i64, height: i64) -> (r: Self)
        ensures
            r == (Rectangle { x, y, width, height }),
    {
        Rectangle { x, y, width, height }
    }

    /// Whether `p` lies in the rectangle, its edges included.
    pub open spec fn contains_spec(self, p: Point) -> bool {
        self.x <= p.x && p.x <= self.x + self.width && self.y <= p.y && p.y <= self.y
            + self.height
    }

    /// Whether `p` lies in the rectangle, its edges included.
    pub fn contains(&self, p: Point) -> (r: bool)
        ensures
            r == self.contains_spec(p),
    {
        let right = self.x as i128 + self.width as i128;
        let bottom = self.y as i128 + self.height as i128;
        self.x <= p.x && p.x as i128 <= right && self.y <= p.y && p.y as i128 <= bottom
    }

    pub fn position(&self) -> (r: Point)
        ensures
            r.x == self.x,
            r.y == self.y,
    {
        Point { x: self.x, y: self.y }
    }

    pub fn size(&self) -> (r: Size)
        ensures
            r.width == self.width,
            r.height == self.height,
    {
        Size { width: self.width, height: self.height }
    }
}

impl Length {
    /// The fixed extent this length asks for, in steps, if it asks for one.
    pub open spec fn fixed_spec(self) -> Option<int> {
        match self {
            Length::Units(u) => Some(u * UNIT),
            _ => None,
        }
    }

    pub fn fixed(&self) -> (r: Option<i64>)
        ensures
            r.is_some() == self.fixed_spec().is_some(),
            r.is_some() ==> r.unwrap() == self.fixed_spec().unwrap(),
    {
        match self {
            Length::Units(u) => Some(*u as i64 * UNIT),
            _ => None,
        }
    }
}

impl Limits {
    pub fn new(min: Size, max: Size) -> (r: Self)
        ensures
            r.min == min,
            r.max == max,
    {
        Limits { min, max }
    }
}

} // verus!
