//! # Mathematics
//!
//! Points, axis-aligned boxes and axes, generic over the coordinate type.
use vstd::prelude::*;

verus! {

/// An axis-aligned bounding box.
#[derive(Clone, Copy, Debug, Default, Eq, PartialEq)]
pub struct Aabb2D<V> {
    pub x_min: V,
    pub x_max: V,
    pub y_min: V,
    pub y_max: V,
}

/// A pair of values, one per axis.
#[derive(Clone, Copy, Debug, Eq, Hash, PartialEq)]
pub struct Xy<V> {
    pub x: V,
    pub y: V,
}

impl<V> Xy<V> {
    pub fn new(x: V, y: V) -> (r: Self)
        ensures
            r.x == x,
            r.y == y,
    {
        Self { x, y }
    }
}

impl<V: Copy> Xy<V> {
    /// The value for the given axis: `x` for the horizontal axis, `y` for the
    /// vertical one.
    pub fn value_for_axis(&self, axis: Axis) -> (v: V)
        ensures
            v == axis_value(*self, axis),
    {
        match axis {
            Axis::Horizontal => self.x,
            Axis::Vertical => self.y,
        }
    }
}

/// The value of a pair for the given axis.
pub open spec fn axis_value<V>(xy: Xy<V>, axis: Axis) -> V {
    match axis {
        Axis::Horizontal => xy.x,
        Axis::Vertical => xy.y,
    }
}

#[derive(Copy, Clone, Debug, Eq, PartialEq, Structural)]
pub enum Axis {
    Horizontal,
    Vertical,
}

/// The axis perpendicular to the given one.
pub open spec fn cross_axis(axis: Axis) -> Axis {
    match axis {
        Axis::Horizontal => Axis::Vertical,
        Axis::Vertical => Axis::Horizontal,
    }
}

impl Axis {
    pub fn cross(&self) -> (r: Self)
        ensures
            r == cross_axis(*self),
    {
        match self {
            Axis::Horizontal => Axis::Vertical,
            Axis::Vertical => Axis::Horizontal,
        }
    }

    /// A pair holding `axis_value` on this axis and `cross_value` on the
    /// other one.
    pub fn pack_xy<V>(self, axis_value: V, cross_value: V) -> (r: Xy<V>)
        ensures
            r == (match self {
                Axis::Horizontal => Xy { x: axis_value, y: cross_value },
                Axis::Vertical => Xy { x: cross_value, y: axis_value },
            }),
    {
        match self {
            Self::Horizontal => Xy::new(axis_value, cross_value),
            Self::Vertical => Xy::new(cross_value, axis_value),
        }
    }
}

/// Packing two values along an axis and reading them back gives the value on
/// that axis and, on the crossing axis, the other one; crossing twice gives
/// the same axis back.
pub proof fn lemma_pack_then_read<V>(axis: Axis, axis_value: V, cross_value: V)
    ensures
        cross_axis(cross_axis(axis)) == axis,
        cross_axis(axis) != axis,
        ({
            let xy = match axis {
                Axis::Horizontal => Xy { x: axis_value, y: cross_value },
                Axis::Vertical => Xy { x: cross_value, y: axis_value },
            };
            self::axis_value(xy, axis) == axis_value && self::axis_value(xy, cross_axis(axis))
                == cross_value
        }),
{
}

} // verus!
