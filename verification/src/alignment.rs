//! Alignment values: directional placement markers bound to one axis.

use vstd::prelude::*;

use crate::axes::Axis;

verus! {

/// Where content sits along one axis: at the origin edge, centered, or at
/// the far edge.  The three positions correspond to keeping none, half, or
/// all of the leftover space before the content.
#[derive(Clone, Copy, Debug, PartialEq, Eq, Structural, Hash)]
pub enum AlignPos {
    Start,
    Center,
    End,
}

/// A placement marker bound to one axis at construction; the axis never
/// changes afterwards.
#[derive(Clone, Copy, Debug, PartialEq, Eq, Structural, Hash)]
pub struct Align {
    /// The axis this value applies to.
    pub axis: Axis,
    /// The position along that axis.
    pub pos: AlignPos,
}

/// The signed offset that places an extent of `content` inside an extent of
/// `target`: the leftover space `target - content` scaled by 0, one half, or
/// 1.  A negative leftover (content larger than target) is split the same
/// way, rounding the centered offset towards zero.
pub open spec fn align_offset(pos: AlignPos, target: int, content: int) -> int {
    match pos {
        AlignPos::Start => 0,
        AlignPos::Center => if target >= content {
            (target - content) / 2
        } else {
            -((content - target) / 2)
        },
        AlignPos::End => target - content,
    }
}

impl Align {
    /// Builds a marker for the given axis and position.
    pub fn new(axis: Axis, pos: AlignPos) -> (r: Align)
        ensures
            r == (Align { axis, pos }),
    {
        Align { axis, pos }
    }

    /// The axis this value was constructed for.
    pub fn axis(&self) -> (r: Axis)
        ensures
            r == self.axis,
    {
        self.axis
    }

    /// Resolves the marker to a concrete offset: how far from the origin an
    /// extent of `content` sits inside an extent of `target`.
    pub fn resolve(&self, target: i64, content: i64) -> (r: i64)
        requires
            0 <= target,
            0 <= content,
        ensures
            r == align_offset(self.pos, target as int, content as int),
    {
        match self.pos {
            AlignPos::Start => 0,
            AlignPos::Center => if target >= content {
                (target - content) / 2
            } else {
                -((content - target) / 2)
            },
            AlignPos::End => target - content,
        }
    }
}

} // verus!
