//! Generic per-axis value pairs.

use vstd::prelude::*;

verus! {

/// One of the two layouting directions.
#[derive(Clone, Copy, Debug, PartialEq, Eq, Structural, Hash)]
pub enum Axis {
    Horizontal,
    Vertical,
}

/// A container pairing a horizontal and a vertical value of the same type.
///
/// Pairs are the foundation for sizes, alignments and expand flags.  Every
/// operation acts on the two components independently; none couples the axes.
#[derive(Clone, Copy, Debug, PartialEq, Eq, Hash)]
pub struct Axes<T> {
    /// The value along the horizontal axis.
    pub x: T,
    /// The value along the vertical axis.
    pub y: T,
}

impl<T> Axes<T> {
    /// The pair with `f` applied to each component independently.
    pub open spec fn spec_map<U>(self, f: spec_fn(T) -> U) -> Axes<U> {
        Axes { x: f(self.x), y: f(self.y) }
    }

    /// Applies `f` to both components, producing a new pair.
    pub fn map<U, F: Fn(T) -> U>(self, f: F) -> (r: Axes<U>)
        requires
            call_requires(f, (self.x,)),
            call_requires(f, (self.y,)),
        ensures
            call_ensures(f, (self.x,), r.x),
            call_ensures(f, (self.y,), r.y),
    {
        let Axes { x, y } = self;
        Axes { x: f(x), y: f(y) }
    }

    /// Pairs this pair's components with `other`'s, per axis.
    pub fn zip<U>(self, other: Axes<U>) -> (r: Axes<(T, U)>)
        ensures
            r.x == (self.x, other.x),
            r.y == (self.y, other.y),
    {
        let Axes { x, y } = self;
        let Axes { x: ox, y: oy } = other;
        Axes { x: (x, ox), y: (y, oy) }
    }

    /// Reads the component for the given axis.
    pub open spec fn spec_get(self, axis: Axis) -> T {
        match axis {
            Axis::Horizontal => self.x,
            Axis::Vertical => self.y,
        }
    }

    /// Replaces the component for the given axis.
    pub fn set(&mut self, axis: Axis, value: T)
        ensures
            final(self).spec_get(axis) == value,
            final(self).spec_get(axis.spec_other()) == old(self).spec_get(axis.spec_other()),
    {
        match axis {
            Axis::Horizontal => self.x = value,
            Axis::Vertical => self.y = value,
        }
    }
}

/// The pair widened to mathematical integers.
pub open spec fn axes_int(a: Axes<i64>) -> Axes<int> {
    Axes { x: a.x as int, y: a.y as int }
}

impl Axis {
    /// The other axis.
    pub open spec fn spec_other(self) -> Axis {
        match self {
            Axis::Horizontal => Axis::Vertical,
            Axis::Vertical => Axis::Horizontal,
        }
    }

    /// The other axis.
    pub fn other(self) -> (r: Axis)
        ensures
            r == self.spec_other(),
    {
        match self {
            Axis::Horizontal => Axis::Vertical,
            Axis::Vertical => Axis::Horizontal,
        }
    }
}

/// Functor law for axis pairs: mapping with `f` and then with `g` is the same
/// as mapping once with the composition of `f` and `g`.
pub proof fn lemma_map_map<T, U, V>(p: Axes<T>, f: spec_fn(T) -> U, g: spec_fn(U) -> V)
    ensures
        p.spec_map(f).spec_map(g) == p.spec_map(|v: T| g(f(v))),
{
    assert(p.spec_map(|v: T| g(f(v))).x == g(f(p.x)));
    assert(p.spec_map(|v: T| g(f(v))).y == g(f(p.y)));
}

impl<T> Axes<Option<T>> {
    /// Reports, per axis, whether the component is unset.
    pub fn map_is_none(&self) -> (r: Axes<bool>)
        ensures
            r.x == (self.x is None),
            r.y == (self.y is None),
    {
        Axes { x: self.x.is_none(), y: self.y.is_none() }
    }

    /// Substitutes `default`'s component on each unset axis.
    pub fn unwrap_or(self, default: Axes<T>) -> (r: Axes<T>)
        ensures
            self.x matches Some(v) ==> r.x == v,
            self.x is None ==> r.x == default.x,
            self.y matches Some(v) ==> r.y == v,
            self.y is None ==> r.y == default.y,
    {
        let Axes { x, y } = self;
        Axes {
            x: match x {
                Some(v) => v,
                None => default.x,
            },
            y: match y {
                Some(v) => v,
                None => default.y,
            },
        }
    }
}

impl Axes<bool> {
    /// Per-axis conjunction, used to mask expand flags.
    pub fn and(self, other: Axes<bool>) -> (r: Axes<bool>)
        ensures
            r.x == (self.x && other.x),
            r.y == (self.y && other.y),
    {
        Axes { x: self.x && other.x, y: self.y && other.y }
    }

    /// Chooses `a`'s component where the flag is set, else `b`'s.
    pub fn select<T>(self, a: Axes<T>, b: Axes<T>) -> (r: Axes<T>)
        ensures
            r.x == if self.x {
                a.x
            } else {
                b.x
            },
            r.y == if self.y {
                a.y
            } else {
                b.y
            },
    {
        Axes { x: if self.x { a.x } else { b.x }, y: if self.y { a.y } else { b.y } }
    }
}

} // verus!
