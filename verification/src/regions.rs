//! Region sequences: the available-space abstraction.

use vstd::prelude::*;

use crate::axes::{axes_int, Axes};

verus! {

/// Mathematical model of a region sequence.
#[verifier::ext_equal]
pub struct RegionsModel {
    pub active: Axes<int>,
    pub backlog: Seq<Axes<int>>,
    pub expand: Axes<bool>,
    pub reference: Axes<int>,
}

impl RegionsModel {
    /// All candidate sizes in consumption order, the active region first.
    pub open spec fn sizes(self) -> Seq<Axes<int>> {
        seq![self.active] + self.backlog
    }

    /// How many regions are currently known.
    pub open spec fn count(self) -> int {
        1 + self.backlog.len() as int
    }

    /// All candidate sizes are non-negative on both axes.
    pub open spec fn wf(self) -> bool {
        forall|i: int|
            0 <= i < self.sizes().len() ==> 0 <= (#[trigger] self.sizes()[i]).x && 0
                <= self.sizes()[i].y
    }
}

/// The sequence of spaces a node may lay content into: the size available
/// right now, a backlog of sizes for subsequent regions (pagination), the
/// per-axis must-fill flags, and the size relative units resolve against.
///
/// A node consumes regions strictly in order, never skipping or reordering.
pub struct Regions {
    /// The size available right now.
    pub active: Axes<i64>,
    /// Sizes of the regions a node may request next, in consumption order.
    pub backlog: Vec<Axes<i64>>,
    /// Per axis: must a frame fill the region exactly (`true`), or may it be
    /// smaller (`false`)?
    pub expand: Axes<bool>,
    /// The size that relative units resolve against; independent of `expand`.
    pub reference: Axes<i64>,
}

impl View for Regions {
    type V = RegionsModel;

    open spec fn view(&self) -> RegionsModel {
        RegionsModel {
            active: axes_int(self.active),
            backlog: Seq::new(self.backlog@.len(), |i: int| axes_int(self.backlog@[i])),
            expand: self.expand,
            reference: axes_int(self.reference),
        }
    }
}

impl Regions {
    /// All candidate sizes are non-negative on both axes.
    pub open spec fn wf(self) -> bool {
        self@.wf()
    }

    /// Builds a region sequence from one active size, a backlog, and flags.
    pub fn new(active: Axes<i64>, backlog: Vec<Axes<i64>>, expand: Axes<bool>, reference: Axes<
        i64,
    >) -> (r: Regions)
        ensures
            r == (Regions { active, backlog, expand, reference }),
    {
        Regions { active, backlog, expand, reference }
    }

    /// A region sequence of one region: the whole page or box.
    pub fn one(size: Axes<i64>, expand: Axes<bool>) -> (r: Regions)
        ensures
            r@.active == axes_int(size),
            r@.backlog == Seq::<Axes<int>>::empty(),
            r@.expand == expand,
            r@.reference == axes_int(size),
    {
        let r = Regions { active: size, backlog: Vec::new(), expand, reference: size };
        proof {
            assert(r@.backlog =~= Seq::<Axes<int>>::empty());
        }
        r
    }

    /// A snapshot of every currently known region size, one entry per region,
    /// in consumption order.  The sequence itself is not changed.
    pub fn iter(&self) -> (r: Vec<Axes<i64>>)
        ensures
            r@.len() == self@.count(),
            forall|i: int| 0 <= i < r@.len() ==> axes_int(#[trigger] r@[i]) == self@.sizes()[i],
    {
        let mut r: Vec<Axes<i64>> = Vec::new();
        r.push(self.active);
        let mut i: usize = 0;
        while i < self.backlog.len()
            invariant
                i <= self.backlog.len(),
                r@.len() == 1 + i,
                forall|j: int| 0 <= j < r@.len() ==> axes_int(#[trigger] r@[j]) == self@.sizes()[j],
            decreases self.backlog.len() - i,
        {
            r.push(self.backlog[i]);
            i += 1;
        }
        r
    }

    /// An identical region sequence, except that `expand` is ANDed with
    /// `mask`: composite nodes use this to relax the fill requirement on axes
    /// they will control themselves.
    pub fn with_expand_mask(&self, mask: Axes<bool>) -> (r: Regions)
        ensures
            r@ == (RegionsModel {
                active: self@.active,
                backlog: self@.backlog,
                expand: Axes { x: self@.expand.x && mask.x, y: self@.expand.y && mask.y },
                reference: self@.reference,
            }),
    {
        let mut backlog: Vec<Axes<i64>> = Vec::new();
        let mut i: usize = 0;
        while i < self.backlog.len()
            invariant
                i <= self.backlog.len(),
                backlog@.len() == i,
                forall|j: int| 0 <= j < i ==> backlog@[j] == self.backlog@[j],
            decreases self.backlog.len() - i,
        {
            backlog.push(self.backlog[i]);
            i += 1;
        }
        let r = Regions {
            active: self.active,
            backlog,
            expand: self.expand.and(mask),
            reference: self.reference,
        };
        proof {
            assert(r@.backlog =~= self@.backlog);
        }
        r
    }
}

} // verus!
