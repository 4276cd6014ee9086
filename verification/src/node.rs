//! Content nodes and the uniform layout capability.

use vstd::prelude::*;

use crate::align::{align_pod, align_child_styles, spec_align_layout, AlignNode};
use crate::axes::{axes_int, Axes};
use crate::frame::{frame_model, Frame, FrameModel, ItemModel};
use crate::regions::{Regions, RegionsModel};
use crate::styles::{StyleChain, StyleEntry};

verus! {

/// Shared read-only collaborator state (fonts, caches) handed through every
/// layout call.  The nodes of this core read nothing from it, so a layout
/// result depends on the regions and styles alone.
#[derive(Debug)]
pub struct Context {}

impl Context {
    /// Builds an empty context.
    pub fn new() -> Context {
        Context {}
    }
}

/// Failure of a layout call: an invariant of the layout contract cannot be
/// met.
#[derive(Clone, Copy, Debug, PartialEq, Eq, Structural, Hash)]
pub enum LayoutError {
    /// More regions are needed than the sequence provides.  The failure is
    /// reported, not retried: only the pagination driver can supply more
    /// regions and must decide policy.
    RegionsExhausted,
}

/// A unit of document structure: a polymorphic value holding exactly one
/// concrete node kind, each implementing the layout capability.  Children
/// are owned exclusively by their parent.
#[derive(Debug, PartialEq, Eq, Hash)]
pub enum LayoutNode {
    /// A leaf placing content of a known natural size.
    Leaf(LeafNode),
    /// A composite node repositioning its child's frames.
    Align(Box<AlignNode>),
}

/// A leaf node placing one piece of content per consumed region, each with a
/// known natural size.  It consumes exactly one region per recorded size, in
/// order, and reports region exhaustion when fewer regions are offered.
#[derive(Debug, PartialEq, Eq, Hash)]
pub struct LeafNode {
    /// The content's natural size in each consumed region, in order.
    pub natural: Vec<Axes<i64>>,
    /// Identifies this leaf's content in the produced frames.
    pub id: u64,
}

impl LeafNode {
    /// At least one region is consumed and natural sizes are non-negative.
    pub open spec fn wf(self) -> bool {
        &&& 1 <= self.natural@.len()
        &&& forall|i: int|
            0 <= i < self.natural@.len() ==> 0 <= (#[trigger] self.natural@[i]).x && 0
                <= self.natural@[i].y
    }

    /// Builds a leaf from its natural sizes.
    pub fn new(natural: Vec<Axes<i64>>, id: u64) -> (r: LeafNode)
        requires
            1 <= natural@.len(),
            forall|i: int|
                0 <= i < natural@.len() ==> 0 <= (#[trigger] natural@[i]).x && 0 <= natural@[i].y,
        ensures
            r == (LeafNode { natural, id }),
            r.wf(),
    {
        LeafNode { natural, id }
    }
}

impl LayoutNode {
    /// Every node along the tree is well-formed.
    pub open spec fn wf(self) -> bool
        decreases self,
    {
        match self {
            LayoutNode::Leaf(leaf) => leaf.wf(),
            LayoutNode::Align(node) => node.wf(),
        }
    }
}

/// The extent a leaf frame takes on one axis: the region's extent where the
/// region must be filled, else the natural extent clamped to the region.
pub open spec fn leaf_extent(natural: int, region: int, expand: bool) -> int {
    if expand {
        region
    } else if natural < region {
        natural
    } else {
        region
    }
}

/// Model of the frame a leaf produces for one region: the per-axis extent
/// and a single content element at the origin.
pub open spec fn leaf_frame_model(
    natural: Axes<int>,
    region: Axes<int>,
    expand: Axes<bool>,
    id: u64,
) -> FrameModel {
    FrameModel {
        size: Axes {
            x: leaf_extent(natural.x, region.x, expand.x),
            y: leaf_extent(natural.y, region.y, expand.y),
        },
        items: seq![ItemModel::Content { offset: Axes { x: 0, y: 0 }, id }],
    }
}

/// Model of a leaf's layout: one frame per recorded natural size, or region
/// exhaustion when more sizes are recorded than regions offered.
pub open spec fn spec_leaf_layout(leaf: LeafNode, regions: RegionsModel) -> Result<
    Seq<FrameModel>,
    LayoutError,
> {
    if leaf.natural@.len() > regions.count() {
        Err(LayoutError::RegionsExhausted)
    } else {
        Ok(
            Seq::new(
                leaf.natural@.len(),
                |i: int|
                    leaf_frame_model(
                        axes_int(leaf.natural@[i]),
                        regions.sizes()[i],
                        regions.expand,
                        leaf.id,
                    ),
            ),
        )
    }
}

/// Model of a node's layout: what the layout capability returns, as a pure
/// function of the node, the regions and the styles.
pub open spec fn spec_layout(
    node: LayoutNode,
    regions: RegionsModel,
    styles: Seq<Seq<StyleEntry>>,
) -> Result<Seq<FrameModel>, LayoutError>
    decreases node,
{
    match node {
        LayoutNode::Leaf(leaf) => spec_leaf_layout(leaf, regions),
        LayoutNode::Align(node) => spec_align_layout(*node, regions, styles),
    }
}

/// The models of a sequence of frames, in order.
pub open spec fn frames_model(frames: Seq<Frame>) -> Seq<FrameModel> {
    Seq::new(frames.len(), |i: int| frame_model(frames[i]))
}

/// All frames in the sequence are well-formed.
pub open spec fn frames_wf(frames: Seq<Frame>) -> bool {
    forall|i: int| 0 <= i < frames.len() ==> (#[trigger] frames[i]).wf()
}

/// The executable result agrees with the model: the same error, or frames
/// whose models are exactly the modelled frames.
pub open spec fn layout_matches(
    r: Result<Vec<Frame>, LayoutError>,
    m: Result<Seq<FrameModel>, LayoutError>,
) -> bool {
    match r {
        Ok(frames) => m == Ok::<Seq<FrameModel>, LayoutError>(frames_model(frames@)),
        Err(e) => m == Err::<Seq<FrameModel>, LayoutError>(e),
    }
}

/// One frame respects one region: non-negative extents, exactly the region's
/// extent on an axis that must be filled, and at most the region's extent on
/// an axis that need not be.
pub open spec fn frame_respects_region(
    frame: FrameModel,
    region: Axes<int>,
    expand: Axes<bool>,
) -> bool {
    &&& 0 <= frame.size.x
    &&& 0 <= frame.size.y
    &&& if expand.x {
        frame.size.x == region.x
    } else {
        frame.size.x <= region.x
    }
    &&& if expand.y {
        frame.size.y == region.y
    } else {
        frame.size.y <= region.y
    }
}

/// The uniform layout contract: a successful layout consumes at least one
/// and at most all offered regions, and each returned frame respects the
/// expand flags of the region it was laid into.
pub proof fn lemma_layout_capability(
    node: LayoutNode,
    regions: RegionsModel,
    styles: Seq<Seq<StyleEntry>>,
)
    requires
        node.wf(),
        regions.wf(),
    ensures
        spec_layout(node, regions, styles) matches Ok(frames) ==> {
            &&& 1 <= frames.len() <= regions.count()
            &&& forall|i: int|
                0 <= i < frames.len() ==> frame_respects_region(
                    #[trigger] frames[i],
                    regions.sizes()[i],
                    regions.expand,
                )
        },
    decreases node,
{
    match node {
        LayoutNode::Leaf(leaf) => {
            if spec_leaf_layout(leaf, regions) is Ok {
                let frames = spec_leaf_layout(leaf, regions).unwrap();
                assert forall|i: int| 0 <= i < frames.len() implies frame_respects_region(
                    #[trigger] frames[i],
                    regions.sizes()[i],
                    regions.expand,
                ) by {
                    assert(0 <= regions.sizes()[i].x && 0 <= regions.sizes()[i].y);
                    assert(0 <= leaf.natural@[i].x && 0 <= leaf.natural@[i].y);
                }
            }
        },
        LayoutNode::Align(bx) => {
            let anode = *bx;
            let pod = align_pod(regions, anode.aligns);
            let child_styles = align_child_styles(styles, anode.aligns);
            assert(pod.sizes() =~= regions.sizes());
            lemma_layout_capability(anode.child, pod, child_styles);
            if spec_layout(anode.child, pod, child_styles) is Ok {
                let child_frames = spec_layout(anode.child, pod, child_styles).unwrap();
                let frames = spec_layout(node, regions, styles).unwrap();
                assert forall|i: int| 0 <= i < frames.len() implies frame_respects_region(
                    #[trigger] frames[i],
                    regions.sizes()[i],
                    regions.expand,
                ) by {
                    assert(frame_respects_region(child_frames[i], pod.sizes()[i], pod.expand));
                }
            }
        },
    }
}

/// Layout is a pure function of the node, the regions and the styles: two
/// layout results for identical inputs agree — on success the frames have
/// identical models (identical size and element placement), on failure the
/// error is the same.
pub proof fn lemma_layout_deterministic(
    r1: Result<Vec<Frame>, LayoutError>,
    r2: Result<Vec<Frame>, LayoutError>,
    node: LayoutNode,
    regions: RegionsModel,
    styles: Seq<Seq<StyleEntry>>,
)
    requires
        layout_matches(r1, spec_layout(node, regions, styles)),
        layout_matches(r2, spec_layout(node, regions, styles)),
    ensures
        r1 is Ok <==> r2 is Ok,
        r1 matches Ok(f1) ==> (r2 matches Ok(f2) ==> frames_model(f1@) == frames_model(f2@)),
        r1 matches Err(e1) ==> (r2 matches Err(e2) ==> e1 == e2),
{
}

impl LayoutNode {
    /// Lays this node out into the given regions under the given styles: the
    /// uniform operation every node kind implements.  The result is a pure
    /// function of the node, the regions and the styles — two calls with
    /// identical inputs yield frames with identical size and placement.
    pub fn layout(&self, ctx: &Context, regions: &Regions, styles: &StyleChain) -> (r: Result<
        Vec<Frame>,
        LayoutError,
    >)
        requires
            self.wf(),
            regions.wf(),
        ensures
            layout_matches(r, spec_layout(*self, regions@, styles@)),
            r matches Ok(frames) ==> frames_wf(frames@),
        decreases *self,
    {
        match self {
            LayoutNode::Leaf(leaf) => leaf.layout(ctx, regions, styles),
            LayoutNode::Align(node) => node.layout(ctx, regions, styles),
        }
    }
}

impl LeafNode {
    /// Lays the leaf out: one frame per recorded natural size, each sized by
    /// the region's expand flags, with the content placed at the origin.
    pub fn layout(&self, _ctx: &Context, regions: &Regions, _styles: &StyleChain) -> (r: Result<
        Vec<Frame>,
        LayoutError,
    >)
        requires
            self.wf(),
            regions.wf(),
        ensures
            layout_matches(r, spec_leaf_layout(*self, regions@)),
            r matches Ok(frames) ==> frames_wf(frames@),
    {
        if self.natural.len() - 1 > regions.backlog.len() {
            return Err(LayoutError::RegionsExhausted);
        }
        let sizes = regions.iter();
        let mut frames: Vec<Frame> = Vec::new();
        let mut i: usize = 0;
        while i < self.natural.len()
            invariant
                self.wf(),
                regions.wf(),
                i <= self.natural@.len(),
                self.natural@.len() <= sizes@.len(),
                sizes@.len() == regions@.count(),
                forall|j: int|
                    0 <= j < sizes@.len() ==> axes_int(#[trigger] sizes@[j]) == regions@.sizes()[j],
                frames@.len() == i,
                forall|j: int|
                    0 <= j < i ==> frame_model(#[trigger] frames@[j]) == leaf_frame_model(
                        axes_int(self.natural@[j]),
                        regions@.sizes()[j],
                        regions@.expand,
                        self.id,
                    ),
                forall|j: int| 0 <= j < i ==> (#[trigger] frames@[j]).wf(),
            decreases self.natural@.len() - i,
        {
            let size = self.natural[i];
            let region = sizes[i];
            proof {
                assert(0 <= regions@.sizes()[i as int].x && 0 <= regions@.sizes()[i as int].y);
                assert(0 <= size.x && 0 <= size.y);
            }
            let w = if regions.expand.x {
                region.x
            } else if size.x < region.x {
                size.x
            } else {
                region.x
            };
            let h = if regions.expand.y {
                region.y
            } else if size.y < region.y {
                size.y
            } else {
                region.y
            };
            let mut frame = Frame::new(Axes { x: w, y: h });
            frame.push_item(Axes { x: 0, y: 0 }, self.id);
            proof {
                assert(frame_model(frame).items =~= leaf_frame_model(
                    axes_int(self.natural@[i as int]),
                    regions@.sizes()[i as int],
                    regions@.expand,
                    self.id,
                ).items);
            }
            frames.push(frame);
            i += 1;
        }
        proof {
            assert(frames_model(frames@) =~= spec_leaf_layout(*self, regions@).unwrap());
        }
        Ok(frames)
    }
}

} // verus!
