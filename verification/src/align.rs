//! The alignment node: a composite node that adjusts how its child claims
//! space and where the child's frames sit inside the granted regions.

use vstd::prelude::*;

use crate::alignment::{Align, AlignPos};
use crate::args::{
    lemma_named_node_wf, lemma_positional_node_wf, spec_expect_node, spec_parsed_aligns, Args,
    ConstructError,
};
use crate::axes::{axes_int, Axes, Axis};
use crate::frame::{frame_model, resized_model, Frame, FrameModel};
use crate::node::{
    frames_model, frames_wf, layout_matches, lemma_layout_capability, spec_layout, Context,
    LayoutError, LayoutNode,
};
use crate::regions::{Regions, RegionsModel};
use crate::styles::{StyleChain, StyleEntry, StyleMap, StyleValue, PAR_ALIGN};

verus! {

/// Aligns a child node along the layouting axes.
#[derive(Debug, PartialEq, Eq, Hash)]
pub struct AlignNode {
    /// How to align the child horizontally and vertically.  An unset axis
    /// means: inherit the region's fill requirement and do not reposition.
    pub aligns: Axes<Option<Align>>,
    /// The node to be aligned.
    pub child: LayoutNode,
}

impl AlignNode {
    /// Each set alignment is bound to the axis it sits on, and the child is
    /// well-formed.
    pub open spec fn wf(self) -> bool
        decreases self,
    {
        &&& (self.aligns.x matches Some(a) ==> a.axis == Axis::Horizontal)
        &&& (self.aligns.y matches Some(a) ==> a.axis == Axis::Vertical)
        &&& self.child.wf()
    }
}

impl LayoutNode {
    /// Wraps this node in an alignment node.
    pub fn aligned(self, aligns: Axes<Option<Align>>) -> (r: LayoutNode)
        ensures
            r matches LayoutNode::Align(node) && node.aligns == aligns && node.child == self,
    {
        LayoutNode::Align(Box::new(AlignNode { aligns, child: self }))
    }
}

/// The regions handed to the child: expand is kept only on axes with no
/// alignment set, so that the child reports its natural extent on the axes
/// this node will position itself.
pub open spec fn align_pod(regions: RegionsModel, aligns: Axes<Option<Align>>) -> RegionsModel {
    RegionsModel {
        active: regions.active,
        backlog: regions.backlog,
        expand: Axes {
            x: regions.expand.x && aligns.x is None,
            y: regions.expand.y && aligns.y is None,
        },
        reference: regions.reference,
    }
}

/// The styles handed to the child: a set horizontal alignment is passed down
/// as the paragraph alignment, in a fresh scope linked in front; a vertical
/// alignment injects no style.
pub open spec fn align_child_styles(
    styles: Seq<Seq<StyleEntry>>,
    aligns: Axes<Option<Align>>,
) -> Seq<Seq<StyleEntry>> {
    match aligns.x {
        Some(a) => seq![seq![StyleEntry { key: PAR_ALIGN, value: StyleValue::Alignment(a) }]]
            + styles,
        None => styles,
    }
}

/// The alignments used for placement: unset axes default to the start of
/// their own axis.
pub open spec fn align_defaults(aligns: Axes<Option<Align>>) -> Axes<Align> {
    Axes {
        x: match aligns.x {
            Some(a) => a,
            None => Align { axis: Axis::Horizontal, pos: AlignPos::Start },
        },
        y: match aligns.y {
            Some(a) => a,
            None => Align { axis: Axis::Vertical, pos: AlignPos::Start },
        },
    }
}

/// The size a child frame is aligned into: the region's extent on axes the
/// original region had to be filled on, the frame's own extent elsewhere (a
/// shrink-to-fit axis is never inflated).
pub open spec fn align_target(
    region: Axes<int>,
    frame_size: Axes<int>,
    expand: Axes<bool>,
) -> Axes<int> {
    Axes {
        x: if expand.x {
            region.x
        } else {
            frame_size.x
        },
        y: if expand.y {
            region.y
        } else {
            frame_size.y
        },
    }
}

/// The child's frames after placement: each resized to its target, under the
/// original (pre-override) expand flags, in order.
pub open spec fn align_finish(
    frames: Seq<FrameModel>,
    regions: RegionsModel,
    aligns: Axes<Option<Align>>,
) -> Seq<FrameModel> {
    Seq::new(
        frames.len(),
        |i: int|
            resized_model(
                frames[i],
                align_target(regions.sizes()[i], frames[i].size, regions.expand),
                align_defaults(aligns),
            ),
    )
}

/// Model of the alignment node's layout: lay the child out into the relaxed
/// regions under the augmented styles, then place each resulting frame.
pub open spec fn spec_align_layout(
    node: AlignNode,
    regions: RegionsModel,
    styles: Seq<Seq<StyleEntry>>,
) -> Result<Seq<FrameModel>, LayoutError>
    decreases node,
{
    match spec_layout(
        node.child,
        align_pod(regions, node.aligns),
        align_child_styles(styles, node.aligns),
    ) {
        Ok(frames) => Ok(align_finish(frames, regions, node.aligns)),
        Err(e) => Err(e),
    }
}

impl AlignNode {
    /// Lays the child out into the relaxed regions under the augmented
    /// styles, then aligns each returned frame in its region's target size.
    /// The child decides how many regions it consumes; this node does not
    /// second-guess that count.
    pub fn layout(&self, ctx: &Context, regions: &Regions, styles: &StyleChain) -> (r: Result<
        Vec<Frame>,
        LayoutError,
    >)
        requires
            self.wf(),
            regions.wf(),
        ensures
            layout_matches(r, spec_align_layout(*self, regions@, styles@)),
            r matches Ok(frames) ==> frames_wf(frames@),
        decreases *self,
    {
        // The child only needs to fill an axis when no alignment is set on it.
        let pod = regions.with_expand_mask(self.aligns.map_is_none());
        proof {
            assert(pod@ == align_pod(regions@, self.aligns));
            assert(pod@.sizes() =~= regions@.sizes());
        }
        // Pass a set horizontal alignment down to paragraphs inside the child.
        let chained: Option<StyleChain> = match &self.aligns.x {
            Some(align) => {
                let mut scope = StyleMap::new();
                scope.set(PAR_ALIGN, StyleValue::Alignment(*align));
                proof {
                    assert(scope@ =~= seq![
                        StyleEntry { key: PAR_ALIGN, value: StyleValue::Alignment(*align) }
                    ]);
                }
                Some(scope.chain(styles))
            },
            None => None,
        };
        let child_styles: &StyleChain = match &chained {
            Some(c) => c,
            None => styles,
        };
        proof {
            assert(child_styles@ =~= align_child_styles(styles@, self.aligns));
        }
        // Lay out the child; it consumes as many regions as it needs.
        let mut frames = match self.child.layout(ctx, &pod, child_styles) {
            Ok(frames) => frames,
            Err(e) => {
                return Err(e);
            },
        };
        proof {
            lemma_layout_capability(self.child, pod@, child_styles@);
        }
        let ghost child_frames = frames@;
        let sizes = regions.iter();
        let defaults = Axes {
            x: Align { axis: Axis::Horizontal, pos: AlignPos::Start },
            y: Align { axis: Axis::Vertical, pos: AlignPos::Start },
        };
        let aligns = self.aligns.unwrap_or(defaults);
        proof {
            assert(aligns == align_defaults(self.aligns));
        }
        // Align each frame in its region's target size.
        let mut out: Vec<Frame> = Vec::new();
        proof {
            assert(child_frames.skip(0) =~= child_frames);
        }
        while frames.len() > 0
            invariant
                regions.wf(),
                out@.len() + frames@.len() == child_frames.len(),
                frames@ == child_frames.skip(out@.len() as int),
                child_frames.len() <= sizes@.len(),
                sizes@.len() == regions@.count(),
                forall|j: int|
                    0 <= j < sizes@.len() ==> axes_int(#[trigger] sizes@[j])
                        == regions@.sizes()[j],
                frames_wf(child_frames),
                aligns == align_defaults(self.aligns),
                forall|j: int|
                    0 <= j < out@.len() ==> frame_model(#[trigger] out@[j]) == align_finish(
                        frames_model(child_frames),
                        regions@,
                        self.aligns,
                    )[j],
                forall|j: int| 0 <= j < out@.len() ==> (#[trigger] out@[j]).wf(),
            decreases frames@.len(),
        {
            let idx = out.len();
            let mut frame = frames.remove(0);
            proof {
                assert(frame == child_frames[idx as int]);
                assert(frames@ =~= child_frames.skip(idx + 1));
                assert(frame.wf());
            }
            let region = sizes[idx];
            let target = regions.expand.select(region, frame.size);
            proof {
                assert(0 <= regions@.sizes()[idx as int].x && 0 <= regions@.sizes()[idx as int].y);
                assert(axes_int(target) == align_target(
                    regions@.sizes()[idx as int],
                    frame_model(frame).size,
                    regions@.expand,
                ));
            }
            frame.resize(target, aligns);
            out.push(frame);
        }
        proof {
            assert(child_frames.skip(out@.len() as int).len() == 0);
            assert(frames_model(out@) =~= align_finish(
                frames_model(child_frames),
                regions@,
                self.aligns,
            ));
        }
        Ok(out)
    }

    /// Builds an aligned node from constructor arguments: an optional
    /// alignment argument (a single value broadcast onto its own axis, or an
    /// explicit two-axis pair) and a required child node argument named
    /// `body`.  Fails, and produces no node, when the child is absent or the
    /// alignment shape is not recognized.
    pub fn construct(_ctx: &Context, args: Args) -> (r: Result<LayoutNode, ConstructError>)
        requires
            args.wf(),
        ensures
            match r {
                Ok(node) => {
                    &&& spec_parsed_aligns(args.items@) matches Some(aligns) && (node matches
                    LayoutNode::Align(n) && n.aligns == aligns && spec_expect_node(args.items@)
                        == Some(n.child))
                },
                Err(ConstructError::InvalidAlignment) => spec_parsed_aligns(args.items@) is None,
                Err(ConstructError::MissingArgument) => spec_parsed_aligns(args.items@) is Some
                    && spec_expect_node(args.items@) is None,
            },
            r matches Ok(node) ==> node.wf(),
    {
        let aligns = match args.find_aligns() {
            Ok(Some(aligns)) => aligns,
            Ok(None) => Axes { x: None, y: None },
            Err(e) => {
                return Err(e);
            },
        };
        proof {
            lemma_positional_node_wf(args);
            lemma_named_node_wf(args, "body"@);
        }
        let body = match args.expect_node() {
            Ok(node) => node,
            Err(e) => {
                return Err(e);
            },
        };
        Ok(body.aligned(aligns))
    }
}

} // verus!
