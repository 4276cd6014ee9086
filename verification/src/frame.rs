//! Frames: the sized, positioned output of layout.

use vstd::prelude::*;

use crate::alignment::{align_offset, Align};
use crate::axes::{axes_int, Axes};

verus! {

/// The payload of one placed element.
#[derive(Debug, PartialEq, Eq, Hash)]
pub enum FrameContent {
    /// An opaque piece of placed content, carrying an identifier so that
    /// callers can tell elements apart.
    Item(u64),
    /// A whole sub-frame placed as a unit.
    Group(Box<Frame>),
}

/// One placed element: a payload and its offset from the frame's origin.
#[derive(Debug, PartialEq, Eq, Hash)]
pub struct FrameItem {
    /// Offset of the element from the frame's origin.
    pub offset: Axes<i64>,
    /// What is placed there.
    pub content: FrameContent,
}

/// A sized container of placed sub-content.
///
/// A frame is owned exclusively: a holder that wants to keep the old view
/// while another reshapes the frame clones it first, so no holder ever
/// observes a mutation it did not make itself.
#[derive(Debug, PartialEq, Eq, Hash)]
pub struct Frame {
    /// The frame's size per axis.
    pub size: Axes<i64>,
    /// The placed elements, in paint order.
    pub items: Vec<FrameItem>,
}

/// Mathematical model of one placed element.
#[verifier::ext_equal]
pub enum ItemModel {
    Content { offset: Axes<int>, id: u64 },
    Group { offset: Axes<int>, frame: FrameModel },
}

/// Mathematical model of a frame.
#[verifier::ext_equal]
pub struct FrameModel {
    pub size: Axes<int>,
    pub items: Seq<ItemModel>,
}

/// Model of one element.
pub open spec fn item_model(item: FrameItem) -> ItemModel
    decreases item,
{
    match item.content {
        FrameContent::Item(id) => ItemModel::Content { offset: axes_int(item.offset), id },
        FrameContent::Group(frame) => ItemModel::Group {
            offset: axes_int(item.offset),
            frame: frame_model(*frame),
        },
    }
}

/// Models of a sequence of elements, in order.
pub open spec fn items_model(items: Seq<FrameItem>) -> Seq<ItemModel>
    decreases items,
{
    if items.len() == 0 {
        Seq::empty()
    } else {
        items_model(items.drop_last()).push(item_model(items.last()))
    }
}

/// Model of a frame: its size and the models of its elements, in order.
pub open spec fn frame_model(f: Frame) -> FrameModel
    decreases f,
{
    FrameModel { size: axes_int(f.size), items: items_model(f.items@) }
}

impl View for Frame {
    type V = FrameModel;

    open spec fn view(&self) -> FrameModel {
        frame_model(*self)
    }
}

impl Frame {
    /// A frame is well-formed when its size is non-negative on both axes.
    pub open spec fn wf(self) -> bool {
        0 <= self.size.x && 0 <= self.size.y
    }

    /// Builds an empty frame of the given size.
    pub fn new(size: Axes<i64>) -> (r: Frame)
        requires
            0 <= size.x,
            0 <= size.y,
        ensures
            r@ == (FrameModel { size: axes_int(size), items: Seq::<ItemModel>::empty() }),
            r.wf(),
    {
        let r = Frame { size, items: Vec::new() };
        proof {
            assert(r.items@.len() == 0);
        }
        r
    }

    /// Places an opaque content element at the given offset.
    pub fn push_item(&mut self, offset: Axes<i64>, id: u64)
        ensures
            final(self)@ == (FrameModel {
                size: old(self)@.size,
                items: old(self)@.items.push(
                    ItemModel::Content { offset: axes_int(offset), id },
                ),
            }),
            final(self).wf() == old(self).wf(),
    {
        self.items.push(FrameItem { offset, content: FrameContent::Item(id) });
        proof {
            assert(self.items@.drop_last() =~= old(self).items@);
            assert(self.items@.last() == (FrameItem { offset, content: FrameContent::Item(id) }));
        }
    }
}

/// The model of a frame resized to `target` under the given alignments: the
/// size becomes `target` and the whole prior frame becomes one group element,
/// offset by the leftover space on each axis scaled by that axis' alignment.
/// A frame already of the target size is left untouched.
pub open spec fn resized_model(m: FrameModel, target: Axes<int>, aligns: Axes<Align>) -> FrameModel {
    if m.size == target {
        m
    } else {
        FrameModel {
            size: target,
            items: seq![
                ItemModel::Group {
                    offset: Axes {
                        x: align_offset(aligns.x.pos, target.x, m.size.x),
                        y: align_offset(aligns.y.pos, target.y, m.size.y),
                    },
                    frame: m,
                }
            ],
        }
    }
}

impl Frame {
    /// Resizes the frame to `target`, treating the prior contents as a single
    /// sub-element: the old frame is wrapped as one group, shifted by the
    /// per-axis offset the alignments resolve to.  Individual elements are
    /// not repositioned relative to one another.
    pub fn resize(&mut self, target: Axes<i64>, aligns: Axes<Align>)
        requires
            old(self).wf(),
            0 <= target.x,
            0 <= target.y,
        ensures
            final(self)@ == resized_model(old(self)@, axes_int(target), aligns),
            final(self).wf(),
    {
        if self.size.x == target.x && self.size.y == target.y {
            return ;
        }
        let dx = aligns.x.resolve(target.x, self.size.x);
        let dy = aligns.y.resolve(target.y, self.size.y);
        let mut prior_items: Vec<FrameItem> = Vec::new();
        core::mem::swap(&mut self.items, &mut prior_items);
        let prior = Frame { size: self.size, items: prior_items };
        let mut items: Vec<FrameItem> = Vec::new();
        items.push(
            FrameItem { offset: Axes { x: dx, y: dy }, content: FrameContent::Group(Box::new(prior)) },
        );
        self.size = target;
        self.items = items;
        proof {
            assert(frame_model(prior) == old(self)@);
            assert(self.items@.drop_last() =~= Seq::<FrameItem>::empty());
            assert(self@.items =~~= resized_model(old(self)@, axes_int(target), aligns).items);
            assert(self@ =~~= resized_model(old(self)@, axes_int(target), aligns));
        }
    }
}

} // verus!
