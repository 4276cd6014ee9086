//! Scenario tests for the alignment node: construction and layout.

use layout_core::align::AlignNode;
use layout_core::alignment::{Align, AlignPos};
use layout_core::args::{Args, ArgValue, ConstructError};
use layout_core::axes::{Axes, Axis};
use layout_core::frame::FrameContent;
use layout_core::node::{Context, LayoutError, LayoutNode, LeafNode};
use layout_core::regions::Regions;
use layout_core::styles::StyleChain;

fn leaf(w: i64, h: i64, id: u64) -> LayoutNode {
    LayoutNode::Leaf(LeafNode::new(vec![Axes { x: w, y: h }], id))
}

fn aligned(node: LayoutNode, x: Option<AlignPos>, y: Option<AlignPos>) -> LayoutNode {
    node.aligned(Axes {
        x: x.map(|pos| Align { axis: Axis::Horizontal, pos }),
        y: y.map(|pos| Align { axis: Axis::Vertical, pos }),
    })
}

#[test]
fn fills_region_when_alignment_unset() {
    for (w, h) in [(50, 20), (10, 90)] {
        let node = aligned(leaf(w, h, 7), None, None);
        let regions = Regions::one(Axes { x: 200, y: 100 }, Axes { x: true, y: true });
        let frames = node.layout(&Context::new(), &regions, &StyleChain::root()).unwrap();
        assert_eq!(frames.len(), 1);
        assert_eq!(frames[0].size, Axes { x: 200, y: 100 });
        assert_eq!(frames[0].items.len(), 1);
        assert_eq!(frames[0].items[0].offset, Axes { x: 0, y: 0 });
        assert!(matches!(frames[0].items[0].content, FrameContent::Item(7)));
    }
}

#[test]
fn center_start_places_child() {
    let node = aligned(leaf(50, 20, 1), Some(AlignPos::Center), Some(AlignPos::Start));
    let regions = Regions::one(Axes { x: 200, y: 100 }, Axes { x: true, y: true });
    let frames = node.layout(&Context::new(), &regions, &StyleChain::root()).unwrap();
    assert_eq!(frames.len(), 1);
    assert_eq!(frames[0].size, Axes { x: 200, y: 100 });
    assert_eq!(frames[0].items.len(), 1);
    let item = &frames[0].items[0];
    assert_eq!(item.offset, Axes { x: 75, y: 0 });
    match &item.content {
        FrameContent::Group(inner) => {
            assert_eq!(inner.size, Axes { x: 50, y: 20 });
            assert_eq!(inner.items.len(), 1);
            assert_eq!(inner.items[0].offset, Axes { x: 0, y: 0 });
            assert!(matches!(inner.items[0].content, FrameContent::Item(1)));
        }
        FrameContent::Item(_) => panic!("expected the prior frame as one group"),
    }
}

#[test]
fn shrinks_to_fit_without_alignment() {
    let node = aligned(leaf(50, 20, 2), None, None);
    let regions = Regions::one(Axes { x: 200, y: 100 }, Axes { x: false, y: false });
    let frames = node.layout(&Context::new(), &regions, &StyleChain::root()).unwrap();
    assert_eq!(frames.len(), 1);
    assert_eq!(frames[0].size, Axes { x: 50, y: 20 });
    assert_eq!(frames[0].items.len(), 1);
    assert_eq!(frames[0].items[0].offset, Axes { x: 0, y: 0 });
    assert!(matches!(frames[0].items[0].content, FrameContent::Item(2)));
}

#[test]
fn multi_region_end_alignment() {
    let child = LayoutNode::Leaf(LeafNode::new(
        vec![Axes { x: 60, y: 50 }, Axes { x: 60, y: 80 }],
        3,
    ));
    let node = aligned(child, Some(AlignPos::End), None);
    let regions = Regions::new(
        Axes { x: 100, y: 50 },
        vec![Axes { x: 100, y: 80 }],
        Axes { x: true, y: false },
        Axes { x: 100, y: 50 },
    );
    let frames = node.layout(&Context::new(), &regions, &StyleChain::root()).unwrap();
    assert_eq!(frames.len(), 2);
    // The second frame: x filled via the original expand flag, y kept as the
    // child's natural extent since the y alignment is unset.
    assert_eq!(frames[1].size, Axes { x: 100, y: 80 });
    assert_eq!(frames[1].items.len(), 1);
    let item = &frames[1].items[0];
    assert_eq!(item.offset, Axes { x: 40, y: 0 });
    match &item.content {
        FrameContent::Group(inner) => assert_eq!(inner.size, Axes { x: 60, y: 80 }),
        FrameContent::Item(_) => panic!("expected the prior frame as one group"),
    }
}

#[test]
fn layout_is_deterministic() {
    let build = || {
        aligned(
            leaf(30, 40, 11),
            Some(AlignPos::Center),
            Some(AlignPos::End),
        )
    };
    let regions = Regions::one(Axes { x: 120, y: 90 }, Axes { x: true, y: true });
    let styles = StyleChain::root();
    let first = build().layout(&Context::new(), &regions, &styles).unwrap();
    let second = build().layout(&Context::new(), &regions, &styles).unwrap();
    assert_eq!(first, second);
}

#[test]
fn region_exhaustion_is_reported() {
    let child = LayoutNode::Leaf(LeafNode::new(
        vec![Axes { x: 10, y: 10 }, Axes { x: 10, y: 10 }, Axes { x: 10, y: 10 }],
        9,
    ));
    let node = aligned(child, None, None);
    let regions = Regions::new(
        Axes { x: 50, y: 50 },
        vec![Axes { x: 50, y: 50 }],
        Axes { x: false, y: false },
        Axes { x: 50, y: 50 },
    );
    let r = node.layout(&Context::new(), &regions, &StyleChain::root());
    assert_eq!(r.unwrap_err(), LayoutError::RegionsExhausted);
}

#[test]
fn leaf_never_exceeds_its_region() {
    let node = LayoutNode::Leaf(LeafNode::new(vec![Axes { x: 300, y: 5 }], 10));
    let regions = Regions::one(Axes { x: 100, y: 50 }, Axes { x: false, y: false });
    let frames = node.layout(&Context::new(), &regions, &StyleChain::root()).unwrap();
    assert_eq!(frames.len(), 1);
    assert_eq!(frames[0].size, Axes { x: 100, y: 5 });
}

#[test]
fn construct_without_child_fails() {
    let mut args = Args::new();
    args.push_positional(ArgValue::Alignment(Align {
        axis: Axis::Horizontal,
        pos: AlignPos::Center,
    }));
    let r = AlignNode::construct(&Context::new(), args);
    assert_eq!(r.unwrap_err(), ConstructError::MissingArgument);

    let empty = Args::new();
    let r = AlignNode::construct(&Context::new(), empty);
    assert_eq!(r.unwrap_err(), ConstructError::MissingArgument);
}

#[test]
fn construct_broadcasts_single_alignment() {
    let mut args = Args::new();
    args.push_positional(ArgValue::Alignment(Align {
        axis: Axis::Vertical,
        pos: AlignPos::End,
    }));
    args.push_positional(ArgValue::Node(leaf(10, 10, 4)));
    let node = AlignNode::construct(&Context::new(), args).unwrap();
    match node {
        LayoutNode::Align(n) => {
            assert_eq!(n.aligns.x, None);
            assert_eq!(n.aligns.y, Some(Align { axis: Axis::Vertical, pos: AlignPos::End }));
            assert_eq!(n.child, leaf(10, 10, 4));
        }
        LayoutNode::Leaf(_) => panic!("expected an alignment node"),
    }
}

#[test]
fn construct_takes_two_axis_pair() {
    let mut args = Args::new();
    args.push_positional(ArgValue::AlignmentPair(
        Align { axis: Axis::Horizontal, pos: AlignPos::Start },
        Align { axis: Axis::Vertical, pos: AlignPos::Center },
    ));
    args.push_positional(ArgValue::Node(leaf(10, 10, 5)));
    let node = AlignNode::construct(&Context::new(), args).unwrap();
    match node {
        LayoutNode::Align(n) => {
            assert_eq!(
                n.aligns.x,
                Some(Align { axis: Axis::Horizontal, pos: AlignPos::Start })
            );
            assert_eq!(
                n.aligns.y,
                Some(Align { axis: Axis::Vertical, pos: AlignPos::Center })
            );
        }
        LayoutNode::Leaf(_) => panic!("expected an alignment node"),
    }
}

#[test]
fn construct_rejects_mismatched_pair() {
    let mut args = Args::new();
    args.push_positional(ArgValue::AlignmentPair(
        Align { axis: Axis::Vertical, pos: AlignPos::Start },
        Align { axis: Axis::Horizontal, pos: AlignPos::Center },
    ));
    args.push_positional(ArgValue::Node(leaf(10, 10, 6)));
    let r = AlignNode::construct(&Context::new(), args);
    assert_eq!(r.unwrap_err(), ConstructError::InvalidAlignment);
}

#[test]
fn construct_accepts_named_body() {
    let mut args = Args::new();
    args.push_named("body".to_string(), ArgValue::Node(leaf(10, 10, 8)));
    let node = AlignNode::construct(&Context::new(), args).unwrap();
    match node {
        LayoutNode::Align(n) => {
            assert_eq!(n.aligns, Axes { x: None, y: None });
            assert_eq!(n.child, leaf(10, 10, 8));
        }
        LayoutNode::Leaf(_) => panic!("expected an alignment node"),
    }
}

#[test]
fn construct_prefers_first_positional_node() {
    let mut args = Args::new();
    args.push_positional(ArgValue::Node(leaf(1, 1, 1)));
    args.push_named("body".to_string(), ArgValue::Node(leaf(2, 2, 2)));
    let node = AlignNode::construct(&Context::new(), args).unwrap();
    match node {
        LayoutNode::Align(n) => assert_eq!(n.child, leaf(1, 1, 1)),
        LayoutNode::Leaf(_) => panic!("expected an alignment node"),
    }
}

#[test]
fn nested_alignment_nodes_compose() {
    // An aligned node is itself a node: wrap it again and lay it out.
    let inner = aligned(leaf(10, 10, 12), Some(AlignPos::End), None);
    let outer = aligned(inner, None, Some(AlignPos::Center));
    let regions = Regions::one(Axes { x: 100, y: 50 }, Axes { x: true, y: true });
    let frames = outer.layout(&Context::new(), &regions, &StyleChain::root()).unwrap();
    assert_eq!(frames.len(), 1);
    assert_eq!(frames[0].size, Axes { x: 100, y: 50 });
}
