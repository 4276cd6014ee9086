//! Tests for the value components: axis pairs, alignment values, frames,
//! region sequences and style chains.

use layout_core::alignment::{Align, AlignPos};
use layout_core::axes::{Axes, Axis};
use layout_core::frame::{Frame, FrameContent};
use layout_core::regions::Regions;
use layout_core::styles::{StyleChain, StyleMap, StyleValue, PAR_ALIGN};

#[test]
fn map_applies_per_axis() {
    let p: Axes<i64> = Axes { x: 3, y: 4 };
    assert_eq!(p.map(|v| v * 2), Axes { x: 6, y: 8 });
}

#[test]
fn map_composes() {
    // Mapping twice equals mapping the composition once.
    let p: Axes<i64> = Axes { x: 3, y: 4 };
    let f = |v: i64| v + 1;
    let g = |v: i64| v * 10;
    assert_eq!(p.map(f).map(g), p.map(|v| g(f(v))));
}

#[test]
fn zip_pairs_per_axis() {
    let p: Axes<i64> = Axes { x: 1, y: 2 };
    let q = Axes { x: true, y: false };
    assert_eq!(p.zip(q), Axes { x: (1, true), y: (2, false) });
}

#[test]
fn optional_pair_helpers() {
    let a = Align { axis: Axis::Horizontal, pos: AlignPos::Center };
    let pair: Axes<Option<Align>> = Axes { x: Some(a), y: None };
    let mask = pair.map_is_none();
    assert_eq!(mask, Axes { x: false, y: true });
    let b = Align { axis: Axis::Vertical, pos: AlignPos::Start };
    let defaults = Axes { x: b, y: b };
    assert_eq!(pair.unwrap_or(defaults), Axes { x: a, y: b });
}

#[test]
fn bool_pair_helpers() {
    let m = Axes { x: true, y: false };
    assert_eq!(m.and(Axes { x: true, y: true }), Axes { x: true, y: false });
    let picked = m.select(Axes { x: 1i64, y: 2 }, Axes { x: 10, y: 20 });
    assert_eq!(picked, Axes { x: 1, y: 20 });
    assert_eq!(Axis::Horizontal.other(), Axis::Vertical);
    assert_eq!(Axis::Vertical.other(), Axis::Horizontal);
}

#[test]
fn alignment_resolves_to_fractional_offsets() {
    let start = Align { axis: Axis::Horizontal, pos: AlignPos::Start };
    let center = Align { axis: Axis::Horizontal, pos: AlignPos::Center };
    let end = Align { axis: Axis::Horizontal, pos: AlignPos::End };
    assert_eq!(start.resolve(10, 4), 0);
    assert_eq!(center.resolve(10, 4), 3);
    assert_eq!(end.resolve(10, 4), 6);
    // A content larger than the target splits the negative leftover too.
    assert_eq!(center.resolve(4, 10), -3);
    assert_eq!(end.resolve(4, 10), -6);
    assert_eq!(start.axis(), Axis::Horizontal);
}

#[test]
fn resize_wraps_prior_contents_as_one_group() {
    let mut frame = Frame::new(Axes { x: 20, y: 10 });
    frame.push_item(Axes { x: 5, y: 5 }, 42);
    let aligns = Axes {
        x: Align { axis: Axis::Horizontal, pos: AlignPos::End },
        y: Align { axis: Axis::Vertical, pos: AlignPos::Start },
    };
    frame.resize(Axes { x: 40, y: 10 }, aligns);
    assert_eq!(frame.size, Axes { x: 40, y: 10 });
    assert_eq!(frame.items.len(), 1);
    assert_eq!(frame.items[0].offset, Axes { x: 20, y: 0 });
    match &frame.items[0].content {
        FrameContent::Group(inner) => {
            assert_eq!(inner.size, Axes { x: 20, y: 10 });
            assert_eq!(inner.items.len(), 1);
            // The element inside keeps its place within the group.
            assert_eq!(inner.items[0].offset, Axes { x: 5, y: 5 });
            assert!(matches!(inner.items[0].content, FrameContent::Item(42)));
        }
        FrameContent::Item(_) => panic!("expected the prior frame as one group"),
    }
}

#[test]
fn resize_to_same_size_changes_nothing() {
    let mut frame = Frame::new(Axes { x: 20, y: 10 });
    frame.push_item(Axes { x: 1, y: 2 }, 5);
    let aligns = Axes {
        x: Align { axis: Axis::Horizontal, pos: AlignPos::Center },
        y: Align { axis: Axis::Vertical, pos: AlignPos::Center },
    };
    frame.resize(Axes { x: 20, y: 10 }, aligns);
    assert_eq!(frame.size, Axes { x: 20, y: 10 });
    assert_eq!(frame.items.len(), 1);
    assert_eq!(frame.items[0].offset, Axes { x: 1, y: 2 });
}

#[test]
fn resize_smaller_centers_with_negative_offset() {
    let mut frame = Frame::new(Axes { x: 20, y: 20 });
    let aligns = Axes {
        x: Align { axis: Axis::Horizontal, pos: AlignPos::Center },
        y: Align { axis: Axis::Vertical, pos: AlignPos::Center },
    };
    frame.resize(Axes { x: 10, y: 10 }, aligns);
    assert_eq!(frame.size, Axes { x: 10, y: 10 });
    assert_eq!(frame.items[0].offset, Axes { x: -5, y: -5 });
}

#[test]
fn regions_iterate_in_consumption_order() {
    let regions = Regions::new(
        Axes { x: 100, y: 50 },
        vec![Axes { x: 100, y: 80 }, Axes { x: 90, y: 70 }],
        Axes { x: true, y: true },
        Axes { x: 100, y: 50 },
    );
    let sizes = regions.iter();
    assert_eq!(
        sizes,
        vec![Axes { x: 100, y: 50 }, Axes { x: 100, y: 80 }, Axes { x: 90, y: 70 }]
    );
    // The snapshot leaves the sequence itself unchanged.
    assert_eq!(regions.backlog.len(), 2);
}

#[test]
fn expand_override_masks_per_axis() {
    let regions = Regions::new(
        Axes { x: 100, y: 50 },
        vec![Axes { x: 100, y: 80 }],
        Axes { x: true, y: true },
        Axes { x: 100, y: 50 },
    );
    let pod = regions.with_expand_mask(Axes { x: false, y: true });
    assert_eq!(pod.expand, Axes { x: false, y: true });
    assert_eq!(pod.active, regions.active);
    assert_eq!(pod.backlog, regions.backlog);
    assert_eq!(pod.reference, regions.reference);
    // The original keeps its own flags.
    assert_eq!(regions.expand, Axes { x: true, y: true });
}

#[test]
fn style_lookup_walks_head_to_root() {
    let start = StyleValue::Alignment(Align { axis: Axis::Horizontal, pos: AlignPos::Start });
    let end = StyleValue::Alignment(Align { axis: Axis::Horizontal, pos: AlignPos::End });
    let root = StyleChain::root();
    assert_eq!(root.get(PAR_ALIGN), None);

    let mut outer = StyleMap::new();
    outer.set(PAR_ALIGN, start);
    let parent = outer.chain(&root);
    assert_eq!(parent.get(PAR_ALIGN), Some(start));

    // A child scope linked in front shadows the parent...
    let mut inner = StyleMap::new();
    inner.set(PAR_ALIGN, end);
    let child = inner.chain(&parent);
    assert_eq!(child.get(PAR_ALIGN), Some(end));
    // ...while the parent chain itself is unaffected.
    assert_eq!(parent.get(PAR_ALIGN), Some(start));
    // A key no scope binds falls through to nothing.
    assert_eq!(child.get(77), None);
}

#[test]
fn later_binding_shadows_earlier_in_one_scope() {
    let first = StyleValue::Alignment(Align { axis: Axis::Vertical, pos: AlignPos::Start });
    let second = StyleValue::Alignment(Align { axis: Axis::Vertical, pos: AlignPos::Center });
    let mut scope = StyleMap::new();
    scope.set(PAR_ALIGN, first);
    scope.set(PAR_ALIGN, second);
    assert_eq!(scope.get(PAR_ALIGN), Some(second));
    let chain = scope.chain(&StyleChain::root());
    assert_eq!(chain.get(PAR_ALIGN), Some(second));
}
