//! Constructor arguments: a generic value list with positional and named
//! lookup, from which node constructors extract typed values.
//!
//! Values enter the list as a tagged union; extraction attempts a cast and
//! yields a typed value or a construct error.

use vstd::prelude::*;

use crate::alignment::Align;
use crate::axes::{Axes, Axis};
use crate::node::LayoutNode;

verus! {

/// Failure of node construction: malformed or missing constructor
/// arguments, reported to the caller immediately and not retried.
#[derive(Clone, Copy, Debug, PartialEq, Eq, Structural, Hash)]
pub enum ConstructError {
    /// The required child argument is absent.
    MissingArgument,
    /// The alignment argument is not a recognized one- or two-axis shape.
    InvalidAlignment,
}

/// A value an argument can carry, tagged with its type.
#[derive(Debug, Hash)]
pub enum ArgValue {
    /// A single alignment value, applying to the axis it is bound to.
    Alignment(Align),
    /// An explicit two-axis alignment: horizontal then vertical.
    AlignmentPair(Align, Align),
    /// A content node.
    Node(LayoutNode),
}

/// One argument: positional when unnamed.
#[derive(Debug, Hash)]
pub struct Arg {
    /// The argument's name, or `None` for a positional argument.
    pub name: Option<String>,
    /// The carried value.
    pub value: ArgValue,
}

/// An argument list supporting positional and named lookup.
#[derive(Debug, Hash)]
pub struct Args {
    /// The arguments, in source order.
    pub items: Vec<Arg>,
}

/// A positional argument carrying an alignment shape.
pub open spec fn is_positional_align(a: Arg) -> bool {
    a.name is None && (a.value is Alignment || a.value is AlignmentPair)
}

/// The value of the first positional alignment-shaped argument, if any.
pub open spec fn spec_find_align(args: Seq<Arg>) -> Option<ArgValue>
    decreases args,
{
    if args.len() == 0 {
        None
    } else if is_positional_align(args.first()) {
        Some(args.first().value)
    } else {
        spec_find_align(args.drop_first())
    }
}

/// Casts an alignment-shaped value to an optional alignment pair: a single
/// value is broadcast onto its own axis only; an explicit pair must carry a
/// horizontal and a vertical value, in that order.  `None` when the shape is
/// not recognized.
pub open spec fn spec_cast_aligns(v: ArgValue) -> Option<Axes<Option<Align>>> {
    match v {
        ArgValue::Alignment(a) => match a.axis {
            Axis::Horizontal => Some(Axes { x: Some(a), y: None }),
            Axis::Vertical => Some(Axes { x: None, y: Some(a) }),
        },
        ArgValue::AlignmentPair(h, v2) => if h.axis == Axis::Horizontal && v2.axis
            == Axis::Vertical {
            Some(Axes { x: Some(h), y: Some(v2) })
        } else {
            None
        },
        ArgValue::Node(_) => None,
    }
}

/// The parsed optional alignment pair: an absent alignment argument parses
/// as unset on both axes; a present one must cast.
pub open spec fn spec_parsed_aligns(args: Seq<Arg>) -> Option<Axes<Option<Align>>> {
    match spec_find_align(args) {
        Some(v) => spec_cast_aligns(v),
        None => Some(Axes { x: None, y: None }),
    }
}

/// A positional argument carrying a node.
pub open spec fn is_positional_node(a: Arg) -> bool {
    a.name is None && a.value is Node
}

/// An argument named `name` carrying a node.
pub open spec fn is_named_node(a: Arg, name: Seq<char>) -> bool {
    (a.name matches Some(n) && n@ == name) && a.value is Node
}

/// The first positional node argument, if any.
pub open spec fn spec_find_positional_node(args: Seq<Arg>) -> Option<LayoutNode>
    decreases args,
{
    if args.len() == 0 {
        None
    } else if is_positional_node(args.first()) {
        Some(args.first().value->Node_0)
    } else {
        spec_find_positional_node(args.drop_first())
    }
}

/// The first node argument named `name`, if any.
pub open spec fn spec_find_named_node(args: Seq<Arg>, name: Seq<char>) -> Option<LayoutNode>
    decreases args,
{
    if args.len() == 0 {
        None
    } else if is_named_node(args.first(), name) {
        Some(args.first().value->Node_0)
    } else {
        spec_find_named_node(args.drop_first(), name)
    }
}

/// The required child node: the first positional node, or else the first
/// node named `body`.
pub open spec fn spec_expect_node(args: Seq<Arg>) -> Option<LayoutNode> {
    match spec_find_positional_node(args) {
        Some(n) => Some(n),
        None => spec_find_named_node(args, "body"@),
    }
}

impl Args {
    /// Every node argument carries a well-formed node.
    pub open spec fn wf(self) -> bool {
        forall|i: int|
            0 <= i < self.items@.len() ==> ((#[trigger] self.items@[i]).value matches
            ArgValue::Node(n) ==> n.wf())
    }

    /// An empty argument list.
    pub fn new() -> (r: Args)
        ensures
            r.items@ == Seq::<Arg>::empty(),
            r.wf(),
    {
        let r = Args { items: Vec::new() };
        proof {
            assert(r.items@ =~= Seq::<Arg>::empty());
        }
        r
    }

    /// Appends a positional argument.
    pub fn push_positional(&mut self, value: ArgValue)
        ensures
            final(self).items@ == old(self).items@.push(Arg { name: None, value }),
    {
        self.items.push(Arg { name: None, value });
    }

    /// Appends a named argument.
    pub fn push_named(&mut self, name: String, value: ArgValue)
        ensures
            final(self).items@ == old(self).items@.push(Arg { name: Some(name), value }),
    {
        self.items.push(Arg { name: Some(name), value });
    }

    /// Finds the optional alignment argument among the positional arguments
    /// and casts it: `Ok(None)` when absent, the parsed pair when it casts,
    /// and a construct error when its shape is not recognized.
    pub fn find_aligns(&self) -> (r: Result<Option<Axes<Option<Align>>>, ConstructError>)
        ensures
            match spec_find_align(self.items@) {
                None => r == Ok::<Option<Axes<Option<Align>>>, ConstructError>(None),
                Some(v) => match spec_cast_aligns(v) {
                    Some(aligns) => r == Ok::<Option<Axes<Option<Align>>>, ConstructError>(
                        Some(aligns),
                    ),
                    None => r == Err::<Option<Axes<Option<Align>>>, ConstructError>(
                        ConstructError::InvalidAlignment,
                    ),
                },
            },
    {
        let mut i: usize = 0;
        proof {
            assert(self.items@.skip(0) =~= self.items@);
        }
        while i < self.items.len()
            invariant
                i <= self.items@.len(),
                spec_find_align(self.items@) == spec_find_align(self.items@.skip(i as int)),
            decreases self.items@.len() - i,
        {
            proof {
                assert(self.items@.skip(i as int).first() == self.items@[i as int]);
                assert(self.items@.skip(i as int).drop_first() =~= self.items@.skip(i + 1));
            }
            let arg = &self.items[i];
            if arg.name.is_none() {
                match &arg.value {
                    ArgValue::Alignment(a) => {
                        let mut aligns: Axes<Option<Align>> = Axes { x: None, y: None };
                        aligns.set(a.axis(), Some(*a));
                        return Ok(Some(aligns));
                    },
                    ArgValue::AlignmentPair(h, v) => {
                        if h.axis == Axis::Horizontal && v.axis == Axis::Vertical {
                            return Ok(Some(Axes { x: Some(*h), y: Some(*v) }));
                        } else {
                            return Err(ConstructError::InvalidAlignment);
                        }
                    },
                    ArgValue::Node(_) => {},
                }
            }
            i += 1;
        }
        Ok(None)
    }

    /// Extracts the required child node argument: the first positional node,
    /// or else the first node named `body`; a construct error when neither
    /// exists.
    pub fn expect_node(self) -> (r: Result<LayoutNode, ConstructError>)
        ensures
            match spec_expect_node(self.items@) {
                Some(n) => r == Ok::<LayoutNode, ConstructError>(n),
                None => r == Err::<LayoutNode, ConstructError>(ConstructError::MissingArgument),
            },
    {
        let mut items = self.items;
        let mut i: usize = 0;
        proof {
            assert(items@.skip(0) =~= items@);
        }
        while i < items.len()
            invariant
                i <= items@.len(),
                items@ == self.items@,
                spec_find_positional_node(items@) == spec_find_positional_node(
                    items@.skip(i as int),
                ),
            decreases items@.len() - i,
        {
            proof {
                assert(items@.skip(i as int).first() == items@[i as int]);
                assert(items@.skip(i as int).drop_first() =~= items@.skip(i + 1));
            }
            let is_node = match &items[i].value {
                ArgValue::Node(_) => true,
                _ => false,
            };
            if items[i].name.is_none() && is_node {
                let arg = items.remove(i);
                return match arg.value {
                    ArgValue::Node(n) => Ok(n),
                    _ => {
                        proof {
                            assert(false);
                        }
                        vstd::pervasive::unreached()
                    },
                };
            }
            i += 1;
        }
        let body = String::from_str("body");
        let mut j: usize = 0;
        proof {
            assert(items@.skip(items@.len() as int).len() == 0);
            assert(items@.skip(0) =~= items@);
        }
        while j < items.len()
            invariant
                j <= items@.len(),
                items@ == self.items@,
                body@ == "body"@,
                spec_find_positional_node(items@) is None,
                spec_find_named_node(items@, "body"@) == spec_find_named_node(
                    items@.skip(j as int),
                    "body"@,
                ),
            decreases items@.len() - j,
        {
            proof {
                assert(items@.skip(j as int).first() == items@[j as int]);
                assert(items@.skip(j as int).drop_first() =~= items@.skip(j + 1));
            }
            let is_node = match &items[j].value {
                ArgValue::Node(_) => true,
                _ => false,
            };
            let named_body = match &items[j].name {
                Some(n) => *n == body,
                None => false,
            };
            if named_body && is_node {
                let arg = items.remove(j);
                return match arg.value {
                    ArgValue::Node(n) => Ok(n),
                    _ => {
                        proof {
                            assert(false);
                        }
                        vstd::pervasive::unreached()
                    },
                };
            }
            j += 1;
        }
        Err(ConstructError::MissingArgument)
    }
}

/// A found positional node argument carries one of the list's nodes, so a
/// well-formed list yields a well-formed node.
pub proof fn lemma_positional_node_wf(args: Args)
    requires
        args.wf(),
    ensures
        spec_find_positional_node(args.items@) matches Some(n) ==> n.wf(),
{
    lemma_positional_node_wf_rec(args.items@);
}

proof fn lemma_positional_node_wf_rec(items: Seq<Arg>)
    requires
        forall|i: int|
            0 <= i < items.len() ==> ((#[trigger] items[i]).value matches ArgValue::Node(n)
                ==> n.wf()),
    ensures
        spec_find_positional_node(items) matches Some(n) ==> n.wf(),
    decreases items,
{
    if items.len() > 0 && !is_positional_node(items.first()) {
        assert(forall|i: int|
            0 <= i < items.drop_first().len() ==> #[trigger] items.drop_first()[i] == items[i + 1]);
        lemma_positional_node_wf_rec(items.drop_first());
    }
}

/// A found named node argument carries one of the list's nodes, so a
/// well-formed list yields a well-formed node.
pub proof fn lemma_named_node_wf(args: Args, name: Seq<char>)
    requires
        args.wf(),
    ensures
        spec_find_named_node(args.items@, name) matches Some(n) ==> n.wf(),
{
    lemma_named_node_wf_rec(args.items@, name);
}

proof fn lemma_named_node_wf_rec(items: Seq<Arg>, name: Seq<char>)
    requires
        forall|i: int|
            0 <= i < items.len() ==> ((#[trigger] items[i]).value matches ArgValue::Node(n)
                ==> n.wf()),
    ensures
        spec_find_named_node(items, name) matches Some(n) ==> n.wf(),
    decreases items,
{
    if items.len() > 0 && !is_named_node(items.first(), name) {
        assert(forall|i: int|
            0 <= i < items.drop_first().len() ==> #[trigger] items.drop_first()[i] == items[i + 1]);
        lemma_named_node_wf_rec(items.drop_first(), name);
    }
}

} // verus!
