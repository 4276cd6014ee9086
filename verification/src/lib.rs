//! Layout core of a document-typesetting engine.
//!
//! The crate turns a tree of content nodes into sized, positioned output
//! frames.  A node is laid out against a sequence of available regions
//! (pages, columns, boxes) and a cascading style chain; frames flow back up
//! the tree and are repositioned by parent nodes.  The representative
//! composite node here is the alignment node, which adjusts how its child
//! claims space and where the child's frames sit inside the granted regions.

pub mod align;
pub mod alignment;
pub mod args;
pub mod axes;
pub mod frame;
pub mod node;
pub mod regions;
pub mod styles;
