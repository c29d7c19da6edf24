//! Box-tree construction for block and inline layout, verified with Verus.
//!
//! The children of a box, styled and in document order
//! ([`dom_traversal`]), are walked once by a
//! [`builder::BlockContainerBuilder`] ([`construct`]); the block-level
//! boxes that the walk defers are then finished in parallel ([`finish`]).
//! The result is a tree of boxes ([`flow`]) with, if asked for, its
//! intrinsic sizes ([`sizing`]).
//!
//! What each function computes is stated over mathematical views of the
//! data by the functions of [`rules`]; [`laws`] proves what holds of every
//! result.  [`worker`] holds the decisions of a dedicated worker's event
//! loop.
use vstd::prelude::*;

pub mod style;
pub mod sizing;
pub mod whitespace;
pub mod flow;
pub mod dom_traversal;
pub mod context;
pub mod rules;
pub mod builder;
pub mod construct;
pub mod finish;
pub mod laws;
pub mod worker;
