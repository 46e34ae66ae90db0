//! A lazy, depth-first directory walker.
//!
//! The walk is a state machine over a stack of open directory cursors: the
//! caller pulls one raw listing event at a time from the top cursor, hands it
//! to the walker, and receives what to surface and whether to descend.
//! Directories whose name matches an ignore pattern are surfaced but never
//! opened. Independent predicates narrow the surfaced stream by entry kind or
//! by name. The `tree` module shows, over a model of an unchanging tree, that
//! the walk surfaces the tree's depth-first pre-order listing.

pub mod entry;
pub mod filter;
pub mod pattern;
pub mod tree;
pub mod walk;

pub use entry::{Entry, FileKind};
pub use pattern::{Pattern, PatternError};
pub use walk::{DirIterator, DirIteratorBuilder, Pulled, Step, WalkError};
