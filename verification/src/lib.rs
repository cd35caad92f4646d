//! Navigation core for an interactive command launcher.
//!
//! A configuration describes a tree of named commands; each node either opens
//! a sub-menu or carries a shell action. This crate holds the verified heart
//! of the launcher: resolving a path through the tree to the visible sibling
//! list, resolving a sequence of command-line tokens to a node, and the
//! session state machine that reacts to the user's key presses.

pub mod laws;
pub mod nav;
pub mod resolve;
pub mod tree;
