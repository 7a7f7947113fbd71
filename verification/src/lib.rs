//! Build-time change detection helper.
//!
//! A builder accumulates declared filesystem paths, each with optional local
//! include/exclude predicates, plus optional global predicates. A terminal
//! generate operation walks every declaration over a snapshot of the
//! filesystem tree, applies the conjunction of all applicable predicates to
//! every discovered entry, and returns the surviving paths (or one
//! `cargo:rerun-if-changed=` instruction line per path) for a build
//! orchestrator.

pub mod builder;
pub mod matcher;
pub mod pathname;
pub mod tree;
pub mod walk;

pub use builder::{ChangeDetection, ChangeDetectionBuilder, ChangeDetectionPath};
pub use matcher::{FilterConfig, Matcher};
pub use tree::{Fs, FsChild, FsNode, FsRoot};
