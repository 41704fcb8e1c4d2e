//! Resolution engine for launching an application by a human-supplied
//! name: a cascading, early-exiting, multi-tier fuzzy search over
//! disjoint candidate sources under one scoring and tie-breaking
//! discipline, together with the launch-dispatch decisions.
//!
//! The tiers, in strict priority order, are the host's native program
//! lookup, desktop-entry metadata, a short list of common installation
//! directories, and the full filesystem tree. Filesystem traversal and
//! process spawning live outside this crate; it is handed the scanned
//! data as plain values and decides everything else.

pub mod dispatch;
pub mod matching;
pub mod platform;
pub mod resolve;
pub mod scan;
pub mod text;
