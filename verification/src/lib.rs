//! Verified core of a repository tree viewer.
//!
//! The library parses the tabular listing produced by a version-control
//! tool into structured records, and renders those records as a directory
//! tree with box-drawing (or ASCII) connector glyphs.  All decisions are
//! made here under contracts; running the external tool and printing are
//! left to the surrounding program.

pub mod git_command;
pub mod git_object;
pub mod git_object_type;
pub mod git_wrapper_error;
pub mod listing;
pub mod prefix_set;
pub mod printer;
pub mod run_options;
pub mod startup;
pub mod text;
