use vstd::prelude::*;

use crate::git_wrapper_error::GitWrapperError;

verus! {

/// Process exit code for a requested path that is not inside a work
/// tree.
pub const EXIT_NOT_INSIDE_WORK_TREE: u8 = 1;

/// Process exit code when the work-tree query itself failed.
pub const EXIT_WORK_TREE_QUERY_FAILED: u8 = 2;

/// Process exit code for a reported top-level path that does not exist.
pub const EXIT_TOP_LEVEL_MISSING: u8 = 3;

/// Process exit code when the top-level query itself failed.
pub const EXIT_TOP_LEVEL_QUERY_FAILED: u8 = 4;

/// Decides the first fatal precondition: the run goes on only when the
/// requested path was confirmed to be inside a work tree; otherwise the
/// returned exit code ends the run before any tree output.
pub fn work_tree_check(inside: &Result<bool, GitWrapperError>) -> (code: Option<u8>)
    ensures
        match *inside {
            Ok(true) => code is None,
            Ok(false) => code == Some(EXIT_NOT_INSIDE_WORK_TREE),
            Err(_) => code == Some(EXIT_WORK_TREE_QUERY_FAILED),
        },
{
    match inside {
        Ok(true) => None,
        Ok(false) => Some(EXIT_NOT_INSIDE_WORK_TREE),
        Err(_) => Some(EXIT_WORK_TREE_QUERY_FAILED),
    }
}

/// Decides the remaining fatal preconditions: the run goes on only when
/// the top-level query succeeded and the reported path exists on disk.
pub fn top_level_check(top_level: &Result<String, GitWrapperError>, exists: bool) -> (code: Option<
    u8,
>)
    ensures
        match *top_level {
            Ok(_) => if exists {
                code is None
            } else {
                code == Some(EXIT_TOP_LEVEL_MISSING)
            },
            Err(_) => code == Some(EXIT_TOP_LEVEL_QUERY_FAILED),
        },
{
    match top_level {
        Ok(_) => if exists {
            None
        } else {
            Some(EXIT_TOP_LEVEL_MISSING)
        },
        Err(_) => Some(EXIT_TOP_LEVEL_QUERY_FAILED),
    }
}

} // verus!
