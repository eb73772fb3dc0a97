use vstd::prelude::*;

use crate::prefix_set::PrefixSet;

verus! {

/// The configuration of one run: the folder the user asked for, the
/// connector glyphs chosen once at startup, and the absolute form of the
/// requested folder, resolved by the caller.
pub struct RunOptions {
    requested_path: String,
    prefix_set: PrefixSet,
    folder_absolute: String,
}

impl RunOptions {
    pub closed spec fn spec_requested_path(&self) -> Seq<char> {
        self.requested_path@
    }

    pub closed spec fn spec_prefix_set(&self) -> PrefixSet {
        self.prefix_set
    }

    pub closed spec fn spec_initial_path(&self) -> Seq<char> {
        self.folder_absolute@
    }

    /// Builds the run configuration: the ASCII flag picks the connector
    /// variant, and the two paths are kept as given.
    pub fn new(folder: String, ascii: bool, folder_absolute: String) -> (r: RunOptions)
        ensures
            r.spec_requested_path() == folder@,
            r.spec_initial_path() == folder_absolute@,
            ascii ==> r.spec_prefix_set().is_ascii_set(),
            !ascii ==> r.spec_prefix_set().is_unicode_set(),
    {
        let prefix_set = if ascii {
            PrefixSet::ascii()
        } else {
            PrefixSet::unicode()
        };
        RunOptions { requested_path: folder, prefix_set, folder_absolute }
    }

    /// The folder exactly as the user wrote it.
    pub fn requested_path(&self) -> (p: &String)
        ensures
            p@ == self.spec_requested_path(),
    {
        &self.requested_path
    }

    /// The connector glyphs of this run.
    pub fn prefix_set(&self) -> (ps: &PrefixSet)
        ensures
            *ps == self.spec_prefix_set(),
    {
        &self.prefix_set
    }

    /// The absolute folder the traversal starts from.
    pub fn initial_path(&self) -> (p: &String)
        ensures
            p@ == self.spec_initial_path(),
    {
        &self.folder_absolute
    }
}

} // verus!
