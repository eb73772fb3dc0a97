use vstd::prelude::*;
use vstd::string::*;

use crate::git_object::GitObject;
use crate::git_wrapper_error::GitWrapperError;
use crate::listing::{parse_tree, spec_parse_tree};
use crate::prefix_set::PrefixSet;

verus! {

/// The connector glyphs contributed by the ancestor levels: for every
/// ancestor, oldest first, the vertical continuation when that level
/// still has siblings below, the blank continuation when it was the last
/// of its siblings.
pub open spec fn ancestor_prefix(flags: Seq<bool>, ps: PrefixSet) -> Seq<char>
    decreases flags.len(),
{
    if flags.len() == 0 {
        Seq::empty()
    } else {
        ancestor_prefix(flags.drop_last(), ps) + (if flags.last() {
            ps.parent_prefix@
        } else {
            ps.no_parent_prefix@
        })
    }
}

/// The full prefix of one printed line: the ancestor glyphs, then the
/// glyph for a last or a non-last entry at the current level.
pub open spec fn spec_prefix(flags: Seq<bool>, is_last: bool, ps: PrefixSet) -> Seq<char> {
    ancestor_prefix(flags, ps) + (if is_last {
        ps.last_entry_prefix@
    } else {
        ps.entry_prefix@
    })
}

/// Renders the prefix of one line from the ancestor stack and the
/// entry's sibling position.
pub fn get_prefix(flags: &Vec<bool>, is_last_entry: bool, prefix_set: &PrefixSet) -> (r: String)
    ensures
        r@ == spec_prefix(flags@, is_last_entry, *prefix_set),
{
    let mut result = String::from_str("");
    proof {
        reveal_strlit("");
        assert(result@ =~= Seq::<char>::empty());
        assert(flags@.take(0) =~= Seq::<bool>::empty());
    }
    let mut i: usize = 0;
    while i < flags.len()
        invariant
            i <= flags@.len(),
            result@ == ancestor_prefix(flags@.take(i as int), *prefix_set),
        decreases flags@.len() - i,
    {
        if flags[i] {
            result.append(prefix_set.parent_prefix.as_str());
        } else {
            result.append(prefix_set.no_parent_prefix.as_str());
        }
        proof {
            assert(flags@.take(i + 1).drop_last() =~= flags@.take(i as int));
            assert(flags@.take(i + 1).last() == flags@[i as int]);
        }
        i += 1;
    }
    proof {
        assert(flags@.take(flags@.len() as int) =~= flags@);
    }
    if is_last_entry {
        result.append(prefix_set.last_entry_prefix.as_str());
    } else {
        result.append(prefix_set.entry_prefix.as_str());
    }
    result
}

/// Joins a child entry onto the directory being listed, with one
/// separator between them.
pub fn join_path(parent: &String, child: &String) -> (r: String)
    ensures
        r@ == parent@ + "/"@ + child@,
{
    let mut r = parent.clone();
    r.append("/");
    r.append(child.as_str());
    r
}

/// One line the traversal emits: an entry line for standard output, or
/// the report of a failed listing query for standard error.
pub enum OutputLine {
    Entry(String),
    ListingError { path: String, message: String },
}

/// Whether `out` is the entry line with exactly this text.
pub open spec fn is_entry_line(out: Option<OutputLine>, text: Seq<char>) -> bool {
    match out {
        Some(OutputLine::Entry(t)) => t@ == text,
        _ => false,
    }
}

/// Whether `out` reports a failed listing query for this path with this
/// message.
pub open spec fn is_error_line(out: Option<OutputLine>, path: Seq<char>, message: Seq<char>) -> bool {
    match out {
        Some(OutputLine::ListingError { path: p, message: m }) => p@ == path && m@ == message,
        _ => false,
    }
}

/// The ancestor stack after a finished branch returned its flag, if one
/// was pushed for it.
pub open spec fn popped(flags: Seq<bool>) -> Seq<bool> {
    if flags.len() > 0 {
        flags.drop_last()
    } else {
        flags
    }
}

/// One directory being traversed: its listed entries, the position of
/// the next entry to print, and the directory's own path.
pub struct Frame {
    pub entries: Vec<GitObject>,
    pub idx: usize,
    pub path: String,
}

impl Frame {
    pub open spec fn wf(self) -> bool {
        self.idx <= self.entries@.len()
    }
}

/// The path a pending query asks about.
pub open spec fn pending_path(p: TreePrinter) -> Seq<char> {
    match p.pending {
        Some(s) => s@,
        None => Seq::empty(),
    }
}

/// The depth-first traversal, one decision at a time.  The caller runs
/// the listing queries: while `pending` holds a path, the machine waits
/// for that directory's listing (`feed`); otherwise `advance` prints the
/// next entry, descends into trees, and climbs back out of finished
/// directories, until no frame is left.
pub struct TreePrinter {
    pub prefix_set: PrefixSet,
    pub flags: Vec<bool>,
    pub frames: Vec<Frame>,
    pub pending: Option<String>,
}

impl TreePrinter {
    /// Stack balance, the invariant of the whole traversal: one ancestor
    /// flag per frame above the root frame, plus one for a branch whose
    /// listing is pending.  Every operation of the machine keeps it, so
    /// after any branch completes — normally or through a failed query —
    /// the stack is exactly as deep as before that branch was entered.
    pub open spec fn wf(self) -> bool {
        &&& self.prefix_set.wf()
        &&& forall|i: int| 0 <= i < self.frames@.len() ==> (#[trigger] self.frames@[i]).wf()
        &&& match self.pending {
            Some(_) => self.flags@.len() == self.frames@.len(),
            None => if self.frames@.len() == 0 {
                self.flags@.len() == 0
            } else {
                self.flags@.len() == self.frames@.len() - 1
            },
        }
    }

    /// Starts a traversal at the root directory: the first query asks
    /// for the root's listing, and both stacks begin empty.
    pub fn new(prefix_set: PrefixSet, root: String) -> (p: TreePrinter)
        requires
            prefix_set.wf(),
        ensures
            p.wf(),
            p.prefix_set == prefix_set,
            p.flags@.len() == 0,
            p.frames@.len() == 0,
            p.pending is Some,
            pending_path(p) == root@,
    {
        TreePrinter { prefix_set, flags: Vec::new(), frames: Vec::new(), pending: Some(root) }
    }

    /// The traversal is finished: nothing pending, no frame left.
    pub fn done(&self) -> (r: bool)
        ensures
            r == (self.pending is None && self.frames@.len() == 0),
    {
        match &self.pending {
            Some(_) => false,
            None => self.frames.len() == 0,
        }
    }

    /// The path whose listing the machine is waiting for, if any.
    pub fn next_query(&self) -> (q: Option<String>)
        ensures
            q == self.pending,
    {
        match &self.pending {
            Some(p) => Some(p.clone()),
            None => None,
        }
    }

    /// Hands the machine the result of the pending listing query.  A
    /// successful non-empty listing opens a new frame; an empty one
    /// closes the branch silently; a failed one closes the branch and
    /// reports the failure, leaving every other branch intact.
    pub fn feed(&mut self, listing: Result<String, GitWrapperError>) -> (out: Option<OutputLine>)
        requires
            old(self).wf(),
            old(self).pending is Some,
        ensures
            final(self).wf(),
            final(self).prefix_set == old(self).prefix_set,
            final(self).pending is None,
            match listing {
                Ok(text) => {
                    &&& out is None
                    &&& if spec_parse_tree(text@).len() == 0 {
                        &&& final(self).frames@ == old(self).frames@
                        &&& final(self).flags@ == popped(old(self).flags@)
                    } else {
                        &&& final(self).frames@.len() == old(self).frames@.len() + 1
                        &&& final(self).frames@.drop_last() == old(self).frames@
                        &&& final(self).frames@.last().entries@.map_values(|o: GitObject| o@)
                            == spec_parse_tree(text@)
                        &&& final(self).frames@.last().idx == 0
                        &&& final(self).frames@.last().path@ == pending_path(*old(self))
                        &&& final(self).flags@ == old(self).flags@
                    }
                },
                Err(e) => {
                    &&& is_error_line(out, pending_path(*old(self)), e@)
                    &&& final(self).frames@ == old(self).frames@
                    &&& final(self).flags@ == popped(old(self).flags@)
                },
            },
    {
        let mut taken: Option<String> = None;
        core::mem::swap(&mut self.pending, &mut taken);
        let path = taken.unwrap();
        match listing {
            Ok(text) => {
                let entries = parse_tree(text.as_str());
                if entries.len() == 0 {
                    if self.frames.len() > 0 {
                        self.flags.pop();
                    }
                    None
                } else {
                    let ghost before = self.frames@;
                    self.frames.push(Frame { entries, idx: 0, path });
                    proof {
                        assert(self.frames@.drop_last() =~= before);
                    }
                    None
                }
            },
            Err(error) => {
                if self.frames.len() > 0 {
                    self.flags.pop();
                }
                let message = String::from_str(error.message());
                Some(OutputLine::ListingError { path, message })
            },
        }
    }

    /// Takes the next step of the traversal while no query is pending:
    /// either closes the finished directory on top of the stack, or
    /// prints its next entry — and, when that entry is a tree, pushes
    /// the entry's sibling flag and asks for the subtree's listing.
    pub fn advance(&mut self) -> (out: Option<OutputLine>)
        requires
            old(self).wf(),
            old(self).pending is None,
            old(self).frames@.len() > 0,
        ensures
            final(self).wf(),
            final(self).prefix_set == old(self).prefix_set,
            ({
                let top = old(self).frames@.last();
                if top.idx == top.entries@.len() {
                    &&& out is None
                    &&& final(self).pending is None
                    &&& final(self).frames@ == old(self).frames@.drop_last()
                    &&& final(self).flags@ == popped(old(self).flags@)
                } else {
                    let entry = top.entries@[top.idx as int];
                    let is_last = top.idx + 1 == top.entries@.len();
                    &&& is_entry_line(
                        out,
                        spec_prefix(old(self).flags@, is_last, old(self).prefix_set) + entry@.path,
                    )
                    &&& final(self).frames@ == old(self).frames@.drop_last().push(
                        (Frame { entries: top.entries, idx: (top.idx + 1) as usize, path: top.path }),
                    )
                    &&& if entry@.is_tree() {
                        &&& final(self).pending is Some
                        &&& pending_path(*final(self)) == top.path@ + "/"@ + entry@.path
                        &&& final(self).flags@ == old(self).flags@.push(!is_last)
                    } else {
                        &&& final(self).pending is None
                        &&& final(self).flags@ == old(self).flags@
                    }
                }
            }),
    {
        let mut top = self.frames.pop().unwrap();
        if top.idx == top.entries.len() {
            if self.frames.len() > 0 {
                self.flags.pop();
            }
            None
        } else {
            let is_last = top.idx + 1 == top.entries.len();
            let is_tree = top.entries[top.idx].is_tree();
            let entry_path = top.entries[top.idx].path().clone();
            let prefix = get_prefix(&self.flags, is_last, &self.prefix_set);
            let line = prefix.concat(entry_path.as_str());
            if is_tree {
                self.flags.push(!is_last);
                let child = join_path(&top.path, &entry_path);
                self.pending = Some(child);
            }
            top.idx = top.idx + 1;
            self.frames.push(top);
            Some(OutputLine::Entry(line))
        }
    }
}

/// Stack balance, stated on its own: between queries the ancestor stack
/// is one flag short of the frame stack (the root frame contributes
/// none), and while a query is pending the two are equally deep.
pub proof fn lemma_stack_balance(p: TreePrinter)
    requires
        p.wf(),
    ensures
        p.pending is Some ==> p.flags@.len() == p.frames@.len(),
        (p.pending is None && p.frames@.len() > 0) ==> p.flags@.len() + 1 == p.frames@.len(),
        (p.pending is None && p.frames@.len() == 0) ==> p.flags@.len() == 0,
{
}

} // verus!
