use vstd::prelude::*;
use vstd::string::*;

verus! {

/// The four connector strings used when rendering nesting depth and
/// sibling position.  Exactly one of two fixed variants — box-drawing
/// glyphs or ASCII glyphs — is active for a whole run.
pub struct PrefixSet {
    /// Glyph for an ancestor level that still has siblings below.
    pub parent_prefix: String,
    /// Glyph for an ancestor level that was the last of its siblings.
    pub no_parent_prefix: String,
    /// Glyph prefixed to a non-last entry at the current level.
    pub entry_prefix: String,
    /// Glyph prefixed to the last entry at the current level.
    pub last_entry_prefix: String,
}

impl PrefixSet {
    /// The box-drawing variant.
    pub open spec fn is_unicode_set(self) -> bool {
        &&& self.parent_prefix@ == "│   "@
        &&& self.no_parent_prefix@ == "    "@
        &&& self.entry_prefix@ == "├── "@
        &&& self.last_entry_prefix@ == "└── "@
    }

    /// The ASCII variant.
    pub open spec fn is_ascii_set(self) -> bool {
        &&& self.parent_prefix@ == "|   "@
        &&& self.no_parent_prefix@ == "    "@
        &&& self.entry_prefix@ == "|-- "@
        &&& self.last_entry_prefix@ == "`-- "@
    }

    /// One of the two fixed variants is in force.
    pub open spec fn wf(self) -> bool {
        self.is_unicode_set() || self.is_ascii_set()
    }

    pub fn unicode() -> (ps: PrefixSet)
        ensures
            ps.is_unicode_set(),
    {
        PrefixSet {
            parent_prefix: String::from_str("│   "),
            no_parent_prefix: String::from_str("    "),
            entry_prefix: String::from_str("├── "),
            last_entry_prefix: String::from_str("└── "),
        }
    }

    pub fn ascii() -> (ps: PrefixSet)
        ensures
            ps.is_ascii_set(),
    {
        PrefixSet {
            parent_prefix: String::from_str("|   "),
            no_parent_prefix: String::from_str("    "),
            entry_prefix: String::from_str("|-- "),
            last_entry_prefix: String::from_str("`-- "),
        }
    }

    /// A copy with the same four connector strings.
    pub fn dup(&self) -> (r: PrefixSet)
        ensures
            r == *self,
    {
        PrefixSet {
            parent_prefix: self.parent_prefix.clone(),
            no_parent_prefix: self.no_parent_prefix.clone(),
            entry_prefix: self.entry_prefix.clone(),
            last_entry_prefix: self.last_entry_prefix.clone(),
        }
    }
}

} // verus!
