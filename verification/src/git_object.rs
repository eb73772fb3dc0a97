use vstd::prelude::*;

use crate::git_object_type::GitObjectType;

verus! {

/// Mathematical view of a `GitObject`: the five decoded fields of one
/// listing line.
#[verifier::ext_equal]
pub ghost struct GitObjectV {
    pub mode: u32,
    pub obj_type: Option<GitObjectType>,
    pub name: Seq<char>,
    pub size: Option<usize>,
    pub path: Seq<char>,
}

impl GitObjectV {
    /// An entry is recursed into exactly when it is a tree.
    pub open spec fn is_tree(self) -> bool {
        self.obj_type == Some(GitObjectType::Tree)
    }
}

/// Models the fields of one line of the repository tree listing.
pub struct GitObject {
    mode: u32,
    obj_type: Option<GitObjectType>,
    name: String,
    size: Option<usize>,
    path: String,
}

impl View for GitObject {
    type V = GitObjectV;

    closed spec fn view(&self) -> GitObjectV {
        GitObjectV {
            mode: self.mode,
            obj_type: self.obj_type,
            name: self.name@,
            size: self.size,
            path: self.path@,
        }
    }
}

impl GitObject {
    pub fn new(
        mode: u32,
        obj_type: Option<GitObjectType>,
        name: String,
        size: Option<usize>,
        path: String,
    ) -> (o: GitObject)
        ensures
            o@ == (GitObjectV { mode, obj_type, name: name@, size, path: path@ }),
    {
        GitObject { mode, obj_type, name, size, path }
    }

    pub fn mode(&self) -> (m: u32)
        ensures
            m == self@.mode,
    {
        self.mode
    }

    pub fn obj_type(&self) -> (t: &Option<GitObjectType>)
        ensures
            *t == self@.obj_type,
    {
        &self.obj_type
    }

    pub fn name(&self) -> (n: &String)
        ensures
            n@ == self@.name,
    {
        &self.name
    }

    pub fn size(&self) -> (s: Option<usize>)
        ensures
            s == self@.size,
    {
        self.size
    }

    pub fn path(&self) -> (p: &String)
        ensures
            p@ == self@.path,
    {
        &self.path
    }

    pub fn is_tree(&self) -> (r: bool)
        ensures
            r == self@.is_tree(),
    {
        if let Some(git_object_type) = self.obj_type() {
            *git_object_type == GitObjectType::Tree
        } else {
            false
        }
    }
}

} // verus!
