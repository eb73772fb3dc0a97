use vstd::prelude::*;

verus! {

/// A failure reported by the repository query service.  It carries only a
/// human-readable message; callers do not distinguish failure causes.
pub struct GitWrapperError {
    message: String,
}

impl View for GitWrapperError {
    type V = Seq<char>;

    closed spec fn view(&self) -> Seq<char> {
        self.message@
    }
}

impl GitWrapperError {
    pub fn new(message: String) -> (e: GitWrapperError)
        ensures
            e@ == message@,
    {
        GitWrapperError { message }
    }

    pub fn message(&self) -> (m: &str)
        ensures
            m@ == self@,
    {
        self.message.as_str()
    }
}

} // verus!
