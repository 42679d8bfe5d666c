//! Workspace members, kept by a repository.

use vstd::prelude::*;

verus! {

/// Workspace members, kept by a repository.
pub struct MemberService<R> {
    pub repository: R,
}

impl<R> MemberService<R> {
    pub fn new(repository: R) -> (s: Self)
        ensures
            s.repository == repository,
    {
        Self { repository }
    }
}

} // verus!
