//! Errors the control plane reports to its callers.

use vstd::prelude::*;

verus! {

/// Why a control-plane request was refused. Each variant names the field or resource concerned.
#[derive(Debug, Clone, Copy)]
pub enum ControlPlaneError {
    InvalidInput(&'static str),
    NotFound(&'static str),
    PermissionDenied(&'static str),
    Conflict(&'static str),
    UpstreamUnavailable(&'static str),
}

/// Who makes a request: the user, the workspace they act in, and what they may do.
pub struct ActorContext {
    pub user_id: u128,
    pub current_workspace_id: u128,
    pub is_root: bool,
    pub permissions: Vec<String>,
}

pub open spec fn has_permission(actor: ActorContext, code: Seq<char>) -> bool {
    exists|i: int| 0 <= i < actor.permissions@.len() && actor.permissions@[i]@ == code
}

impl ActorContext {
    /// Whether the actor holds a permission code.
    pub fn has_permission(&self, code: &str) -> (b: bool)
        ensures
            b == has_permission(*self, code@),
    {
        let mut i: usize = 0;
        while i < self.permissions.len()
            invariant
                i <= self.permissions@.len(),
                forall|k: int| 0 <= k < i ==> self.permissions@[k]@ != code@,
            decreases self.permissions.len() - i,
        {
            if crate::text::str_eq(self.permissions[i].as_str(), code) {
                return true;
            }
            i = i + 1;
        }
        false
    }
}

} // verus!
