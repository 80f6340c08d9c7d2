use vstd::prelude::*;
use crate::event::Role;
use crate::text::str_eq;

verus! {

/// Why a role name could not be resolved against the guild's roles.
#[derive(Debug, Clone, PartialEq, Eq)]
pub enum ResolveError {
    /// No role of the guild bears exactly this name.
    RoleNotFound(String),
}

/// Some role in the set bears exactly this name.
pub open spec fn has_role_named(roles: Seq<Role>, name: Seq<char>) -> bool {
    exists|j: int| 0 <= j < roles.len() && roles[j].name@ == name
}

/// `id` is the identifier of the first role bearing the name.
pub open spec fn is_first_named(roles: Seq<Role>, name: Seq<char>, id: u64) -> bool {
    exists|j: int|
        {
            &&& 0 <= j < roles.len()
            &&& (#[trigger] roles[j]).name@ == name
            &&& roles[j].id == id
            &&& forall|k: int| 0 <= k < j ==> roles[k].name@ != name
        }
}

/// Exact name lookup against the guild's role set: the identifier of the
/// first role whose name equals `name` exactly (no case folding), or
/// `RoleNotFound` iff no role bears the name.
pub fn resolve(roles: &Vec<Role>, name: &str) -> (r: Result<u64, ResolveError>)
    ensures
        match r {
            Ok(id) => is_first_named(roles@, name@, id),
            Err(e) => !has_role_named(roles@, name@) && (e matches ResolveError::RoleNotFound(n)
                && n@ == name@),
        },
{
    let n = roles.len();
    let mut j: usize = 0;
    while j < n
        invariant
            n == roles@.len(),
            j <= n,
            forall|k: int| 0 <= k < j ==> (#[trigger] roles@[k]).name@ != name@,
        decreases n - j,
    {
        if str_eq(roles[j].name.as_str(), name) {
            return Ok(roles[j].id);
        }
        j = j + 1;
    }
    Err(ResolveError::RoleNotFound(name.to_owned()))
}

} // verus!
