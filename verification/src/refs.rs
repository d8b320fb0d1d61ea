//! The reference resolver: maps a reference string — a local branch name
//! or a commit id — to a commit.

use vstd::prelude::*;
use crate::model::CoreError;
use crate::store;
use crate::store::CommitData;

verus! {

/// Chooses the commit id a reference string addresses: the head of the
/// branch of that name when one exists — branch lookup always wins — and
/// the string itself, read as an object id, otherwise.
pub fn resolve_target(branch_head: Option<String>, refname: &str) -> (r: String)
    ensures
        (branch_head matches Some(id) ==> r == id),
        branch_head is None ==> r@ == refname@,
{
    match branch_head {
        Some(id) => id,
        None => refname.to_owned(),
    }
}

/// Resolves `refname` to a commit: first as a local branch name, then as
/// an object id. Fails with `RefNotFound` when both lookups fail.
pub fn resolve(repo: &git2::Repository, refname: &str) -> (r: Result<CommitData, CoreError>)
    ensures
        (match r {
            Err(e) => e is RefNotFound,
            Ok(c) => store::is_oid_hex(c.id@) && (forall|i: int|
                0 <= i < c.parent_ids@.len() ==> store::is_oid_hex(
                    (#[trigger] c.parent_ids@[i])@,
                )),
        }),
{
    let branch_head = store::branch_head_id(repo, refname);
    let target = resolve_target(branch_head, refname);
    match store::read_commit(repo, target.as_str()) {
        Some(c) => Ok(c),
        None => Err(CoreError::RefNotFound),
    }
}

} // verus!
