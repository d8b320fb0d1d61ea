//! A whole-repository snapshot: every branch with the entries reachable
//! from its head tree, as plain data.

use vstd::prelude::*;
use crate::model::CoreError;
use crate::store;
use crate::store::RawWalkEntry;
use crate::text;

verus! {

/// Where a branch lives.
#[derive(Debug, Clone, Copy, PartialEq, Eq, Structural)]
pub enum BranchType {
    Local,
    Remote,
}

impl BranchType {
    /// The display label of the branch type.
    pub fn as_str(&self) -> (r: &str)
        ensures
            self is Local ==> r@ == "Local"@,
            self is Remote ==> r@ == "Remote"@,
    {
        match self {
            BranchType::Local => "Local",
            BranchType::Remote => "Remote",
        }
    }
}

/// One entry met while walking a branch's tree.
#[derive(Debug, Clone)]
pub struct Entry {
    /// Hex object id.
    pub id: String,
    pub name: String,
    /// The entry's file mode bits, rendered in decimal.
    pub filemode: String,
}

/// One branch: its name, where it lives, and the entries reachable from
/// its head tree in walk order.
#[derive(Debug, Clone)]
pub struct Branch {
    pub name: String,
    pub ty: BranchType,
    pub entries: Vec<Entry>,
}

/// A repository snapshot: its path and its branches.
#[derive(Debug, Clone)]
pub struct RepoSnapshot {
    pub name: String,
    pub branches: Vec<Branch>,
}

/// Converts walked entries to display entries, rendering the file mode in
/// decimal and preserving names, ids and order.
pub fn convert_walk(walked: &Vec<RawWalkEntry>) -> (r: Vec<Entry>)
    ensures
        r@.len() == walked@.len(),
        forall|i: int|
            0 <= i < r@.len() ==> (#[trigger] r@[i]).id@ == walked@[i].id@ && r@[i].name@
                == walked@[i].name@ && r@[i].filemode@ == text::spec_dec_signed(
                walked@[i].filemode as int,
            ),
{
    let mut out: Vec<Entry> = Vec::new();
    let mut n: usize = 0;
    while n < walked.len()
        invariant
            n <= walked@.len(),
            out@.len() == n,
            forall|i: int|
                0 <= i < n ==> (#[trigger] out@[i]).id@ == walked@[i].id@ && out@[i].name@
                    == walked@[i].name@ && out@[i].filemode@ == text::spec_dec_signed(
                    walked@[i].filemode as int,
                ),
        decreases walked@.len() - n,
    {
        let e = &walked[n];
        let filemode = text::i64_to_dec(e.filemode as i64);
        out.push(Entry { id: e.id.clone(), name: e.name.clone(), filemode });
        n += 1;
    }
    out
}

/// Opens the repository at `name` and snapshots every branch with the
/// entries reachable from its head tree.
pub fn open(name: &str) -> (r: Result<RepoSnapshot, CoreError>)
    ensures
        (match r {
            Ok(rep) => rep.name@ == name@,
            Err(e) => e is ObjectReadFailure,
        }),
{
    let repo = match store::open_repository(name) {
        Some(r) => r,
        None => {
            return Err(CoreError::ObjectReadFailure);
        },
    };
    let raw_branches = match store::branch_list(&repo, false) {
        Some(b) => b,
        None => {
            return Err(CoreError::ObjectReadFailure);
        },
    };
    let mut branches: Vec<Branch> = Vec::new();
    let mut n: usize = 0;
    while n < raw_branches.len()
        decreases raw_branches@.len() - n,
    {
        let rb = &raw_branches[n];
        let tree = match store::lookup_tree(&repo, rb.tree_id.as_str()) {
            Some(t) => t,
            None => {
                return Err(CoreError::ObjectReadFailure);
            },
        };
        let walked = match store::walk_tree(&tree) {
            Some(w) => w,
            None => {
                return Err(CoreError::ObjectReadFailure);
            },
        };
        let entries = convert_walk(&walked);
        let ty = if rb.is_local {
            BranchType::Local
        } else {
            BranchType::Remote
        };
        branches.push(Branch { name: rb.name.clone(), ty, entries });
        n += 1;
    }
    Ok(RepoSnapshot { name: name.to_owned(), branches })
}

} // verus!
