//! The commit-history pager: walks ancestry from a starting point and
//! returns at most a page of commits, newest first, with a flag telling
//! whether history continues past the page.

use vstd::prelude::*;
use crate::model::CoreError;
use crate::refs;
use crate::store;
use crate::store::CommitData;

verus! {

/// A page of history: commits in newest-to-ancestor order, never more
/// than the page size, and whether the last entry has an ancestor.
pub struct PagedHistory {
    pub commits: Vec<CommitData>,
    pub has_more: bool,
}

/// A strict first-parent chain: each commit but the last has a parent on
/// record, and its successor is exactly that first parent.
pub open spec fn chained(s: Seq<CommitData>) -> bool {
    forall|i: int|
        0 <= i < s.len() - 1 ==> (#[trigger] s[i]).parent_ids@.len() > 0 && s[i + 1].id@ == s[
            i
        ].parent_ids@[0]@
}

/// Walks ancestry from `start_id`, following only the first parent of
/// each commit, and appends up to the page size to `log`. What was
/// already collected stays untouched; the appended suffix is a strict
/// first-parent chain opening at `start_id` (when that is a full id), and
/// the walk stops at the size bound, at a parentless commit, or at an
/// unreadable object. The accumulator bounds the walk, so it terminates
/// whatever the history holds.
pub fn push_log(repo: &git2::Repository, start_id: &str, log: &mut Vec<CommitData>, limit: usize)
    ensures
        old(log)@.len() >= limit ==> final(log)@ == old(log)@,
        old(log)@.len() <= limit ==> final(log)@.len() <= limit,
        old(log)@ == final(log)@.take(old(log)@.len() as int),
        chained(final(log)@.skip(old(log)@.len() as int)),
        (store::is_oid_hex(start_id@) && final(log)@.len() > old(log)@.len())
            ==> final(log)@[old(log)@.len() as int].id@ == start_id@,
{
    let ghost base = old(log)@;
    if log.len() >= limit {
        proof {
            assert(log@.take(base.len() as int) =~= base);
            assert(log@.skip(base.len() as int) =~= Seq::<CommitData>::empty());
        }
        return ;
    }
    let mut cur = start_id.to_owned();
    proof {
        assert(log@.take(base.len() as int) =~= base);
        assert(log@.skip(base.len() as int) =~= Seq::<CommitData>::empty());
    }
    loop
        invariant
            base == old(log)@,
            base.len() <= log@.len() <= limit,
            base == log@.take(base.len() as int),
            chained(log@.skip(base.len() as int)),
            log@.len() > base.len() ==> (log@.last().parent_ids@.len() > 0 && cur@ == log@.last(
            ).parent_ids@[0]@ && store::is_oid_hex(cur@)),
            log@.len() == base.len() ==> cur@ == start_id@,
            (store::is_oid_hex(start_id@) && log@.len() > base.len()) ==> log@[base.len() as int].id@
                == start_id@,
        decreases limit - log@.len(),
    {
        if log.len() >= limit {
            return ;
        }
        let c = match store::read_commit(repo, cur.as_str()) {
            Some(c) => c,
            None => {
                return ;
            },
        };
        let has_parent = c.parent_ids.len() > 0;
        let next = if has_parent {
            Some(c.parent_ids[0].clone())
        } else {
            None
        };
        let ghost old_log = log@;
        log.push(c);
        proof {
            assert(log@.take(base.len() as int) =~= base);
            assert(log@.skip(base.len() as int) =~= old_log.skip(base.len() as int).push(
                log@.last(),
            ));
            let suf = old_log.skip(base.len() as int);
            let suf1 = log@.skip(base.len() as int);
            assert forall|i: int| 0 <= i < suf1.len() - 1 implies (#[trigger] suf1[i]).parent_ids@.len()
                > 0 && suf1[i + 1].id@ == suf1[i].parent_ids@[0]@ by {
                if i < suf.len() - 1 {
                    assert(suf1[i] == suf[i]);
                    assert(suf1[i + 1] == suf[i + 1]);
                } else {
                    // The new last element was read from the previous
                    // last element's first parent, a full id.
                    assert(suf1[i] == old_log.last());
                    assert(suf1[i + 1] == log@.last());
                }
            }
        }
        match next {
            Some(id) => {
                cur = id;
            },
            None => {
                return ;
            },
        }
    }
}

/// Whether the commit `id` has at least one parent on record; reading the
/// commit back is how the pager decides `has_more`.
fn parent_recorded(repo: &git2::Repository, id: &str) -> (r: Option<bool>) {
    match store::read_commit(repo, id) {
        Some(c) => Some(c.parent_ids.len() > 0),
        None => None,
    }
}

/// Pages the commit history.
///
/// With neither a specific reference nor a cursor, the page is the head of
/// the full traversal in the store's default revision order. With a
/// specific reference or a cursor, the walk starts at the cursor commit —
/// or at the resolved reference — and follows first parents only, a
/// strict linear walk that silently ignores a merge's other parents.
///
/// `has_more` re-resolves the last collected commit and reports whether
/// it has a parent; an empty walk is an empty page with `has_more` false.
pub fn page(
    repo: &git2::Repository,
    start: Option<&String>,
    cursor: Option<&String>,
    page_size: usize,
) -> (r: Result<PagedHistory, CoreError>)
    ensures
        (match r {
            Ok(p) => p.commits@.len() <= page_size && (p.commits@.len() == 0 ==> p.has_more
                == false) && ((cursor is Some || start is Some) ==> chained(p.commits@)),
            Err(e) => e is RefNotFound || e is ObjectReadFailure,
        }),
        (match (r, cursor) {
            (Ok(p), Some(from)) => (store::is_oid_hex(from@) && p.commits@.len() > 0)
                ==> p.commits@[0].id@ == from@,
            _ => true,
        }),
{
    let mut commits: Vec<CommitData> = Vec::new();
    match cursor {
        Some(from) => {
            push_log(repo, from.as_str(), &mut commits, page_size);
            proof {
                assert(commits@.skip(0) =~= commits@);
            }
        },
        None => {
            match start {
                Some(refname) => {
                    let head = match refs::resolve(repo, refname.as_str()) {
                        Ok(c) => c,
                        Err(_) => {
                            return Err(CoreError::RefNotFound);
                        },
                    };
                    push_log(repo, head.id.as_str(), &mut commits, page_size);
                    proof {
                        assert(commits@.skip(0) =~= commits@);
                    }
                },
                None => {
                    let ids = match store::revwalk_head_ids(repo) {
                        Some(ids) => ids,
                        None => {
                            return Err(CoreError::ObjectReadFailure);
                        },
                    };
                    let mut i: usize = 0;
                    while i < ids.len() && commits.len() < page_size
                        invariant
                            commits@.len() <= page_size,
                            i <= ids@.len(),
                        decreases ids@.len() - i,
                    {
                        let c = match store::read_commit(repo, ids[i].as_str()) {
                            Some(c) => c,
                            None => {
                                return Err(CoreError::ObjectReadFailure);
                            },
                        };
                        commits.push(c);
                        i += 1;
                    }
                },
            }
        },
    }
    if commits.len() == 0 {
        return Ok(PagedHistory { commits, has_more: false });
    }
    let last_id = commits[commits.len() - 1].id.clone();
    let has_more = match parent_recorded(repo, last_id.as_str()) {
        Some(b) => b,
        None => {
            return Err(CoreError::ObjectReadFailure);
        },
    };
    Ok(PagedHistory { commits, has_more })
}

} // verus!
