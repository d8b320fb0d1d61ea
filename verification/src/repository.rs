//! Page-level assembly: the data each repository view is built from — the
//! home listing, a tree or blob at a path, the branch list, the commit
//! log, and a commit's diff.

use vstd::prelude::*;
use crate::diff;
use crate::history;
use crate::model::CoreError;
use crate::refs;
use crate::render;
use crate::store;
use crate::store::CommitData;
use crate::text;
use crate::time_utils;
use crate::tree;

verus! {

/// How many commits a log page holds.
pub const MAX_COMMIT_LEN: usize = 20;

/// A commit's author.
#[derive(Debug, Clone)]
pub struct Author {
    pub name: String,
    pub email: String,
}

/// A commit prepared for display.
#[derive(Debug, Clone)]
pub struct Commit {
    pub id: String,
    pub message: String,
    pub author: Author,
    pub relative_time: String,
    pub datetime: String,
}

/// The boundary query parameter that forces raw pass-through of binary
/// content.
#[derive(Debug, Clone)]
pub struct Query {
    pub raw: Option<bool>,
}

/// The boundary query parameter carrying the pagination cursor: a commit
/// id to continue the log from.
#[derive(Debug, Clone)]
pub struct CommitsQuery {
    pub from: Option<String>,
}

/// Builds the display form of a commit: its summary or full message, and
/// — when asked — its times rendered against the clock.
pub fn commit_overview(c: &CommitData, use_summary: bool, with_times: bool) -> (r: Commit)
    ensures
        r.id@ == c.id@,
        use_summary ==> r.message@ == c.summary@,
        !use_summary ==> r.message@ == c.message@,
        r.author.name@ == c.author_name@,
        r.author.email@ == c.author_email@,
        !with_times ==> r.relative_time@ == Seq::<char>::empty() && r.datetime@ == Seq::<
            char,
        >::empty(),
{
    let message = if use_summary {
        c.summary.clone()
    } else {
        c.message.clone()
    };
    let (relative_time, datetime) = if with_times {
        let rel = time_utils::to_relative_time(c.time_seconds);
        let dt = match time_utils::to_datetime(c.time_seconds, Some(c.offset_minutes)) {
            Some(s) => s,
            None => String::new(),
        };
        (rel, dt)
    } else {
        (String::new(), String::new())
    };
    Commit {
        id: c.id.clone(),
        message,
        author: Author { name: c.author_name.clone(), email: c.author_email.clone() },
        relative_time,
        datetime,
    }
}

/// The repository home view: the head branch's short name, the head
/// commit, and the root listing.
#[derive(Debug, Clone)]
pub struct RepoHome {
    pub branch: String,
    pub commit: Commit,
    pub listing: tree::Listing,
}

/// The short name of a full reference: its final slash-delimited segment.
pub fn short_ref_name(full: &str) -> (r: String)
    ensures
        r@ == text::spec_split(full@, '/').last(),
{
    let segments = text::split_char(full, '/');
    proof {
        text::lemma_split_nonempty(full@, '/');
        assert(text::views_of(segments@).last() == segments@[segments@.len() - 1]@);
    }
    segments[segments.len() - 1].clone()
}

/// Builds the repository home view from the head reference.
pub fn index_page(repo: &git2::Repository) -> (r: Result<RepoHome, CoreError>)
    ensures
        (match r {
            Err(e) => e is ObjectReadFailure,
            Ok(home) => tree::files_after_dirs(home.listing.entries@),
        }),
{
    let head = match store::head_ref(repo) {
        Some(h) => h,
        None => {
            return Err(CoreError::ObjectReadFailure);
        },
    };
    let branch = match head.branch_ref {
        Some(full) => short_ref_name(full.as_str()),
        None => String::new(),
    };
    let commit = match store::read_commit(repo, head.commit_id.as_str()) {
        Some(c) => c,
        None => {
            return Err(CoreError::ObjectReadFailure);
        },
    };
    let overview = commit_overview(&commit, false, true);
    let listing = match tree::list_tree(repo, commit.tree_id.as_str()) {
        Ok(l) => l,
        Err(e) => {
            return Err(e);
        },
    };
    Ok(RepoHome { branch, commit: overview, listing })
}

/// A branch's root view: the branch head commit and the root listing.
#[derive(Debug, Clone)]
pub struct TreeHome {
    pub commit: Commit,
    pub listing: tree::Listing,
}

/// Builds the root view of the tree a reference addresses.
pub fn tree_page(repo: &git2::Repository, branch: &str) -> (r: Result<TreeHome, CoreError>)
    ensures
        (match r {
            Err(e) => e is RefNotFound || e is ObjectReadFailure,
            Ok(home) => tree::files_after_dirs(home.listing.entries@),
        }),
{
    let commit = match refs::resolve(repo, branch) {
        Ok(c) => c,
        Err(_) => {
            return Err(CoreError::RefNotFound);
        },
    };
    let overview = commit_overview(&commit, true, true);
    let listing = match tree::list_tree(repo, commit.tree_id.as_str()) {
        Ok(l) => l,
        Err(e) => {
            return Err(e);
        },
    };
    Ok(TreeHome { commit: overview, listing })
}

/// What a navigated path shows: a directory listing or a rendered blob,
/// each with its breadcrumb.
#[derive(Debug, Clone)]
pub enum PathView {
    Tree { commit: Commit, listing: tree::Listing, breadcrumb: Vec<tree::Crumb> },
    File { name: String, rendered: render::RenderedBlob, breadcrumb: Vec<tree::Crumb> },
}

/// Builds the view of `tail` under the reference `branch`: a listing for
/// a tree, a rendered blob for a file. Binary content passes through raw
/// only when `raw_requested` is set.
pub fn tree_path(repo: &git2::Repository, branch: &str, tail: &str, raw_requested: bool) -> (r:
    Result<PathView, CoreError>)
    ensures
        (match r {
            Err(e) => e is RefNotFound || e is PathNotFound || e is ObjectReadFailure,
            Ok(_) => true,
        }),
        (match r {
            Err(CoreError::PathNotFound(s)) => s@ == text::spec_split(tail@, '/').last(),
            _ => true,
        }),
        (match r {
            Ok(PathView::File { name, rendered, .. }) => name@ == text::spec_split(
                tail@,
                '/',
            ).last() && (!raw_requested ==> !(rendered is Raw)),
            _ => true,
        }),
        (match r {
            Ok(PathView::Tree { listing, .. }) => tree::files_after_dirs(listing.entries@),
            _ => true,
        }),
        (match r {
            Ok(PathView::Tree { breadcrumb, .. }) => tree::crumbs_match(
                breadcrumb@,
                text::spec_split(tail@, '/'),
            ),
            Ok(PathView::File { breadcrumb, .. }) => tree::crumbs_match(
                breadcrumb@,
                text::spec_split(tail@, '/'),
            ),
            Err(_) => true,
        }),
{
    let commit = match refs::resolve(repo, branch) {
        Ok(c) => c,
        Err(_) => {
            return Err(CoreError::RefNotFound);
        },
    };
    let overview = commit_overview(&commit, false, false);
    let segments = text::split_char(tail, '/');
    let crumbs = tree::breadcrumb(&segments);
    match tree::list(repo, &commit, tail) {
        Ok(tree::Resolved::Listing(l)) => Ok(
            PathView::Tree { commit: overview, listing: l, breadcrumb: crumbs },
        ),
        Ok(tree::Resolved::Blob { name, id }) => {
            let data = match store::blob_data(repo, id.as_str()) {
                Some(b) => b,
                None => {
                    return Err(CoreError::ObjectReadFailure);
                },
            };
            let rendered = render::render(data, name.as_str(), raw_requested);
            Ok(PathView::File { name, rendered, breadcrumb: crumbs })
        },
        Err(e) => Err(e),
    }
}

/// The local branch names of the repository.
pub fn branches_page(repo: &git2::Repository) -> (r: Result<Vec<String>, CoreError>)
    ensures
        (match r {
            Err(e) => e is ObjectReadFailure,
            Ok(_) => true,
        }),
{
    let raw = match store::branch_list(repo, true) {
        Some(b) => b,
        None => {
            return Err(CoreError::ObjectReadFailure);
        },
    };
    let mut names: Vec<String> = Vec::new();
    let mut n: usize = 0;
    while n < raw.len()
        invariant
            n <= raw@.len(),
            names@.len() == n,
            forall|i: int| 0 <= i < n ==> (#[trigger] names@[i])@ == raw@[i].name@,
        decreases raw@.len() - n,
    {
        names.push(raw[n].name.clone());
        n += 1;
    }
    Ok(names)
}

/// One page of the commit log.
#[derive(Debug, Clone)]
pub struct CommitsPage {
    pub commits: Vec<Commit>,
    pub has_more: bool,
}

/// Builds a log page: the full traversal from the head when neither a
/// specific reference nor a cursor was given — with times rendered — and
/// the first-parent walk otherwise, summaries only.
pub fn commits_page(
    repo: &git2::Repository,
    branch: Option<&String>,
    query: &CommitsQuery,
    page_size: usize,
) -> (r: Result<CommitsPage, CoreError>)
    ensures
        (match r {
            Ok(p) => p.commits@.len() <= page_size && (p.commits@.len() == 0 ==> p.has_more
                == false),
            Err(e) => e is RefNotFound || e is ObjectReadFailure,
        }),
{
    let cursor = query.from.as_ref();
    let detailed = branch.is_none() && cursor.is_none();
    let paged = match history::page(repo, branch, cursor, page_size) {
        Ok(p) => p,
        Err(e) => {
            return Err(e);
        },
    };
    let mut commits: Vec<Commit> = Vec::new();
    let mut n: usize = 0;
    while n < paged.commits.len()
        invariant
            n <= paged.commits@.len(),
            commits@.len() == n,
            paged.commits@.len() <= page_size,
        decreases paged.commits@.len() - n,
    {
        let overview = commit_overview(&paged.commits[n], !detailed, detailed);
        commits.push(overview);
        n += 1;
    }
    Ok(CommitsPage { commits, has_more: paged.has_more })
}

/// A commit at the head of its diff view.
#[derive(Debug, Clone)]
pub struct DiffCommit {
    pub id: String,
    pub parent_ids: Vec<String>,
    pub author: Author,
    pub summary: String,
    pub relative_time: String,
    pub datetime: String,
}

/// Builds a commit's diff view: the commit's display data and the
/// structured diff against its first parent.
pub fn diff_page(repo: &git2::Repository, id: &str) -> (r: Result<
    (DiffCommit, diff::Diff),
    CoreError,
>)
    ensures
        (match r {
            Ok(p) => p.0.id@ == id@ && diff::sorted_by_name(p.1.files@),
            Err(e) => e is ObjectReadFailure,
        }),
{
    let c = match store::read_commit(repo, id) {
        Some(c) => c,
        None => {
            return Err(CoreError::ObjectReadFailure);
        },
    };
    let d = match diff::Diff::new(repo, id) {
        Ok(d) => d,
        Err(_) => {
            return Err(CoreError::ObjectReadFailure);
        },
    };
    let relative_time = time_utils::to_relative_time(c.time_seconds);
    let datetime = match time_utils::to_datetime(c.time_seconds, Some(c.offset_minutes)) {
        Some(s) => s,
        None => String::new(),
    };
    let commit = DiffCommit {
        id: id.to_owned(),
        parent_ids: c.parent_ids,
        author: Author { name: c.author_name, email: c.author_email },
        summary: c.summary,
        relative_time,
        datetime,
    };
    Ok((commit, d))
}

} // verus!
