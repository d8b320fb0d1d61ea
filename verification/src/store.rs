//! Trusted boundary to the object store.
//!
//! Every read of the version-controlled object graph happens here, through
//! thin wrappers around `git2`. Each wrapper converts the opaque objects the
//! library cannot inspect into plain values (strings, integers, vectors) that
//! the verified logic consumes. What a repository holds depends on the disk,
//! so the wrappers promise nothing about which values come back; the
//! functions built on top state what holds of every outcome.

use vstd::prelude::*;

verus! {

#[verifier::external_type_specification]
#[verifier::external_body]
pub struct ExGitRepository(git2::Repository);

#[verifier::external_type_specification]
#[verifier::external_body]
pub struct ExGitTree<'a>(git2::Tree<'a>);

/// A full object id as the store renders one: exactly forty lowercase
/// hexadecimal characters.
pub open spec fn is_oid_hex(s: Seq<char>) -> bool {
    s.len() == 40 && forall|i: int|
        0 <= i < s.len() ==> ((48 <= (#[trigger] s[i]) as u32 && s[i] as u32 <= 57) || (97
            <= s[i] as u32 && s[i] as u32 <= 102))
}

/// A commit read from the object store, flattened to plain values.
#[derive(Debug, Clone)]
pub struct CommitData {
    /// Hex object id of the commit.
    pub id: String,
    /// Full commit message (empty when the stored message is absent or not
    /// valid text).
    pub message: String,
    /// First paragraph of the message.
    pub summary: String,
    pub author_name: String,
    pub author_email: String,
    /// Author time, seconds since the unix epoch.
    pub time_seconds: i64,
    /// Author timezone offset, minutes from UTC.
    pub offset_minutes: i32,
    /// Hex object id of the root tree of this commit.
    pub tree_id: String,
    /// Hex object ids of the parents, first parent first.
    pub parent_ids: Vec<String>,
}

/// Relies on `git2::Repository::open`: opens the repository at `path`.
#[verifier::external_body]
pub fn open_repository(path: &str) -> (r: Option<git2::Repository>) {
    git2::Repository::open(path).ok()
}

/// Relies on `git2::Repository::find_branch` and
/// `git2::Reference::peel_to_commit`: the id of the commit at the head of
/// the local branch `name`, if such a branch exists. The id comes from the
/// store's id rendering, forty lowercase hex digits.
#[verifier::external_body]
pub fn branch_head_id(repo: &git2::Repository, name: &str) -> (r: Option<String>)
    ensures
        r matches Some(id) ==> is_oid_hex(id@),
{
    let branch = repo.find_branch(name, git2::BranchType::Local).ok()?;
    Some(branch.get().peel_to_commit().ok()?.id().to_string())
}

/// Relies on `git2::Repository::find_commit` and the `git2::Commit`
/// accessors: the commit addressed by the hex id `id`, flattened.
///
/// Ids are rendered by the store as forty lowercase hex digits, and the
/// id parse reads hex digits case-insensitively into the same value — so
/// every id handed back satisfies [`is_oid_hex`], and a full lowercase
/// hex input names the commit whose id it already is.
#[verifier::external_body]
pub fn read_commit(repo: &git2::Repository, id: &str) -> (r: Option<CommitData>)
    ensures
        r matches Some(c) ==> is_oid_hex(c.id@) && is_oid_hex(c.tree_id@) && (forall|i: int|
            0 <= i < c.parent_ids@.len() ==> is_oid_hex((#[trigger] c.parent_ids@[i])@)),
        is_oid_hex(id@) ==> (r matches Some(c) ==> c.id@ == id@),
{
    let c = repo.find_commit(git2::Oid::from_str(id).ok()?).ok()?;
    let data = CommitData {
        id: c.id().to_string(),
        message: c.message().unwrap_or("").to_string(),
        summary: c.summary().ok().flatten().unwrap_or("").to_string(),
        author_name: c.author().name().unwrap_or("").to_string(),
        author_email: c.author().email().unwrap_or("").to_string(),
        time_seconds: c.time().seconds(),
        offset_minutes: c.time().offset_minutes(),
        tree_id: c.tree_id().to_string(),
        parent_ids: c.parent_ids().map(|p| p.to_string()).collect(),
    };
    Some(data)
}

/// The repository head, flattened: the id of the commit it points at and,
/// when the head is a branch, the full reference name.
#[derive(Debug, Clone)]
pub struct HeadRef {
    pub commit_id: String,
    pub branch_ref: Option<String>,
}

/// Relies on `git2::Repository::head`, `git2::Reference::is_branch`,
/// `git2::Reference::name` and `git2::Reference::peel_to_commit`.
#[verifier::external_body]
pub fn head_ref(repo: &git2::Repository) -> (r: Option<HeadRef>) {
    let head = repo.head().ok()?;
    let branch_ref = if head.is_branch() {
        Some(head.name().ok()?.to_string())
    } else {
        None
    };
    let commit_id = head.peel_to_commit().ok()?.id().to_string();
    Some(HeadRef { commit_id, branch_ref })
}

/// Relies on `git2::Repository::find_tree`: the tree addressed by the hex
/// id `id`.
#[verifier::external_body]
pub fn lookup_tree<'r>(repo: &'r git2::Repository, id: &str) -> (r: Option<git2::Tree<'r>>) {
    repo.find_tree(git2::Oid::from_str(id).ok()?).ok()
}

/// One direct child of a tree, flattened.
#[derive(Debug, Clone)]
pub struct RawEntry {
    pub name: String,
    /// Hex object id of the child.
    pub id: String,
    pub is_tree: bool,
    pub is_blob: bool,
}

/// Relies on `git2::Tree::iter` and the `git2::TreeEntry` accessors: the
/// direct children of `tree` in the tree's native iteration order.
#[verifier::external_body]
pub fn tree_entries(tree: &git2::Tree<'_>) -> (r: Vec<RawEntry>) {
    let mut v: Vec<RawEntry> = Vec::new();
    for e in tree.iter() {
        let kind = e.kind();
        v.push(RawEntry {
            name: e.name().unwrap_or("").to_string(),
            id: e.id().to_string(),
            is_tree: kind == Some(git2::ObjectType::Tree),
            is_blob: kind == Some(git2::ObjectType::Blob),
        });
    }
    v
}

/// Result of the store's built-in binary heuristic on a blob's bytes. The
/// heuristic depends on the bytes alone; nothing more is assumed of it.
pub uninterp spec fn looks_binary(bytes: Seq<u8>) -> bool;

/// A blob's content, byte for byte, with the store's binary classification.
#[derive(Debug, Clone)]
pub struct BlobData {
    pub bytes: Vec<u8>,
    pub is_binary: bool,
}

/// Relies on `git2::Repository::find_blob`, `git2::Blob::content` and
/// `git2::Blob::is_binary` (a NUL-byte heuristic over the content).
#[verifier::external_body]
pub fn blob_data(repo: &git2::Repository, id: &str) -> (r: Option<BlobData>)
    ensures
        r matches Some(b) ==> b.is_binary == looks_binary(b.bytes@),
{
    let blob = repo.find_blob(git2::Oid::from_str(id).ok()?).ok()?;
    Some(BlobData { bytes: blob.content().to_vec(), is_binary: blob.is_binary() })
}

/// Relies on `git2::Repository::find_submodule`: whether `name` is
/// registered as a submodule of the repository (the lookup consults the
/// top-level registry only).
#[verifier::external_body]
pub fn has_submodule(repo: &git2::Repository, name: &str) -> (r: bool) {
    repo.find_submodule(name).is_ok()
}

/// One branch of the repository, flattened.
#[derive(Debug, Clone)]
pub struct RawBranch {
    pub name: String,
    pub is_local: bool,
    /// Hex id of the tree at the branch head.
    pub tree_id: String,
}

/// Relies on `git2::Repository::branches`, `git2::Branch::name` and
/// `git2::Reference::peel`: the repository's branches, local only when
/// `local_only` is set.
#[verifier::external_body]
pub fn branch_list(repo: &git2::Repository, local_only: bool) -> (r: Option<Vec<RawBranch>>) {
    let filter = if local_only { Some(git2::BranchType::Local) } else { None };
    let mut v: Vec<RawBranch> = Vec::new();
    for item in repo.branches(filter).ok()? {
        let (b, ty) = item.ok()?;
        let name = match b.name() {
            Ok(Some(n)) => n.to_string(),
            _ => return None,
        };
        let tree_id = b.get().peel(git2::ObjectType::Tree).ok()?.id().to_string();
        v.push(RawBranch { name, is_local: ty == git2::BranchType::Local, tree_id });
    }
    Some(v)
}

/// An entry met while walking a tree recursively, flattened.
#[derive(Debug, Clone)]
pub struct RawWalkEntry {
    pub id: String,
    pub name: String,
    /// Raw file mode bits as the store records them.
    pub filemode: i32,
}

/// Relies on `git2::Tree::walk` in post-order and the `git2::TreeEntry`
/// accessors: every entry reachable from `tree`, in walk order.
#[verifier::external_body]
pub fn walk_tree(tree: &git2::Tree<'_>) -> (r: Option<Vec<RawWalkEntry>>) {
    let mut v: Vec<RawWalkEntry> = Vec::new();
    tree.walk(git2::TreeWalkMode::PostOrder, |_, e| {
        v.push(RawWalkEntry {
            id: e.id().to_string(),
            name: e.name().unwrap_or("").to_string(),
            filemode: e.filemode(),
        });
        git2::TreeWalkResult::Ok
    }).ok()?;
    Some(v)
}

/// Relies on `git2::Repository::revwalk` and `git2::Revwalk::push_head`:
/// the ids of the commits reachable from the head, in the store's default
/// revision order (reverse-chronological with topological tie-break).
#[verifier::external_body]
pub fn revwalk_head_ids(repo: &git2::Repository) -> (r: Option<Vec<String>>) {
    let mut walk = repo.revwalk().ok()?;
    walk.push_head().ok()?;
    let mut v: Vec<String> = Vec::new();
    for oid in walk {
        v.push(oid.ok()?.to_string());
    }
    Some(v)
}

/// Aggregate totals of a diff as the store computes them.
#[derive(Debug, Clone)]
pub struct DiffTotals {
    pub files_changed: usize,
    pub insertions: usize,
    pub deletions: usize,
}

/// The single-character origin codes a diff line can carry, as the store
/// documents them: context, addition, deletion, the three end-of-file
/// markers, file header, hunk header, binary.
pub open spec fn valid_origin(c: char) -> bool {
    c == ' ' || c == '+' || c == '-' || c == '=' || c == '>' || c == '<' || c == 'F' || c == 'H'
        || c == 'B'
}

/// One line event of a patch-formatted diff, flattened.
#[derive(Debug, Clone)]
pub struct RawDiffLine {
    /// Path of the new side of the file the line belongs to.
    pub path: String,
    pub old_lineno: Option<u32>,
    pub new_lineno: Option<u32>,
    /// Raw line content, decoded lossily.
    pub content: String,
    /// Single-character origin code.
    pub origin: char,
}

/// Relies on `git2::Repository::diff_tree_to_tree` with default options,
/// `git2::Diff::stats`, and `git2::Diff::print` in patch format with the
/// `git2::DiffLine` accessors: the diff from `old` (absent means the empty
/// tree) to `new`, as its aggregate totals — files changed, insertions,
/// deletions — and its line events in emission order. The origin sigils
/// are the nine the store documents (anything else is mapped to a space by
/// the store itself).
#[verifier::external_body]
pub fn diff_raw<'r>(
    repo: &'r git2::Repository,
    old: Option<&git2::Tree<'r>>,
    new: &git2::Tree<'r>,
) -> (r: Option<((usize, usize, usize), Vec<RawDiffLine>)>)
    ensures
        r matches Some(pair) ==> forall|i: int|
            0 <= i < pair.1@.len() ==> valid_origin(#[trigger] pair.1@[i].origin),
{
    let diff = repo.diff_tree_to_tree(old, Some(new), None).ok()?;
    let st = diff.stats().ok()?;
    let totals = (st.files_changed(), st.insertions(), st.deletions());
    let mut v: Vec<RawDiffLine> = Vec::new();
    diff.print(git2::DiffFormat::Patch, |delta, _, line| {
        v.push(RawDiffLine {
            path: delta.new_file().path().map(|p| p.to_string_lossy().into_owned()).unwrap_or_default(),
            old_lineno: line.old_lineno(),
            new_lineno: line.new_lineno(),
            content: String::from_utf8_lossy(line.content()).into_owned(),
            origin: line.origin(),
        });
        true
    }).ok();
    Some((totals, v))
}

} // verus!
