//! The tree navigator: resolves a slash-delimited path inside a commit's
//! tree to a directory listing or a blob, classifies entries, partitions
//! directories before files, detects a README, and builds breadcrumbs.

use vstd::prelude::*;
use crate::model::CoreError;
use crate::render;
use crate::store;
use crate::store::{CommitData, RawEntry};
use crate::text;

verus! {

/// Kind of a tree entry: a subtree, a blob, or a registered submodule.
#[derive(Debug, Clone, Copy, PartialEq, Eq, Structural)]
pub enum Kind {
    Tree,
    File,
    Submodule,
}

impl Kind {
    /// The display label of the kind. The label of `File` has always been
    /// the literal `Kind`.
    pub fn as_str(&self) -> (r: &str)
        ensures
            self is Tree ==> r@ == "Tree"@,
            self is File ==> r@ == "Kind"@,
            self is Submodule ==> r@ == "Submodule"@,
    {
        match self {
            Kind::Tree => "Tree",
            Kind::File => "Kind",
            Kind::Submodule => "Submodule",
        }
    }
}

/// One entry of a directory listing.
#[derive(Debug, Clone)]
pub struct TreeEntry {
    pub name: String,
    pub kind: Kind,
    /// Hex object id of the entry.
    pub id: String,
}

/// The kind an entry gets: the submodule registry overrides, then the
/// tree flag decides, and everything else is a file.
pub open spec fn spec_classify(is_tree: bool, is_submodule: bool) -> Kind {
    if is_submodule {
        Kind::Submodule
    } else if is_tree {
        Kind::Tree
    } else {
        Kind::File
    }
}

/// Classifies one entry.
pub fn classify(is_tree: bool, is_submodule: bool) -> (r: Kind)
    ensures
        r == spec_classify(is_tree, is_submodule),
{
    if is_submodule {
        Kind::Submodule
    } else if is_tree {
        Kind::Tree
    } else {
        Kind::File
    }
}

/// Classifies a tree's direct children, preserving names, ids and order.
/// Whether an entry is a submodule comes from the repository-root
/// registry, whatever the entry's depth.
pub fn classify_entries(repo: &git2::Repository, raw: &Vec<RawEntry>) -> (r: Vec<TreeEntry>)
    ensures
        r@.len() == raw@.len(),
        forall|i: int|
            0 <= i < r@.len() ==> (#[trigger] r@[i]).name@ == raw@[i].name@ && r@[i].id@
                == raw@[i].id@,
        forall|i: int|
            0 <= i < r@.len() ==> ((#[trigger] r@[i]).kind == Kind::Submodule || r@[i].kind
                == spec_classify(raw@[i].is_tree, false)),
{
    let mut out: Vec<TreeEntry> = Vec::new();
    let mut n: usize = 0;
    while n < raw.len()
        invariant
            n <= raw@.len(),
            out@.len() == n,
            forall|i: int|
                0 <= i < n ==> (#[trigger] out@[i]).name@ == raw@[i].name@ && out@[i].id@
                    == raw@[i].id@,
            forall|i: int|
                0 <= i < n ==> ((#[trigger] out@[i]).kind == Kind::Submodule || out@[i].kind
                    == spec_classify(raw@[i].is_tree, false)),
        decreases raw@.len() - n,
    {
        let e = &raw[n];
        let sub = store::has_submodule(repo, e.name.as_str());
        let kind = classify(e.is_tree, sub);
        out.push(TreeEntry { name: e.name.clone(), kind, id: e.id.clone() });
        n += 1;
    }
    out
}

/// The non-file entries of `s`, in their original order.
pub open spec fn keep_dirs(s: Seq<TreeEntry>) -> Seq<TreeEntry>
    decreases s.len(),
{
    if s.len() == 0 {
        Seq::empty()
    } else if !(s.last().kind is File) {
        keep_dirs(s.drop_last()).push(s.last())
    } else {
        keep_dirs(s.drop_last())
    }
}

/// The file entries of `s`, in their original order.
pub open spec fn keep_files(s: Seq<TreeEntry>) -> Seq<TreeEntry>
    decreases s.len(),
{
    if s.len() == 0 {
        Seq::empty()
    } else if s.last().kind is File {
        keep_files(s.drop_last()).push(s.last())
    } else {
        keep_files(s.drop_last())
    }
}

/// The stable partition of a listing: trees and submodules first, files
/// after, each group in its original relative order.
pub open spec fn dirs_first(s: Seq<TreeEntry>) -> Seq<TreeEntry> {
    keep_dirs(s) + keep_files(s)
}

/// Each kept group holds entries of its own kind only.
proof fn lemma_keep_kinds(s: Seq<TreeEntry>)
    ensures
        forall|i: int| 0 <= i < keep_dirs(s).len() ==> !((#[trigger] keep_dirs(s)[i]).kind
            is File),
        forall|i: int| 0 <= i < keep_files(s).len() ==> (#[trigger] keep_files(s)[i]).kind
            is File,
    decreases s.len(),
{
    if s.len() > 0 {
        lemma_keep_kinds(s.drop_last());
    }
}

/// The order a partitioned listing owes: every tree or submodule entry
/// stands before every file entry.
pub open spec fn files_after_dirs(s: Seq<TreeEntry>) -> bool {
    forall|i: int, j: int|
        0 <= i < j < s.len() && (#[trigger] s[i]).kind is File ==> (#[trigger] s[j]).kind
            is File
}

/// The stable-partition law: in a partitioned listing every tree or
/// submodule entry stands before every file entry; each group is, by
/// construction of [`keep_dirs`] and [`keep_files`], the subsequence of
/// the original listing of its kind, in the original relative order.
pub proof fn lemma_stable_partition(s: Seq<TreeEntry>)
    ensures
        files_after_dirs(dirs_first(s)),
{
    lemma_keep_kinds(s);
    assert forall|i: int, j: int|
        0 <= i < j < dirs_first(s).len() && (#[trigger] dirs_first(s)[i]).kind is File implies (
    #[trigger] dirs_first(s)[j]).kind is File by {
        if i < keep_dirs(s).len() {
            assert(dirs_first(s)[i] == keep_dirs(s)[i]);
        } else {
            assert(dirs_first(s)[j] == keep_files(s)[j - keep_dirs(s).len()]);
        }
    }
}

/// The two kept groups hold, between them, exactly the entries of the
/// listing.
proof fn lemma_keep_membership(s: Seq<TreeEntry>, e: TreeEntry)
    ensures
        (keep_dirs(s).contains(e) || keep_files(s).contains(e)) <==> s.contains(e),
    decreases s.len(),
{
    if s.len() == 0 {
    } else {
        lemma_keep_membership(s.drop_last(), e);
        if s.last() == e {
            if !(e.kind is File) {
                assert(keep_dirs(s).last() == e);
            } else {
                assert(keep_files(s).last() == e);
            }
            assert(s.contains(e));
        } else {
            // `e` is not the last element, so membership on either side
            // passes through the shorter listing.
            assert forall|i: int| 0 <= i < s.len() && s[i] == e implies s.drop_last().contains(
                e,
            ) by {
                assert(i < s.len() - 1);
                assert(s.drop_last()[i] == e);
            }
            assert forall|i: int|
                0 <= i < s.drop_last().len() && s.drop_last()[i] == e implies s.contains(e) by {
                assert(s[i] == e);
            }
            if !(s.last().kind is File) {
                assert forall|i: int|
                    0 <= i < keep_dirs(s).len() && keep_dirs(s)[i] == e implies keep_dirs(
                    s.drop_last(),
                ).contains(e) by {
                    assert(i < keep_dirs(s).len() - 1);
                    assert(keep_dirs(s.drop_last())[i] == e);
                }
                assert forall|i: int|
                    0 <= i < keep_dirs(s.drop_last()).len() && keep_dirs(s.drop_last())[i]
                    == e implies keep_dirs(s).contains(e) by {
                    assert(keep_dirs(s)[i] == e);
                }
            } else {
                assert forall|i: int|
                    0 <= i < keep_files(s).len() && keep_files(s)[i] == e implies keep_files(
                    s.drop_last(),
                ).contains(e) by {
                    assert(i < keep_files(s).len() - 1);
                    assert(keep_files(s.drop_last())[i] == e);
                }
                assert forall|i: int|
                    0 <= i < keep_files(s.drop_last()).len() && keep_files(s.drop_last())[i]
                    == e implies keep_files(s).contains(e) by {
                    assert(keep_files(s)[i] == e);
                }
            }
        }
    }
}

/// Partitioning neither loses nor invents entries: a listing holds an
/// entry exactly when its partitioned form does.
pub proof fn lemma_partition_membership(s: Seq<TreeEntry>, e: TreeEntry)
    ensures
        dirs_first(s).contains(e) <==> s.contains(e),
{
    lemma_keep_membership(s, e);
    if keep_dirs(s).contains(e) {
        let i = choose|i: int| 0 <= i < keep_dirs(s).len() && keep_dirs(s)[i] == e;
        assert(dirs_first(s)[i] == e);
    }
    if keep_files(s).contains(e) {
        let i = choose|i: int| 0 <= i < keep_files(s).len() && keep_files(s)[i] == e;
        assert(dirs_first(s)[keep_dirs(s).len() + i] == e);
    }
    if dirs_first(s).contains(e) {
        let i = choose|i: int| 0 <= i < dirs_first(s).len() && dirs_first(s)[i] == e;
        if i < keep_dirs(s).len() {
            assert(keep_dirs(s)[i] == e);
        } else {
            assert(keep_files(s)[i - keep_dirs(s).len()] == e);
        }
    }
}

/// Reorders a listing so all tree and submodule entries precede all file
/// entries, each group keeping its original relative order.
pub fn partition(entries: Vec<TreeEntry>) -> (r: Vec<TreeEntry>)
    ensures
        r@ == dirs_first(entries@),
        files_after_dirs(r@),
{
    proof {
        lemma_stable_partition(entries@);
    }
    let ghost s = entries@;
    let mut rest = entries;
    let mut dirs: Vec<TreeEntry> = Vec::new();
    let mut files: Vec<TreeEntry> = Vec::new();
    proof {
        assert(s.take(0) =~= Seq::<TreeEntry>::empty());
        assert(s.skip(0) =~= s);
    }
    while rest.len() > 0
        invariant
            rest@.len() <= s.len(),
            rest@ == s.skip(s.len() - rest@.len()),
            dirs@ == keep_dirs(s.take(s.len() - rest@.len())),
            files@ == keep_files(s.take(s.len() - rest@.len())),
        decreases rest@.len(),
    {
        let ghost n = s.len() - rest@.len();
        let e = rest.remove(0);
        proof {
            assert(s.skip(n)[0] == s[n]);
            assert(s.skip(n).remove(0) =~= s.skip(n + 1));
            assert(s.take(n + 1).drop_last() =~= s.take(n));
            assert(s.take(n + 1).last() == s[n]);
        }
        let is_file = match e.kind {
            Kind::File => true,
            _ => false,
        };
        if is_file {
            files.push(e);
            proof {
                assert(files@ =~= keep_files(s.take(n + 1)));
                assert(dirs@ =~= keep_dirs(s.take(n + 1)));
            }
        } else {
            dirs.push(e);
            proof {
                assert(dirs@ =~= keep_dirs(s.take(n + 1)));
                assert(files@ =~= keep_files(s.take(n + 1)));
            }
        }
    }
    proof {
        assert(s.take(s.len() as int) =~= s);
    }
    let mut out = dirs;
    let mut tail = files;
    out.append(&mut tail);
    out
}

/// One breadcrumb segment: its label, and the cumulative path it links to
/// — absent on the final segment, the current location.
#[derive(Debug, Clone)]
pub struct Crumb {
    pub label: String,
    pub link: Option<String>,
}

/// Whether crumbs present exactly the given path segments: one crumb per
/// segment, in order, every crumb but the last linking the cumulative
/// slash-joined prefix ending at it, the final crumb unlinked.
pub open spec fn crumbs_match(crumbs: Seq<Crumb>, segs: Seq<Seq<char>>) -> bool {
    &&& crumbs.len() == segs.len()
    &&& forall|i: int| 0 <= i < crumbs.len() ==> (#[trigger] crumbs[i]).label@ == segs[i]
    &&& forall|i: int|
        0 <= i < crumbs.len() - 1 ==> ((#[trigger] crumbs[i]).link matches Some(l) && l@
            == text::spec_join(segs.take(i + 1), '/'))
    &&& crumbs.len() > 0 ==> crumbs[crumbs.len() - 1].link is None
}

/// Builds the breadcrumb of a navigated path: one segment per component,
/// every segment but the last linking to the cumulative path prefix.
pub fn breadcrumb(segments: &Vec<String>) -> (r: Vec<Crumb>)
    ensures
        crumbs_match(r@, text::views_of(segments@)),
{
    let mut out: Vec<Crumb> = Vec::new();
    let mut i: usize = 0;
    while i < segments.len()
        invariant
            i <= segments@.len(),
            out@.len() == i,
            forall|j: int| 0 <= j < i ==> (#[trigger] out@[j]).label@ == segments@[j]@,
            forall|j: int|
                0 <= j < i && j < segments@.len() - 1 ==> ((#[trigger] out@[j]).link matches Some(
                    l,
                ) && l@ == text::spec_join(text::views_of(segments@).take(j + 1), '/')),
            forall|j: int|
                0 <= j < i && j == segments@.len() - 1 ==> (#[trigger] out@[j]).link is None,
        decreases segments@.len() - i,
    {
        let label = segments[i].clone();
        let link = if i + 1 < segments.len() {
            Some(text::join_slash(segments, i + 1))
        } else {
            None
        };
        out.push(Crumb { label, link });
        i += 1;
    }
    out
}

/// Whether a file name is the strictly-matched README: stem `README` with
/// extension `md` or `markdown`, case-sensitive.
pub open spec fn readme_name(s: Seq<char>) -> bool {
    s == "README.md"@ || s == "README.markdown"@
}

/// The last blob entry whose name is a strict README match, if any.
pub fn find_readme(entries: &Vec<RawEntry>) -> (r: Option<usize>)
    ensures
        r matches Some(i) ==> i < entries@.len() && entries@[i as int].is_blob && readme_name(
            entries@[i as int].name@,
        ) && (forall|j: int|
            i < j < entries@.len() ==> !((#[trigger] entries@[j]).is_blob && readme_name(
                entries@[j].name@,
            ))),
        r is None ==> forall|j: int|
            0 <= j < entries@.len() ==> !((#[trigger] entries@[j]).is_blob && readme_name(
                entries@[j].name@,
            )),
{
    let mut k: usize = entries.len();
    while k > 0
        invariant
            k <= entries@.len(),
            forall|j: int|
                k <= j < entries@.len() ==> !((#[trigger] entries@[j]).is_blob && readme_name(
                    entries@[j].name@,
                )),
        decreases k,
    {
        k -= 1;
        let e = &entries[k];
        if e.is_blob
            && (text::str_eq(e.name.as_str(), "README.md")
                || text::str_eq(e.name.as_str(), "README.markdown")) {
            return Some(k);
        }
    }
    None
}

/// A directory listing: classified entries, trees and submodules first,
/// and the rendered README when the directory carries one.
#[derive(Debug, Clone)]
pub struct Listing {
    pub entries: Vec<TreeEntry>,
    /// The README's title (its file stem) and rendered HTML.
    pub readme: Option<(String, String)>,
}

/// What a path resolves to inside a commit's tree.
#[derive(Debug, Clone)]
pub enum Resolved {
    Listing(Listing),
    /// A blob, paired with its terminal segment name.
    Blob { name: String, id: String },
}

/// Builds the listing of the tree addressed by `tree_id`: its children
/// classified and partitioned, and the README rendered when one of the
/// children matches strictly.
pub fn list_tree(repo: &git2::Repository, tree_id: &str) -> (r: Result<Listing, CoreError>)
    ensures
        r matches Err(e) ==> e is ObjectReadFailure,
        r matches Ok(l) ==> files_after_dirs(l.entries@),
{
    let tree = match store::lookup_tree(repo, tree_id) {
        Some(t) => t,
        None => {
            return Err(CoreError::ObjectReadFailure);
        },
    };
    let raw = store::tree_entries(&tree);
    let readme = match find_readme(&raw) {
        Some(i) => {
            let blob = match store::blob_data(repo, raw[i].id.as_str()) {
                Some(b) => b,
                None => {
                    return Err(CoreError::ObjectReadFailure);
                },
            };
            let html = render::render_markdown(&blob.bytes);
            Some((String::from_str("README"), html))
        },
        None => None,
    };
    let classified = classify_entries(repo, &raw);
    let entries = partition(classified);
    Ok(Listing { entries, readme })
}

/// Finds the entry called `name` among a tree's children.
fn find_entry(entries: &Vec<RawEntry>, name: &str) -> (r: Option<usize>)
    ensures
        match r {
            Some(i) => i < entries@.len() && entries@[i as int].name@ == name@,
            None => forall|k: int| 0 <= k < entries@.len() ==> (#[trigger] entries@[k]).name@
                != name@,
        },
{
    let mut k: usize = 0;
    while k < entries.len()
        invariant
            k <= entries@.len(),
            forall|j: int| 0 <= j < k ==> (#[trigger] entries@[j]).name@ != name@,
        decreases entries@.len() - k,
    {
        if text::str_eq(entries[k].name.as_str(), name) {
            return Some(k);
        }
        k += 1;
    }
    None
}

/// Resolves `path` against `commit`'s tree: the repository root for the
/// empty path, otherwise segment by segment. A listing comes back for a
/// tree, the id and terminal name for a blob; a missing segment is
/// `PathNotFound` naming the final segment of the requested path.
pub fn list(repo: &git2::Repository, commit: &CommitData, path: &str) -> (r: Result<
    Resolved,
    CoreError,
>)
    ensures
        (match r {
            Err(e) => e is PathNotFound || e is ObjectReadFailure,
            Ok(_) => true,
        }),
        (match r {
            Err(CoreError::PathNotFound(s)) => s@ == text::spec_split(path@, '/').last(),
            _ => true,
        }),
        (match r {
            Ok(Resolved::Listing(l)) => files_after_dirs(l.entries@),
            _ => true,
        }),
        (match r {
            Ok(Resolved::Blob { name, .. }) => name@ == text::spec_split(path@, '/').last(),
            _ => true,
        }),
        path@.len() == 0 ==> (match r {
            Ok(res) => res is Listing,
            Err(_) => true,
        }),
{
    if path.is_empty() {
        return match list_tree(repo, commit.tree_id.as_str()) {
            Ok(l) => Ok(Resolved::Listing(l)),
            Err(e) => Err(e),
        };
    }
    let segments = text::split_char(path, '/');
    proof {
        text::lemma_split_nonempty(path@, '/');
        assert(text::views_of(segments@).last() == segments@[segments@.len() - 1]@);
    }
    let last_ix = segments.len() - 1;
    let mut tree_id = commit.tree_id.clone();
    let mut seg: usize = 0;
    while seg < segments.len()
        invariant
            segments@.len() >= 1,
            last_ix == segments@.len() - 1,
            seg <= last_ix,
            path@.len() != 0,
            text::views_of(segments@) == text::spec_split(path@, '/'),
            text::views_of(segments@).last() == segments@[segments@.len() - 1]@,
        decreases segments@.len() - seg,
    {
        let tree = match store::lookup_tree(repo, tree_id.as_str()) {
            Some(t) => t,
            None => {
                return Err(CoreError::ObjectReadFailure);
            },
        };
        let raw = store::tree_entries(&tree);
        let found = match find_entry(&raw, segments[seg].as_str()) {
            Some(i) => i,
            None => {
                let missing = segments[last_ix].clone();
                return Err(CoreError::PathNotFound(missing));
            },
        };
        if seg == last_ix {
            let e = &raw[found];
            if e.is_blob {
                let name = e.name.clone();
                let id = e.id.clone();
                return Ok(Resolved::Blob { name, id });
            }
            if e.is_tree {
                return match list_tree(repo, e.id.as_str()) {
                    Ok(l) => Ok(Resolved::Listing(l)),
                    Err(err) => Err(err),
                };
            }
            // A submodule or other non-materialised entry: its object
            // cannot be read from this repository.
            return Err(CoreError::ObjectReadFailure);
        }
        if !raw[found].is_tree {
            let missing = segments[last_ix].clone();
            return Err(CoreError::PathNotFound(missing));
        }
        tree_id = raw[found].id.clone();
        seg += 1;
    }
    // Unreachable: the final segment always returns above.
    Err(CoreError::ObjectReadFailure)
}

} // verus!
