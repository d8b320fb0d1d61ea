//! Tree navigation: path resolution, partitioning, README detection and
//! breadcrumbs.

use gecko_core::model::CoreError;
use gecko_core::refs;
use gecko_core::store;
use gecko_core::text;
use gecko_core::tree;
use gecko_core::tree::{Kind, Resolved};

fn tr_path(tag: &str) -> String {
    let nanos = time::OffsetDateTime::now_utc().unix_timestamp_nanos();
    format!("/tmp/gecko_core_{tag}_{nanos}")
}

fn tr_sig() -> git2::Signature<'static> {
    git2::Signature::new("Alice", "alice@example.com", &git2::Time::new(1700000000, 0)).unwrap()
}

fn tr_commit_tree(
    repo: &git2::Repository,
    root_files: &[(&str, &[u8])],
    sub: Option<(&str, &[(&str, &[u8])])>,
) -> git2::Oid {
    let mut tb = repo.treebuilder(None).unwrap();
    for (name, data) in root_files {
        let oid = repo.blob(data).unwrap();
        tb.insert(*name, oid, 0o100644).unwrap();
    }
    if let Some((dname, dfiles)) = sub {
        let mut stb = repo.treebuilder(None).unwrap();
        for (name, data) in dfiles {
            let oid = repo.blob(data).unwrap();
            stb.insert(*name, oid, 0o100644).unwrap();
        }
        let sub_oid = stb.write().unwrap();
        tb.insert(dname, sub_oid, 0o040000).unwrap();
    }
    let tree_oid = tb.write().unwrap();
    let tree = repo.find_tree(tree_oid).unwrap();
    let s = tr_sig();
    repo.commit(Some("HEAD"), &s, &s, "snapshot", &tree, &[]).unwrap()
}

#[test]
fn blob_path_round_trip() {
    let repo = git2::Repository::init(tr_path("tree_a")).unwrap();
    let cid = tr_commit_tree(
        &repo,
        &[("top.txt", b"top\n")],
        Some(("dir", &[("inner.txt", b"inner\n")])),
    );
    let commit = store::read_commit(&repo, &cid.to_string()).unwrap();

    // The blob at its path comes back as that blob.
    let resolved = tree::list(&repo, &commit, "dir/inner.txt").unwrap();
    match resolved {
        Resolved::Blob { name, id } => {
            assert_eq!(name, "inner.txt");
            assert_eq!(id, repo.blob(b"inner\n").unwrap().to_string());
        }
        _ => panic!("expected a blob"),
    }

    // The parent directory's listing holds the blob's base name.
    let parent = tree::list(&repo, &commit, "dir").unwrap();
    match parent {
        Resolved::Listing(l) => {
            assert!(l.entries.iter().any(|e| e.name == "inner.txt" && e.kind == Kind::File));
        }
        _ => panic!("expected a listing"),
    }
}

#[test]
fn listing_partitions_dirs_before_files() {
    let repo = git2::Repository::init(tr_path("tree_b")).unwrap();
    let mut tb = repo.treebuilder(None).unwrap();
    for (name, data) in [("a.txt", b"a\n" as &[u8]), ("c.txt", b"c\n")] {
        let oid = repo.blob(data).unwrap();
        tb.insert(name, oid, 0o100644).unwrap();
    }
    for dname in ["bdir", "ddir"] {
        let mut stb = repo.treebuilder(None).unwrap();
        let oid = repo.blob(b"x\n").unwrap();
        stb.insert("x.txt", oid, 0o100644).unwrap();
        let sub_oid = stb.write().unwrap();
        tb.insert(dname, sub_oid, 0o040000).unwrap();
    }
    let tree_oid = tb.write().unwrap();
    let tree = repo.find_tree(tree_oid).unwrap();
    let s = tr_sig();
    let cid = repo.commit(Some("HEAD"), &s, &s, "mixed", &tree, &[]).unwrap();
    let commit = store::read_commit(&repo, &cid.to_string()).unwrap();

    let resolved = tree::list(&repo, &commit, "").unwrap();
    let listing = match resolved {
        Resolved::Listing(l) => l,
        _ => panic!("expected a listing"),
    };
    let names: Vec<&str> = listing.entries.iter().map(|e| e.name.as_str()).collect();
    assert_eq!(names, vec!["bdir", "ddir", "a.txt", "c.txt"]);
    assert_eq!(listing.entries[0].kind, Kind::Tree);
    assert_eq!(listing.entries[1].kind, Kind::Tree);
    assert_eq!(listing.entries[2].kind, Kind::File);
    assert_eq!(listing.entries[3].kind, Kind::File);
}

#[test]
fn missing_path_names_final_segment() {
    let repo = git2::Repository::init(tr_path("tree_c")).unwrap();
    let cid = tr_commit_tree(
        &repo,
        &[("top.txt", b"top\n")],
        Some(("dir", &[("inner.txt", b"inner\n")])),
    );
    let commit = store::read_commit(&repo, &cid.to_string()).unwrap();

    let err = tree::list(&repo, &commit, "dir/nope.txt").unwrap_err();
    assert_eq!(err, CoreError::PathNotFound(String::from("nope.txt")));

    let err = tree::list(&repo, &commit, "ghost/inner.txt").unwrap_err();
    assert_eq!(err, CoreError::PathNotFound(String::from("inner.txt")));
}

#[test]
fn readme_is_detected_and_rendered() {
    let repo = git2::Repository::init(tr_path("tree_d")).unwrap();
    let body = b"# Hello\n\nSome *text*.\n";
    let cid = tr_commit_tree(&repo, &[("README.md", body), ("other.txt", b"o\n")], None);
    let commit = store::read_commit(&repo, &cid.to_string()).unwrap();

    let resolved = tree::list(&repo, &commit, "").unwrap();
    let listing = match resolved {
        Resolved::Listing(l) => l,
        _ => panic!("expected a listing"),
    };
    let (title, html) = listing.readme.expect("a README should be found");
    assert_eq!(title, "README");
    let expected = markdown::to_html_with_options(
        &String::from_utf8_lossy(body),
        &markdown::Options::gfm(),
    )
    .unwrap();
    assert_eq!(html, expected);
}

#[test]
fn plain_readme_without_extension_is_ignored() {
    let repo = git2::Repository::init(tr_path("tree_e")).unwrap();
    let cid = tr_commit_tree(&repo, &[("README", b"plain\n")], None);
    let commit = store::read_commit(&repo, &cid.to_string()).unwrap();
    let resolved = tree::list(&repo, &commit, "").unwrap();
    match resolved {
        Resolved::Listing(l) => assert!(l.readme.is_none()),
        _ => panic!("expected a listing"),
    }
}

#[test]
fn breadcrumb_links_every_prefix_but_the_last() {
    let segments: Vec<String> = vec![
        String::from("src"),
        String::from("deep"),
        String::from("file.rs"),
    ];
    let crumbs = tree::breadcrumb(&segments);
    assert_eq!(crumbs.len(), 3);
    assert_eq!(crumbs[0].label, "src");
    assert_eq!(crumbs[0].link.as_deref(), Some("src"));
    assert_eq!(crumbs[1].label, "deep");
    assert_eq!(crumbs[1].link.as_deref(), Some("src/deep"));
    assert_eq!(crumbs[2].label, "file.rs");
    assert!(crumbs[2].link.is_none());
}

#[test]
fn splitting_segments_matches_expectation() {
    let parts = text::split_char("a/b/c", '/');
    let views: Vec<&str> = parts.iter().map(|p| p.as_str()).collect();
    assert_eq!(views, vec!["a", "b", "c"]);
    let parts = text::split_char("a/", '/');
    let views: Vec<&str> = parts.iter().map(|p| p.as_str()).collect();
    assert_eq!(views, vec!["a", ""]);
    let parts = text::split_char("", '/');
    let views: Vec<&str> = parts.iter().map(|p| p.as_str()).collect();
    assert_eq!(views, vec![""]);
}
