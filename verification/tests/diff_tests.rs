//! The diff engine against real commits.

use gecko_core::diff::Diff;
use sha2::Digest;

fn df_path(tag: &str) -> String {
    let nanos = time::OffsetDateTime::now_utc().unix_timestamp_nanos();
    format!("/tmp/gecko_core_{tag}_{nanos}")
}

fn df_sig() -> git2::Signature<'static> {
    git2::Signature::new("Alice", "alice@example.com", &git2::Time::new(1700000000, 0)).unwrap()
}

fn df_commit(
    repo: &git2::Repository,
    parents: &[&git2::Commit],
    files: &[(&str, &[u8])],
    msg: &str,
) -> git2::Oid {
    let mut tb = repo.treebuilder(None).unwrap();
    for (name, data) in files {
        let oid = repo.blob(data).unwrap();
        tb.insert(*name, oid, 0o100644).unwrap();
    }
    let tree_oid = tb.write().unwrap();
    let tree = repo.find_tree(tree_oid).unwrap();
    let s = df_sig();
    repo.commit(Some("HEAD"), &s, &s, msg, &tree, parents).unwrap()
}

fn df_path_fingerprint(path: &str) -> String {
    let digest = sha2::Sha256::digest(path.as_bytes());
    let mut out = String::new();
    for b in digest.iter() {
        out.push_str(&format!("{:02x}", b));
    }
    out
}

#[test]
fn root_commit_diffs_as_all_additions() {
    let repo = git2::Repository::init(df_path("diff_a")).unwrap();
    let cid = df_commit(
        &repo,
        &[],
        &[("alpha.txt", b"x\ny\n"), ("beta.txt", b"z\n")],
        "root",
    );
    let d = Diff::new(&repo, &cid.to_string()).unwrap();

    let names: Vec<&str> = d.files.iter().map(|f| f.name.as_str()).collect();
    assert_eq!(names, vec!["alpha.txt", "beta.txt"]);

    // Each file holds only addition lines beside its hunk header, and as
    // many additions as the file has lines.
    let expected_counts = [2usize, 1usize];
    for (f, expected) in d.files.iter().zip(expected_counts.iter()) {
        let additions = f.data.iter().filter(|l| l.origin == 1).count();
        assert_eq!(additions, *expected);
        assert_eq!(f.stats.insertions, *expected);
        assert_eq!(f.stats.deletions, 0);
        for l in &f.data {
            assert!(l.origin == 1 || l.origin == 7);
        }
    }

    // Aggregate totals come from the store's own counters.
    assert_eq!(d.stats.files_changed, 2);
    assert_eq!(d.stats.insertions, 3);
    assert_eq!(d.stats.deletions, 0);
}

#[test]
fn changed_line_counts_match_origins() {
    let repo = git2::Repository::init(df_path("diff_b")).unwrap();
    let c1 = df_commit(&repo, &[], &[("a.txt", b"one\ntwo\nthree\n")], "first");
    let c1_commit = repo.find_commit(c1).unwrap();
    let c2 = df_commit(
        &repo,
        &[&c1_commit],
        &[("a.txt", b"one\nTWO\nthree\n")],
        "second",
    );
    let d = Diff::new(&repo, &c2.to_string()).unwrap();

    assert_eq!(d.files.len(), 1);
    let f = &d.files[0];
    assert_eq!(f.name, "a.txt");
    let additions = f.data.iter().filter(|l| l.origin == 1).count();
    let deletions = f.data.iter().filter(|l| l.origin == 2).count();
    assert_eq!(f.stats.insertions, additions);
    assert_eq!(f.stats.deletions, deletions);
    assert_eq!(f.stats.insertions, 1);
    assert_eq!(f.stats.deletions, 1);

    // The hunk header is stored with its display prefix and counts for
    // neither side.
    let hunk = f.data.iter().find(|l| l.origin == 7).expect("a hunk header");
    assert!(hunk.content.starts_with("  @@"));

    // The first event of the file — its header — is consumed while the
    // slot is created, so the first stored line is the hunk header.
    assert_eq!(f.data[0].origin, 7);

    // Context lines carry both line numbers; changed lines carry one.
    let ctx = f.data.iter().find(|l| l.origin == 0).expect("a context line");
    assert!(ctx.old_lineno >= 1 && ctx.new_lineno >= 1);
    let add = f.data.iter().find(|l| l.origin == 1).unwrap();
    assert_eq!(add.old_lineno, -1);
    assert_eq!(add.new_lineno, 2);
    let del = f.data.iter().find(|l| l.origin == 2).unwrap();
    assert_eq!(del.old_lineno, 2);
    assert_eq!(del.new_lineno, -1);

    assert_eq!(d.stats.files_changed, 1);
    assert_eq!(d.stats.insertions, 1);
    assert_eq!(d.stats.deletions, 1);
}

#[test]
fn fingerprint_is_the_path_digest() {
    let repo = git2::Repository::init(df_path("diff_c")).unwrap();
    let c1 = df_commit(&repo, &[], &[("z.txt", b"1\n")], "first");
    let c1_commit = repo.find_commit(c1).unwrap();
    let c2 = df_commit(&repo, &[&c1_commit], &[("z.txt", b"2\n")], "second");
    let d = Diff::new(&repo, &c2.to_string()).unwrap();
    assert_eq!(d.files.len(), 1);
    assert_eq!(d.files[0].hash, df_path_fingerprint("z.txt"));
}

#[test]
fn files_come_back_sorted_by_path() {
    let repo = git2::Repository::init(df_path("diff_d")).unwrap();
    let cid = df_commit(
        &repo,
        &[],
        &[("c.txt", b"c\n"), ("a.txt", b"a\n"), ("b.txt", b"b\n")],
        "root",
    );
    let d = Diff::new(&repo, &cid.to_string()).unwrap();
    let names: Vec<&str> = d.files.iter().map(|f| f.name.as_str()).collect();
    assert_eq!(names, vec!["a.txt", "b.txt", "c.txt"]);
}

#[test]
fn unreadable_commit_is_an_object_read_failure() {
    let repo = git2::Repository::init(df_path("diff_e")).unwrap();
    df_commit(&repo, &[], &[("a.txt", b"a\n")], "root");
    let err = Diff::new(&repo, "0123456789abcdef0123456789abcdef01234567").unwrap_err();
    assert!(matches!(err, gecko_core::model::CoreError::ObjectReadFailure));
}
