//! Reference resolution against real repositories.

use gecko_core::model::CoreError;
use gecko_core::refs;

fn rv_path(tag: &str) -> String {
    let nanos = time::OffsetDateTime::now_utc().unix_timestamp_nanos();
    format!("/tmp/gecko_core_{tag}_{nanos}")
}

fn rv_sig() -> git2::Signature<'static> {
    git2::Signature::new("Alice", "alice@example.com", &git2::Time::new(1700000000, 0)).unwrap()
}

fn rv_commit(
    repo: &git2::Repository,
    update_ref: Option<&str>,
    parents: &[&git2::Commit],
    files: &[(&str, &[u8])],
    msg: &str,
) -> git2::Oid {
    let mut tb = repo.treebuilder(None).unwrap();
    for (name, data) in files {
        let oid = repo.blob(data).unwrap();
        tb.insert(*name, oid, 0o100644).unwrap();
    }
    let tree_oid = tb.write().unwrap();
    let tree = repo.find_tree(tree_oid).unwrap();
    let s = rv_sig();
    repo.commit(update_ref, &s, &s, msg, &tree, parents).unwrap()
}

#[test]
fn branch_wins_over_commit_id() {
    let repo = git2::Repository::init(rv_path("resolve_a")).unwrap();
    let c1 = rv_commit(&repo, None, &[], &[("one.txt", b"1\n")], "first");
    let c2 = rv_commit(&repo, None, &[], &[("two.txt", b"2\n")], "second");
    let c2_commit = repo.find_commit(c2).unwrap();
    // A branch whose name is literally the other commit's hex id.
    repo.branch(&c1.to_string(), &c2_commit, true).unwrap();

    let resolved = refs::resolve(&repo, &c1.to_string()).unwrap();
    assert_eq!(resolved.id, c2.to_string());
}

#[test]
fn plain_commit_id_resolves_when_no_branch_matches() {
    let repo = git2::Repository::init(rv_path("resolve_b")).unwrap();
    let c1 = rv_commit(&repo, None, &[], &[("one.txt", b"1\n")], "first");
    let resolved = refs::resolve(&repo, &c1.to_string()).unwrap();
    assert_eq!(resolved.id, c1.to_string());
    assert_eq!(resolved.message, "first");
    assert_eq!(resolved.author_name, "Alice");
    assert_eq!(resolved.author_email, "alice@example.com");
    assert_eq!(resolved.time_seconds, 1700000000);
    assert_eq!(resolved.parent_ids.len(), 0);
}

#[test]
fn branch_name_resolves_to_branch_head() {
    let repo = git2::Repository::init(rv_path("resolve_c")).unwrap();
    let c1 = rv_commit(&repo, None, &[], &[("one.txt", b"1\n")], "first");
    let c1_commit = repo.find_commit(c1).unwrap();
    let c2 = rv_commit(&repo, None, &[&c1_commit], &[("one.txt", b"1!\n")], "second");
    let c2_commit = repo.find_commit(c2).unwrap();
    repo.branch("topic", &c2_commit, true).unwrap();

    let resolved = refs::resolve(&repo, "topic").unwrap();
    assert_eq!(resolved.id, c2.to_string());
    assert_eq!(resolved.parent_ids, vec![c1.to_string()]);
}

#[test]
fn unknown_ref_is_ref_not_found() {
    let repo = git2::Repository::init(rv_path("resolve_d")).unwrap();
    rv_commit(&repo, Some("HEAD"), &[], &[("one.txt", b"1\n")], "first");
    let err = refs::resolve(&repo, "no-such-ref").unwrap_err();
    assert!(matches!(err, CoreError::RefNotFound));
}
