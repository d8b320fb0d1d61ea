//! History pagination over linear ancestries.

use gecko_core::history;

fn hi_path(tag: &str) -> String {
    let nanos = time::OffsetDateTime::now_utc().unix_timestamp_nanos();
    format!("/tmp/gecko_core_{tag}_{nanos}")
}

fn hi_sig() -> git2::Signature<'static> {
    git2::Signature::new("Alice", "alice@example.com", &git2::Time::new(1700000000, 0)).unwrap()
}

fn hi_linear_history(path: &str, n: usize) -> (git2::Repository, Vec<String>) {
    let repo = git2::Repository::init(path).unwrap();
    let mut ids: Vec<git2::Oid> = Vec::new();
    for k in 0..n {
        let mut tb = repo.treebuilder(None).unwrap();
        let oid = repo.blob(format!("content {k}\n").as_bytes()).unwrap();
        tb.insert("file.txt", oid, 0o100644).unwrap();
        let tree_oid = tb.write().unwrap();
        let tree = repo.find_tree(tree_oid).unwrap();
        let s = git2::Signature::new(
            "Alice",
            "alice@example.com",
            &git2::Time::new(1700000000 + k as i64, 0),
        )
        .unwrap();
        let cid = match ids.last() {
            Some(p) => {
                let parent = repo.find_commit(*p).unwrap();
                repo.commit(Some("HEAD"), &s, &s, &format!("commit {k}"), &tree, &[&parent])
                    .unwrap()
            }
            None => repo.commit(Some("HEAD"), &s, &s, &format!("commit {k}"), &tree, &[]).unwrap(),
        };
        ids.push(cid);
    }
    {
        let head = repo.find_commit(*ids.last().unwrap()).unwrap();
        repo.branch("main", &head, true).unwrap();
    }
    let names = ids.iter().map(|o| o.to_string()).collect();
    (repo, names)
}

#[test]
fn three_commit_history_fits_one_page() {
    let (repo, ids) = hi_linear_history(&hi_path("hist_a"), 3);
    let page = history::page(&repo, None, None, 5).unwrap();
    assert_eq!(page.commits.len(), 3);
    assert!(!page.has_more);
    // Newest first.
    assert_eq!(page.commits[0].id, ids[2]);
    assert_eq!(page.commits[1].id, ids[1]);
    assert_eq!(page.commits[2].id, ids[0]);
}

#[test]
fn ten_commit_history_pages_in_two() {
    let (repo, ids) = hi_linear_history(&hi_path("hist_b"), 10);
    let main = String::from("main");
    let first = history::page(&repo, Some(&main), None, 5).unwrap();
    assert_eq!(first.commits.len(), 5);
    assert!(first.has_more);
    assert_eq!(first.commits[0].id, ids[9]);
    assert_eq!(first.commits[4].id, ids[5]);

    // The cursor names the commit the next page starts at: the first
    // parent of the last commit shown.
    let cursor = first.commits[4].parent_ids[0].clone();
    assert_eq!(cursor, ids[4]);
    let second = history::page(&repo, Some(&main), Some(&cursor), 5).unwrap();
    assert_eq!(second.commits.len(), 5);
    assert!(!second.has_more);
    assert_eq!(second.commits[0].id, ids[4]);
    assert_eq!(second.commits[4].id, ids[0]);
}

#[test]
fn cursor_walk_includes_the_cursor_commit() {
    let (repo, ids) = hi_linear_history(&hi_path("hist_c"), 4);
    let cursor = ids[2].clone();
    let page = history::page(&repo, None, Some(&cursor), 5).unwrap();
    assert_eq!(page.commits.len(), 3);
    assert_eq!(page.commits[0].id, ids[2]);
    assert_eq!(page.commits[2].id, ids[0]);
    assert!(!page.has_more);
}

#[test]
fn unknown_cursor_is_an_empty_page() {
    let (repo, _ids) = hi_linear_history(&hi_path("hist_d"), 2);
    let cursor = String::from("0123456789abcdef0123456789abcdef01234567");
    let page = history::page(&repo, None, Some(&cursor), 5).unwrap();
    assert_eq!(page.commits.len(), 0);
    assert!(!page.has_more);
}

#[test]
fn first_parent_walk_ignores_merged_branches() {
    let repo = git2::Repository::init(hi_path("hist_e")).unwrap();
    let mk_tree = |tag: &str| {
        let mut tb = repo.treebuilder(None).unwrap();
        let oid = repo.blob(format!("{tag}\n").as_bytes()).unwrap();
        tb.insert("f.txt", oid, 0o100644).unwrap();
        let tree_oid = tb.write().unwrap();
        tree_oid
    };
    let s = hi_sig();
    let base_tree = repo.find_tree(mk_tree("base")).unwrap();
    let base = repo.commit(None, &s, &s, "base", &base_tree, &[]).unwrap();
    let base_c = repo.find_commit(base).unwrap();
    let left_tree = repo.find_tree(mk_tree("left")).unwrap();
    let left = repo.commit(None, &s, &s, "left", &left_tree, &[&base_c]).unwrap();
    let right_tree = repo.find_tree(mk_tree("right")).unwrap();
    let right = repo.commit(None, &s, &s, "right", &right_tree, &[&base_c]).unwrap();
    let left_c = repo.find_commit(left).unwrap();
    let right_c = repo.find_commit(right).unwrap();
    let merge_tree = repo.find_tree(mk_tree("merge")).unwrap();
    let merge = repo.commit(None, &s, &s, "merge", &merge_tree, &[&left_c, &right_c]).unwrap();

    let cursor = merge.to_string();
    let page = history::page(&repo, None, Some(&cursor), 10).unwrap();
    let ids: Vec<String> = page.commits.iter().map(|c| c.id.clone()).collect();
    assert_eq!(ids, vec![merge.to_string(), left.to_string(), base.to_string()]);
    assert!(!page.has_more);
}
