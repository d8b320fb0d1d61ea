//! Blob rendering: raw pass-through, binary stubs, markdown and numbered
//! text listings.

use gecko_core::render;
use gecko_core::render::RenderedBlob;
use gecko_core::store;

fn rd_path(tag: &str) -> String {
    let nanos = time::OffsetDateTime::now_utc().unix_timestamp_nanos();
    format!("/tmp/gecko_core_{tag}_{nanos}")
}

fn rd_sig() -> git2::Signature<'static> {
    git2::Signature::new("Alice", "alice@example.com", &git2::Time::new(1700000000, 0)).unwrap()
}

fn rd_repo_with_blob(path: &str, data: &[u8]) -> (git2::Repository, String) {
    let repo = git2::Repository::init(path).unwrap();
    let id = {
        let oid = repo.blob(data).unwrap();
        let mut tb = repo.treebuilder(None).unwrap();
        tb.insert("the_file", oid, 0o100644).unwrap();
        let tree_oid = tb.write().unwrap();
        let tree = repo.find_tree(tree_oid).unwrap();
        let s = rd_sig();
        repo.commit(Some("HEAD"), &s, &s, "blob", &tree, &[]).unwrap();
        oid.to_string()
    };
    (repo, id)
}

#[test]
fn binary_blob_round_trips_raw() {
    let data = b"ab\x00cd\x00ef".to_vec();
    let (repo, id) = rd_repo_with_blob(&rd_path("render_a"), &data);
    let blob = store::blob_data(&repo, &id).unwrap();
    assert!(blob.is_binary);
    let rendered = render::render(blob, "blob.bin", true);
    match rendered {
        RenderedBlob::Raw { filename, bytes } => {
            assert_eq!(filename, "blob.bin");
            assert_eq!(bytes, data);
        }
        _ => panic!("expected raw pass-through"),
    }
}

#[test]
fn binary_blob_without_raw_is_a_stub() {
    let data = b"ab\x00cd\x00ef".to_vec();
    let (repo, id) = rd_repo_with_blob(&rd_path("render_b"), &data);
    let blob = store::blob_data(&repo, &id).unwrap();
    let rendered = render::render(blob, "blob.bin", false);
    match rendered {
        RenderedBlob::BinaryStub { filename, size } => {
            assert_eq!(filename, "blob.bin");
            let expected = humansize::format_size(
                data.len(),
                humansize::DECIMAL.decimal_places(0),
            );
            assert_eq!(size, expected);
        }
        _ => panic!("expected a stub, never the raw bytes"),
    }
}

#[test]
fn text_blob_becomes_numbered_lines() {
    let data = b"one\ntwo\nthree\n".to_vec();
    let (repo, id) = rd_repo_with_blob(&rd_path("render_c"), &data);
    let blob = store::blob_data(&repo, &id).unwrap();
    assert!(!blob.is_binary);
    let rendered = render::render(blob, "notes.txt", false);
    match rendered {
        RenderedBlob::Text { lines, size } => {
            let texts: Vec<(usize, &str)> =
                lines.iter().map(|l| (l.number, l.text.as_str())).collect();
            assert_eq!(texts, vec![(1, "one"), (2, "two"), (3, "three")]);
            let expected = humansize::format_size(
                data.len(),
                humansize::DECIMAL.decimal_places(0),
            );
            assert_eq!(size, expected);
        }
        _ => panic!("expected a text listing"),
    }
}

#[test]
fn markdown_blob_renders_to_html() {
    let data = b"# Title\n\n- a\n- b\n".to_vec();
    let (repo, id) = rd_repo_with_blob(&rd_path("render_d"), &data);
    let blob = store::blob_data(&repo, &id).unwrap();
    let rendered = render::render(blob, "doc.md", false);
    match rendered {
        RenderedBlob::Markdown { html } => {
            let expected = markdown::to_html_with_options(
                &String::from_utf8_lossy(&data),
                &markdown::Options::gfm(),
            )
            .unwrap();
            assert_eq!(html, expected);
        }
        _ => panic!("expected rendered markdown"),
    }
}

#[test]
fn carriage_returns_before_line_feeds_are_stripped() {
    let lines = gecko_core::text::split_lines("a\r\nb\nc");
    let views: Vec<&str> = lines.iter().map(|l| l.as_str()).collect();
    assert_eq!(views, vec!["a", "b", "c"]);
    let lines = gecko_core::text::split_lines("last\n");
    let views: Vec<&str> = lines.iter().map(|l| l.as_str()).collect();
    assert_eq!(views, vec!["last"]);
    let lines = gecko_core::text::split_lines("");
    assert_eq!(lines.len(), 0);
}
