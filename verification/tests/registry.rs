use pipeline::server::database::{FileInPipeline, ProcessStatus, Registry, RegistryError};
use pipeline::server::mark::MarkStatus;
use pipeline::{FileDigest, FileSpec};

fn spec(name: &str, content: &[u8], full: bool) -> FileSpec {
    FileSpec {
        client: "c".to_string(),
        path: "sub/dir".to_string(),
        filename: name.to_string(),
        sha256_digest: FileDigest::new(name, content.len() as u64, content, full),
    }
}

#[test]
fn insert_new_awaits_the_client() {
    let mut r = Registry::new();
    let s = spec("a.mrc", b"hi", true);
    assert!(!r.contains(s.hash()));
    assert_eq!(r.status(s.hash()), Err(RegistryError::NotFound));
    assert_eq!(r.insert_new(&s, "2026-01-01 10:00:00"), Ok(()));
    assert!(r.contains(s.hash()));
    assert_eq!(r.status(s.hash()), Ok(ProcessStatus::AwaitFromClient));
    let rows = r.content();
    assert_eq!(rows.len(), 1);
    assert_eq!(rows[0].hash, s.hash());
    assert!(rows[0].full_hash);
    assert_eq!(rows[0].client, "c");
    assert_eq!(rows[0].date_utc, "2026-01-01 10:00:00");
    assert_eq!(rows[0].path, "sub/dir");
    assert_eq!(rows[0].file_name, "a.mrc");
}

#[test]
fn a_digest_has_one_row_at_most() {
    let mut r = Registry::new();
    let s = spec("a.mrc", b"hi", true);
    let same_content = spec("b.mrc", b"hi", true);
    assert_eq!(r.insert_new(&s, "t0"), Ok(()));
    assert_eq!(r.insert_new(&s, "t1"), Err(RegistryError::AlreadyExists));
    assert_eq!(r.insert_new(&same_content, "t2"), Err(RegistryError::AlreadyExists));
    assert_eq!(r.content().len(), 1);
    assert_eq!(r.content()[0].file_name, "a.mrc");
    assert_eq!(r.content()[0].date_utc, "t0");
}

#[test]
fn update_status_sets_status_and_date() {
    let mut r = Registry::new();
    let a = spec("a.mrc", b"a", true);
    let b = spec("b.mrc", b"b", false);
    r.insert_new(&a, "t0").unwrap();
    r.insert_new(&b, "t0").unwrap();
    r.update_status(a.hash(), ProcessStatus::Processing, "t1");
    assert_eq!(r.status(a.hash()), Ok(ProcessStatus::Processing));
    assert_eq!(r.status(b.hash()), Ok(ProcessStatus::AwaitFromClient));
    let rows = r.content();
    assert_eq!(rows[0].date_utc, "t1");
    assert_eq!(rows[1].date_utc, "t0");
    assert!(!rows[1].full_hash);
    // a digest without a row: nothing happens
    r.update_status("0000", ProcessStatus::Done, "t2");
    assert_eq!(r.content().len(), 2);
    assert!(!r.contains("0000"));
}

#[test]
fn tasks_with_status_and_remove() {
    let mut r = Registry::new();
    let a = spec("a.mrc", b"a", true);
    let b = spec("b.mrc", b"b", true);
    let c = spec("c.mrc", b"c", true);
    for s in [&a, &b, &c] {
        r.insert_new(s, "t0").unwrap();
    }
    r.update_status(a.hash(), ProcessStatus::Failed, "t1");
    r.update_status(c.hash(), ProcessStatus::Failed, "t1");
    r.update_status(b.hash(), ProcessStatus::ToPrune, "t1");
    let failed = r.tasks_with_status(ProcessStatus::Failed);
    assert_eq!(failed.len(), 2);
    assert_eq!(failed[0].file_name, "a.mrc");
    assert_eq!(failed[1].file_name, "c.mrc");
    assert_eq!(r.tasks_with_status(ProcessStatus::ToPrune).len(), 1);
    assert!(r.tasks_with_status(ProcessStatus::Done).is_empty());
    r.remove(b.hash());
    assert!(!r.contains(b.hash()));
    assert_eq!(r.content().len(), 2);
    assert_eq!(r.content()[0].file_name, "a.mrc");
    assert_eq!(r.content()[1].file_name, "c.mrc");
    r.remove(b.hash());
    assert_eq!(r.content().len(), 2);
}

#[test]
fn status_texts() {
    let all = [
        (ProcessStatus::AwaitFromClient, "AwaitFromClient"),
        (ProcessStatus::Processing, "Processing"),
        (ProcessStatus::Failed, "Failed"),
        (ProcessStatus::Done, "Done"),
        (ProcessStatus::ToPrune, "ToPrune"),
    ];
    for (status, text) in all {
        assert_eq!(status.as_ref(), text);
        assert_eq!(ProcessStatus::from_text(text), Some(status));
    }
    assert_eq!(ProcessStatus::from_text("done"), None);
    assert_eq!(ProcessStatus::from_text(""), None);
}

#[test]
fn a_row_gives_its_spec_back() {
    let row = FileInPipeline {
        hash: "abcd".to_string(),
        full_hash: false,
        client: "c9".to_string(),
        date_utc: "t".to_string(),
        path: "p/q".to_string(),
        file_name: "n.x".to_string(),
        status: ProcessStatus::Failed,
    };
    let spec = FileSpec::from(row);
    assert_eq!(spec.client, "c9");
    assert_eq!(spec.path, "p/q");
    assert_eq!(spec.filename, "n.x");
    assert!(spec.sha256_digest == FileDigest::Shallow("abcd".to_string()));
    assert!(!spec.is_valid());
}

#[test]
fn marks() {
    assert_eq!(ProcessStatus::from(MarkStatus::Done), ProcessStatus::Done);
    assert_eq!(ProcessStatus::from(MarkStatus::Failed), ProcessStatus::Failed);
    assert_eq!(ProcessStatus::from(MarkStatus::ToPrune), ProcessStatus::ToPrune);
}
