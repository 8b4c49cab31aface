use pipeline::protocol::relative_key;
use pipeline::{FileDigest, FileSpec, Receipt};
use std::path::{Path, PathBuf};

fn digest() -> FileDigest {
    FileDigest::new("x", 2, b"hi", true)
}

fn spec(path: &str, filename: &str) -> FileSpec {
    FileSpec {
        client: "c".to_string(),
        path: path.to_string(),
        filename: filename.to_string(),
        sha256_digest: digest(),
    }
}

#[test]
fn new_splits_the_path_below_the_root() {
    let s = FileSpec::new("c1", "/data/watch", "/data/watch/sub/deep/a.mrc", true, 2, b"hi");
    assert_eq!(s.client, "c1");
    assert_eq!(s.path, "sub/deep");
    assert_eq!(s.filename, "a.mrc");
    assert!(s.is_valid());
    assert_eq!(s.relative_directory(), "sub/deep");
    assert_eq!(s.relative_path(), "sub/deep/a.mrc");
    assert_eq!(s.file_stem(), "a");
    assert_eq!(s.hash(), "8f434346648f6b96df89dda901c5176b10a6d83961dd3c1ac88b59b2dc327aa4");

    let s = FileSpec::new("c1", "/data/watch/", "/data//watch/./a.mrc", true, 2, b"hi");
    assert_eq!(s.path, "");
    assert_eq!(s.filename, "a.mrc");
    assert_eq!(s.relative_directory(), "");
    assert_eq!(s.relative_path(), "a.mrc");

    let s = FileSpec::new("c1", "rel", "rel/x/archive.tar.gz", true, 2, b"hi");
    assert_eq!(s.path, "x");
    assert_eq!(s.file_stem(), "archive.tar");
}

#[test]
fn new_agrees_with_std() {
    let cases = [
        ("/data/watch", "/data/watch/sub/deep/a.mrc"),
        ("/data/watch/", "/data//watch/./a.mrc"),
        ("rel", "rel/x/b.mrc"),
        ("./w", "./w/a/../b.mrc"),
        ("/", "/a.mrc"),
        ("", "a/b.mrc"),
        ("", "/a/b.mrc"),
        ("", "./a/b.mrc"),
    ];
    for (root, path) in cases {
        assert!(FileSpec::lies_under(root, path), "{root:?} {path:?}");
        let s = FileSpec::new("c", root, path, false, 2, b"hi");
        let p = Path::new(path);
        let filename = p.file_name().unwrap().to_str().unwrap();
        let segments: Vec<String> = p
            .parent()
            .unwrap()
            .strip_prefix(root)
            .unwrap()
            .iter()
            .map(|segment| segment.to_str().unwrap().to_owned())
            .collect();
        assert_eq!(s.filename, filename, "{root:?} {path:?}");
        assert_eq!(s.path, segments.join("/"), "{root:?} {path:?}");
        // the key under which the watcher remembers the file is the path that the
        // receipt handler forgets
        let key = relative_key(root, path).unwrap();
        assert_eq!(PathBuf::from(&key), p.strip_prefix(root).unwrap(), "{root:?} {path:?}");
        assert_eq!(PathBuf::from(s.relative_path()), PathBuf::from(key), "{root:?} {path:?}");
    }
}

#[test]
fn new_takes_the_digest_under_the_name_it_gives() {
    let full = FileSpec::new("c1", "/w", "/w/x/a.mrc", true, 2, b"hi");
    assert!(full.sha256_digest == FileDigest::new("ignored", 0, b"hi", true));
    assert!(FileDigest::with_spec(&full, 2, b"hi") == full.sha256_digest);
    assert!(FileDigest::with_spec(&full, 2, b"HI") != full.sha256_digest);
    let shallow = FileSpec::new("c1", "/w", "/w/x/a.mrc", false, 2, b"hi");
    assert!(shallow.sha256_digest == FileDigest::new("a.mrc", 2, b"hi", false));
    assert!(shallow.sha256_digest != FileDigest::new("x/a.mrc", 2, b"hi", false));
    assert!(FileDigest::with_spec(&shallow, 2, b"hi") == shallow.sha256_digest);
    assert!(FileDigest::with_spec(&shallow, 3, b"hi") != shallow.sha256_digest);
    assert!(shallow.is_valid() && full.is_valid());
}

#[test]
fn files_outside_the_root() {
    assert!(!FileSpec::lies_under("/data/watch", "/data/other/a.mrc"));
    assert!(!FileSpec::lies_under("/data/watch", "data/watch/a.mrc"));
    assert!(!FileSpec::lies_under("/data/watch", "/data/watch"));
    assert!(!FileSpec::lies_under("/data/watch", "/data/watch/.."));
    assert!(!FileSpec::lies_under("/data/watch", ""));
    assert!(!FileSpec::lies_under("/data/watch", "/data"));
    assert_eq!(relative_key("/data/watch", "/data/other/a.mrc"), None);
    assert_eq!(relative_key("/data/watch", "/data/watch/x/a.mrc"), Some("x/a.mrc".to_string()));
}

#[test]
fn validity() {
    assert!(spec("", "a.mrc").is_valid());
    assert!(spec("a/b", "a.mrc").is_valid());
    assert!(!spec("", "").is_valid());
    assert!(!spec("", "..").is_valid());
    assert!(!spec("", ".").is_valid());
    assert!(!spec("", "a/b.mrc").is_valid());
    let mut bad = spec("", "a.mrc");
    bad.sha256_digest = FileDigest::Full("8f43".to_string());
    assert!(!bad.is_valid());
}

#[test]
fn relative_paths() {
    assert_eq!(spec("a//b/", "f.x").relative_directory(), "a/b");
    assert_eq!(spec("a//b/", "f.x").relative_path(), "a/b/f.x");
    assert_eq!(spec("", "f.x").relative_path(), "f.x");
    assert_eq!(spec("a", ".hidden").file_stem(), ".hidden");
}

#[test]
fn only_received_continues_processing() {
    let s = spec("", "a.mrc");
    assert!(Receipt::Received(s.clone()).continue_processing());
    assert!(!Receipt::DifferentHash(s.clone()).continue_processing());
    assert!(!Receipt::Expecting { spec: s.clone(), server_rel_path: "x".to_string() }
        .continue_processing());
    assert!(!Receipt::Error {
        spec: s.clone(),
        server_rel_path: "x".to_string(),
        error: "e".to_string()
    }
    .continue_processing());
    assert_eq!(Receipt::DifferentHash(s).spec().filename, "a.mrc");
}

#[test]
fn new_agrees_with_std_on_every_short_pair() {
    let alphabet = ['a', 'b', '.', '/'];
    let mut paths = vec![String::new()];
    let mut last = vec![String::new()];
    for _ in 0..5 {
        let mut next = Vec::new();
        for t in &last {
            for c in alphabet {
                let mut longer = t.clone();
                longer.push(c);
                next.push(longer);
            }
        }
        paths.extend(next.iter().cloned());
        last = next;
    }
    let mut under = 0;
    for root in &paths {
        for path in &paths {
            let p = Path::new(path);
            let by_std = match (p.file_name(), p.parent()) {
                (Some(name), Some(parent)) => parent.strip_prefix(root).ok().map(|rest| {
                    let segments: Vec<String> =
                        rest.iter().map(|s| s.to_str().unwrap().to_owned()).collect();
                    (name.to_str().unwrap().to_owned(), segments.join("/"))
                }),
                _ => None,
            };
            assert_eq!(FileSpec::lies_under(root, path), by_std.is_some(), "{root:?} {path:?}");
            if let Some((filename, subdir)) = by_std {
                under += 1;
                let s = FileSpec::new("c", root, path, false, 2, b"hi");
                assert_eq!(s.filename, filename, "{root:?} {path:?}");
                assert_eq!(s.path, subdir, "{root:?} {path:?}");
                let key = relative_key(root, path).unwrap();
                assert_eq!(PathBuf::from(&key), p.strip_prefix(root).unwrap(), "{root:?} {path:?}");
                assert_eq!(s.relative_path(), key, "{root:?} {path:?}");
            } else {
                assert_eq!(relative_key(root, path), None);
            }
        }
    }
    assert!(under > 1000);
}
