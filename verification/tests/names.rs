use pipeline::paths::{extension, file_stem, is_plain_file_name, PathParts};
use std::path::Path;

#[test]
fn stem_and_extension_agree_with_std() {
    let names = [
        "a.mrc", "archive.tar.gz", ".bashrc", "foo.", "noext", "..", ".a.b", "a..b", "x.y.z.", "é.ü",
    ];
    for name in names {
        let path = Path::new(name);
        let stem = path.file_stem().map(|s| s.to_str().unwrap().to_string());
        let ext = path.extension().map(|s| s.to_str().unwrap().to_string());
        if name != ".." {
            assert_eq!(Some(file_stem(name)), stem, "{name:?}");
        }
        assert_eq!(extension(name), ext, "{name:?}");
    }
}

#[test]
fn stem_and_extension_values() {
    assert_eq!(file_stem("a.mrc"), "a");
    assert_eq!(extension("a.mrc"), Some("mrc".to_string()));
    assert_eq!(file_stem("archive.tar.gz"), "archive.tar");
    assert_eq!(extension("archive.tar.gz"), Some("gz".to_string()));
    assert_eq!(file_stem(".bashrc"), ".bashrc");
    assert_eq!(extension(".bashrc"), None);
    assert_eq!(file_stem("foo."), "foo");
    assert_eq!(extension("foo."), Some("".to_string()));
    assert_eq!(file_stem(".."), "..");
    assert_eq!(extension(".."), None);
    assert_eq!(file_stem(""), "");
    assert_eq!(extension(""), None);
}

#[test]
fn plain_file_names() {
    assert!(is_plain_file_name("a.mrc"));
    assert!(is_plain_file_name("..."));
    assert!(!is_plain_file_name(""));
    assert!(!is_plain_file_name("."));
    assert!(!is_plain_file_name(".."));
    assert!(!is_plain_file_name("a/b"));
    assert!(!is_plain_file_name("/"));
}

#[test]
fn parse_takes_a_path_apart() {
    let p = PathParts::parse("/srv//data/./x/");
    assert!(p.root);
    assert!(!p.cur_dir);
    assert_eq!(p.names, vec!["srv", "data", "x"]);
    let p = PathParts::parse("./a/../b");
    assert!(!p.root);
    assert!(p.cur_dir);
    assert_eq!(p.names, vec!["a", "..", "b"]);
    let p = PathParts::parse("");
    assert!(!p.root && !p.cur_dir && p.names.is_empty());
    let p = PathParts::parse(".hidden/x");
    assert!(!p.cur_dir);
    assert_eq!(p.names, vec![".hidden", "x"]);
    assert_eq!(PathParts::parse("a//b").render(), "a/b");
    assert_eq!(PathParts::parse("/").render(), "/");
    assert_eq!(PathParts::parse("./").render(), ".");
}

fn texts(alphabet: &[char], longest: usize) -> Vec<String> {
    let mut all = vec![String::new()];
    let mut last = vec![String::new()];
    for _ in 0..longest {
        let mut next = Vec::new();
        for t in &last {
            for c in alphabet {
                let mut longer = t.clone();
                longer.push(*c);
                next.push(longer);
            }
        }
        all.extend(next.iter().cloned());
        last = next;
    }
    all
}

#[test]
fn every_short_path_is_read_as_std_reads_it() {
    for text in texts(&['a', '.', '/'], 7) {
        let parts = PathParts::parse(&text);
        let path = Path::new(&text);
        assert_eq!(parts.root, path.has_root(), "{text:?}");
        assert_eq!(std::path::PathBuf::from(parts.render()), path, "{text:?}");
        let rendered = parts.render();
        let again = PathParts::parse(&rendered);
        assert_eq!(again.render(), rendered, "{text:?}");
        assert_eq!((again.root, again.cur_dir, &again.names), (parts.root, parts.cur_dir, &parts.names));
    }
}

#[test]
fn every_short_name_splits_as_std_splits_it() {
    for name in texts(&['a', 'b', '.'], 6) {
        if name.is_empty() || name == "." || name == ".." {
            continue;
        }
        let path = Path::new(&name);
        let stem = path.file_stem().map(|s| s.to_str().unwrap().to_string());
        let ext = path.extension().map(|s| s.to_str().unwrap().to_string());
        assert_eq!(Some(file_stem(&name)), stem, "{name:?}");
        assert_eq!(extension(&name), ext, "{name:?}");
    }
}
