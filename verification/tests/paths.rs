use pipeline::assemble_path;
use std::path::PathBuf;

#[test]
fn assemble_path_subdirs() {
    let path1 = "foo/bar";
    let path2 = "baz/bam";
    let out = assemble_path(path1, path2);
    let expected: PathBuf = ["foo", "bar", "baz", "bam"].iter().collect();
    assert_eq!(PathBuf::from(out), expected);
}

#[test]
fn assemble_path_empty_first() {
    let path1 = "";
    let path2 = "foo/bar";
    let out = assemble_path(path1, path2);
    let expected: PathBuf = ["foo", "bar"].iter().collect();
    assert_eq!(PathBuf::from(out), expected);
}

#[test]
fn assemble_path_empty_second() {
    let path1 = "foo/bar";
    let path2 = "";
    let out = assemble_path(path1, path2);
    let expected: PathBuf = ["foo", "bar"].iter().collect();
    assert_eq!(PathBuf::from(out), expected);
}

#[test]
fn assemble_path_gives_normal_text() {
    assert_eq!(assemble_path("foo/bar", "baz/bam"), "foo/bar/baz/bam");
    assert_eq!(assemble_path("/srv//incoming/", "8f/43"), "/srv/incoming/8f/43");
    assert_eq!(assemble_path("./a", "./b"), "./a/b");
    assert_eq!(assemble_path("a", "/b/c"), "/b/c");
    assert_eq!(assemble_path("", "./x"), "./x");
    assert_eq!(assemble_path(".", ""), ".");
    assert_eq!(assemble_path("/", ""), "/");
    assert_eq!(assemble_path("", ""), "");
    assert_eq!(assemble_path("a/./b/.", "../c"), "a/b/../c");
}

#[test]
fn assemble_path_agrees_with_std() {
    let cases = [
        ("foo/bar", "baz/bam"),
        ("", "foo/bar"),
        ("foo/bar", ""),
        ("/srv//incoming/", "8f/43/8f43"),
        ("./a", "./b"),
        ("a", "/b/c"),
        ("", "./x"),
        (".", ""),
        (".", "x"),
        ("/", ""),
        ("/", "a"),
        ("", ""),
        ("a/./b/.", "../c"),
        ("a/b/", "c/"),
        ("..", ".."),
    ];
    for (dir, relative) in cases {
        let mut expected = PathBuf::new();
        expected.extend(std::path::Path::new(dir).components());
        expected.extend(std::path::Path::new(relative).components());
        assert_eq!(PathBuf::from(assemble_path(dir, relative)), expected, "{dir:?} {relative:?}");
    }
}

fn short_paths() -> Vec<String> {
    let alphabet = ['a', '.', '/'];
    let mut all = vec![String::new()];
    let mut last = vec![String::new()];
    for _ in 0..5 {
        let mut next = Vec::new();
        for t in &last {
            for c in alphabet {
                let mut longer = t.clone();
                longer.push(c);
                next.push(longer);
            }
        }
        all.extend(next.iter().cloned());
        last = next;
    }
    all
}

#[test]
fn assemble_path_agrees_with_std_on_every_short_pair() {
    let paths = short_paths();
    for dir in &paths {
        for relative in &paths {
            let mut expected = PathBuf::new();
            expected.extend(std::path::Path::new(dir).components());
            expected.extend(std::path::Path::new(relative).components());
            assert_eq!(PathBuf::from(assemble_path(dir, relative)), expected, "{dir:?} {relative:?}");
        }
    }
}
