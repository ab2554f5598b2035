use std::path::Path;
use willow::paths::{extension, file_name, file_stem, is_absolute, join, parent};

fn samples() -> Vec<&'static str> {
    vec![
        "", "/", "//", ".", "..", "./", "../", "/.", "/..", "a", "/a", "a/", "a//", "a/.", "a/./",
        "a/..", "./a", "./a/b", "../a", "a/b", "/a/b", "/a/b/", "/a//b", "/a/./b", "//a", "/a//",
        "a//b", "/tmp/dir/file.txt", "/tmp/dir/file", "/tmp/dir/.bashrc", "/tmp/dir/.bashrc.bak",
        "/tmp/dir/file.", "/tmp/dir/a.b.c", "file.txt", ".hidden", "...", "a.", "/d/img.jpg.part",
        "/x/..txt", "/dest/dir/", "rel/dir/name.tar.gz", "/tmp/ünï/cödé.txt", "./.", "././a", "a/./.",
        ".a/b", "/./a", "/../a",
    ]
}

#[test]
fn file_name_agrees_with_the_host() {
    for p in samples() {
        assert_eq!(file_name(p), Path::new(p).file_name().map(|s| s.to_str().unwrap().to_string()), "file_name of {:?}", p);
    }
}

#[test]
fn file_stem_agrees_with_the_host() {
    for p in samples() {
        assert_eq!(file_stem(p), Path::new(p).file_stem().map(|s| s.to_str().unwrap().to_string()), "file_stem of {:?}", p);
    }
}

#[test]
fn extension_agrees_with_the_host() {
    for p in samples() {
        assert_eq!(extension(p), Path::new(p).extension().map(|s| s.to_str().unwrap().to_string()), "extension of {:?}", p);
    }
}

#[test]
fn parent_agrees_with_the_host() {
    for p in samples() {
        let expected = Path::new(p).parent().map(|d| d.to_str().unwrap().to_string());
        assert_eq!(parent(p), expected, "parent of {:?}", p);
    }
}

#[test]
fn join_agrees_with_the_host() {
    for base in samples() {
        for rel in samples() {
            let expected = Path::new(base).join(rel).to_str().unwrap().to_string();
            assert_eq!(join(base, rel), expected, "join of {:?} and {:?}", base, rel);
        }
    }
}

#[test]
fn is_absolute_agrees_with_the_host() {
    for p in samples() {
        assert_eq!(is_absolute(p), Path::new(p).is_absolute(), "is_absolute of {:?}", p);
    }
}

#[test]
fn parts_of_an_ordinary_path() {
    assert_eq!(file_name("/tmp/dir/file.txt"), Some("file.txt".to_string()));
    assert_eq!(file_stem("/tmp/dir/file.txt"), Some("file".to_string()));
    assert_eq!(extension("/tmp/dir/file.txt"), Some("txt".to_string()));
    assert_eq!(parent("/tmp/dir/file.txt"), Some("/tmp/dir".to_string()));
    assert_eq!(join("/tmp/dir", "file.txt"), "/tmp/dir/file.txt".to_string());
    assert_eq!(join("/tmp/dir/", "file.txt"), "/tmp/dir/file.txt".to_string());
    assert_eq!(join("/tmp/dir", "/etc"), "/etc".to_string());
    assert_eq!(join("", "file.txt"), "file.txt".to_string());
}

/// Every text of at most `max` characters over `/`, `.` and `a`.
fn small_paths(max: usize) -> Vec<String> {
    let mut all = vec![String::new()];
    let mut last = vec![String::new()];
    for _ in 0..max {
        let mut next = Vec::new();
        for p in &last {
            for c in ['/', '.', 'a'] {
                let mut q = p.clone();
                q.push(c);
                next.push(q);
            }
        }
        all.extend(next.iter().cloned());
        last = next;
    }
    all
}

#[test]
fn every_small_path_is_read_as_the_host_reads_it() {
    for p in small_paths(7) {
        let host = Path::new(&p);
        assert_eq!(file_name(&p), host.file_name().map(|s| s.to_str().unwrap().to_string()), "{p:?}");
        assert_eq!(file_stem(&p), host.file_stem().map(|s| s.to_str().unwrap().to_string()), "{p:?}");
        assert_eq!(extension(&p), host.extension().map(|s| s.to_str().unwrap().to_string()), "{p:?}");
        assert_eq!(parent(&p), host.parent().map(|d| d.to_str().unwrap().to_string()), "{p:?}");
        assert_eq!(is_absolute(&p), host.is_absolute(), "{p:?}");
    }
}

#[test]
fn every_pair_of_small_paths_is_joined_as_the_host_joins_them() {
    let paths = small_paths(4);
    for base in &paths {
        for rel in &paths {
            let expected = Path::new(base).join(rel).to_str().unwrap().to_string();
            assert_eq!(join(base, rel), expected, "{base:?} {rel:?}");
        }
    }
}
