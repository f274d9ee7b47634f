use std::path::Path;

use droptail::path::ItemPath;

fn parts(p: &str) -> ItemPath {
    ItemPath::from_str(p)
}

#[test]
fn paths_compare_by_components_as_std_does() {
    let cases = ["a/b", "a//b", "./a/b", "a/./b", "/a/b", "a/b/", "a/../b", "a/b/..", ".", "", "/", "//", "./", "a"];
    for x in cases {
        for y in cases {
            assert_eq!(parts(x).same_as(&parts(y)), Path::new(x) == Path::new(y), "{x} vs {y}");
        }
    }
}

#[test]
fn names_and_stems_follow_std() {
    let cases = ["a/b.txt", "a/.hidden", "a/b.tar.gz", "a/..", "a/.", "/", "", "noext", "a/b.", "..", "x/..."];
    for x in cases {
        let name = parts(x).file_name();
        let expected = Path::new(x).file_name().map(|n| n.as_encoded_bytes().to_vec());
        assert_eq!(name, expected, "name of {x}");
        let stem = parts(x).file_stem();
        let expected = Path::new(x).file_stem().map(|n| n.as_encoded_bytes().to_vec());
        assert_eq!(stem, expected, "stem of {x}");
    }
}

#[test]
fn joining_follows_std() {
    let cases = [("a", "b"), ("a/", "b"), ("", "b"), ("a", "/b"), ("/", "x/y"), ("a", "")];
    for (base, tail) in cases {
        let joined = parts(base).join(&parts(tail));
        let expected = Path::new(base).join(tail);
        assert_eq!(joined.as_bytes(), expected.as_os_str().as_encoded_bytes(), "{base} + {tail}");
    }
}

#[test]
fn paths_display_as_text() {
    assert_eq!(parts("/tmp/report.txt").display(), "/tmp/report.txt");
    assert_eq!(ItemPath::from_bytes(vec![b'a', 0xff, b'b']).display(), "a\u{fffd}b");
}
