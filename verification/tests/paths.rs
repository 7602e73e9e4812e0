use massa_tools::paths::{file_name, join};
use std::path::Path;

#[test]
fn file_name_of_a_plain_path() {
    assert_eq!(file_name("dir/a.wasm"), Some("a.wasm".to_string()));
    assert_eq!(file_name("a.wasm"), Some("a.wasm".to_string()));
    assert_eq!(file_name("/abs/dir/b.wasm"), Some("b.wasm".to_string()));
    assert_eq!(
        file_name("extract_massa_unit_tests_src_T1/massa_unit_tests/a.wasm"),
        Some("a.wasm".to_string())
    );
}

#[test]
fn file_name_passes_over_trailing_separators_and_dots() {
    assert_eq!(file_name("dir/"), Some("dir".to_string()));
    assert_eq!(file_name("dir//"), Some("dir".to_string()));
    assert_eq!(file_name("foo.txt/."), Some("foo.txt".to_string()));
    assert_eq!(file_name("foo.txt/.//"), Some("foo.txt".to_string()));
    assert_eq!(file_name("a/./b/./."), Some("b".to_string()));
}

#[test]
fn file_name_is_missing_where_a_path_names_no_file() {
    assert_eq!(file_name(""), None);
    assert_eq!(file_name("/"), None);
    assert_eq!(file_name("//"), None);
    assert_eq!(file_name("."), None);
    assert_eq!(file_name("./"), None);
    assert_eq!(file_name(".."), None);
    assert_eq!(file_name("foo.txt/.."), None);
    assert_eq!(file_name("a/../"), None);
    assert_eq!(file_name("/."), None);
}

#[test]
fn file_name_keeps_names_that_only_look_special() {
    assert_eq!(file_name("..."), Some("...".to_string()));
    assert_eq!(file_name(".hidden"), Some(".hidden".to_string()));
    assert_eq!(file_name("a/..b"), Some("..b".to_string()));
    assert_eq!(file_name("a/b."), Some("b.".to_string()));
    assert_eq!(file_name("dir/é✓.wasm"), Some("é✓.wasm".to_string()));
}

#[test]
fn file_name_agrees_with_the_standard_library() {
    let paths = [
        "", "/", "//", ".", "./", "..", "../", "a", "a/", "a//", "a/.", "a/./", "a/..", "a/../",
        "./a", "../a", "/a", "/a/", "/.", "/..", "a/b", "a/b/", "a//b", "a/./b", "a/b/.", "a/b/..",
        "...", ".a", "a.", "a/.b", "a/b.", "..a", "a/../b", "/a/b/c.wasm", "x/*.wasm", "a b/c d",
        "é/✓", "a/.//", "a/././.", "./.", "././", ".//.", "a/...", "a/.../", ". ", " .", "a/ .",
    ];
    for path in paths {
        let theirs = Path::new(path).file_name().map(|n| n.to_str().unwrap().to_string());
        assert_eq!(file_name(path), theirs, "{path:?}");
    }
}

#[test]
fn join_puts_one_separator_between() {
    assert_eq!(join("dst", "a.wasm"), "dst/a.wasm");
    assert_eq!(join("dst/", "a.wasm"), "dst/a.wasm");
    assert_eq!(join("/", "a.wasm"), "/a.wasm");
    assert_eq!(join("", "a.wasm"), "a.wasm");
    assert_eq!(
        join("massa-execution-worker/src/tests/wasm/", "b.wasm"),
        "massa-execution-worker/src/tests/wasm/b.wasm"
    );
}

#[test]
fn join_agrees_with_the_standard_library_on_file_names() {
    for root in ["", "/", "dst", "dst/", "a/b", "a/b/", ".", "é"] {
        for name in ["a.wasm", "b", ".hidden", "é✓.wasm"] {
            let theirs = Path::new(root).join(name);
            assert_eq!(join(root, name), theirs.to_str().unwrap(), "{root:?} {name:?}");
        }
    }
}
