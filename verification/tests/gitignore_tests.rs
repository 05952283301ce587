use gitignore::GitignoreFile;

fn base_dir() -> String {
    String::from("/home/user/dir")
}

fn join(base: &str, child: &str) -> String {
    format!("{}/{}", base, child)
}

fn build_gitignore(pattern: &str) -> GitignoreFile {
    GitignoreFile::from_strings(vec![pattern], &base_dir()).unwrap()
}

#[test]
fn test_matches_exact() {
    let file = build_gitignore("Cargo.toml");

    assert!(file.is_excluded(&join(&base_dir(), "Cargo.toml")));
}

#[test]
fn test_does_not_match() {
    let file = build_gitignore("Cargo.toml");

    assert!(!file.is_excluded(&join(&join(&base_dir(), "src"), "main.rs")));
}

#[test]
fn test_matches_simple_wildcard() {
    let file = build_gitignore("targ*");

    assert!(file.is_excluded(&join(&base_dir(), "target")));
}

#[test]
fn test_matches_subdir_exact() {
    let file = build_gitignore("target");

    assert!(file.is_excluded(&join(&base_dir(), "target/")));
}

#[test]
fn test_matches_subdir() {
    let file = build_gitignore("target");

    assert!(file.is_excluded(&join(&join(&base_dir(), "target"), "file")));
    assert!(file.is_excluded(&join(&join(&join(&base_dir(), "target"), "subdir"), "file")));
}

#[test]
fn test_wildcard_with_dir() {
    let file = build_gitignore("target/f*");

    assert!(file.is_excluded(&join(&join(&base_dir(), "target"), "file")));
    assert!(!file.is_excluded(&join(&join(&join(&base_dir(), "target"), "subdir"), "file")));
}

#[test]
fn test_leading_slash() {
    let file = build_gitignore("/*.c");

    assert!(file.is_excluded(&join(&base_dir(), "cat-file.c")));
    assert!(!file.is_excluded(&join(&join(&base_dir(), "mozilla-sha1"), "sha1.c")));
}

#[test]
fn test_leading_double_wildcard() {
    let file = build_gitignore("**/foo");

    assert!(file.is_excluded(&join(&base_dir(), "foo")));
    assert!(file.is_excluded(&join(&join(&base_dir(), "target"), "foo")));
    assert!(file.is_excluded(&join(&join(&join(&base_dir(), "target"), "subdir"), "foo")));
}

#[test]
fn test_trailing_double_wildcard() {
    let file = build_gitignore("abc/**");

    assert!(!file.is_excluded(&join(&join(&base_dir(), "def"), "foo")));
    assert!(file.is_excluded(&join(&join(&base_dir(), "abc"), "foo")));
    assert!(file.is_excluded(&join(&join(&join(&base_dir(), "abc"), "subdir"), "foo")));
}

#[test]
fn test_sandwiched_double_wildcard() {
    let file = build_gitignore("a/**/b");

    assert!(file.is_excluded(&join(&join(&base_dir(), "a"), "b")));
    assert!(file.is_excluded(&join(&join(&join(&base_dir(), "a"), "x"), "b")));
    assert!(file.is_excluded(&join(&join(&join(&join(&base_dir(), "a"), "x"), "y"), "b")));
}

#[test]
fn test_empty_file_never_excludes() {
    let lines: Vec<&str> = vec![];
    let file = GitignoreFile::from_strings(lines, &base_dir()).unwrap();

    assert!(!file.is_excluded(&join(&base_dir(), "target")));
}

#[test]
fn test_checks_all_patterns() {
    let patterns = vec!["target", "target2"];
    let file = GitignoreFile::from_strings(patterns, &base_dir()).unwrap();

    assert!(file.is_excluded(&join(&join(&base_dir(), "target"), "foo.txt")));
    assert!(file.is_excluded(&join(&join(&base_dir(), "target2"), "bar.txt")));
}

#[test]
fn test_handles_whitelisting() {
    let patterns = vec!["target", "!target/foo.txt"];
    let file = GitignoreFile::from_strings(patterns, &base_dir()).unwrap();

    assert!(!file.is_excluded(&join(&join(&base_dir(), "target"), "foo.txt")));
    assert!(file.is_excluded(&join(&join(&base_dir(), "target"), "blah.txt")));
}
