use gitignore::lines::split_lines;
use gitignore::locate_step;
use gitignore::GitignoreFile;
use gitignore::IgnoreError;
use gitignore::LocateStep;
use gitignore::Pattern;
use gitignore::PatternType;

fn root() -> String {
    String::from("/home/user/dir")
}

#[test]
fn parse_plain_rule() {
    let p = Pattern::parse("target");
    assert_eq!(p.pattern, "target");
    assert_eq!(p.pattern_type, PatternType::Ignore);
    assert!(!p.anchored);
}

#[test]
fn parse_negated_anchored_directory_rule() {
    let p = Pattern::parse("!/build/");
    assert_eq!(p.pattern, "build");
    assert_eq!(p.pattern_type, PatternType::Whitelist);
    assert!(p.anchored);
}

#[test]
fn parse_escaped_hash_and_bang() {
    let p = Pattern::parse("\\#literal");
    assert_eq!(p.pattern, "#literal");
    assert_eq!(p.pattern_type, PatternType::Ignore);

    let q = Pattern::parse("\\!bang");
    assert_eq!(q.pattern, "!bang");
    assert_eq!(q.pattern_type, PatternType::Ignore);
}

#[test]
fn parse_negation_then_escape_quirk() {
    // A `!` consumed as negation exposes a following `\!` to the escape strip.
    let p = Pattern::parse("!\\!x");
    assert_eq!(p.pattern_type, PatternType::Whitelist);
    assert_eq!(p.pattern, "!x");
}

#[test]
fn path_outside_root_is_never_excluded() {
    let file = GitignoreFile::from_strings(vec!["target"], &root()).unwrap();

    assert!(!file.is_excluded("/somewhere/else/target"));
    assert!(!file.is_excluded("/home/user/dirt/target"));
    assert!(!file.is_excluded("/home/user"));
    assert!(!file.is_excluded("/home/user/dir"));
}

#[test]
fn comments_and_blank_lines_produce_no_rule() {
    let lines = vec!["", "# a comment", "target"];
    let file = GitignoreFile::from_strings(lines, &root()).unwrap();

    assert!(file.is_excluded("/home/user/dir/target/file"));
    assert!(!file.is_excluded("/home/user/dir/# a comment"));
}

#[test]
fn invalid_wildcard_syntax_is_a_compile_error() {
    let r = GitignoreFile::from_strings(vec!["broken["], &root());
    assert!(matches!(r, Err(IgnoreError::GlobSet(_))));
}

#[test]
fn compiling_twice_gives_identical_results() {
    let lines = vec!["target", "!target/foo.txt", "/*.c", "docs/"];
    let a = GitignoreFile::from_strings(lines.clone(), &root()).unwrap();
    let b = GitignoreFile::from_strings(lines, &root()).unwrap();

    let probes = vec![
        "/home/user/dir/target/foo.txt",
        "/home/user/dir/target/blah.txt",
        "/home/user/dir/cat-file.c",
        "/home/user/dir/docs/index.md",
        "/home/user/dir/src/main.rs",
        "/elsewhere/target",
    ];
    for p in probes {
        assert_eq!(a.is_excluded(p), b.is_excluded(p));
    }
}

#[test]
fn later_whitelist_overrides_earlier_ignore_only_where_it_matches() {
    let lines = vec!["logs", "!logs/keep", "logs/keep/secret"];
    let file = GitignoreFile::from_strings(lines, &root()).unwrap();

    assert!(file.is_excluded("/home/user/dir/logs/debug.log"));
    assert!(!file.is_excluded("/home/user/dir/logs/keep"));
    assert!(file.is_excluded("/home/user/dir/logs/keep/secret"));
}

#[test]
fn split_lines_handles_separators_and_carriage_returns() {
    assert_eq!(split_lines("a\r\nb\nc"), vec!["a", "b", "c"]);
    assert_eq!(split_lines("a\n"), vec!["a"]);
    assert_eq!(split_lines("a\n\nb"), vec!["a", "", "b"]);
    assert_eq!(split_lines(""), Vec::<&str>::new());
    assert_eq!(split_lines("bare\r"), vec!["bare\r"]);
}

#[test]
fn from_contents_compiles_a_whole_file() {
    let text = "# build output\ntarget\n!target/foo.txt\n";
    let file = GitignoreFile::from_contents(text, &root()).unwrap();

    assert!(file.is_excluded("/home/user/dir/target/blah.txt"));
    assert!(!file.is_excluded("/home/user/dir/target/foo.txt"));
}

#[test]
fn locate_step_decides_the_upward_scan() {
    assert_eq!(locate_step(true, false, true), LocateStep::Found);
    assert_eq!(locate_step(true, true, false), LocateStep::Found);
    assert_eq!(locate_step(false, true, true), LocateStep::Stop);
    assert_eq!(locate_step(false, false, false), LocateStep::Stop);
    assert_eq!(locate_step(false, false, true), LocateStep::Ascend);
}
