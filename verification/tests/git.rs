use ghcc::git::{
    diff_arguments, diff_directory, diff_source, diff_stat_arguments, get_diff, get_diff_stat,
    get_git_root, has_staged_changes, ignore_path, is_initial_commit, read_diff_from_file,
    read_ignore_patterns_from_path, DiffSource, GitError, GitOutput, IgnoreFile,
};

fn patterns_of(content: &str) -> Vec<String> {
    let (patterns, warning) =
        read_ignore_patterns_from_path(".ghccignore", IgnoreFile::Text(content.to_string()));
    assert!(warning.is_none());
    patterns
}

fn succeeded(stdout: &[u8]) -> Result<GitOutput, String> {
    Ok(GitOutput {
        success: true,
        stdout: stdout.to_vec(),
        stderr: Vec::new(),
    })
}

fn failed(stderr: &[u8]) -> Result<GitOutput, String> {
    Ok(GitOutput {
        success: false,
        stdout: Vec::new(),
        stderr: stderr.to_vec(),
    })
}

#[test]
fn test_read_ignore_patterns_parses_file() {
    let patterns = patterns_of("package-lock.json\n*.lock\ndist/\n");

    assert_eq!(patterns.len(), 3);
    assert!(patterns.contains(&"package-lock.json".to_string()));
    assert!(patterns.contains(&"*.lock".to_string()));
    assert!(patterns.contains(&"dist/".to_string()));
}

#[test]
fn test_read_ignore_patterns_skips_comments() {
    let patterns =
        patterns_of("# This is a comment\npackage-lock.json\n# Another comment\n*.lock\n");

    assert_eq!(patterns.len(), 2);
    assert!(patterns.contains(&"package-lock.json".to_string()));
    assert!(patterns.contains(&"*.lock".to_string()));
    assert!(!patterns.iter().any(|p| p.starts_with('#')));
}

#[test]
fn test_read_ignore_patterns_skips_empty_lines() {
    let patterns = patterns_of("package-lock.json\n\n   \n*.lock\n");

    assert_eq!(patterns.len(), 2);
    assert!(patterns.contains(&"package-lock.json".to_string()));
    assert!(patterns.contains(&"*.lock".to_string()));
}

#[test]
fn test_read_ignore_patterns_returns_empty_when_missing() {
    let path = "/nonexistent/.ghccignore";
    let (patterns, warning) = read_ignore_patterns_from_path(path, IgnoreFile::Missing);

    assert!(patterns.is_empty());
    assert!(warning.is_none());
}

#[test]
fn test_read_ignore_patterns_trims_whitespace() {
    let patterns = patterns_of("  package-lock.json  \n\t*.lock\t\n");

    assert_eq!(patterns.len(), 2);
    assert!(patterns.contains(&"package-lock.json".to_string()));
    assert!(patterns.contains(&"*.lock".to_string()));
}

#[test]
fn patterns_keep_their_order_and_carriage_returns_go() {
    assert_eq!(patterns_of("b\r\n#x\r\na\r\n  # y\r\nb"), ["b", "a", "b"]);
}

#[test]
fn an_unreadable_ignore_file_is_reported() {
    let (patterns, warning) = read_ignore_patterns_from_path(
        "/repo/.ghccignore",
        IgnoreFile::Unreadable("permission denied".to_string()),
    );
    assert!(patterns.is_empty());
    assert_eq!(
        warning.unwrap(),
        "Warning: Could not read /repo/.ghccignore: permission denied. No files will be ignored."
    );
}

#[test]
fn the_root_of_the_repository_is_read_from_git() {
    assert_eq!(get_git_root(succeeded(b"/home/me/repo\n")).unwrap(), "/home/me/repo");
    assert!(get_git_root(succeeded(b"/home/\xff\n")).is_none());
    assert!(get_git_root(failed(b"fatal: not a git repository")).is_none());
    assert!(get_git_root(Err("no such program".to_string())).is_none());
}

#[test]
fn the_ignore_file_is_in_the_root() {
    assert_eq!(ignore_path(&Some("/home/me/repo".to_string())), "/home/me/repo/.ghccignore");
    assert_eq!(ignore_path(&Some("/".to_string())), "/.ghccignore");
    assert_eq!(ignore_path(&Some(String::new())), ".ghccignore");
    assert_eq!(ignore_path(&None), ".ghccignore");
}

#[test]
fn patterns_become_exclusions() {
    let patterns = vec!["*.lock".to_string(), "dist/".to_string()];
    assert_eq!(
        diff_arguments(&patterns),
        ["diff", "--cached", "-U12", "--", ".", ":!*.lock", ":!dist/"]
    );
    assert_eq!(
        diff_stat_arguments(&patterns),
        ["diff", "--cached", "--stat", "--", ".", ":!*.lock", ":!dist/"]
    );
}

#[test]
fn the_diff_and_its_summary_cover_the_same_files() {
    let patterns = vec!["a".to_string(), "b".to_string()];
    assert_eq!(diff_arguments(&patterns)[3..], diff_stat_arguments(&patterns)[3..]);
}

#[test]
fn git_is_run_in_the_root() {
    assert_eq!(diff_directory(&Some("/repo".to_string())).unwrap(), "/repo");
    assert!(diff_directory(&None).is_none());
}

#[test]
fn without_patterns_nothing_is_excluded() {
    assert_eq!(
        diff_arguments(&patterns_of("")),
        ["diff", "--cached", "-U12", "--", "."]
    );
}

#[test]
fn a_diff_in_utf8_is_taken_as_it_is() {
    let diff = get_diff(succeeded("+ä\n".as_bytes())).unwrap();
    assert_eq!(diff.text, "+ä\n");
    assert!(diff.warning.is_none());
}

#[test]
fn other_bytes_are_replaced_with_a_warning() {
    let diff = get_diff(succeeded(b"+a\xffb\n")).unwrap();
    assert_eq!(diff.text, "+a\u{fffd}b\n");
    assert_eq!(
        diff.warning.unwrap(),
        "Warning: git diff output contained non-UTF8 bytes; replacing invalid sequences"
    );
}

#[test]
fn a_refusal_of_git_is_an_error() {
    let e = get_diff(failed(b"fatal: bad\xff")).unwrap_err();
    assert!(matches!(&e, GitError::Git(msg) if msg == "fatal: bad\u{fffd}"));
    assert_eq!(e.message(), "Git error: fatal: bad\u{fffd}");
    let e = get_diff_stat(failed(b"fatal: no")).unwrap_err();
    assert_eq!(e.message(), "Git error: fatal: no");
}

#[test]
fn a_git_that_does_not_run_is_an_error() {
    let e = get_diff(Err("No such file".to_string())).unwrap_err();
    assert!(matches!(&e, GitError::Io(msg) if msg == "No such file"));
    assert_eq!(e.message(), "IO error: No such file");
    assert_eq!(GitError::from_utf8("bad".to_string()).message(), "UTF-8 error: bad");
}

#[test]
fn the_summary_is_trimmed() {
    assert_eq!(
        get_diff_stat(succeeded(b" a.rs | 1 +\n 1 file changed\n")).unwrap(),
        "a.rs | 1 +\n 1 file changed"
    );
}

#[test]
fn changes_are_staged_where_the_diff_is_not_empty() {
    assert!(has_staged_changes(succeeded(b"diff --git a/a b/a\n")).unwrap().0);
    assert!(!has_staged_changes(succeeded(b"")).unwrap().0);
    let (staged, warning) = has_staged_changes(succeeded(b"\xff")).unwrap();
    assert!(staged && warning.is_some());
    assert!(has_staged_changes(failed(b"fatal")).is_err());
}

#[test]
fn a_diff_may_come_from_elsewhere() {
    assert_eq!(diff_source("-"), DiffSource::Stdin);
    assert_eq!(diff_source("a.diff"), DiffSource::File);
    assert_eq!(read_diff_from_file("-", Ok("d".to_string())).unwrap(), "d");
    assert_eq!(
        read_diff_from_file("-", Err("closed".to_string())).unwrap_err().message(),
        "Git error: Failed to read stdin: closed"
    );
    assert_eq!(
        read_diff_from_file("a.diff", Err("missing".to_string())).unwrap_err().message(),
        "Git error: Failed to read a.diff: missing"
    );
}

#[test]
fn git_complains_before_the_first_commit() {
    for complaint in [
        "fatal: ambiguous argument 'HEAD': unknown revision or path not in the working tree.",
        "fatal: bad revision 'HEAD'",
        "fatal: ambiguous argument 'HEAD'",
        "fatal: Needed a single revision",
        "fatal: unknown revision",
    ] {
        assert!(is_initial_commit(failed(complaint.as_bytes())).unwrap());
    }
}

#[test]
fn git_counts_after_the_first_commit() {
    assert!(!is_initial_commit(succeeded(b"1\n")).unwrap());
    assert!(!is_initial_commit(succeeded(b"2\n")).unwrap());
}

#[test]
fn other_complaints_are_errors() {
    let e = is_initial_commit(failed(b"fatal: not a git repository")).unwrap_err();
    assert_eq!(e.message(), "Git error: fatal: not a git repository");
    assert!(is_initial_commit(Err("no git".to_string())).is_err());
}
