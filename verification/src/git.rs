//! What is asked of git, and what its answers mean.

use vstd::prelude::*;
use vstd::utf8::{decode_utf8, valid_utf8};

use crate::outside;
use crate::outside::{decode_lossy, decode_text};
use crate::paths;
use crate::paths::join_text_path;
use crate::text;
use crate::text::{concat, contains, is_empty, lines, same_text, starts_with, trim};

pub use crate::diff_stat::derive_diff_stat;

verus! {

// ---------------------------------------------------------------------------
// Types
// ---------------------------------------------------------------------------

/// What can go wrong with git.
#[derive(Debug)]
pub enum GitError {
    Io(String),
    Git(String),
    Utf8(String),
}

/// What the user is told about an error.
pub open spec fn git_error_text(e: GitError) -> Seq<char> {
    match e {
        GitError::Io(e) => "IO error: "@ + e@,
        GitError::Git(msg) => "Git error: "@ + msg@,
        GitError::Utf8(e) => "UTF-8 error: "@ + e@,
    }
}

impl GitError {
    /// What the user is told about the error.
    pub fn message(&self) -> (r: String)
        ensures
            r@ == git_error_text(*self),
    {
        match self {
            GitError::Io(e) => concat("IO error: ", e.as_str()),
            GitError::Git(msg) => concat("Git error: ", msg.as_str()),
            GitError::Utf8(e) => concat("UTF-8 error: ", e.as_str()),
        }
    }

    /// The error for a failure of input or output.
    pub fn from_io(text: String) -> (r: GitError)
        ensures
            r == GitError::Io(text),
    {
        GitError::Io(text)
    }

    /// The error for bytes that are not UTF-8.
    pub fn from_utf8(text: String) -> (r: GitError)
        ensures
            r == GitError::Utf8(text),
    {
        GitError::Utf8(text)
    }
}

/// What came of a run of git.
#[derive(Debug)]
pub struct GitOutput {
    pub success: bool,
    pub stdout: Vec<u8>,
    pub stderr: Vec<u8>,
}

/// What came of reading the file with the patterns to ignore.
#[derive(Debug)]
pub enum IgnoreFile {
    /// There is no such file.
    Missing,
    /// The file could not be read, for this reason.
    Unreadable(String),
    /// The file holds this text.
    Text(String),
}

/// A diff, and what the user is told about how it was read.
#[derive(Debug)]
pub struct Diff {
    pub text: String,
    pub warning: Option<String>,
}

// ---------------------------------------------------------------------------
// What to ignore
// ---------------------------------------------------------------------------

/// A line of the file is a pattern unless it is empty or a comment.
pub open spec fn is_pattern(line: Seq<char>) -> bool {
    line.len() > 0 && line[0] != '#'
}

/// The patterns in the text of the file: its lines without the white space around them, but
/// for the empty ones and the comments.
pub open spec fn patterns_in(content: Seq<char>) -> Seq<Seq<char>> {
    text::lines_of(content).map_values(|line: Seq<char>| text::trimmed(line)).filter(
        |line: Seq<char>| is_pattern(line),
    )
}

/// The patterns in the text of the file.
fn parse_patterns(content: &str) -> (r: Vec<String>)
    ensures
        text::texts(r@) == patterns_in(content@),
{
    let all: Vec<String> = lines(content);
    let mut r: Vec<String> = Vec::new();
    let ghost clean = text::lines_of(content@).map_values(|line: Seq<char>| text::trimmed(line));
    let ghost pred = |line: Seq<char>| is_pattern(line);
    proof {
        reveal(Seq::filter);
        assert(text::texts(r@) =~= clean.take(0).filter(pred));
    }
    for i in 0..all.len()
        invariant
            text::texts(all@) == text::lines_of(content@),
            clean == text::lines_of(content@).map_values(|line: Seq<char>| text::trimmed(line)),
            pred == (|line: Seq<char>| is_pattern(line)),
            text::texts(r@) == clean.take(i as int).filter(pred),
    {
        let line: String = trim(all[i].as_str());
        let ghost before = text::texts(r@);
        proof {
            reveal(Seq::filter);
            assert(text::texts(all@)[i as int] == all@[i as int]@);
            assert(clean.take(i + 1).drop_last() =~= clean.take(i as int));
            assert(clean.take(i + 1).last() == line@);
            reveal_strlit("#");
            if line@.len() > 0 {
                assert("#"@.is_prefix_of(line@) == (line@[0] == '#')) by {
                    assert(line@.subrange(0, 1)[0] == line@[0]);
                    if line@[0] == '#' {
                        assert(line@.subrange(0, 1) =~= "#"@);
                    }
                }
            }
        }
        if !is_empty(line.as_str()) && !starts_with(line.as_str(), "#") {
            let ghost added = line@;
            r.push(line);
            assert(text::texts(r@) =~= before.push(added));
        }
    }
    assert(clean.take(clean.len() as int) =~= clean);
    r
}

/// The patterns in the file, and what the user is told where it could not be read; `path` is
/// how the user knows the file.
pub fn read_ignore_patterns_from_path(path: &str, file: IgnoreFile) -> (r: (
    Vec<String>,
    Option<String>,
))
    ensures
        match file {
            IgnoreFile::Missing => r.0@.len() == 0 && r.1 is None,
            IgnoreFile::Unreadable(e) => {
                &&& r.0@.len() == 0
                &&& r.1 matches Some(warning)
                &&& warning@ == "Warning: Could not read "@ + path@ + ": "@ + e@
                    + ". No files will be ignored."@
            },
            IgnoreFile::Text(content) => text::texts(r.0@) == patterns_in(content@) && r.1 is None,
        },
{
    match file {
        IgnoreFile::Missing => (Vec::new(), None),
        IgnoreFile::Unreadable(e) => {
            let mut warning: String = concat("Warning: Could not read ", path);
            warning.append(": ");
            warning.append(e.as_str());
            warning.append(". No files will be ignored.");
            (Vec::new(), Some(warning))
        },
        IgnoreFile::Text(content) => (parse_patterns(content.as_str()), None),
    }
}

/// The root of the repository, from what `git rev-parse --show-toplevel` came to; `None`
/// where git did not run, was not successful, or did not answer in UTF-8.
pub fn get_git_root(outcome: Result<GitOutput, String>) -> (r: Option<String>)
    ensures
        match outcome {
            Ok(output) => if output.success && valid_utf8(output.stdout@) {
                r matches Some(root) && root@ == text::trimmed(
                    decode_utf8(output.stdout@),
                )
            } else {
                r is None
            },
            Err(_) => r is None,
        },
{
    match outcome {
        Ok(output) => {
            if !output.success {
                return None;
            }
            match decode_text(output.stdout) {
                Ok(path) => Some(trim(path.as_str())),
                Err(_) => None,
            }
        },
        Err(_) => None,
    }
}

/// The file with the patterns to ignore: `.ghccignore` in the root of the repository, or
/// here where that is not known.
pub fn ignore_path(root: &Option<String>) -> (r: String)
    ensures
        r@ == match *root {
            Some(root) => paths::text_path_in(root@, ".ghccignore"@),
            None => ".ghccignore"@,
        },
{
    match root {
        Some(root) => join_text_path(root.as_str(), ".ghccignore"),
        None => ".ghccignore".to_owned(),
    }
}

// ---------------------------------------------------------------------------
// The diff
// ---------------------------------------------------------------------------

/// The arguments with which git is run in the root of the repository, where `view` says how
/// the staged changes are shown: everything is included but for what the patterns stand for.
/// Both `.` and the patterns are relative to the directory in which git runs.
pub open spec fn arguments(view: Seq<char>, patterns: Seq<Seq<char>>) -> Seq<Seq<char>> {
    seq!["diff"@, "--cached"@, view, "--"@, "."@] + patterns.map_values(
        |p: Seq<char>| ":!"@ + p,
    )
}

/// The arguments with which git is run in the root of the repository to show the staged
/// changes.
fn arguments_for(view: &str, patterns: &Vec<String>) -> (r: Vec<String>)
    ensures
        text::texts(r@) == arguments(view@, text::texts(patterns@)),
{
    let mut r: Vec<String> = Vec::new();
    r.push("diff".to_owned());
    r.push("--cached".to_owned());
    r.push(view.to_owned());
    r.push("--".to_owned());
    r.push(".".to_owned());
    let ghost base = text::texts(r@);
    let ghost excluded = text::texts(patterns@).map_values(|p: Seq<char>| ":!"@ + p);
    assert(base =~= seq!["diff"@, "--cached"@, view@, "--"@, "."@]);
    assert(excluded.take(0) =~= seq![]);
    for i in 0..patterns.len()
        invariant
            excluded == text::texts(patterns@).map_values(|p: Seq<char>| ":!"@ + p),
            text::texts(r@) == base + excluded.take(i as int),
    {
        let argument: String = concat(":!", patterns[i].as_str());
        let ghost added = argument@;
        let ghost before = text::texts(r@);
        r.push(argument);
        proof {
            assert(text::texts(r@) =~= before.push(added));
            assert(text::texts(patterns@)[i as int] == patterns@[i as int]@);
            assert(excluded[i as int] == added);
            assert(excluded.take(i + 1) =~= excluded.take(i as int).push(added));
        }
    }
    assert(excluded.take(excluded.len() as int) =~= excluded);
    r
}

/// The arguments with which git is run in the root of the repository for the diff of the
/// staged changes.
pub fn diff_arguments(patterns: &Vec<String>) -> (r: Vec<String>)
    ensures
        text::texts(r@) == arguments("-U12"@, text::texts(patterns@)),
{
    arguments_for("-U12", patterns)
}

/// The arguments with which git is run in the root of the repository for the summary of the
/// staged changes.
pub fn diff_stat_arguments(patterns: &Vec<String>) -> (r: Vec<String>)
    ensures
        text::texts(r@) == arguments("--stat"@, text::texts(patterns@)),
{
    arguments_for("--stat", patterns)
}

/// The directory in which git is run with these arguments: the root of the repository, or
/// here where that is not known.
pub fn diff_directory(root: &Option<String>) -> (r: Option<String>)
    ensures
        text::opt_text(r) == text::opt_text(*root),
{
    match root {
        Some(root) => Some(root.clone()),
        None => None,
    }
}

/// Git did not do what it was asked for: it did not run, or it was not successful.
pub open spec fn is_refusal(outcome: Result<GitOutput, String>, e: GitError) -> bool {
    match outcome {
        Err(reason) => e == GitError::Io(reason),
        Ok(output) => {
            &&& !output.success
            &&& e matches GitError::Git(msg)
            &&& msg@ == outside::lossy_text(output.stderr@)
            &&& valid_utf8(output.stderr@) ==> msg@ == decode_utf8(output.stderr@)
        },
    }
}

/// The outcome of git where it was successful, and the error otherwise.
fn successful(outcome: Result<GitOutput, String>) -> (r: Result<GitOutput, GitError>)
    ensures
        match r {
            Ok(output) => output.success && outcome == Ok::<GitOutput, String>(output),
            Err(e) => is_refusal(outcome, e),
        },
{
    match outcome {
        Ok(output) => {
            if output.success {
                Ok(output)
            } else {
                Err(GitError::Git(decode_lossy(&output.stderr).0))
            }
        },
        Err(e) => Err(GitError::from_io(e)),
    }
}

/// What the user is told about a diff that is not all UTF-8.
pub open spec fn encoding_warning(bytes: Seq<u8>) -> Option<Seq<char>> {
    if valid_utf8(bytes) {
        None
    } else {
        Some(
            "Warning: git diff output contained non-UTF8 bytes; replacing invalid sequences"@,
        )
    }
}

/// The diff of the staged changes, from what `git` came to with `diff_arguments`.
pub fn get_diff(outcome: Result<GitOutput, String>) -> (r: Result<Diff, GitError>)
    ensures
        match r {
            Ok(diff) => {
                &&& outcome matches Ok(output)
                &&& output.success
                &&& diff.text@ == outside::lossy_text(output.stdout@)
                &&& valid_utf8(output.stdout@) ==> diff.text@ == decode_utf8(
                    output.stdout@,
                )
                &&& diff.text@.len() > 0 <==> output.stdout@.len() > 0
                &&& text::opt_text(diff.warning) == encoding_warning(output.stdout@)
            },
            Err(e) => is_refusal(outcome, e),
        },
{
    match successful(outcome) {
        Ok(output) => {
            let (text, replaced) = decode_lossy(&output.stdout);
            let warning: Option<String> = if replaced {
                Some(
                    "Warning: git diff output contained non-UTF8 bytes; replacing invalid sequences".to_owned(),
                )
            } else {
                None
            };
            Ok(Diff { text, warning })
        },
        Err(e) => Err(e),
    }
}

/// The summary of the staged changes, from what `git` came to with `diff_stat_arguments`.
pub fn get_diff_stat(outcome: Result<GitOutput, String>) -> (r: Result<String, GitError>)
    ensures
        match r {
            Ok(stat) => {
                &&& outcome matches Ok(output)
                &&& output.success
                &&& stat@ == text::trimmed(outside::lossy_text(output.stdout@))
                &&& valid_utf8(output.stdout@) ==> stat@ == text::trimmed(
                    decode_utf8(output.stdout@),
                )
            },
            Err(e) => is_refusal(outcome, e),
        },
{
    match successful(outcome) {
        Ok(output) => Ok(trim(decode_lossy(&output.stdout).0.as_str())),
        Err(e) => Err(e),
    }
}

/// Whether there are staged changes, from what `git` came to with `diff_arguments`, and what
/// the user is told about how the diff was read.
pub fn has_staged_changes(outcome: Result<GitOutput, String>) -> (r: Result<
    (bool, Option<String>),
    GitError,
>)
    ensures
        match r {
            Ok((staged, warning)) => {
                &&& outcome matches Ok(output)
                &&& output.success
                &&& staged == (output.stdout@.len() > 0)
                &&& text::opt_text(warning) == encoding_warning(output.stdout@)
            },
            Err(e) => is_refusal(outcome, e),
        },
{
    match get_diff(outcome) {
        Ok(diff) => Ok((!is_empty(diff.text.as_str()), diff.warning)),
        Err(e) => Err(e),
    }
}

// ---------------------------------------------------------------------------
// A diff from elsewhere
// ---------------------------------------------------------------------------

/// Where a diff is read from.
#[derive(Debug, Clone, Copy, PartialEq, Eq, Structural)]
pub enum DiffSource {
    Stdin,
    File,
}

/// Where the diff is that the user knows by this path: `-` is the standard input.
pub fn diff_source(path: &str) -> (r: DiffSource)
    ensures
        r == if path@ == "-"@ {
            DiffSource::Stdin
        } else {
            DiffSource::File
        },
{
    if same_text(path, "-") {
        DiffSource::Stdin
    } else {
        DiffSource::File
    }
}

/// The diff that was read from its source, or the error where it could not be read.
pub fn read_diff_from_file(path: &str, content: Result<String, String>) -> (r: Result<
    String,
    GitError,
>)
    ensures
        match content {
            Ok(diff) => r == Ok::<String, GitError>(diff),
            Err(e) => r matches Err(GitError::Git(msg)) && msg@ == "Failed to read "@ + (if path@
                == "-"@ {
                "stdin"@
            } else {
                path@
            }) + ": "@ + e@,
        },
{
    match content {
        Ok(diff) => Ok(diff),
        Err(e) => {
            let mut msg: String = concat(
                "Failed to read ",
                match diff_source(path) {
                    DiffSource::Stdin => "stdin",
                    DiffSource::File => path,
                },
            );
            msg.append(": ");
            msg.append(e.as_str());
            Err(GitError::Git(msg))
        },
    }
}

// ---------------------------------------------------------------------------
// The first commit
// ---------------------------------------------------------------------------

/// Git complains that there is no commit yet.
pub open spec fn says_no_commit(complaint: Seq<char>) -> bool {
    ||| text::occurs(complaint, "unknown revision"@)
    ||| text::occurs(complaint, "bad revision"@)
    ||| text::occurs(complaint, "ambiguous argument"@)
    ||| text::occurs(complaint, "Needed a single revision"@)
}

/// Whether the next commit is the first one, from what `git rev-list --count HEAD` came to:
/// it is not where git can count, and it is where git complains that there is no commit.
pub fn is_initial_commit(outcome: Result<GitOutput, String>) -> (r: Result<bool, GitError>)
    ensures
        match outcome {
            Ok(output) => if output.success {
                r == Ok::<bool, GitError>(false)
            } else if says_no_commit(outside::lossy_text(output.stderr@)) {
                r == Ok::<bool, GitError>(true)
            } else {
                r matches Err(e) && is_refusal(outcome, e)
            },
            Err(_) => r matches Err(e) && is_refusal(outcome, e),
        },
        outcome matches Ok(output) ==> (!output.success && valid_utf8(output.stderr@) ==> (r
            == Ok::<bool, GitError>(true) <==> says_no_commit(decode_utf8(output.stderr@)))),
{
    match successful(outcome) {
        Ok(_) => Ok(false),
        Err(GitError::Git(stderr)) => {
            if contains(stderr.as_str(), "unknown revision") || contains(
                stderr.as_str(),
                "bad revision",
            ) || contains(stderr.as_str(), "ambiguous argument") || contains(
                stderr.as_str(),
                "Needed a single revision",
            ) {
                Ok(true)
            } else {
                Err(GitError::Git(stderr))
            }
        },
        Err(e) => Err(e),
    }
}

// ---------------------------------------------------------------------------
// Laws
// ---------------------------------------------------------------------------

/// Every pattern is a line of the file without white space around it, is not empty and is
/// no comment.
pub proof fn law_patterns_are_clean(content: Seq<char>, i: int)
    requires
        0 <= i < patterns_in(content).len(),
    ensures
        is_pattern(patterns_in(content)[i]),
        text::is_trimmed(patterns_in(content)[i]),
        exists|k: int|
            0 <= k < text::lines_of(content).len() && patterns_in(content)[i] == text::trimmed(
                #[trigger] text::lines_of(content)[k],
            ),
{
    let lines = text::lines_of(content);
    let clean = lines.map_values(|line: Seq<char>| text::trimmed(line));
    let p = patterns_in(content)[i];
    text::lemma_filtered(clean, |line: Seq<char>| is_pattern(line), p);
    assert(patterns_in(content).contains(p));
    let k = choose|k: int| 0 <= k < clean.len() && clean[k] == p;
    assert(p == text::trimmed(lines[k]));
    text::lemma_trimmed(lines[k]);
}

/// Every line of the file that is neither empty nor a comment is a pattern.
pub proof fn law_no_pattern_is_lost(content: Seq<char>, k: int)
    requires
        0 <= k < text::lines_of(content).len(),
        is_pattern(text::trimmed(text::lines_of(content)[k])),
    ensures
        patterns_in(content).contains(text::trimmed(text::lines_of(content)[k])),
{
    let clean = text::lines_of(content).map_values(|line: Seq<char>| text::trimmed(line));
    assert(clean[k] == text::trimmed(text::lines_of(content)[k]));
    text::lemma_filtered(clean, |line: Seq<char>| is_pattern(line), clean[k]);
}

/// The diff and its summary are asked for over the same files.
pub proof fn law_diff_and_summary_cover_the_same_files(patterns: Seq<Seq<char>>)
    ensures
        arguments("-U12"@, patterns).skip(3) == arguments("--stat"@, patterns).skip(3),
{
}

/// Where nothing is to be ignored, nothing is excluded.
pub proof fn law_nothing_is_ignored_by_default(view: Seq<char>)
    ensures
        arguments(view, patterns_in(seq![])) == seq!["diff"@, "--cached"@, view, "--"@, "."@],
{
}

/// Every line of the file whose text, without the white space around it, is not empty and
/// does not begin with `#` is a pattern.
pub proof fn law_every_line_with_words_is_a_pattern(content: Seq<char>, k: int)
    requires
        0 <= k < text::lines_of(content).len(),
        text::trimmed(text::lines_of(content)[k]).len() > 0,
        text::trimmed(text::lines_of(content)[k])[0] != '#',
    ensures
        patterns_in(content).contains(text::trimmed(text::lines_of(content)[k])),
{
    law_no_pattern_is_lost(content, k);
}

/// The file is read line by line: a line gives its text without the white space around it as
/// the next pattern, unless that is empty or begins with `#`, and the rest of the file gives
/// the rest.
pub proof fn law_patterns_are_read_line_by_line(line: Seq<char>, rest: Seq<char>)
    requires
        !line.contains('\n'),
        line.len() == 0 || line.last() != '\r',
    ensures
        patterns_in(line + seq!['\n'] + rest) == (if text::trimmed(line).len() > 0
            && text::trimmed(line)[0] != '#' {
            seq![text::trimmed(line)]
        } else {
            Seq::<Seq<char>>::empty()
        }) + patterns_in(rest),
{
    text::law_a_text_is_its_lines(line, rest);
    let trim = |l: Seq<char>| text::trimmed(l);
    let wanted = |l: Seq<char>| is_pattern(l);
    let lines = text::lines_of(rest);
    assert((seq![line] + lines).map_values(trim) =~= seq![text::trimmed(line)]
        + lines.map_values(trim));
    Seq::filter_distributes_over_add(seq![text::trimmed(line)], lines.map_values(trim), wanted);
    lemma_filter_one(text::trimmed(line), wanted);
}

/// Filtering one item keeps it or nothing.
proof fn lemma_filter_one(x: Seq<char>, wanted: spec_fn(Seq<char>) -> bool)
    ensures
        seq![x].filter(wanted) == if wanted(x) {
            seq![x]
        } else {
            Seq::<Seq<char>>::empty()
        },
{
    reveal(Seq::filter);
    assert(seq![x].drop_last() =~= Seq::<Seq<char>>::empty());
    assert(seq![x].drop_last().filter(wanted) =~= Seq::<Seq<char>>::empty());
    assert(seq![x].filter(wanted) =~= if wanted(x) {
        seq![x]
    } else {
        Seq::<Seq<char>>::empty()
    });
}

/// There are as many patterns as there are lines whose text, without the white space around
/// it, is not empty and does not begin with `#`.
pub proof fn law_there_are_as_many_patterns_as_lines_with_words(content: Seq<char>)
    ensures
        patterns_in(content).len() == text::lines_of(content).filter(
            |l: Seq<char>| text::trimmed(l).len() > 0 && text::trimmed(l)[0] != '#',
        ).len(),
{
    lemma_count_patterns(text::lines_of(content));
}

/// The number of patterns among lines.
proof fn lemma_count_patterns(lines: Seq<Seq<char>>)
    ensures
        lines.map_values(|line: Seq<char>| text::trimmed(line)).filter(
            |line: Seq<char>| is_pattern(line),
        ).len() == lines.filter(
            |l: Seq<char>| text::trimmed(l).len() > 0 && text::trimmed(l)[0] != '#',
        ).len(),
    decreases lines.len(),
{
    reveal(Seq::filter);
    if lines.len() > 0 {
        let clean = lines.map_values(|line: Seq<char>| text::trimmed(line));
        assert(clean.drop_last() =~= lines.drop_last().map_values(
            |line: Seq<char>| text::trimmed(line),
        ));
        assert(clean.last() == text::trimmed(lines.last()));
        lemma_count_patterns(lines.drop_last());
    }
}

/// An empty file has no patterns, and neither has a last line without words.
pub proof fn law_the_last_line_may_end_without_a_line_feed(line: Seq<char>)
    requires
        !line.contains('\n'),
    ensures
        patterns_in(line) == if line.len() > 0 && text::trimmed(line).len() > 0 && text::trimmed(
            line,
        )[0] != '#' {
            seq![text::trimmed(line)]
        } else {
            Seq::<Seq<char>>::empty()
        },
{
    text::law_a_text_is_its_lines(line, seq![]);
    let trim = |l: Seq<char>| text::trimmed(l);
    let wanted = |l: Seq<char>| is_pattern(l);
    reveal(Seq::filter);
    if line.len() > 0 {
        assert(seq![line].map_values(trim) =~= seq![text::trimmed(line)]);
        lemma_filter_one(text::trimmed(line), wanted);
    } else {
        assert(Seq::<Seq<char>>::empty().map_values(trim) =~= Seq::<Seq<char>>::empty());
    }
}

/// Git is asked for the staged changes of everything, and after that every pattern is
/// excluded, in its place and as it is.
pub proof fn law_every_pattern_is_excluded(view: Seq<char>, patterns: Seq<Seq<char>>, i: int)
    ensures
        arguments(view, patterns).len() == 5 + patterns.len(),
        arguments(view, patterns)[0] == "diff"@,
        arguments(view, patterns)[1] == "--cached"@,
        arguments(view, patterns)[2] == view,
        arguments(view, patterns)[3] == "--"@,
        arguments(view, patterns)[4] == "."@,
        0 <= i < patterns.len() ==> arguments(view, patterns)[5 + i] == seq![':', '!']
            + patterns[i],
{
    reveal_strlit(":!");
    assert(":!"@ =~= seq![':', '!']);
}

/// A run of git that was successful is no refusal, one that was not is told in the words of
/// git, and one that did not happen in those of the system.
pub proof fn law_a_refusal_is_told_in_its_own_words(outcome: Result<GitOutput, String>, e: GitError)
    requires
        is_refusal(outcome, e),
    ensures
        match outcome {
            Ok(output) => {
                &&& !output.success
                &&& e matches GitError::Git(msg)
                &&& msg@ == outside::lossy_text(output.stderr@)
                &&& valid_utf8(output.stderr@) ==> msg@ == decode_utf8(output.stderr@)
            },
            Err(reason) => e == GitError::Io(reason),
        },
{
}

/// Every error says of which sort it is, and then its text as it is.
pub proof fn law_errors_keep_their_text(text: String)
    ensures
        git_error_text(GitError::Io(text)) == "IO error: "@ + text@,
        git_error_text(GitError::Git(text)) == "Git error: "@ + text@,
        git_error_text(GitError::Utf8(text)) == "UTF-8 error: "@ + text@,
{
}

/// Git says that there is no commit yet exactly where one of its four complaints stands
/// somewhere in what it says.
pub proof fn law_four_complaints_mean_no_commit(complaint: Seq<char>)
    ensures
        says_no_commit(complaint) <==> (exists|a: Seq<char>, b: Seq<char>|
            complaint == #[trigger] (a + "unknown revision"@ + b)) || (exists|
            a: Seq<char>,
            b: Seq<char>,
        |
            complaint == #[trigger] (a + "bad revision"@ + b)) || (exists|
            a: Seq<char>,
            b: Seq<char>,
        |
            complaint == #[trigger] (a + "ambiguous argument"@ + b)) || (exists|
            a: Seq<char>,
            b: Seq<char>,
        |
            complaint == #[trigger] (a + "Needed a single revision"@ + b)),
{
    text::law_to_occur_is_to_be_a_part(complaint, "unknown revision"@);
    text::law_to_occur_is_to_be_a_part(complaint, "bad revision"@);
    text::law_to_occur_is_to_be_a_part(complaint, "ambiguous argument"@);
    text::law_to_occur_is_to_be_a_part(complaint, "Needed a single revision"@);
}

/// The user is warned exactly where there are bytes that are not UTF-8.
pub proof fn law_bytes_that_are_replaced_are_reported(bytes: Seq<u8>)
    ensures
        encoding_warning(bytes) is None <==> valid_utf8(bytes),
        encoding_warning(bytes) matches Some(w) ==> w
            == "Warning: git diff output contained non-UTF8 bytes; replacing invalid sequences"@,
{
}

} // verus!
