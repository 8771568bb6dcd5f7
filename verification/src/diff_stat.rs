//! The summary of a diff: which files it touches and how many lines it adds and removes
//! in each, in the style of `git diff --stat`.

use vstd::prelude::*;
use vstd::utf8::encode_utf8;

use crate::text;
use crate::text::{
    chars_of, decimal_text, find_from, join, lines, pad_left, pad_right, push_repeated,
    starts_with, string_of,
};

verus! {

/// The longest bar of plus and minus signs that a line of the summary shows.
pub const MAX_BAR: usize = 50;

// ---------------------------------------------------------------------------
// Models
// ---------------------------------------------------------------------------

/// What a diff does to one file.
#[verifier::ext_equal]
pub struct Change {
    pub name: Seq<char>,
    pub insertions: nat,
    pub deletions: nat,
}

/// `line` opens the part of a diff that is about one file.
pub open spec fn is_header(line: Seq<char>) -> bool {
    "diff --git "@.is_prefix_of(line)
}

/// The file that a header names: what stands between the first ` b/` and the next one,
/// or the end of the line.
pub open spec fn header_name(line: Seq<char>) -> Option<Seq<char>> {
    match text::first_match(line, " b/"@) {
        None => None,
        Some(i) => {
            let rest = line.skip(i + " b/"@.len());
            match text::first_match(rest, " b/"@) {
                None => Some(rest),
                Some(j) => Some(rest.take(j)),
            }
        },
    }
}

/// `line` carries the mark of a changed line: it begins with `mark`, but not with three of
/// them, which is how the lines with the file names begin.
pub open spec fn is_marked(line: Seq<char>, mark: char) -> bool {
    &&& line.len() > 0
    &&& line[0] == mark
    &&& !(line.len() >= 3 && line[1] == mark && line[2] == mark)
}

/// How many of the lines carry the mark.
pub open spec fn tally(lines: Seq<Seq<char>>, mark: char) -> nat
    decreases lines.len(),
{
    if lines.len() == 0 {
        0
    } else {
        (if is_marked(lines[0], mark) {
            1nat
        } else {
            0nat
        }) + tally(lines.drop_first(), mark)
    }
}

/// How many lines come before the next header.
pub open spec fn section_len(lines: Seq<Seq<char>>) -> nat
    decreases lines.len(),
{
    if lines.len() == 0 || is_header(lines[0]) {
        0
    } else {
        1 + section_len(lines.drop_first())
    }
}

/// The lines before the next header.
pub open spec fn section(lines: Seq<Seq<char>>) -> Seq<Seq<char>> {
    lines.take(section_len(lines) as int)
}

/// The changes that the lines of a diff describe, in their order. Every header that names a
/// file gives one, with the marked lines of the section below it.
pub open spec fn changes_in(lines: Seq<Seq<char>>) -> Seq<Change>
    decreases lines.len(),
{
    if lines.len() == 0 {
        seq![]
    } else if is_header(lines[0]) {
        let rest = lines.drop_first();
        match header_name(lines[0]) {
            Some(name) => seq![
                Change {
                    name,
                    insertions: tally(section(rest), '+'),
                    deletions: tally(section(rest), '-'),
                },
            ] + changes_in(rest),
            None => changes_in(rest),
        }
    } else {
        changes_in(lines.drop_first())
    }
}

/// All insertions of the given changes.
pub open spec fn total_insertions(changes: Seq<Change>) -> nat
    decreases changes.len(),
{
    if changes.len() == 0 {
        0
    } else {
        total_insertions(changes.drop_last()) + changes.last().insertions
    }
}

/// All deletions of the given changes.
pub open spec fn total_deletions(changes: Seq<Change>) -> nat
    decreases changes.len(),
{
    if changes.len() == 0 {
        0
    } else {
        total_deletions(changes.drop_last()) + changes.last().deletions
    }
}

/// The length in bytes of the longest file name.
pub open spec fn name_width(changes: Seq<Change>) -> nat
    decreases changes.len(),
{
    if changes.len() == 0 {
        0
    } else {
        let before = name_width(changes.drop_last());
        let here = encode_utf8(changes.last().name).len();
        if here > before {
            here
        } else {
            before
        }
    }
}

/// The smaller of two numbers.
pub open spec fn smaller(a: nat, b: nat) -> nat {
    if a < b {
        a
    } else {
        b
    }
}

/// The bar of a change: at most `MAX_BAR` signs, the plus signs first.
pub open spec fn bar(c: Change) -> Seq<char> {
    let len = smaller(c.insertions + c.deletions, MAX_BAR as nat);
    let plus = smaller(c.insertions, len);
    let minus = smaller((len - plus) as nat, c.deletions);
    text::repeated('+', plus) + text::repeated('-', minus)
}

/// The line of the summary about one file.
pub open spec fn change_line(c: Change, width: nat) -> Seq<char> {
    " "@ + text::left_aligned(c.name, width) + " | "@ + text::right_aligned(
        text::decimal(c.insertions + c.deletions),
        4,
    ) + " "@ + bar(c)
}

/// The ending of a noun of which there are `n`.
pub open spec fn plural(n: nat) -> Seq<char> {
    if n == 1 {
        ""@
    } else {
        "s"@
    }
}

/// The last line of the summary.
pub open spec fn totals_line(changes: Seq<Change>) -> Seq<char> {
    let ins = total_insertions(changes);
    let del = total_deletions(changes);
    " "@ + text::decimal(changes.len()) + " file"@ + plural(changes.len()) + " changed, "@
        + text::decimal(ins) + " insertion"@ + plural(ins) + "(+), "@ + text::decimal(del)
        + " deletion"@ + plural(del) + "(-)"@
}

/// All lines of the summary.
pub open spec fn summary_lines(changes: Seq<Change>) -> Seq<Seq<char>> {
    changes.map_values(|c: Change| change_line(c, name_width(changes))).push(totals_line(changes))
}

/// The summary of the changes: nothing where there are none.
pub open spec fn summary(changes: Seq<Change>) -> Seq<char> {
    if changes.len() == 0 {
        seq![]
    } else {
        text::joined(summary_lines(changes), "\n"@)
    }
}

// ---------------------------------------------------------------------------
// Counting
// ---------------------------------------------------------------------------

/// The change to one file while its section is being read, and after.
pub struct FileChange {
    pub name: String,
    pub insertions: usize,
    pub deletions: usize,
}

impl View for FileChange {
    type V = Change;

    open spec fn view(&self) -> Change {
        Change {
            name: self.name@,
            insertions: self.insertions as nat,
            deletions: self.deletions as nat,
        }
    }
}

/// The models of the given changes.
pub open spec fn changes_of(files: Seq<FileChange>) -> Seq<Change> {
    files.map_values(|f: FileChange| f@)
}

/// What is still to come when `current` is the file whose section is being read and `rest`
/// are the lines not read yet.
spec fn pending(current: Option<FileChange>, rest: Seq<Seq<char>>) -> Seq<Change> {
    match current {
        Some(f) => seq![
            Change {
                name: f.name@,
                insertions: f.insertions as nat + tally(section(rest), '+'),
                deletions: f.deletions as nat + tally(section(rest), '-'),
            },
        ] + changes_in(rest),
        None => changes_in(rest),
    }
}

proof fn lemma_section_len(lines: Seq<Seq<char>>)
    ensures
        section_len(lines) <= lines.len(),
    decreases lines.len(),
{
    if lines.len() > 0 && !is_header(lines[0]) {
        lemma_section_len(lines.drop_first());
    }
}

/// How the section of `lines` arises from that of the lines after the first.
proof fn lemma_section_step(lines: Seq<Seq<char>>, mark: char)
    requires
        lines.len() > 0,
    ensures
        is_header(lines[0]) ==> tally(section(lines), mark) == 0,
        !is_header(lines[0]) ==> tally(section(lines), mark) == (if is_marked(lines[0], mark) {
            1nat
        } else {
            0nat
        }) + tally(section(lines.drop_first()), mark),
{
    lemma_section_len(lines);
    lemma_section_len(lines.drop_first());
    if !is_header(lines[0]) {
        assert(section(lines).drop_first() =~= section(lines.drop_first()));
    }
}

proof fn lemma_tally_bound(lines: Seq<Seq<char>>)
    ensures
        tally(lines, '+') + tally(lines, '-') <= lines.len(),
    decreases lines.len(),
{
    if lines.len() > 0 {
        lemma_tally_bound(lines.drop_first());
    }
}

/// The totals of a sequence split at its first element.
proof fn lemma_totals_first(c: Change, rest: Seq<Change>)
    ensures
        total_insertions(seq![c] + rest) == c.insertions + total_insertions(rest),
        total_deletions(seq![c] + rest) == c.deletions + total_deletions(rest),
    decreases rest.len(),
{
    let all = seq![c] + rest;
    if rest.len() == 0 {
        assert(all.drop_last() =~= rest);
        assert(all.last() == c);
    } else {
        assert(all.drop_last() =~= seq![c] + rest.drop_last());
        assert(all.last() == rest.last());
        lemma_totals_first(c, rest.drop_last());
    }
}

/// No more lines are counted than the diff has, and none is counted before the first header.
proof fn lemma_totals_bound(lines: Seq<Seq<char>>)
    ensures
        total_insertions(changes_in(lines)) + total_deletions(changes_in(lines)) + section_len(
            lines,
        ) <= lines.len(),
    decreases lines.len(),
{
    if lines.len() > 0 {
        let rest = lines.drop_first();
        lemma_totals_bound(rest);
        if is_header(lines[0]) {
            match header_name(lines[0]) {
                Some(name) => {
                    lemma_section_len(rest);
                    lemma_tally_bound(section(rest));
                    lemma_totals_first(
                        Change {
                            name,
                            insertions: tally(section(rest), '+'),
                            deletions: tally(section(rest), '-'),
                        },
                        changes_in(rest),
                    );
                },
                None => {},
            }
        }
    }
}

/// Whether `line` carries the mark of a changed line.
fn has_mark(line: &Vec<char>, mark: char) -> (r: bool)
    ensures
        r == is_marked(line@, mark),
{
    line.len() > 0 && line[0] == mark && !(line.len() >= 3 && line[1] == mark && line[2] == mark)
}

/// The file that a header names.
fn name_in_header(line: &Vec<char>) -> (r: Option<String>)
    ensures
        text::opt_text(r) == header_name(line@),
{
    let sep: Vec<char> = chars_of(" b/");
    let n: usize = line.len();
    assert(line@.skip(0) =~= line@);
    match find_from(line, &sep, 0) {
        None => None,
        Some(i) => {
            let start: usize = i + sep.len();
            let ghost rest = line@.skip(start as int);
            match find_from(line, &sep, start) {
                None => {
                    assert(rest =~= line@.subrange(start as int, line@.len() as int));
                    Some(string_of(line, start, n))
                },
                Some(j) => {
                    assert(rest.take(j - start) =~= line@.subrange(start as int, j as int));
                    Some(string_of(line, start, j))
                },
            }
        },
    }
}

/// The changes that the lines of a diff describe.
fn count_changes(lines: &Vec<String>) -> (files: Vec<FileChange>)
    ensures
        changes_of(files@) == changes_in(text::texts(lines@)),
{
    let ghost all = text::texts(lines@);
    let n: usize = lines.len();
    let mut files: Vec<FileChange> = Vec::new();
    let mut current: Option<FileChange> = None;
    let mut i: usize = 0;
    assert(all.skip(0) =~= all);
    assert(changes_of(files@) + pending(current, all.skip(0)) =~= changes_in(all));
    while i < n
        invariant
            i <= n == lines@.len(),
            all == text::texts(lines@),
            changes_of(files@) + pending(current, all.skip(i as int)) == changes_in(all),
            current matches Some(f) ==> f.insertions <= i && f.deletions <= i,
        decreases n - i,
    {
        let ghost rest = all.skip(i as int);
        let ghost before = changes_of(files@);
        proof {
            assert(rest.drop_first() =~= all.skip(i + 1));
            assert(rest[0] == lines@[i as int]@);
            lemma_section_step(rest, '+');
            lemma_section_step(rest, '-');
        }
        let line: Vec<char> = chars_of(lines[i].as_str());
        if starts_with(lines[i].as_str(), "diff --git ") {
            let ghost was = current;
            if let Some(f) = current {
                files.push(f);
                assert(changes_of(files@) =~= before.push(f@));
                assert(before.push(f@) + changes_in(rest) =~= before + pending(was, rest));
            }
            assert(changes_of(files@) + changes_in(rest) == changes_in(all));
            current = match name_in_header(&line) {
                Some(name) => Some(FileChange { name, insertions: 0, deletions: 0 }),
                None => None,
            };
            assert(pending(current, all.skip(i + 1)) =~= changes_in(rest));
        } else if let Some(f) = current {
            let mut f: FileChange = f;
            if has_mark(&line, '+') {
                f.insertions = f.insertions + 1;
            } else if has_mark(&line, '-') {
                f.deletions = f.deletions + 1;
            }
            let ghost was = current;
            current = Some(f);
            assert(pending(current, all.skip(i + 1)) =~= pending(was, rest));
        }
        i = i + 1;
    }
    let ghost was = current;
    let ghost before = changes_of(files@);
    assert(all.skip(n as int).len() == 0);
    assert(section(all.skip(n as int)).len() == 0);
    if let Some(f) = current {
        files.push(f);
        assert(changes_of(files@) =~= before + pending(was, all.skip(n as int)));
    } else {
        assert(changes_of(files@) =~= before + pending(was, all.skip(n as int)));
    }
    files
}

// ---------------------------------------------------------------------------
// Rendering
// ---------------------------------------------------------------------------

/// The line of the summary about one file.
fn render_change(f: &FileChange, width: usize) -> (r: String)
    requires
        f.insertions + f.deletions <= usize::MAX,
    ensures
        r@ == change_line(f@, width as nat),
{
    let total: usize = f.insertions + f.deletions;
    let bar_len: usize = if total < MAX_BAR {
        total
    } else {
        MAX_BAR
    };
    let plus: usize = if f.insertions < bar_len {
        f.insertions
    } else {
        bar_len
    };
    let minus: usize = if bar_len - plus < f.deletions {
        bar_len - plus
    } else {
        f.deletions
    };
    let mut r: String = " ".to_owned();
    r.append(pad_right(f.name.as_str(), width).as_str());
    r.append(" | ");
    r.append(pad_left(decimal_text(total as u64).as_str(), 4).as_str());
    r.append(" ");
    push_repeated(&mut r, '+', plus);
    push_repeated(&mut r, '-', minus);
    assert(r@ =~= change_line(f@, width as nat));
    r
}

/// The ending of a noun of which there are `n`.
fn plural_ending(n: usize) -> (r: &'static str)
    ensures
        r@ == plural(n as nat),
{
    if n == 1 {
        ""
    } else {
        "s"
    }
}

/// The last line of the summary.
fn render_totals(
    count: usize,
    insertions: usize,
    deletions: usize,
    Ghost(changes): Ghost<Seq<Change>>,
) -> (r: String)
    requires
        count == changes.len(),
        insertions == total_insertions(changes),
        deletions == total_deletions(changes),
    ensures
        r@ == totals_line(changes),
{
    let mut r: String = " ".to_owned();
    r.append(decimal_text(count as u64).as_str());
    r.append(" file");
    r.append(plural_ending(count));
    r.append(" changed, ");
    r.append(decimal_text(insertions as u64).as_str());
    r.append(" insertion");
    r.append(plural_ending(insertions));
    r.append("(+), ");
    r.append(decimal_text(deletions as u64).as_str());
    r.append(" deletion");
    r.append(plural_ending(deletions));
    r.append("(-)");
    r
}

/// The length in bytes of the longest file name.
fn longest_name(files: &Vec<FileChange>) -> (width: usize)
    ensures
        width == name_width(changes_of(files@)),
{
    let mut width: usize = 0;
    let mut i: usize = 0;
    let ghost all = changes_of(files@);
    while i < files.len()
        invariant
            i <= files@.len(),
            all == changes_of(files@),
            width == name_width(all.take(i as int)),
        decreases files.len() - i,
    {
        let here: usize = files[i].name.as_str().as_bytes().len();
        if here > width {
            width = here;
        }
        assert(all.take(i + 1).drop_last() =~= all.take(i as int));
        i = i + 1;
    }
    assert(all.take(i as int) =~= all);
    width
}

proof fn lemma_totals_monotone(changes: Seq<Change>, k: int)
    requires
        0 <= k <= changes.len(),
    ensures
        total_insertions(changes.take(k)) <= total_insertions(changes),
        total_deletions(changes.take(k)) <= total_deletions(changes),
    decreases changes.len(),
{
    if k < changes.len() {
        lemma_totals_monotone(changes.drop_last(), k);
        assert(changes.drop_last().take(k) =~= changes.take(k));
    } else {
        assert(changes.take(k) =~= changes);
    }
}

/// Derives the summary of a diff from its text: a line per file with the number of changed
/// lines and a bar of signs, then a line with the totals. A diff that names no file has an
/// empty summary.
pub fn derive_diff_stat(diff: &str) -> (r: String)
    ensures
        r@ == summary(changes_in(text::lines_of(diff@))),
{
    let diff_lines: Vec<String> = lines(diff);
    let files: Vec<FileChange> = count_changes(&diff_lines);
    let ghost changes = changes_of(files@);
    let n: usize = files.len();
    if n == 0 {
        return String::new();
    }
    let line_count: usize = diff_lines.len();
    proof {
        lemma_totals_bound(text::texts(diff_lines@));
    }
    let width: usize = longest_name(&files);
    let mut out: Vec<String> = Vec::new();
    let mut insertions: usize = 0;
    let mut deletions: usize = 0;
    let mut i: usize = 0;
    let ghost all = changes.map_values(|c: Change| change_line(c, name_width(changes)));
    while i < n
        invariant
            i <= n == files@.len(),
            changes == changes_of(files@),
            all == changes.map_values(|c: Change| change_line(c, name_width(changes))),
            width == name_width(changes),
            total_insertions(changes) + total_deletions(changes) <= line_count,
            insertions == total_insertions(changes.take(i as int)),
            deletions == total_deletions(changes.take(i as int)),
            text::texts(out@) == all.take(i as int),
        decreases n - i,
    {
        proof {
            lemma_totals_monotone(changes, i + 1);
            assert(changes.take(i + 1).drop_last() =~= changes.take(i as int));
            assert(changes.take(i + 1).last() == files@[i as int]@);
        }
        insertions = insertions + files[i].insertions;
        deletions = deletions + files[i].deletions;
        let line: String = render_change(&files[i], width);
        let ghost before = text::texts(out@);
        out.push(line);
        assert(text::texts(out@) =~= before.push(line@));
        assert(text::texts(out@) =~= all.take(i + 1));
        i = i + 1;
    }
    assert(changes.take(n as int) =~= changes);
    let line: String = render_totals(n, insertions, deletions, Ghost(changes));
    let ghost before = text::texts(out@);
    out.push(line);
    assert(text::texts(out@) =~= before.push(line@));
    assert(text::texts(out@) =~= summary_lines(changes));
    join(&out, "\n")
}

// ---------------------------------------------------------------------------
// Laws
// ---------------------------------------------------------------------------

proof fn lemma_section_stops(x: Seq<Seq<char>>, y: Seq<Seq<char>>)
    requires
        y.len() > 0,
        is_header(y[0]),
    ensures
        section(x + y) == section(x),
    decreases x.len(),
{
    let all = x + y;
    lemma_section_len(x);
    if x.len() == 0 {
        assert(all =~= y);
        assert(section(all) =~= section(x));
    } else if is_header(x[0]) {
        assert(section(all) =~= section(x));
    } else {
        assert(all.drop_first() =~= x.drop_first() + y);
        lemma_section_stops(x.drop_first(), y);
        lemma_section_len(x.drop_first());
        lemma_section_len(all.drop_first());
        assert(section(all.drop_first()).len() == section(x.drop_first()).len());
        assert(section(all) =~= section(x));
    }
}

proof fn lemma_changes_concat(x: Seq<Seq<char>>, y: Seq<Seq<char>>)
    requires
        y.len() > 0,
        is_header(y[0]),
    ensures
        changes_in(x + y) == changes_in(x) + changes_in(y),
    decreases x.len(),
{
    let all = x + y;
    if x.len() == 0 {
        assert(all =~= y);
        assert(changes_in(all) =~= changes_in(x) + changes_in(y));
    } else {
        assert(all.drop_first() =~= x.drop_first() + y);
        lemma_changes_concat(x.drop_first(), y);
        lemma_section_stops(x.drop_first(), y);
        assert(changes_in(all) =~= changes_in(x) + changes_in(y));
    }
}

/// The first line of a text that begins with a header is a header.
proof fn lemma_header_line(s: Seq<char>)
    requires
        is_header(s),
    ensures
        text::lines_of(s).len() > 0,
        is_header(text::lines_of(s)[0]),
{
    let h = "diff --git "@;
    reveal_strlit("diff --git ");
    text::lemma_position(s, '\n');
    let k = text::position_or_len(s, '\n') as int;
    assert forall|j: int| 0 <= j < h.len() implies s[j] == h[j] by {
        assert(s.subrange(0, h.len() as int)[j] == h[j]);
    }
    assert(k >= h.len()) by {
        if k < h.len() {
            assert(s[k] == h[k]);
        }
    }
    if k < s.len() {
        let line = text::without_cr(s.take(k));
        assert(text::lines_of(s)[0] == line);
        assert(line.len() >= h.len()) by {
            if k == h.len() {
                assert(s.take(k).last() == h[10]);
            }
        }
        assert(line.subrange(0, h.len() as int) =~= h);
    }
}

/// Diffs are counted apart: where one diff follows another, on a line of its own and with a
/// header, the changes are those of the first followed by those of the second.
pub proof fn law_diffs_are_counted_apart(first: Seq<char>, second: Seq<char>)
    requires
        first.len() == 0 || first.last() == '\n',
        is_header(second),
    ensures
        changes_in(text::lines_of(first + second)) == changes_in(text::lines_of(first))
            + changes_in(text::lines_of(second)),
{
    text::lemma_lines_concat(first, second);
    lemma_header_line(second);
    lemma_changes_concat(text::lines_of(first), text::lines_of(second));
}

/// The summary counts every changed line at most once: the insertions and deletions of all
/// files together are no more than the lines of the diff.
pub proof fn law_no_line_is_counted_twice(diff: Seq<char>)
    ensures
        total_insertions(changes_in(text::lines_of(diff))) + total_deletions(
            changes_in(text::lines_of(diff)),
        ) <= text::lines_of(diff).len(),
{
    lemma_totals_bound(text::lines_of(diff));
}

/// A diff without a header has no changes, and so an empty summary.
pub proof fn law_no_header_no_summary(diff: Seq<char>)
    requires
        forall|i: int|
            0 <= i < text::lines_of(diff).len() ==> !is_header(
                #[trigger] text::lines_of(diff)[i],
            ),
    ensures
        summary(changes_in(text::lines_of(diff))) == Seq::<char>::empty(),
{
    lemma_no_header(text::lines_of(diff));
}

proof fn lemma_no_header(lines: Seq<Seq<char>>)
    requires
        forall|i: int| 0 <= i < lines.len() ==> !is_header(#[trigger] lines[i]),
    ensures
        changes_in(lines).len() == 0,
    decreases lines.len(),
{
    if lines.len() > 0 {
        assert(!is_header(lines[0]));
        let rest = lines.drop_first();
        assert forall|i: int| 0 <= i < rest.len() implies !is_header(#[trigger] rest[i]) by {
            assert(rest[i] == lines[i + 1]);
        }
        lemma_no_header(rest);
    }
}

/// A line is a header if and only if it reads `diff --git ` and then something.
pub proof fn law_a_header_reads_diff_git(line: Seq<char>)
    ensures
        is_header(line) <==> exists|rest: Seq<char>| line == #[trigger] ("diff --git "@ + rest),
{
    let h = "diff --git "@;
    if is_header(line) {
        let rest = line.skip(h.len() as int);
        assert(line =~= h + rest);
    }
    if exists|rest: Seq<char>| line == #[trigger] (h + rest) {
        let rest = choose|rest: Seq<char>| line == #[trigger] (h + rest);
        assert(line.subrange(0, h.len() as int) =~= h);
    }
}

/// A header names the file between its first ` b/` and the next one, or the end of the line,
/// and no file where there is no ` b/`.
pub proof fn law_a_header_names_its_file(before: Seq<char>, name: Seq<char>, more: Seq<char>)
    requires
        forall|i: int| 0 <= i < before.len() ==> !text::matches_at(before + " b/"@, " b/"@, i),
        forall|i: int| 0 <= i < name.len() ==> !text::matches_at(name + " b/"@, " b/"@, i),
    ensures
        header_name(before + " b/"@ + name) == Some(name),
        header_name(before + " b/"@ + name + " b/"@ + more) == Some(name),
        !text::occurs(before, " b/"@) ==> header_name(before) is None,
{
    reveal_strlit(" b/");
    let sep = " b/"@;
    let n = before.len() as int;
    text::lemma_first_match(before, sep);
    let short = before + sep + name;
    lemma_first_separator(before, name);
    assert(short.skip(n + 3) =~= name);
    assert(!text::occurs(name, sep)) by {
        if text::occurs(name, sep) {
            let i = choose|i: int| text::matches_at(name, sep, i);
            assert((name + sep).subrange(i, i + 3) =~= name.subrange(i, i + 3));
            assert(text::matches_at(name + sep, sep, i));
        }
    }
    text::lemma_first_match(name, sep);
    let long = before + sep + name + sep + more;
    assert(long =~= before + sep + (name + sep + more));
    lemma_first_separator(before, name + sep + more);
    assert(long.skip(n + 3) =~= name + sep + more);
    lemma_first_separator(name, more);
    assert((name + sep + more).take(name.len() as int) =~= name);
}

/// A separator that stands where none stood before is the first one.
proof fn lemma_first_separator(before: Seq<char>, after: Seq<char>)
    requires
        forall|i: int| 0 <= i < before.len() ==> !text::matches_at(before + " b/"@, " b/"@, i),
    ensures
        text::first_match(before + " b/"@ + after, " b/"@) == Some(before.len() as int),
{
    reveal_strlit(" b/");
    let sep = " b/"@;
    let all = before + sep + after;
    let n = before.len() as int;
    assert(all.subrange(n, n + 3) =~= sep);
    assert forall|j: int| 0 <= j < n implies !text::matches_at(all, sep, j) by {
        assert(all.subrange(j, j + 3) =~= (before + sep).subrange(j, j + 3));
        assert(!text::matches_at(before + sep, sep, j));
    }
    text::lemma_first_match_is(all, sep, n);
}

/// A diff of one file: a header that names it, and lines that are no headers.
pub open spec fn is_diff_of(lines: Seq<Seq<char>>, name: Seq<char>) -> bool {
    &&& lines.len() > 0
    &&& is_header(lines[0])
    &&& header_name(lines[0]) == Some(name)
    &&& forall|i: int| 0 < i < lines.len() ==> !is_header(#[trigger] lines[i])
}

/// One more line in the diff of a file is one more insertion if it is a plus sign with
/// something behind it that does not begin with two more, one more deletion if it is a minus
/// sign with something behind it that does not begin with two more, and nothing if it begins
/// with neither sign, or with three.
pub proof fn law_one_more_line_counts_once(
    lines: Seq<Seq<char>>,
    name: Seq<char>,
    line: Seq<char>,
)
    requires
        is_diff_of(lines, name),
        !is_header(line),
    ensures
        changes_in(lines).len() == 1,
        changes_in(lines)[0].name == name,
        changes_in(lines.push(line)).len() == 1,
        changes_in(lines.push(line))[0].name == name,
        forall|t: Seq<char>|
            line == #[trigger] (seq!['+'] + t) && !(t.len() >= 2 && t[0] == '+' && t[1] == '+')
                ==> changes_in(lines.push(line))[0].insertions == changes_in(lines)[0].insertions
                + 1 && changes_in(lines.push(line))[0].deletions == changes_in(lines)[0].deletions,
        forall|t: Seq<char>|
            line == #[trigger] (seq!['-'] + t) && !(t.len() >= 2 && t[0] == '-' && t[1] == '-')
                ==> changes_in(lines.push(line))[0].insertions == changes_in(lines)[0].insertions
                && changes_in(lines.push(line))[0].deletions == changes_in(lines)[0].deletions + 1,
        line.len() == 0 || (line[0] != '+' && line[0] != '-') || (line.len() >= 3 && line[1]
            == line[0] && line[2] == line[0]) ==> changes_in(lines.push(line))[0]
            == changes_in(lines)[0],
{
    let body = lines.drop_first();
    let longer = lines.push(line);
    assert(longer.drop_first() =~= body.push(line));
    lemma_one_section(body);
    assert forall|i: int| 0 <= i < body.push(line).len() implies !is_header(
        #[trigger] body.push(line)[i],
    ) by {
        if i < body.len() {
            assert(body[i] == lines[i + 1]);
        }
    }
    assert forall|i: int| 0 <= i < body.len() implies !is_header(#[trigger] body[i]) by {
        assert(body[i] == lines[i + 1]);
    }
    lemma_one_section(body.push(line));
    lemma_no_header(body);
    lemma_no_header(body.push(line));
    lemma_tally_push(body, line, '+');
    lemma_tally_push(body, line, '-');
    assert forall|t: Seq<char>|
        line == #[trigger] (seq!['+'] + t) && !(t.len() >= 2 && t[0] == '+' && t[1]
            == '+') implies changes_in(longer)[0].insertions == changes_in(lines)[0].insertions + 1
        && changes_in(longer)[0].deletions == changes_in(lines)[0].deletions by {
        assert(line[0] == '+');
        assert(t.len() >= 2 ==> line[1] == t[0] && line[2] == t[1]);
    }
    assert forall|t: Seq<char>|
        line == #[trigger] (seq!['-'] + t) && !(t.len() >= 2 && t[0] == '-' && t[1]
            == '-') implies changes_in(longer)[0].insertions == changes_in(lines)[0].insertions
        && changes_in(longer)[0].deletions == changes_in(lines)[0].deletions + 1 by {
        assert(line[0] == '-');
        assert(t.len() >= 2 ==> line[1] == t[0] && line[2] == t[1]);
    }
}

/// Lines without a header among them are one section.
proof fn lemma_one_section(lines: Seq<Seq<char>>)
    ensures
        (forall|i: int| 0 <= i < lines.len() ==> !is_header(#[trigger] lines[i])) ==> section(lines)
            == lines,
    decreases lines.len(),
{
    if forall|i: int| 0 <= i < lines.len() ==> !is_header(#[trigger] lines[i]) {
        lemma_section_of_all(lines);
        assert(section(lines) =~= lines);
    }
}

/// The section of lines without a header among them has all of them.
proof fn lemma_section_of_all(lines: Seq<Seq<char>>)
    requires
        forall|i: int| 0 <= i < lines.len() ==> !is_header(#[trigger] lines[i]),
    ensures
        section_len(lines) == lines.len(),
    decreases lines.len(),
{
    if lines.len() > 0 {
        assert(!is_header(lines[0]));
        let rest = lines.drop_first();
        assert forall|i: int| 0 <= i < rest.len() implies !is_header(#[trigger] rest[i]) by {
            assert(rest[i] == lines[i + 1]);
        }
        lemma_section_of_all(rest);
    }
}

/// One more line is counted if it is marked.
proof fn lemma_tally_push(lines: Seq<Seq<char>>, line: Seq<char>, mark: char)
    ensures
        tally(lines.push(line), mark) == tally(lines, mark) + (if is_marked(line, mark) {
            1nat
        } else {
            0nat
        }),
    decreases lines.len(),
{
    let all = lines.push(line);
    if lines.len() == 0 {
        assert(all.drop_first() =~= lines);
    } else {
        assert(all.drop_first() =~= lines.drop_first().push(line));
        lemma_tally_push(lines.drop_first(), line, mark);
    }
}

/// A header begins the count of its file at nothing.
pub proof fn law_a_header_alone_counts_nothing(header: Seq<char>, name: Seq<char>)
    requires
        is_header(header),
        header_name(header) == Some(name),
    ensures
        changes_in(seq![header]) == seq![Change { name, insertions: 0, deletions: 0 }],
{
    let rest = seq![header].drop_first();
    assert(rest =~= Seq::<Seq<char>>::empty());
    assert(section(rest) =~= Seq::<Seq<char>>::empty());
    assert(tally(section(rest), '+') == 0 && tally(section(rest), '-') == 0);
    assert(changes_in(rest) =~= Seq::<Change>::empty());
    assert(seq![header][0] == header);
    assert(changes_in(seq![header]) =~= seq![Change { name, insertions: 0, deletions: 0 }]);
}

/// Lines before the first header are not counted, and neither is a header that names no file
/// with the lines below it.
pub proof fn law_lines_without_a_file_are_not_counted(line: Seq<char>, rest: Seq<Seq<char>>)
    requires
        !is_header(line) || header_name(line) is None,
    ensures
        changes_in(seq![line] + rest) == changes_in(rest),
{
    assert((seq![line] + rest).drop_first() =~= rest);
}

/// The bar of a change has a plus sign for every insertion and then a minus sign for every
/// deletion, up to fifty signs in all; what is beyond that is cut off, minus signs first.
pub proof fn law_the_bar_shows_the_changes(c: Change, i: int)
    ensures
        bar(c).len() == if c.insertions + c.deletions <= 50 {
            c.insertions + c.deletions
        } else {
            50
        },
        0 <= i < bar(c).len() ==> bar(c)[i] == if i < c.insertions {
            '+'
        } else {
            '-'
        },
{
}

/// The width of the names is the length in bytes of the longest one.
pub proof fn law_the_width_is_that_of_the_longest_name(changes: Seq<Change>)
    requires
        changes.len() > 0,
    ensures
        forall|i: int|
            0 <= i < changes.len() ==> encode_utf8((#[trigger] changes[i]).name).len()
                <= name_width(changes),
        exists|i: int|
            0 <= i < changes.len() && encode_utf8((#[trigger] changes[i]).name).len()
                == name_width(changes),
    decreases changes.len(),
{
    let before = changes.drop_last();
    let n = changes.len() - 1;
    if before.len() > 0 {
        law_the_width_is_that_of_the_longest_name(before);
        assert forall|i: int| 0 <= i < changes.len() implies encode_utf8(
            (#[trigger] changes[i]).name,
        ).len() <= name_width(changes) by {
            if i < n {
                assert(before[i] == changes[i]);
            }
        }
        if name_width(changes) == name_width(before) {
            let i = choose|i: int|
                0 <= i < before.len() && encode_utf8((#[trigger] before[i]).name).len()
                    == name_width(before);
            assert(changes[i] == before[i]);
        } else {
            assert(encode_utf8(changes[n].name).len() == name_width(changes));
        }
    } else {
        assert(name_width(before) == 0);
        assert(changes.last() == changes[n]);
        assert(encode_utf8(changes[n].name).len() == name_width(changes));
    }
}

/// The totals grow with every change by its insertions and its deletions.
pub proof fn law_the_totals_are_sums(changes: Seq<Change>, c: Change)
    ensures
        total_insertions(Seq::<Change>::empty()) == 0,
        total_deletions(Seq::<Change>::empty()) == 0,
        total_insertions(changes.push(c)) == total_insertions(changes) + c.insertions,
        total_deletions(changes.push(c)) == total_deletions(changes) + c.deletions,
{
    assert(changes.push(c).drop_last() =~= changes);
}

/// The summary of changes has a line for each, in their order, with the name, the number of
/// changed lines and the bar, and a last line with the number of files and the totals.
pub proof fn law_the_summary_has_a_line_for_every_file(changes: Seq<Change>, i: int)
    requires
        0 <= i < changes.len(),
    ensures
        summary(changes) == text::joined(summary_lines(changes), seq!['\n']),
        summary_lines(changes).len() == changes.len() + 1,
        summary_lines(changes)[i] == seq![' '] + text::left_aligned(
            changes[i].name,
            name_width(changes),
        ) + seq![' ', '|', ' '] + text::right_aligned(
            text::decimal(changes[i].insertions + changes[i].deletions),
            4,
        ) + seq![' '] + bar(changes[i]),
        summary_lines(changes).last() == " "@ + text::decimal(changes.len()) + (if changes.len()
            == 1 {
            " file"@
        } else {
            " file"@ + "s"@
        }) + " changed, "@ + text::decimal(total_insertions(changes)) + (if total_insertions(
            changes,
        ) == 1 {
            " insertion"@
        } else {
            " insertion"@ + "s"@
        }) + "(+), "@ + text::decimal(total_deletions(changes)) + (if total_deletions(changes)
            == 1 {
            " deletion"@
        } else {
            " deletion"@ + "s"@
        }) + "(-)"@,
{
    reveal_strlit("\n");
    reveal_strlit(" ");
    reveal_strlit(" | ");
    reveal_strlit("");
    assert("\n"@ =~= seq!['\n']);
    assert(" "@ =~= seq![' ']);
    assert(" | "@ =~= seq![' ', '|', ' ']);
    let ins = total_insertions(changes);
    let del = total_deletions(changes);
    let p1 = " "@ + text::decimal(changes.len());
    assert(p1 + " file"@ + ""@ =~= p1 + " file"@);
    assert(p1 + " file"@ + "s"@ =~= p1 + (" file"@ + "s"@));
    let p2 = p1 + " file"@ + plural(changes.len()) + " changed, "@ + text::decimal(ins);
    assert(p2 + " insertion"@ + ""@ =~= p2 + " insertion"@);
    assert(p2 + " insertion"@ + "s"@ =~= p2 + (" insertion"@ + "s"@));
    let p3 = p2 + " insertion"@ + plural(ins) + "(+), "@ + text::decimal(del);
    assert(p3 + " deletion"@ + ""@ =~= p3 + " deletion"@);
    assert(p3 + " deletion"@ + "s"@ =~= p3 + (" deletion"@ + "s"@));
}

} // verus!
