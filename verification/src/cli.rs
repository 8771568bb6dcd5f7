//! The command line: what the arguments ask for, and the answers that need no work.

use vstd::prelude::*;

use crate::prompt::CommitStyle;
use crate::text;
use crate::text::{concat, same_text, starts_with};

verus! {

// ---------------------------------------------------------------------------
// What is asked for
// ---------------------------------------------------------------------------

/// What the program is asked to do.
#[derive(Debug)]
pub enum Command {
    /// To fill the file with the message of a commit, for git.
    Hook(String),
    /// The same, but without a file.
    HookWithoutFile,
    Login,
    Status,
    Models,
    HookInstall,
    HookUninstall,
    /// To do something with the hook that is not known.
    HookOther,
    Help,
    Version,
    Unknown(String),
    Generate,
}

/// What the program is asked to do, and in which style.
#[derive(Debug)]
pub struct Invocation {
    pub style: CommitStyle,
    pub command: Command,
}

/// What the program is asked to do, over texts.
pub enum CommandModel {
    Hook(Seq<char>),
    HookWithoutFile,
    Login,
    Status,
    Models,
    HookInstall,
    HookUninstall,
    HookOther,
    Help,
    Version,
    Unknown(Seq<char>),
    Generate,
}

impl View for Command {
    type V = CommandModel;

    open spec fn view(&self) -> CommandModel {
        match self {
            Command::Hook(file) => CommandModel::Hook(file@),
            Command::HookWithoutFile => CommandModel::HookWithoutFile,
            Command::Login => CommandModel::Login,
            Command::Status => CommandModel::Status,
            Command::Models => CommandModel::Models,
            Command::HookInstall => CommandModel::HookInstall,
            Command::HookUninstall => CommandModel::HookUninstall,
            Command::HookOther => CommandModel::HookOther,
            Command::Help => CommandModel::Help,
            Command::Version => CommandModel::Version,
            Command::Unknown(word) => CommandModel::Unknown(word@),
            Command::Generate => CommandModel::Generate,
        }
    }
}

/// The argument is a flag and not a word.
pub open spec fn is_flag(arg: Seq<char>) -> bool {
    arg.len() > 0 && arg[0] == '-'
}

/// The arguments but for the first `n`.
pub open spec fn without(args: Seq<Seq<char>>, n: int) -> Seq<Seq<char>> {
    if n <= args.len() {
        args.skip(n)
    } else {
        seq![]
    }
}

/// The first argument that is a word.
pub open spec fn first_word(args: Seq<Seq<char>>) -> Option<Seq<char>>
    decreases args.len(),
{
    if args.len() == 0 {
        None
    } else if !is_flag(args[0]) {
        Some(args[0])
    } else {
        first_word(args.drop_first())
    }
}

/// The arguments after the first one that is `t`; `None` where none is.
pub open spec fn after_first(args: Seq<Seq<char>>, t: Seq<char>) -> Option<Seq<Seq<char>>>
    decreases args.len(),
{
    if args.len() == 0 {
        None
    } else if args[0] == t {
        Some(args.drop_first())
    } else {
        after_first(args.drop_first(), t)
    }
}

/// The style that the flags among the arguments ask for.
pub open spec fn style_in(args: Seq<Seq<char>>) -> CommitStyle {
    if args.contains("-d"@) || args.contains("--detailed"@) {
        CommitStyle::Detailed
    } else if args.contains("-a"@) || args.contains("--auto"@) {
        CommitStyle::Auto
    } else {
        CommitStyle::SingleLine
    }
}

/// What the program is asked to do. The first argument is the name of the program.
pub open spec fn command_in(args: Seq<Seq<char>>) -> CommandModel {
    match after_first(args, "--hook"@) {
        Some(rest) => if rest.len() > 0 {
            CommandModel::Hook(rest[0])
        } else {
            CommandModel::HookWithoutFile
        },
        None => match first_word(without(args, 1)) {
            Some(word) => if word == "login"@ {
                CommandModel::Login
            } else if word == "status"@ {
                CommandModel::Status
            } else if word == "models"@ {
                CommandModel::Models
            } else if word == "hook"@ {
                if first_word(without(args, 2)) == Some("install"@) {
                    CommandModel::HookInstall
                } else if first_word(without(args, 2)) == Some("uninstall"@) {
                    CommandModel::HookUninstall
                } else {
                    CommandModel::HookOther
                }
            } else if word == "help"@ {
                CommandModel::Help
            } else {
                CommandModel::Unknown(word)
            },
            None => if args.contains("--help"@) || args.contains("-h"@) {
                CommandModel::Help
            } else if args.contains("--version"@) || args.contains("-V"@) {
                CommandModel::Version
            } else {
                CommandModel::Generate
            },
        },
    }
}

/// Whether one of the arguments is `t`.
fn has(args: &Vec<String>, t: &str) -> (r: bool)
    ensures
        r == text::texts(args@).contains(t@),
{
    for i in 0..args.len()
        invariant
            forall|j: int| 0 <= j < i ==> #[trigger] text::texts(args@)[j] != t@,
    {
        assert(text::texts(args@)[i as int] == args@[i as int]@);
        if same_text(args[i].as_str(), t) {
            return true;
        }
    }
    false
}

/// The place of the first argument at or after `from` that is a word, or the number of
/// arguments where there is none.
fn find_word(args: &Vec<String>, from: usize) -> (r: usize)
    ensures
        match first_word(without(text::texts(args@), from as int)) {
            Some(word) => r < args@.len() && args@[r as int]@ == word,
            None => r >= args@.len(),
        },
{
    let ghost all = text::texts(args@);
    let n: usize = args.len();
    if from >= n {
        assert(without(all, from as int).len() == 0);
        return n;
    }
    let mut i: usize = from;
    while i < n
        invariant
            from <= i <= n == args@.len(),
            all == text::texts(args@),
            first_word(all.skip(from as int)) == first_word(all.skip(i as int)),
        decreases n - i,
    {
        proof {
            assert(all.skip(i as int)[0] == args@[i as int]@);
            assert(all.skip(i as int).drop_first() =~= all.skip(i + 1));
        }
        if !flag(args[i].as_str()) {
            return i;
        }
        i = i + 1;
    }
    n
}

/// Whether the argument is a flag and not a word.
fn flag(arg: &str) -> (r: bool)
    ensures
        r == is_flag(arg@),
{
    proof {
        reveal_strlit("-");
        if arg@.len() > 0 {
            assert(arg@.subrange(0, 1) =~= seq![arg@[0]]);
            assert("-"@ =~= seq!['-']);
            if arg@[0] != '-' {
                assert(seq![arg@[0]][0] != seq!['-'][0]);
            }
        }
    }
    starts_with(arg, "-")
}

/// The place after the first argument that is `t`.
fn find_after(args: &Vec<String>, t: &str) -> (r: Option<usize>)
    ensures
        match after_first(text::texts(args@), t@) {
            Some(rest) => r matches Some(i) && i <= args@.len() && rest == text::texts(args@).skip(
                i as int,
            ),
            None => r is None,
        },
{
    let ghost all = text::texts(args@);
    assert(all.skip(0) =~= all);
    for i in 0..args.len()
        invariant
            all == text::texts(args@),
            after_first(all, t@) == after_first(all.skip(i as int), t@),
    {
        proof {
            assert(all.skip(i as int)[0] == args@[i as int]@);
            assert(all.skip(i as int).drop_first() =~= all.skip(i + 1));
        }
        if same_text(args[i].as_str(), t) {
            return Some(i + 1);
        }
    }
    None
}

/// The style that the flags among the arguments ask for.
fn read_style(args: &Vec<String>) -> (r: CommitStyle)
    ensures
        r == style_in(text::texts(args@)),
{
    if has(args, "-d") || has(args, "--detailed") {
        CommitStyle::Detailed
    } else if has(args, "-a") || has(args, "--auto") {
        CommitStyle::Auto
    } else {
        CommitStyle::SingleLine
    }
}

/// What the words and flags ask for, where git does not call.
fn read_words(args: &Vec<String>) -> (r: Command)
    requires
        after_first(text::texts(args@), "--hook"@) is None,
    ensures
        r@ == command_in(text::texts(args@)),
{
    let i: usize = find_word(args, 1);
    if i < args.len() {
        let word: &str = args[i].as_str();
        if same_text(word, "login") {
            Command::Login
        } else if same_text(word, "status") {
            Command::Status
        } else if same_text(word, "models") {
            Command::Models
        } else if same_text(word, "hook") {
            let j: usize = find_word(args, 2);
            if j < args.len() && same_text(args[j].as_str(), "install") {
                Command::HookInstall
            } else if j < args.len() && same_text(args[j].as_str(), "uninstall") {
                Command::HookUninstall
            } else {
                Command::HookOther
            }
        } else if same_text(word, "help") {
            Command::Help
        } else {
            Command::Unknown(word.to_owned())
        }
    } else if has(args, "--help") || has(args, "-h") {
        Command::Help
    } else if has(args, "--version") || has(args, "-V") {
        Command::Version
    } else {
        Command::Generate
    }
}

/// What the program is asked to do, and in which style. The first argument is the name of
/// the program.
pub fn parse_arguments(args: &Vec<String>) -> (r: Invocation)
    ensures
        r.style == style_in(text::texts(args@)),
        r.command@ == command_in(text::texts(args@)),
{
    let style: CommitStyle = read_style(args);
    let command: Command = match find_after(args, "--hook") {
        Some(i) => {
            if i < args.len() {
                assert(text::texts(args@).skip(i as int)[0] == args@[i as int]@);
                Command::Hook(args[i].clone())
            } else {
                Command::HookWithoutFile
            }
        },
        None => read_words(args),
    };
    Invocation { style, command }
}

// ---------------------------------------------------------------------------
// Answers
// ---------------------------------------------------------------------------

/// How the program is used.
pub open spec fn usage() -> Seq<Seq<char>> {
    seq![
        "ghcc - Generate conventional commit messages with GitHub Copilot"@,
        ""@,
        "Usage:"@,
        "  ghcc [options]      Generate commit message for staged changes"@,
        "  ghcc login          Authenticate with GitHub Copilot"@,
        "  ghcc status         Show authentication status"@,
        "  ghcc models         List and select Copilot models"@,
        "  ghcc hook install   Install git prepare-commit-msg hook"@,
        "  ghcc hook uninstall Remove git prepare-commit-msg hook"@,
        ""@,
        "Options:"@,
        "  -d, --detailed      Include bullet-point body (default: single-line)"@,
        "  -a, --auto          Let AI decide format (experimental)"@,
        "  -h, --help          Show this help message"@,
        "  -V, --version       Show version"@,
    ]
}

/// The lines that say how the program is used.
pub fn print_usage() -> (r: Vec<String>)
    ensures
        text::texts(r@) == usage(),
{
    let mut r: Vec<String> = Vec::new();
    r.push("ghcc - Generate conventional commit messages with GitHub Copilot".to_owned());
    r.push("".to_owned());
    r.push("Usage:".to_owned());
    r.push("  ghcc [options]      Generate commit message for staged changes".to_owned());
    r.push("  ghcc login          Authenticate with GitHub Copilot".to_owned());
    r.push("  ghcc status         Show authentication status".to_owned());
    r.push("  ghcc models         List and select Copilot models".to_owned());
    r.push("  ghcc hook install   Install git prepare-commit-msg hook".to_owned());
    r.push("  ghcc hook uninstall Remove git prepare-commit-msg hook".to_owned());
    r.push("".to_owned());
    r.push("Options:".to_owned());
    r.push("  -d, --detailed      Include bullet-point body (default: single-line)".to_owned());
    r.push("  -a, --auto          Let AI decide format (experimental)".to_owned());
    r.push("  -h, --help          Show this help message".to_owned());
    r.push("  -V, --version       Show version".to_owned());
    assert(text::texts(r@) =~= usage());
    r
}

/// What the user is told, line by line, and whether the program failed.
#[derive(Debug)]
pub struct Answer {
    pub lines: Vec<String>,
    pub failed: bool,
}

/// The lines of the answer to a command that needs no work, and whether it is a failure.
pub open spec fn answer_to(command: CommandModel, version: Seq<char>) -> Option<
    (Seq<Seq<char>>, bool),
> {
    match command {
        CommandModel::HookWithoutFile => Some(
            (seq!["Usage: ghcc --hook <msg-file> [-d|-a]"@], true),
        ),
        CommandModel::HookOther => Some(
            (seq!["Usage: ghcc hook <install|uninstall> [-d|-a]"@], true),
        ),
        CommandModel::Help => Some((usage(), false)),
        CommandModel::Version => Some((seq!["ghcc "@ + version], false)),
        CommandModel::Unknown(word) => Some(
            (seq!["Unknown command: "@ + word] + usage(), true),
        ),
        _ => None,
    }
}

/// A list of one line.
fn one_line(line: String) -> (r: Vec<String>)
    ensures
        text::texts(r@) == seq![line@],
{
    let mut r: Vec<String> = Vec::new();
    let ghost s = line@;
    r.push(line);
    assert(text::texts(r@) =~= seq![s]);
    r
}

/// The answer to a command that needs no work; `None` where there is work to do.
pub fn answer(command: &Command, version: &str) -> (r: Option<Answer>)
    ensures
        match answer_to(command@, version@) {
            Some((lines, failed)) => r matches Some(a) && text::texts(a.lines@) == lines && a.failed
                == failed,
            None => r is None,
        },
{
    match command {
        Command::HookWithoutFile => Some(
            Answer {
                lines: one_line("Usage: ghcc --hook <msg-file> [-d|-a]".to_owned()),
                failed: true,
            },
        ),
        Command::HookOther => Some(
            Answer {
                lines: one_line("Usage: ghcc hook <install|uninstall> [-d|-a]".to_owned()),
                failed: true,
            },
        ),
        Command::Help => Some(Answer { lines: print_usage(), failed: false }),
        Command::Version => Some(
            Answer { lines: one_line(concat("ghcc ", version)), failed: false },
        ),
        Command::Unknown(word) => {
            let mut lines: Vec<String> = one_line(concat("Unknown command: ", word.as_str()));
            let mut more: Vec<String> = print_usage();
            let ghost head = lines@;
            let ghost tail = more@;
            lines.append(&mut more);
            assert(text::texts(lines@) =~= text::texts(head) + text::texts(tail));
            Some(Answer { lines, failed: true })
        },
        _ => None,
    }
}

/// What the user is told where a command failed.
pub fn error_line(reason: &str) -> (r: String)
    ensures
        r@ == "Error: "@ + reason@,
{
    concat("Error: ", reason)
}

// ---------------------------------------------------------------------------
// Laws
// ---------------------------------------------------------------------------

/// Where both styles are asked for, the message is detailed.
pub proof fn law_detailed_wins_over_auto(args: Seq<Seq<char>>)
    requires
        args.contains("-d"@) || args.contains("--detailed"@),
    ensures
        style_in(args) == CommitStyle::Detailed,
{
}

/// A call by git is served whatever else the arguments hold: the file is the argument after
/// the first `--hook`.
pub proof fn law_a_call_by_git_comes_first(
    before: Seq<Seq<char>>,
    file: Seq<char>,
    after: Seq<Seq<char>>,
)
    requires
        !before.contains("--hook"@),
    ensures
        command_in(before + seq!["--hook"@, file] + after) == CommandModel::Hook(file),
{
    lemma_after_first(before, "--hook"@, seq![file] + after);
    assert(before + seq!["--hook"@] + (seq![file] + after) =~= before + seq!["--hook"@, file]
        + after);
}

/// The arguments after the first `t` are those that follow it.
proof fn lemma_after_first(before: Seq<Seq<char>>, t: Seq<char>, after: Seq<Seq<char>>)
    requires
        !before.contains(t),
    ensures
        after_first(before + seq![t] + after, t) == Some(after),
    decreases before.len(),
{
    let all = before + seq![t] + after;
    if before.len() == 0 {
        assert(all[0] == t);
        assert(all.drop_first() =~= after);
    } else {
        assert(all[0] == before[0]);
        assert(before.contains(before[0]));
        assert(all.drop_first() =~= before.drop_first() + seq![t] + after);
        assert forall|i: int| 0 <= i < before.drop_first().len() implies before.drop_first()[i]
            != t by {
            assert(before.contains(before[i + 1]));
        }
        lemma_after_first(before.drop_first(), t, after);
    }
}

/// The style is detailed where `-d` or `--detailed` is among the arguments, otherwise that of
/// the model's choice where `-a` or `--auto` is, and otherwise a single line.
pub proof fn law_flags_choose_the_style(args: Seq<Seq<char>>)
    ensures
        style_in(args) == CommitStyle::Detailed <==> args.contains("-d"@) || args.contains(
            "--detailed"@,
        ),
        style_in(args) == CommitStyle::Auto <==> (args.contains("-a"@) || args.contains(
            "--auto"@,
        )) && !args.contains("-d"@) && !args.contains("--detailed"@),
{
}

/// What begins with `-` is a flag, and nothing else is.
spec fn begins_with_dash(arg: Seq<char>) -> bool {
    arg.len() > 0 && arg[0] == '-'
}

/// The first word after flags is the first word.
proof fn lemma_first_word(flags: Seq<Seq<char>>, word: Seq<char>, rest: Seq<Seq<char>>)
    requires
        forall|i: int| 0 <= i < flags.len() ==> begins_with_dash(#[trigger] flags[i]),
        !begins_with_dash(word),
    ensures
        first_word(flags + seq![word] + rest) == Some(word),
        first_word(flags) is None,
    decreases flags.len(),
{
    let all = flags + seq![word] + rest;
    if flags.len() == 0 {
        assert(all[0] == word);
    } else {
        assert(begins_with_dash(flags[0]));
        assert(all[0] == flags[0]);
        let fewer = flags.drop_first();
        assert(all.drop_first() =~= fewer + seq![word] + rest);
        assert forall|i: int| 0 <= i < fewer.len() implies begins_with_dash(
            #[trigger] fewer[i],
        ) by {
            assert(begins_with_dash(flags[i + 1]));
        }
        lemma_first_word(fewer, word, rest);
    }
}

/// Where `--hook` is not among the arguments, nothing follows it.
proof fn lemma_after_none(args: Seq<Seq<char>>, t: Seq<char>)
    ensures
        !args.contains(t) ==> after_first(args, t) is None,
    decreases args.len(),
{
    if args.len() > 0 && !args.contains(t) {
        assert(args.contains(args[0]));
        assert forall|i: int| 0 <= i < args.drop_first().len() implies args.drop_first()[i] != t by {
            assert(args.contains(args[i + 1]));
        }
        lemma_after_none(args.drop_first(), t);
    }
}

/// The first word behind the name of the program, whatever flags stand before it and whatever
/// stands behind it, chooses the command, unless git calls. A word that is no command is
/// told as it is.
pub proof fn law_the_first_word_chooses_the_command(
    program: Seq<char>,
    flags: Seq<Seq<char>>,
    word: Seq<char>,
    rest: Seq<Seq<char>>,
)
    requires
        forall|i: int| 0 <= i < flags.len() ==> (#[trigger] flags[i]).len() > 0 && flags[i][0]
            == '-',
        word.len() == 0 || word[0] != '-',
        !(seq![program] + flags + seq![word] + rest).contains("--hook"@),
    ensures
        ({
            let command = command_in(seq![program] + flags + seq![word] + rest);
            &&& word == "login"@ ==> command == CommandModel::Login
            &&& word == "status"@ ==> command == CommandModel::Status
            &&& word == "models"@ ==> command == CommandModel::Models
            &&& word == "help"@ ==> command == CommandModel::Help
            &&& word == "hook"@ ==> command == CommandModel::HookInstall || command
                == CommandModel::HookUninstall || command == CommandModel::HookOther
            &&& word != "login"@ && word != "status"@ && word != "models"@ && word != "help"@
                && word != "hook"@ ==> command == CommandModel::Unknown(word)
        }),
{
    let args = seq![program] + flags + seq![word] + rest;
    lemma_after_none(args, "--hook"@);
    assert(args.skip(1) =~= flags + seq![word] + rest);
    assert forall|i: int| 0 <= i < flags.len() implies begins_with_dash(#[trigger] flags[i]) by {}
    lemma_first_word(flags, word, rest);
    lemma_commands_differ();
}

/// The words for the commands are different ones.
proof fn lemma_commands_differ()
    ensures
        "login"@ != "status"@,
        "login"@ != "models"@,
        "login"@ != "hook"@,
        "login"@ != "help"@,
        "status"@ != "models"@,
        "status"@ != "hook"@,
        "status"@ != "help"@,
        "models"@ != "hook"@,
        "models"@ != "help"@,
        "hook"@ != "help"@,
        "install"@ != "uninstall"@,
{
    reveal_strlit("login");
    reveal_strlit("status");
    reveal_strlit("models");
    reveal_strlit("hook");
    reveal_strlit("help");
    reveal_strlit("install");
    reveal_strlit("uninstall");
    assert("login"@.len() == 5 && "status"@.len() == 6 && "models"@.len() == 6);
    assert("hook"@.len() == 4 && "help"@.len() == 4);
    assert("status"@[0] == 's' && "models"@[0] == 'm');
    assert("hook"@[1] == 'o' && "help"@[1] == 'e');
    assert("install"@.len() == 7 && "uninstall"@.len() == 9);
}

/// What is to be done with the hook is the first word behind `hook`, whatever flags stand
/// between them.
pub proof fn law_the_word_behind_hook_says_what_to_do(
    program: Seq<char>,
    flags: Seq<Seq<char>>,
    word: Seq<char>,
    rest: Seq<Seq<char>>,
)
    requires
        forall|i: int| 0 <= i < flags.len() ==> (#[trigger] flags[i]).len() > 0 && flags[i][0]
            == '-',
        word.len() == 0 || word[0] != '-',
        !(seq![program, "hook"@] + flags + seq![word] + rest).contains("--hook"@),
        !(seq![program, "hook"@] + flags).contains("--hook"@),
    ensures
        command_in(seq![program, "hook"@] + flags + seq![word] + rest) == if word == "install"@ {
            CommandModel::HookInstall
        } else if word == "uninstall"@ {
            CommandModel::HookUninstall
        } else {
            CommandModel::HookOther
        },
        command_in(seq![program, "hook"@] + flags) == CommandModel::HookOther,
{
    reveal_strlit("hook");
    lemma_commands_differ();
    assert forall|i: int| 0 <= i < flags.len() implies begins_with_dash(#[trigger] flags[i]) by {}
    let none = Seq::<Seq<char>>::empty();
    let args = seq![program, "hook"@] + flags + seq![word] + rest;
    lemma_after_none(args, "--hook"@);
    assert(args.skip(1) =~= none + seq!["hook"@] + (flags + seq![word] + rest));
    lemma_first_word(none, "hook"@, flags + seq![word] + rest);
    assert(args.skip(2) =~= flags + seq![word] + rest);
    lemma_first_word(flags, word, rest);
    let short = seq![program, "hook"@] + flags;
    lemma_after_none(short, "--hook"@);
    assert(short.skip(1) =~= none + seq!["hook"@] + flags);
    lemma_first_word(none, "hook"@, flags);
    assert(short.skip(2) =~= flags);
}

/// Without a word, help is given where it is asked for, otherwise the version where that is,
/// and otherwise a message is made.
pub proof fn law_without_a_word_flags_choose(program: Seq<char>, flags: Seq<Seq<char>>)
    requires
        forall|i: int| 0 <= i < flags.len() ==> (#[trigger] flags[i]).len() > 0 && flags[i][0]
            == '-',
        !(seq![program] + flags).contains("--hook"@),
    ensures
        ({
            let args = seq![program] + flags;
            command_in(args) == if args.contains("--help"@) || args.contains("-h"@) {
                CommandModel::Help
            } else if args.contains("--version"@) || args.contains("-V"@) {
                CommandModel::Version
            } else {
                CommandModel::Generate
            }
        }),
{
    let args = seq![program] + flags;
    lemma_after_none(args, "--hook"@);
    assert(args.skip(1) =~= flags);
    assert forall|i: int| 0 <= i < flags.len() implies begins_with_dash(#[trigger] flags[i]) by {}
    lemma_first_word(flags, seq![], seq![]);
}

/// A call by git without a file is told how to call.
pub proof fn law_a_call_by_git_needs_a_file(before: Seq<Seq<char>>)
    requires
        !before.contains("--hook"@),
    ensures
        command_in(before.push("--hook"@)) == CommandModel::HookWithoutFile,
{
    let none = Seq::<Seq<char>>::empty();
    lemma_after_first(before, "--hook"@, none);
    assert(before + seq!["--hook"@] + none =~= before.push("--hook"@));
}

/// Only what is asked for wrongly fails at once; help and the version are given, and all the
/// other commands have work to do.
pub proof fn law_only_mistakes_fail_at_once(word: Seq<char>, file: Seq<char>, version: Seq<char>)
    ensures
        answer_to(CommandModel::Help, version) == Some((usage(), false)),
        answer_to(CommandModel::Version, version) == Some((seq!["ghcc "@ + version], false)),
        answer_to(CommandModel::Unknown(word), version) == Some(
            (seq!["Unknown command: "@ + word] + usage(), true),
        ),
        answer_to(CommandModel::HookWithoutFile, version) == Some(
            (seq!["Usage: ghcc --hook <msg-file> [-d|-a]"@], true),
        ),
        answer_to(CommandModel::HookOther, version) == Some(
            (seq!["Usage: ghcc hook <install|uninstall> [-d|-a]"@], true),
        ),
        answer_to(CommandModel::Hook(file), version) is None,
        answer_to(CommandModel::Login, version) is None,
        answer_to(CommandModel::Status, version) is None,
        answer_to(CommandModel::Models, version) is None,
        answer_to(CommandModel::HookInstall, version) is None,
        answer_to(CommandModel::HookUninstall, version) is None,
        answer_to(CommandModel::Generate, version) is None,
{
}

/// The usage has a line for every command and for every flag.
pub proof fn law_the_usage_names_every_command()
    ensures
        usage().len() == 15,
        "  ghcc [options] "@.is_prefix_of(usage()[3]),
        "  ghcc login "@.is_prefix_of(usage()[4]),
        "  ghcc status "@.is_prefix_of(usage()[5]),
        "  ghcc models "@.is_prefix_of(usage()[6]),
        "  ghcc hook install "@.is_prefix_of(usage()[7]),
        "  ghcc hook uninstall "@.is_prefix_of(usage()[8]),
        "  -d, --detailed "@.is_prefix_of(usage()[11]),
        "  -a, --auto "@.is_prefix_of(usage()[12]),
        "  -h, --help "@.is_prefix_of(usage()[13]),
        "  -V, --version "@.is_prefix_of(usage()[14]),
{
    reveal_strlit("  ghcc [options] ");
    reveal_strlit("  ghcc [options]      Generate commit message for staged changes");
    assert(usage()[3].subrange(0, 17) =~= "  ghcc [options] "@);
    reveal_strlit("  ghcc login ");
    reveal_strlit("  ghcc login          Authenticate with GitHub Copilot");
    assert(usage()[4].subrange(0, 13) =~= "  ghcc login "@);
    reveal_strlit("  ghcc status ");
    reveal_strlit("  ghcc status         Show authentication status");
    assert(usage()[5].subrange(0, 14) =~= "  ghcc status "@);
    reveal_strlit("  ghcc models ");
    reveal_strlit("  ghcc models         List and select Copilot models");
    assert(usage()[6].subrange(0, 14) =~= "  ghcc models "@);
    reveal_strlit("  ghcc hook install ");
    reveal_strlit("  ghcc hook install   Install git prepare-commit-msg hook");
    assert(usage()[7].subrange(0, 20) =~= "  ghcc hook install "@);
    reveal_strlit("  ghcc hook uninstall ");
    reveal_strlit("  ghcc hook uninstall Remove git prepare-commit-msg hook");
    assert(usage()[8].subrange(0, 22) =~= "  ghcc hook uninstall "@);
    reveal_strlit("  -d, --detailed ");
    reveal_strlit("  -d, --detailed      Include bullet-point body (default: single-line)");
    assert(usage()[11].subrange(0, 17) =~= "  -d, --detailed "@);
    reveal_strlit("  -a, --auto ");
    reveal_strlit("  -a, --auto          Let AI decide format (experimental)");
    assert(usage()[12].subrange(0, 13) =~= "  -a, --auto "@);
    reveal_strlit("  -h, --help ");
    reveal_strlit("  -h, --help          Show this help message");
    assert(usage()[13].subrange(0, 13) =~= "  -h, --help "@);
    reveal_strlit("  -V, --version ");
    reveal_strlit("  -V, --version       Show version");
    assert(usage()[14].subrange(0, 16) =~= "  -V, --version "@);
}

/// A command over texts is the command itself.
pub proof fn law_commands_are_what_they_say(text: String)
    ensures
        Command::Hook(text)@ == CommandModel::Hook(text@),
        Command::HookWithoutFile@ == CommandModel::HookWithoutFile,
        Command::Login@ == CommandModel::Login,
        Command::Status@ == CommandModel::Status,
        Command::Models@ == CommandModel::Models,
        Command::HookInstall@ == CommandModel::HookInstall,
        Command::HookUninstall@ == CommandModel::HookUninstall,
        Command::HookOther@ == CommandModel::HookOther,
        Command::Help@ == CommandModel::Help,
        Command::Version@ == CommandModel::Version,
        Command::Unknown(text)@ == CommandModel::Unknown(text@),
        Command::Generate@ == CommandModel::Generate,
{
}

} // verus!
