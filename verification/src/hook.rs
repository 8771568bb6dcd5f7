//! The git hook: the script that is installed, and when it may be written and removed.

use vstd::prelude::*;
use vstd::utf8::{decode_utf8, valid_utf8};

use crate::cli;
use crate::git::GitOutput;
use crate::outside;
use crate::outside::decode_text;
use crate::paths;
use crate::paths::join_text_path;
use crate::prompt::CommitStyle;
use crate::text;
use crate::text::{concat, contains, trim};

verus! {

/// The permissions of the hook.
pub const HOOK_MODE: u32 = 0o755;

/// What every hook of the program begins with.
pub const HOOK_START: &'static str = "#!/bin/sh\n[ -z \"$2\" ] && exec ghcc --hook \"$1\" ";

/// What every hook of the program ends with.
pub const HOOK_END: &'static str = "\nexit 0\n";

// ---------------------------------------------------------------------------
// The script
// ---------------------------------------------------------------------------

/// The script of the hook, where `style_flag` asks for the style.
pub open spec fn script(style_flag: Seq<char>) -> Seq<char> {
    HOOK_START@ + style_flag + HOOK_END@
}

/// The script of the hook, where `style_flag` asks for the style. It calls the program for
/// commits that have no message yet, and does nothing for others.
pub fn hook_script(style_flag: &str) -> (r: String)
    ensures
        r@ == script(style_flag@),
{
    let mut r: String = HOOK_START.to_owned();
    r.append(style_flag);
    r.append(HOOK_END);
    r
}

/// The flag that asks for a style.
pub open spec fn flag_for(style: CommitStyle) -> Seq<char> {
    match style {
        CommitStyle::SingleLine => ""@,
        CommitStyle::Detailed => "-d"@,
        CommitStyle::Auto => "-a"@,
    }
}

/// How the user knows a style.
pub open spec fn description_of(style: CommitStyle) -> Seq<char> {
    match style {
        CommitStyle::SingleLine => "single-line"@,
        CommitStyle::Detailed => "detailed (-d)"@,
        CommitStyle::Auto => "auto (-a)"@,
    }
}

/// The flag that asks for a style.
pub fn style_flag(style: CommitStyle) -> (r: &'static str)
    ensures
        r@ == flag_for(style),
{
    match style {
        CommitStyle::SingleLine => "",
        CommitStyle::Detailed => "-d",
        CommitStyle::Auto => "-a",
    }
}

/// How the user knows a style.
pub fn style_description(style: CommitStyle) -> (r: &'static str)
    ensures
        r@ == description_of(style),
{
    match style {
        CommitStyle::SingleLine => "single-line",
        CommitStyle::Detailed => "detailed (-d)",
        CommitStyle::Auto => "auto (-a)",
    }
}

// ---------------------------------------------------------------------------
// The place of the hook
// ---------------------------------------------------------------------------

/// The directory of the hooks and the hook in it.
#[derive(Debug)]
pub struct HookPaths {
    pub dir: String,
    pub file: String,
}

/// The directory of the hooks, where git keeps its files in `git_dir`.
pub open spec fn hook_dir_in(git_dir: Seq<char>) -> Seq<char> {
    paths::text_path_in(git_dir, "hooks"@)
}

/// The hook, where git keeps its files in `git_dir`.
pub open spec fn hook_file_in(git_dir: Seq<char>) -> Seq<char> {
    paths::text_path_in(hook_dir_in(git_dir), "prepare-commit-msg"@)
}

/// The place of the hook, from what `git rev-parse --git-dir` came to, or what the user is
/// told where there is none.
pub fn hook_paths(outcome: Result<GitOutput, String>) -> (r: Result<HookPaths, String>)
    ensures
        match outcome {
            Err(e) => r == Err::<HookPaths, String>(e),
            Ok(output) => if !output.success {
                r matches Err(e) && e@ == "Not a git repository"@
            } else if !valid_utf8(output.stdout@) {
                r matches Err(e) && e@ == outside::utf8_error_text(output.stdout@)
            } else {
                r matches Ok(p) && p.dir@ == hook_dir_in(text::trimmed(decode_utf8(output.stdout@)))
                    && p.file@ == hook_file_in(text::trimmed(decode_utf8(output.stdout@)))
            },
        },
{
    match outcome {
        Err(e) => Err(e),
        Ok(output) => {
            if !output.success {
                return Err("Not a git repository".to_owned());
            }
            match decode_text(output.stdout) {
                Ok(answer) => {
                    let git_dir: String = trim(answer.as_str());
                    let dir: String = join_text_path(git_dir.as_str(), "hooks");
                    let file: String = join_text_path(dir.as_str(), "prepare-commit-msg");
                    Ok(HookPaths { dir, file })
                },
                Err(e) => Err(e),
            }
        },
    }
}

// ---------------------------------------------------------------------------
// Installing and removing
// ---------------------------------------------------------------------------

/// What stands in the place of the hook.
#[derive(Debug)]
pub enum HookFile {
    /// There is no hook.
    Missing,
    /// There is one that could not be read, for this reason.
    Unreadable(String),
    /// There is this hook.
    Text(String),
}

/// What is to be done to install the hook.
#[derive(Debug)]
pub enum HookInstall {
    /// Nothing; the user is told this.
    Refuse(String),
    /// The script is written to its place and made executable, and the user is told this.
    Write { script: String, notice: String },
}

/// What is to be done to remove the hook.
#[derive(Debug)]
pub enum HookUninstall {
    /// Nothing, as an error; the user is told this.
    Refuse(String),
    /// Nothing; the user is told this.
    Nothing { notice: String },
    /// The hook is removed, and the user is told this.
    Remove { notice: String },
}

/// The hook may be replaced and removed: it speaks of the program.
pub open spec fn is_own(existing: Seq<char>) -> bool {
    text::occurs(existing, "ghcc"@)
}

/// What is to be done to install the hook in its place.
pub open spec fn is_install(
    r: HookInstall,
    style: CommitStyle,
    path: Seq<char>,
    existing: HookFile,
) -> bool {
    let written = r matches HookInstall::Write { script: s, notice } && s@ == script(
        flag_for(style),
    ) && notice@ == "Hook installed at "@ + path + " ("@ + description_of(style) + ")"@;
    match existing {
        HookFile::Missing => written,
        HookFile::Unreadable(e) => r == HookInstall::Refuse(e),
        HookFile::Text(content) => if is_own(content@) {
            written
        } else {
            r matches HookInstall::Refuse(msg) && msg@ == "Hook already exists at "@ + path
                + ". Remove it first or manually add ghcc."@
        },
    }
}

/// What is to be done to remove the hook from its place.
pub open spec fn is_uninstall(r: HookUninstall, path: Seq<char>, existing: HookFile) -> bool {
    match existing {
        HookFile::Missing => r matches HookUninstall::Nothing { notice } && notice@
            == "No hook found at "@ + path,
        HookFile::Unreadable(e) => r == HookUninstall::Refuse(e),
        HookFile::Text(content) => if is_own(content@) {
            r matches HookUninstall::Remove { notice } && notice@ == "Hook removed from "@ + path
        } else {
            r matches HookUninstall::Refuse(msg) && msg@ == "Hook at "@ + path
                + " was not installed by ghcc. Remove it manually."@
        },
    }
}

/// The script and the notice for a hook in this style.
fn write_hook(style: CommitStyle, path: &str) -> (r: HookInstall)
    ensures
        is_install(r, style, path@, HookFile::Missing),
{
    let mut notice: String = concat("Hook installed at ", path);
    notice.append(" (");
    notice.append(style_description(style));
    notice.append(")");
    HookInstall::Write { script: hook_script(style_flag(style)), notice }
}

/// What is to be done to install the hook. A hook that is not the program's own stays.
pub fn cmd_hook_install(style: CommitStyle, path: &str, existing: HookFile) -> (r: HookInstall)
    ensures
        is_install(r, style, path@, existing),
{
    match existing {
        HookFile::Missing => write_hook(style, path),
        HookFile::Unreadable(e) => HookInstall::Refuse(e),
        HookFile::Text(content) => {
            if contains(content.as_str(), "ghcc") {
                write_hook(style, path)
            } else {
                let mut msg: String = concat("Hook already exists at ", path);
                msg.append(". Remove it first or manually add ghcc.");
                HookInstall::Refuse(msg)
            }
        },
    }
}

/// What is to be done to remove the hook. A hook that is not the program's own stays.
pub fn cmd_hook_uninstall(path: &str, existing: HookFile) -> (r: HookUninstall)
    ensures
        is_uninstall(r, path@, existing),
{
    match existing {
        HookFile::Missing => HookUninstall::Nothing { notice: concat("No hook found at ", path) },
        HookFile::Unreadable(e) => HookUninstall::Refuse(e),
        HookFile::Text(content) => {
            if contains(content.as_str(), "ghcc") {
                HookUninstall::Remove { notice: concat("Hook removed from ", path) }
            } else {
                let mut msg: String = concat("Hook at ", path);
                msg.append(" was not installed by ghcc. Remove it manually.");
                HookUninstall::Refuse(msg)
            }
        },
    }
}

// ---------------------------------------------------------------------------
// Laws
// ---------------------------------------------------------------------------

/// A hook that the program installed is its own, whatever the style.
pub proof fn law_an_installed_hook_is_own(style_flag: Seq<char>)
    ensures
        is_own(script(style_flag)),
{
    let s = script(style_flag);
    reveal_strlit("#!/bin/sh\n[ -z \"$2\" ] && exec ghcc --hook \"$1\" ");
    reveal_strlit("ghcc");
    assert(s.subrange(30, 34) =~= "ghcc"@);
    assert(text::matches_at(s, "ghcc"@, 30));
}

/// What was installed can be installed again in another style, and can be removed.
pub proof fn law_an_installed_hook_can_be_replaced_and_removed(
    installed: HookInstall,
    style: CommitStyle,
    path: Seq<char>,
    existing: HookFile,
    content: String,
    again: HookInstall,
    other_style: CommitStyle,
    removal: HookUninstall,
)
    requires
        is_install(installed, style, path, existing),
        installed matches HookInstall::Write { script: s, .. } ==> content@ == s@,
        installed is Write,
        is_install(again, other_style, path, HookFile::Text(content)),
        is_uninstall(removal, path, HookFile::Text(content)),
    ensures
        again is Write,
        removal is Remove,
{
    law_an_installed_hook_is_own(flag_for(style));
}

/// A hook that is not the program's own is neither replaced nor removed.
pub proof fn law_a_foreign_hook_stays(
    content: String,
    path: Seq<char>,
    style: CommitStyle,
    install: HookInstall,
    removal: HookUninstall,
)
    requires
        !is_own(content@),
        is_install(install, style, path, HookFile::Text(content)),
        is_uninstall(removal, path, HookFile::Text(content)),
    ensures
        install is Refuse,
        removal is Refuse,
{
}

/// The arguments that the shell makes of the line of the script, for the file of the message.
pub open spec fn hook_arguments(file: Seq<char>, style: CommitStyle) -> Seq<Seq<char>> {
    if style == CommitStyle::SingleLine {
        seq!["ghcc"@, "--hook"@, file]
    } else {
        seq!["ghcc"@, "--hook"@, file, flag_for(style)]
    }
}

/// The hook asks for the file of the message to be filled, in the style with which it was
/// installed, unless the name of the file is itself a flag for a style.
pub proof fn law_the_hook_asks_for_its_style(file: Seq<char>, style: CommitStyle)
    requires
        file != "-d"@,
        file != "--detailed"@,
        file != "-a"@,
        file != "--auto"@,
    ensures
        cli::style_in(hook_arguments(file, style)) == style,
        cli::command_in(hook_arguments(file, style)) == cli::CommandModel::Hook(file),
{
    let args = hook_arguments(file, style);
    reveal_strlit("ghcc");
    reveal_strlit("--hook");
    reveal_strlit("-d");
    reveal_strlit("--detailed");
    reveal_strlit("-a");
    reveal_strlit("--auto");
    assert("ghcc"@.len() == 4 && "--hook"@.len() == 6 && "-d"@.len() == 2 && "-a"@.len() == 2);
    assert("--detailed"@.len() == 10 && "--auto"@.len() == 6);
    assert("-d"@[1] == 'd' && "-a"@[1] == 'a' && "--hook"@[2] == 'h' && "--auto"@[2] == 'a');
    if style != CommitStyle::SingleLine {
        assert(args[3] == flag_for(style));
    }
    let more: Seq<Seq<char>> = args.skip(3);
    assert forall|i: int| 0 <= i < 1 implies seq!["ghcc"@][i] != "--hook"@ by {}
    cli::law_a_call_by_git_comes_first(seq!["ghcc"@], file, more);
    assert(args =~= seq!["ghcc"@] + seq!["--hook"@, file] + more);
}

/// Whatever stands in the place of the hook: where `ghcc` occurs nowhere in it, it is neither
/// replaced nor removed, and where `ghcc` does occur, be it put there by hand, it is.
pub proof fn law_the_name_of_the_program_decides(
    content: String,
    path: Seq<char>,
    style: CommitStyle,
    install: HookInstall,
    removal: HookUninstall,
)
    requires
        is_install(install, style, path, HookFile::Text(content)),
        is_uninstall(removal, path, HookFile::Text(content)),
    ensures
        (exists|a: Seq<char>, b: Seq<char>| content@ == #[trigger] (a + "ghcc"@ + b)) ==> install
            is Write && removal is Remove,
        !(exists|a: Seq<char>, b: Seq<char>| content@ == #[trigger] (a + "ghcc"@ + b)) ==> install
            is Refuse && removal is Refuse,
        install matches HookInstall::Refuse(msg) ==> msg@ == "Hook already exists at "@ + path
            + ". Remove it first or manually add ghcc."@,
        removal matches HookUninstall::Refuse(msg) ==> msg@ == "Hook at "@ + path
            + " was not installed by ghcc. Remove it manually."@,
{
    text::law_to_occur_is_to_be_a_part(content@, "ghcc"@);
}

/// Where there is no hook, one is written, and there is nothing to remove. Where there is one
/// that cannot be read, nothing is done, and the reason is given.
pub proof fn law_an_empty_place_is_filled_and_an_unreadable_one_is_left(
    reason: String,
    path: Seq<char>,
    style: CommitStyle,
    install: HookInstall,
    removal: HookUninstall,
    other_install: HookInstall,
    other_removal: HookUninstall,
)
    requires
        is_install(install, style, path, HookFile::Missing),
        is_uninstall(removal, path, HookFile::Missing),
        is_install(other_install, style, path, HookFile::Unreadable(reason)),
        is_uninstall(other_removal, path, HookFile::Unreadable(reason)),
    ensures
        install is Write,
        removal matches HookUninstall::Nothing { notice } && notice@ == "No hook found at "@ + path,
        other_install == HookInstall::Refuse(reason),
        other_removal == HookUninstall::Refuse(reason),
{
}

/// A hook that is written is a shell script that ends without doing anything where git hands
/// it a second argument, and otherwise becomes the program, with the file of the message and
/// the flag of the style. The user is told its place and the style.
pub proof fn law_a_written_hook_calls_the_program(
    install: HookInstall,
    style: CommitStyle,
    path: Seq<char>,
    existing: HookFile,
)
    requires
        is_install(install, style, path, existing),
        install is Write,
    ensures
        HOOK_MODE == 0o755,
        install matches HookInstall::Write { script: s, notice } && s@
            == "#!/bin/sh\n[ -z \"$2\" ] && exec ghcc --hook \"$1\" "@ + (match style {
            CommitStyle::SingleLine => ""@,
            CommitStyle::Detailed => "-d"@,
            CommitStyle::Auto => "-a"@,
        }) + "\nexit 0\n"@ && notice@ == "Hook installed at "@ + path + " ("@ + (match style {
            CommitStyle::SingleLine => "single-line"@,
            CommitStyle::Detailed => "detailed (-d)"@,
            CommitStyle::Auto => "auto (-a)"@,
        }) + ")"@,
{
}

/// The hook is `hooks/prepare-commit-msg` in the directory where git keeps its files.
pub proof fn law_the_place_of_the_hook(git_dir: Seq<char>)
    requires
        git_dir.len() > 0,
        git_dir.last() != '/',
    ensures
        hook_dir_in(git_dir) == git_dir + "/hooks"@,
        hook_file_in(git_dir) == git_dir + "/hooks/prepare-commit-msg"@,
{
    reveal_strlit("hooks");
    reveal_strlit("/hooks");
    reveal_strlit("prepare-commit-msg");
    reveal_strlit("/hooks/prepare-commit-msg");
    assert(hook_dir_in(git_dir) =~= git_dir + "/hooks"@);
    assert(hook_dir_in(git_dir).last() == 's');
    assert("/hooks"@.push('/') + "prepare-commit-msg"@ =~= "/hooks/prepare-commit-msg"@);
    assert(hook_file_in(git_dir) =~= git_dir + ("/hooks"@.push('/') + "prepare-commit-msg"@));
}

} // verus!
