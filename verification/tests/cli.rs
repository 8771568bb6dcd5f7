use ghcc::cli::{answer, error_line, parse_arguments, print_usage, Command, Invocation};
use ghcc::prompt::CommitStyle;

fn parse(words: &[&str]) -> Invocation {
    let mut args = vec!["ghcc".to_string()];
    args.extend(words.iter().map(|s| s.to_string()));
    parse_arguments(&args)
}

#[test]
fn flags_choose_the_style() {
    assert_eq!(parse(&[]).style, CommitStyle::SingleLine);
    assert_eq!(parse(&["-d"]).style, CommitStyle::Detailed);
    assert_eq!(parse(&["--detailed"]).style, CommitStyle::Detailed);
    assert_eq!(parse(&["-a"]).style, CommitStyle::Auto);
    assert_eq!(parse(&["--auto"]).style, CommitStyle::Auto);
    assert_eq!(parse(&["-a", "-d"]).style, CommitStyle::Detailed);
    assert_eq!(parse(&["-x"]).style, CommitStyle::SingleLine);
}

#[test]
fn words_choose_the_command() {
    assert!(matches!(parse(&["login"]).command, Command::Login));
    assert!(matches!(parse(&["-d", "status"]).command, Command::Status));
    assert!(matches!(parse(&["models", "login"]).command, Command::Models));
    assert!(matches!(parse(&["help"]).command, Command::Help));
    assert!(matches!(parse(&["hook", "install"]).command, Command::HookInstall));
    assert!(matches!(parse(&["hook", "-d", "install"]).command, Command::HookInstall));
    assert!(matches!(parse(&["hook", "uninstall"]).command, Command::HookUninstall));
    assert!(matches!(parse(&["hook"]).command, Command::HookOther));
    assert!(matches!(parse(&["hook", "other"]).command, Command::HookOther));
    assert!(matches!(parse(&["-d", "hook", "install"]).command, Command::HookOther));
    assert!(matches!(parse(&["commit"]).command, Command::Unknown(word) if word == "commit"));
    assert!(matches!(parse(&[""]).command, Command::Unknown(word) if word.is_empty()));
    assert!(matches!(parse_arguments(&Vec::new()).command, Command::Generate));
}

#[test]
fn flags_choose_the_command_where_there_is_no_word() {
    assert!(matches!(parse(&[]).command, Command::Generate));
    assert!(matches!(parse(&["-d"]).command, Command::Generate));
    assert!(matches!(parse(&["-h"]).command, Command::Help));
    assert!(matches!(parse(&["--version", "--help"]).command, Command::Help));
    assert!(matches!(parse(&["-V"]).command, Command::Version));
    assert!(matches!(parse(&["--version"]).command, Command::Version));
    assert!(matches!(parse(&["status", "--help"]).command, Command::Status));
}

#[test]
fn a_call_by_git_comes_first() {
    let call = parse(&["login", "--hook", ".git/MSG", "--hook", "-a"]);
    assert!(matches!(call.command, Command::Hook(file) if file == ".git/MSG"));
    assert_eq!(call.style, CommitStyle::Auto);
    assert!(matches!(parse(&["--hook"]).command, Command::HookWithoutFile));
    assert!(matches!(parse(&["--hook", "--hook"]).command, Command::Hook(f) if f == "--hook"));
}

#[test]
fn usage_has_a_line_for_every_command() {
    let usage = print_usage();
    assert_eq!(usage.len(), 15);
    assert_eq!(usage[0], "ghcc - Generate conventional commit messages with GitHub Copilot");
    assert_eq!(usage[14], "  -V, --version       Show version");
}

#[test]
fn some_commands_are_answered_at_once() {
    let a = answer(&Command::Version, "1.2.3").unwrap();
    assert_eq!(a.lines, ["ghcc 1.2.3"]);
    assert!(!a.failed);
    let a = answer(&Command::Help, "1").unwrap();
    assert_eq!(a.lines, print_usage());
    assert!(!a.failed);
    let a = answer(&Command::Unknown("x".to_string()), "1").unwrap();
    assert_eq!(a.lines[0], "Unknown command: x");
    assert_eq!(a.lines[1..], print_usage()[..]);
    assert!(a.failed);
    let a = answer(&Command::HookWithoutFile, "1").unwrap();
    assert_eq!(a.lines, ["Usage: ghcc --hook <msg-file> [-d|-a]"]);
    assert!(a.failed);
    let a = answer(&Command::HookOther, "1").unwrap();
    assert_eq!(a.lines, ["Usage: ghcc hook <install|uninstall> [-d|-a]"]);
    assert!(a.failed);
    assert!(answer(&Command::Generate, "1").is_none());
    assert!(answer(&Command::Hook("f".to_string()), "1").is_none());
}

#[test]
fn errors_are_marked() {
    assert_eq!(error_line("no"), "Error: no");
}
