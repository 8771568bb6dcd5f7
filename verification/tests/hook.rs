use ghcc::cli::{parse_arguments, Command};
use ghcc::git::GitOutput;
use ghcc::hook::{
    cmd_hook_install, cmd_hook_uninstall, hook_paths, hook_script, style_description, style_flag,
    HookFile, HookInstall, HookUninstall,
};
use ghcc::prompt::CommitStyle;

const STYLES: [CommitStyle; 3] =
    [CommitStyle::SingleLine, CommitStyle::Detailed, CommitStyle::Auto];

#[test]
fn test_hook_script_single_line() {
    let script = hook_script("");

    assert!(script.starts_with("#!/bin/sh"));
    assert!(script.contains("ghcc --hook \"$1\""));
    assert!(script.contains("exit 0"));
    // Should not have extra flags
    assert!(!script.contains("-d"));
    assert!(!script.contains("-a"));
}

#[test]
fn test_hook_script_detailed() {
    let script = hook_script("-d");

    assert!(script.starts_with("#!/bin/sh"));
    assert!(script.contains("ghcc --hook \"$1\" -d"));
}

#[test]
fn test_hook_script_auto() {
    let script = hook_script("-a");

    assert!(script.starts_with("#!/bin/sh"));
    assert!(script.contains("ghcc --hook \"$1\" -a"));
}

#[test]
fn test_hook_script_checks_for_commit_type() {
    // The script should only run when $2 is empty (no commit type provided)
    // This means it runs for normal commits but not for merge, squash, etc.
    let script = hook_script("");

    assert!(script.contains("[ -z \"$2\" ]"));
}

#[test]
fn the_script_is_exact() {
    assert_eq!(
        hook_script("-d"),
        "#!/bin/sh\n[ -z \"$2\" ] && exec ghcc --hook \"$1\" -d\nexit 0\n"
    );
}

#[test]
fn styles_have_flags_and_descriptions() {
    assert_eq!(STYLES.map(style_flag), ["", "-d", "-a"]);
    assert_eq!(STYLES.map(style_description), ["single-line", "detailed (-d)", "auto (-a)"]);
}

#[test]
fn the_hook_asks_for_its_style() {
    for style in STYLES {
        let mut args = vec!["ghcc".to_string(), "--hook".to_string(), "msg".to_string()];
        if !style_flag(style).is_empty() {
            args.push(style_flag(style).to_string());
        }
        let call = parse_arguments(&args);
        assert_eq!(call.style, style);
        assert!(matches!(call.command, Command::Hook(file) if file == "msg"));
    }
}

#[test]
fn the_place_of_the_hook_is_asked_of_git() {
    let answer = |success: bool, stdout: &[u8]| {
        hook_paths(Ok(GitOutput {
            success,
            stdout: stdout.to_vec(),
            stderr: Vec::new(),
        }))
    };
    let p = answer(true, b".git\n").unwrap();
    assert_eq!(p.dir, ".git/hooks");
    assert_eq!(p.file, ".git/hooks/prepare-commit-msg");
    assert_eq!(answer(false, b"").unwrap_err(), "Not a git repository");
    assert_eq!(
        answer(true, b"a\xff").unwrap_err(),
        "invalid utf-8 sequence of 1 bytes from index 1"
    );
    assert_eq!(hook_paths(Err("no git".to_string())).unwrap_err(), "no git");
}

#[test]
fn a_hook_is_installed_where_there_is_none() {
    for style in STYLES {
        match cmd_hook_install(style, "p", HookFile::Missing) {
            HookInstall::Write { script, notice } => {
                assert_eq!(script, hook_script(style_flag(style)));
                assert_eq!(
                    notice,
                    format!("Hook installed at p ({})", style_description(style))
                );
            }
            HookInstall::Refuse(_) => panic!("refused"),
        }
    }
}

#[test]
fn an_installed_hook_can_be_replaced_and_removed() {
    for style in STYLES {
        let installed = || HookFile::Text(hook_script(style_flag(style)));
        assert!(matches!(
            cmd_hook_install(CommitStyle::Auto, "p", installed()),
            HookInstall::Write { .. }
        ));
        assert!(matches!(
            cmd_hook_uninstall("p", installed()),
            HookUninstall::Remove { notice } if notice == "Hook removed from p"
        ));
    }
}

#[test]
fn a_foreign_hook_stays() {
    let foreign = || HookFile::Text("#!/bin/sh\nexit 1\n".to_string());
    assert!(matches!(
        cmd_hook_install(CommitStyle::Auto, "p", foreign()),
        HookInstall::Refuse(msg)
            if msg == "Hook already exists at p. Remove it first or manually add ghcc."
    ));
    assert!(matches!(
        cmd_hook_uninstall("p", foreign()),
        HookUninstall::Refuse(msg)
            if msg == "Hook at p was not installed by ghcc. Remove it manually."
    ));
}

#[test]
fn a_hook_that_cannot_be_read_stays() {
    let unreadable = || HookFile::Unreadable("denied".to_string());
    assert!(matches!(
        cmd_hook_install(CommitStyle::Auto, "p", unreadable()),
        HookInstall::Refuse(msg) if msg == "denied"
    ));
    assert!(matches!(
        cmd_hook_uninstall("p", unreadable()),
        HookUninstall::Refuse(msg) if msg == "denied"
    ));
}

#[test]
fn there_may_be_nothing_to_remove() {
    assert!(matches!(
        cmd_hook_uninstall("p", HookFile::Missing),
        HookUninstall::Nothing { notice } if notice == "No hook found at p"
    ));
}
