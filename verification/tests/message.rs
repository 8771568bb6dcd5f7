use ghcc::copilot::{
    build_prompt, get_max_diff_bytes, lowercase_scope, strip_markdown_code_block, CommitStyle,
};
use ghcc::message::replace_scope;
use ghcc::prompt::shorten;

#[test]
fn test_get_max_diff_bytes_uses_default_when_none() {
    let bytes = get_max_diff_bytes(None);
    // Default: 128_000 tokens - 4_000 reserved = 124_000 tokens * 4 bytes = 496_000 bytes
    assert_eq!(bytes, 496_000);
}

#[test]
fn test_get_max_diff_bytes_respects_custom_limit() {
    let bytes = get_max_diff_bytes(Some(10_000));
    // 10_000 tokens - 4_000 reserved = 6_000 tokens * 4 bytes = 24_000 bytes
    assert_eq!(bytes, 24_000);
}

#[test]
fn test_get_max_diff_bytes_handles_small_limit() {
    // If limit is smaller than reserved, should saturate to 0
    let bytes = get_max_diff_bytes(Some(1_000));
    // 1_000 - 4_000 saturates to 0
    assert_eq!(bytes, 0);
}

#[test]
fn test_prompt_single_line_format() {
    let diff = "diff --git a/file.rs";
    let diff_stat = "file.rs | 10 ++++++++++";
    let prompt = build_prompt(diff, diff_stat, CommitStyle::SingleLine, false);

    assert!(prompt.contains("single-line"));
    assert!(prompt.contains("type(scope):"));
    assert!(prompt.contains(diff));
    assert!(prompt.contains(diff_stat));
}

#[test]
fn test_prompt_detailed_format() {
    let diff = "diff --git a/file.rs";
    let diff_stat = "file.rs | 10 ++++++++++";
    let prompt = build_prompt(diff, diff_stat, CommitStyle::Detailed, false);

    assert!(prompt.contains("Brief paragraph"));
    assert!(prompt.contains("Blank line"));
    assert!(prompt.contains("what changed and why"));
    assert!(prompt.contains(diff));
    assert!(prompt.contains(diff_stat));
}

#[test]
fn test_prompt_auto_format() {
    let diff = "diff --git a/file.rs";
    let diff_stat = "file.rs | 10 ++++++++++";
    let prompt = build_prompt(diff, diff_stat, CommitStyle::Auto, false);

    assert!(prompt.contains("too complex for the subject alone"));
    assert!(prompt.contains("Breaking change"));
    assert!(prompt.contains("ONLY the subject line"));
    assert!(prompt.contains(diff));
    assert!(prompt.contains(diff_stat));
}

#[test]
fn test_prompt_contains_core_rules() {
    let diff = "test";
    let diff_stat = "file.rs | 1 +";

    for style in [
        CommitStyle::SingleLine,
        CommitStyle::Detailed,
        CommitStyle::Auto,
    ] {
        let prompt = build_prompt(diff, diff_stat, style, false);
        assert!(prompt.contains("type(scope):"));
        assert!(prompt.contains("Breaking change"));
        assert!(prompt.contains("commit message"));
    }
}

#[test]
fn test_prompt_truncation_notice() {
    let diff = "diff --git a/file.rs";
    let diff_stat = "file.rs | 10 ++++++++++";

    // Without truncation
    let prompt = build_prompt(diff, diff_stat, CommitStyle::SingleLine, false);
    assert!(!prompt.contains("truncated"));

    // With truncation
    let prompt = build_prompt(diff, diff_stat, CommitStyle::SingleLine, true);
    assert!(prompt.contains("truncated"));
    assert!(prompt.contains("Focus on the visible changes"));
}

#[test]
fn test_strip_markdown_code_block_basic() {
    let input = "```\nfeat: add feature\n```";
    assert_eq!(strip_markdown_code_block(input), "feat: add feature");
}

#[test]
fn test_strip_markdown_code_block_with_language() {
    let input = "```text\nfeat: add feature\n```";
    assert_eq!(strip_markdown_code_block(input), "feat: add feature");
}

#[test]
fn test_strip_markdown_code_block_multiline() {
    let input = "```\nfeat: add feature\n\n- Added X\n- Fixed Y\n```";
    assert_eq!(
        strip_markdown_code_block(input),
        "feat: add feature\n\n- Added X\n- Fixed Y"
    );
}

#[test]
fn test_strip_markdown_code_block_no_block() {
    let input = "feat: add feature";
    assert_eq!(strip_markdown_code_block(input), "feat: add feature");
}

#[test]
fn test_strip_markdown_code_block_partial() {
    // Only opening or only closing - should not strip
    let input = "```feat: add feature";
    assert_eq!(strip_markdown_code_block(input), "```feat: add feature");
}

#[test]
fn test_lowercase_scope_basic() {
    let input = "docs(README): refine feature descriptions";
    assert_eq!(
        lowercase_scope(input),
        "docs(readme): refine feature descriptions"
    );
}

#[test]
fn test_lowercase_scope_breaking_change() {
    let input = "feat(API)!: drop legacy endpoint";
    assert_eq!(lowercase_scope(input), "feat(api)!: drop legacy endpoint");
}

#[test]
fn test_lowercase_scope_already_lowercase() {
    let input = "fix(auth): handle token refresh";
    assert_eq!(lowercase_scope(input), input);
}

#[test]
fn test_lowercase_scope_no_scope() {
    let input = "feat: add feature";
    assert_eq!(lowercase_scope(input), input);
}

#[test]
fn test_lowercase_scope_multiline() {
    let input = "docs(README): update usage\n\n- Added example";
    let expected = "docs(readme): update usage\n\n- Added example";
    assert_eq!(lowercase_scope(input), expected);
}

#[test]
fn test_lowercase_scope_ignores_non_first_line() {
    let input = "feat: add feature\n\n- follow-up(auth): text";
    assert_eq!(lowercase_scope(input), input);
}

#[test]
fn a_scope_beyond_ascii_is_lowered_too() {
    assert_eq!(lowercase_scope("fix(ÄÖ-İ): x"), "fix(äö-i\u{307}): x");
    assert_eq!(lowercase_scope("fix(ΟΔΟΣ): x"), "fix(οδος): x");
}

#[test]
fn only_the_first_parentheses_of_the_first_line_count() {
    assert_eq!(lowercase_scope("feat(A)(B): C"), "feat(a)(B): C");
    assert_eq!(lowercase_scope("feat)A(B"), "feat)A(B");
    assert_eq!(lowercase_scope("feat)A(B)"), "feat)A(b)");
    assert_eq!(lowercase_scope("feat(A\nB): C"), "feat(A\nB): C");
    assert_eq!(lowercase_scope("feat(A(B)): C"), "feat(a(b)): C");
}

#[test]
fn lowering_twice_is_lowering_once() {
    for message in ["docs(README): X (Y)", "fix(ÄÖ-İ): x", "fix(ΟΔΟΣ): x", "no scope", "a(", ""] {
        let once = lowercase_scope(message);
        assert_eq!(lowercase_scope(&once), once);
    }
}

#[test]
fn stripping_undoes_wrapping() {
    for message in ["feat: x", "feat: x\n\n- y", "`a`", "```", "ä\n```\nb", ""] {
        for lang in ["", "text", "commit message", "`"] {
            for (before, after) in [("", ""), (" \n", "\t\r\n"), ("\u{a0}", "\u{3000}")] {
                let wrapped = format!("{}```{}\n{}\n```{}", before, lang, message, after);
                assert_eq!(strip_markdown_code_block(&wrapped), message);
            }
        }
    }
}

#[test]
fn a_new_scope_is_read_back() {
    assert_eq!(replace_scope("fix(auth): x", "api"), "fix(api): x");
    assert_eq!(replace_scope("fix: x", "api"), "fix: x");
    assert_eq!(replace_scope("fix(auth): x", "auth"), "fix(auth): x");
}

#[test]
fn what_is_left_of_an_answer_is_trimmed() {
    assert_eq!(strip_markdown_code_block("  \n feat: x \n "), "feat: x");
    assert_eq!(strip_markdown_code_block("\n```\n\n feat: x \n\n```\n"), "feat: x");
}

#[test]
fn fences_on_one_line_are_taken_off_too() {
    assert_eq!(strip_markdown_code_block("```feat: x```"), "feat: x");
    assert_eq!(strip_markdown_code_block("```"), "```");
    assert_eq!(strip_markdown_code_block("``````"), "``````");
    assert_eq!(strip_markdown_code_block("`````"), "`````");
    assert_eq!(strip_markdown_code_block("```\n```"), "```\n```");
    assert_eq!(strip_markdown_code_block("```\n\n```"), "");
}

#[test]
fn as_much_of_a_diff_is_kept_as_fits() {
    assert_eq!(shorten("aä€b", 100), "aä€b");
    assert_eq!(shorten("aä€b", 7), "aä€b");
    assert_eq!(shorten("aä€b", 6), "aä€");
    assert_eq!(shorten("aä€b", 5), "aä");
    assert_eq!(shorten("aä€b", 3), "aä");
    assert_eq!(shorten("aä€b", 2), "a");
    assert_eq!(shorten("ä", 1), "");
    assert_eq!(shorten("𝄞", 3), "");
}

#[test]
fn the_prompt_is_laid_out_in_sections() {
    let prompt = build_prompt("D", "S", CommitStyle::SingleLine, false);
    assert!(prompt.starts_with("You are a senior developer writing a commit message."));
    assert!(prompt.ends_with(
        "Just the commit message, nothing else.\n\nOutput ONLY a single-line subject.\n\nFiles changed:\nS\n\nDiff:\nD"
    ));
    let prompt = build_prompt("D", "S", CommitStyle::SingleLine, true);
    assert!(prompt.ends_with(
        "Files changed:\nS\n\nNote: This diff was truncated due to size. Focus on the visible changes.\n\nDiff:\nD"
    ));
}

#[test]
fn a_message_has_one_line_unless_asked_otherwise() {
    assert_eq!(CommitStyle::default(), CommitStyle::SingleLine);
}
