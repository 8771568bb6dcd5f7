//! The prompt for the model: how much of a diff fits into it, and what it says.

use vstd::prelude::*;
use vstd::utf8::{
    encode_scalar, encode_utf8, encode_utf8_decode_utf8, encode_utf8_first_scalar,
    encode_utf8_valid_utf8, is_char_boundary, is_char_boundary_start_end_of_seq,
    length_of_first_scalar, pop_first_scalar, valid_utf8,
};

use crate::text;

verus! {

/// The limit of the prompt where the model does not give one, in tokens.
pub const DEFAULT_MAX_PROMPT_TOKENS: u64 = 128_000;

/// A rough estimate of how many bytes of code make a token.
pub const BYTES_PER_TOKEN: usize = 4;

/// Tokens that are set aside for what surrounds the diff, and for the answer.
pub const RESERVED_TOKENS: u64 = 4_000;

/// How much a commit message should say.
#[derive(Debug, Clone, Copy, PartialEq, Eq, Structural)]
pub enum CommitStyle {
    /// Only a subject line.
    SingleLine,
    /// A subject line and a paragraph.
    Detailed,
    /// Whatever the change asks for.
    Auto,
}

impl Default for CommitStyle {
    fn default() -> (r: Self)
        ensures
            r == CommitStyle::SingleLine,
    {
        CommitStyle::SingleLine
    }
}

// ---------------------------------------------------------------------------
// The size of the diff
// ---------------------------------------------------------------------------

/// How many bytes of a diff fit into a prompt of at most so many tokens.
pub open spec fn max_diff_bytes(max_prompt_tokens: Option<u64>) -> nat {
    let tokens = match max_prompt_tokens {
        Some(t) => t,
        None => DEFAULT_MAX_PROMPT_TOKENS,
    };
    if tokens <= RESERVED_TOKENS {
        0
    } else {
        ((tokens - RESERVED_TOKENS) * BYTES_PER_TOKEN) as nat
    }
}

/// How many bytes of a diff fit into a prompt, given the limit of the model in tokens.
pub fn get_max_diff_bytes(max_prompt_tokens: Option<u64>) -> (r: usize)
    requires
        max_diff_bytes(max_prompt_tokens) <= usize::MAX,
    ensures
        r == max_diff_bytes(max_prompt_tokens),
{
    let max_tokens: u64 = max_prompt_tokens.unwrap_or(DEFAULT_MAX_PROMPT_TOKENS);
    let available_tokens: u64 = max_tokens.saturating_sub(RESERVED_TOKENS);
    (available_tokens as usize) * BYTES_PER_TOKEN
}

/// How many characters of `s` fit into `max` bytes.
pub open spec fn fitting(s: Seq<char>, max: int) -> nat
    decreases s.len(),
{
    if s.len() == 0 || encode_scalar(s[0] as u32).len() > max {
        0
    } else {
        1 + fitting(s.drop_first(), max - encode_scalar(s[0] as u32).len())
    }
}

/// The longest beginning of `s`, in whole characters, that fits into `max` bytes.
pub open spec fn shortened(s: Seq<char>, max: int) -> Seq<char> {
    s.take(fitting(s, max) as int)
}

/// The encoding of a text is that of its first character followed by that of the rest.
proof fn lemma_take_encoding(s: Seq<char>, j: int)
    requires
        0 < j <= s.len(),
    ensures
        encode_utf8(s.take(j)) == encode_scalar(s[0] as u32) + encode_utf8(
            s.drop_first().take(j - 1),
        ),
{
    assert(s.take(j).drop_first() =~= s.drop_first().take(j - 1));
}

/// Every character takes one to four bytes.
proof fn lemma_scalar_len(c: char)
    ensures
        1 <= encode_scalar(c as u32).len() <= 4,
{
}

/// The bytes of a beginning of a text are a beginning of its bytes.
proof fn lemma_prefix_encoding(s: Seq<char>, j: int)
    requires
        0 <= j <= s.len(),
    ensures
        encode_utf8(s.take(j)).len() <= encode_utf8(s).len(),
        encode_utf8(s.take(j)) == encode_utf8(s).take(encode_utf8(s.take(j)).len() as int),
    decreases j,
{
    if j == 0 {
        assert(encode_utf8(s.take(0)) =~= Seq::<u8>::empty());
        assert(encode_utf8(s).take(0) =~= Seq::<u8>::empty());
    } else {
        lemma_take_encoding(s, j);
        lemma_prefix_encoding(s.drop_first(), j - 1);
        let head = encode_scalar(s[0] as u32);
        let rest = encode_utf8(s.drop_first());
        let part = encode_utf8(s.drop_first().take(j - 1));
        assert(encode_utf8(s) == head + rest);
        assert(head + part =~= (head + rest).take((head.len() + part.len()) as int));
    }
}

/// What `fitting` means: so many characters fit, and one more would not.
pub proof fn lemma_fitting(s: Seq<char>, max: int)
    requires
        max >= 0,
    ensures
        fitting(s, max) <= s.len(),
        encode_utf8(s.take(fitting(s, max) as int)).len() <= max,
        fitting(s, max) < s.len() ==> encode_utf8(s.take(fitting(s, max) as int + 1)).len()
            > max,
    decreases s.len(),
{
    if s.len() == 0 {
        assert(s.take(0) =~= s);
    } else if encode_scalar(s[0] as u32).len() > max {
        assert(encode_utf8(s.take(0)) =~= Seq::<u8>::empty());
        lemma_take_encoding(s, 1);
    } else {
        let w = encode_scalar(s[0] as u32).len() as int;
        let k = fitting(s.drop_first(), max - w) as int;
        lemma_fitting(s.drop_first(), max - w);
        lemma_take_encoding(s, k + 1);
        if k + 1 < s.len() {
            lemma_take_encoding(s, k + 2);
        }
    }
}

/// More characters take more bytes.
proof fn lemma_encoding_grows(s: Seq<char>, i: int, j: int)
    requires
        0 <= i < j <= s.len(),
    ensures
        encode_utf8(s.take(i)).len() < encode_utf8(s.take(j)).len(),
    decreases i,
{
    lemma_scalar_len(s[0]);
    lemma_take_encoding(s, j);
    if i == 0 {
        assert(encode_utf8(s.take(0)) =~= Seq::<u8>::empty());
    } else {
        lemma_take_encoding(s, i);
        lemma_encoding_grows(s.drop_first(), i - 1, j - 1);
    }
}

/// The only number of characters that fits while one more does not is `fitting`.
proof fn lemma_fitting_is(s: Seq<char>, max: int, k: int)
    requires
        max >= 0,
        0 <= k <= s.len(),
        encode_utf8(s.take(k)).len() <= max,
        k < s.len() ==> encode_utf8(s.take(k + 1)).len() > max,
    ensures
        fitting(s, max) == k,
{
    lemma_fitting(s, max);
    let f = fitting(s, max) as int;
    if f < k {
        if f + 1 < k {
            lemma_encoding_grows(s, f + 1, k);
        }
    } else if k < f {
        if k + 1 < f {
            lemma_encoding_grows(s, k + 1, f);
        }
    }
}

/// Dropping the first character of a text drops its bytes.
proof fn lemma_pop_first(s: Seq<char>)
    requires
        s.len() > 0,
    ensures
        valid_utf8(encode_utf8(s)),
        length_of_first_scalar(encode_utf8(s)) == encode_scalar(s[0] as u32).len(),
        pop_first_scalar(encode_utf8(s)) == encode_utf8(s.drop_first()),
{
    encode_utf8_valid_utf8(s);
    encode_utf8_first_scalar(s);
    assert(pop_first_scalar(encode_utf8(s)) =~= encode_utf8(s.drop_first()));
}

/// A boundary between characters comes after a whole number of them.
proof fn lemma_boundary_is_prefix(s: Seq<char>, b: int) -> (j: int)
    requires
        is_char_boundary(encode_utf8(s), b),
    ensures
        0 <= j <= s.len(),
        encode_utf8(s.take(j)).len() == b,
    decreases s.len(),
{
    encode_utf8_valid_utf8(s);
    if b == 0 {
        assert(encode_utf8(s.take(0)) =~= Seq::<u8>::empty());
        0
    } else {
        assert(s.len() > 0);
        lemma_pop_first(s);
        let i = lemma_boundary_is_prefix(
            s.drop_first(),
            b - encode_scalar(s[0] as u32).len(),
        );
        lemma_take_encoding(s, i + 1);
        i + 1
    }
}

/// After a whole number of characters comes a boundary between characters.
proof fn lemma_prefix_is_boundary(s: Seq<char>, j: int)
    requires
        0 <= j <= s.len(),
    ensures
        is_char_boundary(encode_utf8(s), encode_utf8(s.take(j)).len() as int),
    decreases j,
{
    encode_utf8_valid_utf8(s);
    if j == 0 {
        assert(encode_utf8(s.take(0)) =~= Seq::<u8>::empty());
    } else {
        lemma_pop_first(s);
        lemma_take_encoding(s, j);
        lemma_prefix_encoding(s, j);
        lemma_prefix_is_boundary(s.drop_first(), j - 1);
    }
}

/// The longest beginning of a diff, in whole characters, that fits into `max` bytes.
pub fn shorten(diff: &str, max: usize) -> (r: &str)
    ensures
        r@ == shortened(diff@, max as int),
{
    let bytes = diff.as_bytes();
    let len: usize = bytes.len();
    let ghost s = diff@;
    proof {
        encode_utf8_valid_utf8(s);
        is_char_boundary_start_end_of_seq(encode_utf8(s));
    }
    if len <= max {
        proof {
            assert(s.take(s.len() as int) =~= s);
            lemma_fitting_is(s, max as int, s.len() as int);
        }
        return diff;
    }
    let mut end: usize = max;
    while end > 0 && !diff.is_char_boundary(end)
        invariant
            end <= max < len == encode_utf8(s).len(),
            s == diff@,
            forall|b: int| end < b <= max ==> !is_char_boundary(encode_utf8(s), b),
        decreases end,
    {
        end = end - 1;
    }
    let (head, _tail) = diff.split_at(end);
    proof {
        let j = lemma_boundary_is_prefix(s, end as int);
        if j < s.len() {
            lemma_prefix_is_boundary(s, j + 1);
            lemma_encoding_grows(s, j, j + 1);
        }
        lemma_fitting_is(s, max as int, j);
        lemma_prefix_encoding(s, j);
        assert(encode_utf8(head@) =~= encode_utf8(s.take(j)));
        encode_utf8_decode_utf8(head@);
        encode_utf8_decode_utf8(s.take(j));
    }
    head
}

// ---------------------------------------------------------------------------
// The text of the prompt
// ---------------------------------------------------------------------------

/// What the model is told for every style.
pub const BASE_PROMPT: &'static str = "You are a senior developer writing a commit message. Be precise and concise.

Conventional commit format: type(scope): subject

Pick the right type:
- feat = new capability for users
- fix = bug was broken, now fixed
- refactor = code change, same behavior
- perf = optimization
- style = formatting
- ci = CI/CD pipelines
- chore = everything else (deps, config)
- docs/test/build = obvious

Scope = main component affected (omit if unclear)
Subject = what you did, imperative, max 50 chars
Breaking change = add ! before colon

Just the commit message, nothing else.";

/// What the model is told for a subject line alone.
pub const SINGLE_LINE_INSTRUCTION: &'static str = "Output ONLY a single-line subject.";

/// What the model is told for a subject line with a paragraph.
pub const DETAILED_INSTRUCTION: &'static str = "Include a short body:
- Subject line (under 72 chars). Don't make it more generic just because a body follows.
- Blank line
- Brief paragraph explaining what changed and why, if not obvious from the subject.";

/// What the model is told where it has the choice.
pub const AUTO_INSTRUCTION: &'static str = "Include a body (blank line + brief paragraph) ONLY if the change is too complex for the subject alone or needs explanation.
Otherwise output ONLY the subject line.
If a body is included, keep the subject concrete and specific.";

/// What the model is told of a diff that was cut off.
pub const TRUNCATION_NOTICE: &'static str = "\nNote: This diff was truncated due to size. Focus on the visible changes.\n";

/// What the model is told for a style.
pub open spec fn instruction(style: CommitStyle) -> Seq<char> {
    match style {
        CommitStyle::SingleLine => SINGLE_LINE_INSTRUCTION@,
        CommitStyle::Detailed => DETAILED_INSTRUCTION@,
        CommitStyle::Auto => AUTO_INSTRUCTION@,
    }
}

/// The prompt for a diff and its summary.
pub open spec fn prompt_text(
    diff: Seq<char>,
    diff_stat: Seq<char>,
    style: CommitStyle,
    is_truncated: bool,
) -> Seq<char> {
    BASE_PROMPT@ + "\n\n"@ + instruction(style) + "\n\nFiles changed:\n"@ + diff_stat + "\n"@ + (
    if is_truncated {
        TRUNCATION_NOTICE@
    } else {
        ""@
    }) + "\nDiff:\n"@ + diff
}

/// Builds the prompt for a commit message.
pub fn build_prompt(
    diff: &str,
    diff_stat: &str,
    style: CommitStyle,
    is_truncated: bool,
) -> (r: String)
    ensures
        r@ == prompt_text(diff@, diff_stat@, style, is_truncated),
{
    let mut r: String = BASE_PROMPT.to_owned();
    r.append("\n\n");
    r.append(
        match style {
            CommitStyle::SingleLine => SINGLE_LINE_INSTRUCTION,
            CommitStyle::Detailed => DETAILED_INSTRUCTION,
            CommitStyle::Auto => AUTO_INSTRUCTION,
        },
    );
    r.append("\n\nFiles changed:\n");
    r.append(diff_stat);
    r.append("\n");
    r.append(if is_truncated {
        TRUNCATION_NOTICE
    } else {
        ""
    });
    r.append("\nDiff:\n");
    r.append(diff);
    r
}

// ---------------------------------------------------------------------------
// Laws
// ---------------------------------------------------------------------------

/// What is kept of a diff is a beginning of it that fits, and no longer beginning does. A
/// diff that fits is kept whole.
pub proof fn law_as_much_of_the_diff_as_fits(s: Seq<char>, max: nat)
    ensures
        shortened(s, max as int).is_prefix_of(s),
        encode_utf8(shortened(s, max as int)).len() <= max,
        forall|longer: Seq<char>| #[trigger]
            longer.is_prefix_of(s) && longer.len() > shortened(s, max as int).len()
                ==> encode_utf8(longer).len() > max,
        encode_utf8(s).len() <= max ==> shortened(s, max as int) == s,
{
    lemma_fitting(s, max as int);
    let f = fitting(s, max as int) as int;
    let kept = shortened(s, max as int);
    assert(kept =~= s.subrange(0, f));
    assert forall|longer: Seq<char>| #[trigger]
        longer.is_prefix_of(s) && longer.len() > kept.len() implies encode_utf8(longer).len()
        > max by {
        assert(longer =~= s.take(longer.len() as int));
        if f + 1 < longer.len() {
            lemma_encoding_grows(s, f + 1, longer.len() as int);
        }
    }
    if encode_utf8(s).len() <= max {
        assert(s.take(s.len() as int) =~= s);
        lemma_fitting_is(s, max as int, s.len() as int);
    }
}

/// A part of a text that is put together occurs in it.
proof fn lemma_part_occurs(before: Seq<char>, part: Seq<char>, after: Seq<char>)
    ensures
        text::occurs(before + part + after, part),
{
    let all = before + part + after;
    assert(all.subrange(before.len() as int, (before.len() + part.len()) as int) =~= part);
    assert(text::matches_at(all, part, before.len() as int));
}

/// The prompt always holds the rules, the instruction for the style, the summary and the
/// diff, and the diff comes last.
pub proof fn law_the_prompt_holds_everything(
    diff: Seq<char>,
    diff_stat: Seq<char>,
    style: CommitStyle,
    is_truncated: bool,
)
    ensures
        BASE_PROMPT@.is_prefix_of(prompt_text(diff, diff_stat, style, is_truncated)),
        text::occurs(prompt_text(diff, diff_stat, style, is_truncated), instruction(style)),
        text::occurs(prompt_text(diff, diff_stat, style, is_truncated), diff_stat),
        is_truncated ==> text::occurs(
            prompt_text(diff, diff_stat, style, is_truncated),
            TRUNCATION_NOTICE@,
        ),
        diff.is_suffix_of(prompt_text(diff, diff_stat, style, is_truncated)),
{
    let all = prompt_text(diff, diff_stat, style, is_truncated);
    let notice = if is_truncated {
        TRUNCATION_NOTICE@
    } else {
        ""@
    };
    let p1 = BASE_PROMPT@ + "\n\n"@;
    let p2 = p1 + instruction(style) + "\n\nFiles changed:\n"@;
    let p3 = p2 + diff_stat + "\n"@;
    let p4 = p3 + notice + "\nDiff:\n"@;
    assert(all =~= p4 + diff);
    assert(all.subrange(0, BASE_PROMPT@.len() as int) =~= BASE_PROMPT@);
    let after_notice = "\nDiff:\n"@ + diff;
    assert(all =~= p3 + notice + after_notice);
    lemma_part_occurs(p3, notice, after_notice);
    let after_stat = "\n"@ + notice + after_notice;
    assert(all =~= p2 + diff_stat + after_stat);
    lemma_part_occurs(p2, diff_stat, after_stat);
    let after_style = "\n\nFiles changed:\n"@ + diff_stat + after_stat;
    assert(all =~= p1 + instruction(style) + after_style);
    lemma_part_occurs(p1, instruction(style), after_style);
    assert(all.subrange(all.len() - diff.len(), all.len() as int) =~= diff);
}

/// Of the tokens of a prompt four thousand are kept for other things, and every other one
/// holds four bytes of the diff. A model whose limit is not known has 128000.
pub proof fn law_four_bytes_for_every_token_to_spare(tokens: u64)
    ensures
        tokens <= 4_000 ==> max_diff_bytes(Some(tokens)) == 0,
        tokens > 4_000 ==> max_diff_bytes(Some(tokens)) == (tokens - 4_000) * 4,
        max_diff_bytes(None) == max_diff_bytes(Some(128_000)),
{
}

/// The prompt is the rules, what is asked for in the style, the summary, the note where the
/// diff was cut off, and the diff, each under its heading and exactly as it is.
pub proof fn law_the_prompt_is_laid_out(
    diff: Seq<char>,
    diff_stat: Seq<char>,
    style: CommitStyle,
)
    ensures
        prompt_text(diff, diff_stat, style, false) == BASE_PROMPT@ + "\n\n"@ + instruction(style)
            + "\n\nFiles changed:\n"@ + diff_stat + "\n"@ + "\nDiff:\n"@ + diff,
        prompt_text(diff, diff_stat, style, true) == BASE_PROMPT@ + "\n\n"@ + instruction(style)
            + "\n\nFiles changed:\n"@ + diff_stat + "\n"@ + TRUNCATION_NOTICE@ + "\nDiff:\n"@
            + diff,
{
    reveal_strlit("");
    let head = BASE_PROMPT@ + "\n\n"@ + instruction(style) + "\n\nFiles changed:\n"@ + diff_stat
        + "\n"@;
    assert(head + ""@ =~= head);
}

/// The three styles are asked for in three ways.
pub proof fn law_every_style_is_asked_for_in_its_way()
    ensures
        instruction(CommitStyle::SingleLine) == "Output ONLY a single-line subject."@,
        instruction(CommitStyle::Detailed) == DETAILED_INSTRUCTION@,
        instruction(CommitStyle::Auto) == AUTO_INSTRUCTION@,
{
}

/// The rules give the form of a conventional commit, every type that there is to pick from,
/// how a breaking change is marked, and that nothing but the message is wanted.
pub proof fn law_the_rules_name_every_type()
    ensures
        text::occurs(BASE_PROMPT@, "type(scope): subject"@),
        text::occurs(BASE_PROMPT@, "- feat = "@),
        text::occurs(BASE_PROMPT@, "- fix = "@),
        text::occurs(BASE_PROMPT@, "- refactor = "@),
        text::occurs(BASE_PROMPT@, "- perf = "@),
        text::occurs(BASE_PROMPT@, "- style = "@),
        text::occurs(BASE_PROMPT@, "- ci = "@),
        text::occurs(BASE_PROMPT@, "- chore = "@),
        text::occurs(BASE_PROMPT@, "- docs/test/build = "@),
        text::occurs(BASE_PROMPT@, "Breaking change = add ! before colon"@),
        text::occurs(BASE_PROMPT@, "Just the commit message, nothing else."@),
{
    let all = BASE_PROMPT@;
    reveal_strlit("You are a senior developer writing a commit message. Be precise and concise.\n\nConventional commit format: type(scope): subject\n\nPick the right type:\n- feat = new capability for users\n- fix = bug was broken, now fixed\n- refactor = code change, same behavior\n- perf = optimization\n- style = formatting\n- ci = CI/CD pipelines\n- chore = everything else (deps, config)\n- docs/test/build = obvious\n\nScope = main component affected (omit if unclear)\nSubject = what you did, imperative, max 50 chars\nBreaking change = add ! before colon\n\nJust the commit message, nothing else.");
    reveal_strlit("type(scope): subject");
    assert(all.subrange(106, 126) =~= "type(scope): subject"@);
    assert(text::matches_at(all, "type(scope): subject"@, 106));
    reveal_strlit("- feat = ");
    assert(all.subrange(149, 158) =~= "- feat = "@);
    assert(text::matches_at(all, "- feat = "@, 149));
    reveal_strlit("- fix = ");
    assert(all.subrange(183, 191) =~= "- fix = "@);
    assert(text::matches_at(all, "- fix = "@, 183));
    reveal_strlit("- refactor = ");
    assert(all.subrange(217, 230) =~= "- refactor = "@);
    assert(text::matches_at(all, "- refactor = "@, 217));
    reveal_strlit("- perf = ");
    assert(all.subrange(257, 266) =~= "- perf = "@);
    assert(text::matches_at(all, "- perf = "@, 257));
    reveal_strlit("- style = ");
    assert(all.subrange(279, 289) =~= "- style = "@);
    assert(text::matches_at(all, "- style = "@, 279));
    reveal_strlit("- ci = ");
    assert(all.subrange(300, 307) =~= "- ci = "@);
    assert(text::matches_at(all, "- ci = "@, 300));
    reveal_strlit("- chore = ");
    assert(all.subrange(323, 333) =~= "- chore = "@);
    assert(text::matches_at(all, "- chore = "@, 323));
    reveal_strlit("- docs/test/build = ");
    assert(all.subrange(364, 384) =~= "- docs/test/build = "@);
    assert(text::matches_at(all, "- docs/test/build = "@, 364));
    reveal_strlit("Breaking change = add ! before colon");
    assert(all.subrange(492, 528) =~= "Breaking change = add ! before colon"@);
    assert(text::matches_at(all, "Breaking change = add ! before colon"@, 492));
    reveal_strlit("Just the commit message, nothing else.");
    assert(all.subrange(530, 568) =~= "Just the commit message, nothing else."@);
    assert(text::matches_at(all, "Just the commit message, nothing else."@, 530));
}

} // verus!
