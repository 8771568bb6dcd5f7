//! The commit message in the answer of the model: what is left of it when the wrapping of
//! the model is taken off and its scope is put into lower case.

use vstd::prelude::*;
use vstd::utf8::is_ascii_chars;

use crate::outside;
use crate::outside::to_lowercase;
use crate::text;
use crate::text::{chars_of, find_char, stands_at, string_of, trim_range};

verus! {

// ---------------------------------------------------------------------------
// Code fences
// ---------------------------------------------------------------------------

/// `t` begins and ends with the three backticks of a Markdown code block.
pub open spec fn is_fenced(t: Seq<char>) -> bool {
    "```"@.is_prefix_of(t) && "```"@.is_suffix_of(t)
}

/// Where the inside of a fenced text begins: after its first line, or after the backticks
/// where it has no second line.
pub open spec fn inside_start(t: Seq<char>) -> int {
    let k = text::position_or_len(t, '\n') as int;
    if k < t.len() {
        k + 1
    } else {
        3
    }
}

/// `text` trimmed, and without the Markdown code block that may be around it. Backticks
/// around nothing stay.
pub open spec fn without_fence(text: Seq<char>) -> Seq<char> {
    let t = text::trimmed(text);
    let start = inside_start(t);
    let end = t.len() - 3;
    if is_fenced(t) && start < end {
        text::trimmed(t.subrange(start, end))
    } else {
        t
    }
}

/// Strips the Markdown code block from an answer of the model, where there is one.
pub fn strip_markdown_code_block(text: &str) -> (r: String)
    ensures
        r@ == without_fence(text@),
{
    let all: Vec<char> = chars_of(text);
    let (a, b) = trim_range(&all, 0, all.len());
    assert(all@.subrange(0, all@.len() as int) =~= text@);
    let trimmed_text: String = string_of(&all, a, b);
    let t: Vec<char> = chars_of(trimmed_text.as_str());
    let n: usize = t.len();
    let fence: Vec<char> = chars_of("```");
    proof {
        reveal_strlit("```");
    }
    if n >= 3 && stands_at(&t, &fence, 0) && stands_at(&t, &fence, n - 3) {
        assert(t@.subrange(n - 3, n as int) =~= t@.skip(n - 3));
        let k: usize = find_char(&t, 0, n, '\n');
        assert(t@.subrange(0, n as int) =~= t@);
        let start: usize = if k < n {
            k + 1
        } else {
            3
        };
        let end: usize = n - 3;
        if start < end {
            let (c, d) = trim_range(&t, start, end);
            return string_of(&t, c, d);
        }
    } else {
        assert(!is_fenced(t@)) by {
            if is_fenced(t@) {
                assert(t@.subrange(0, 3) =~= fence@);
                assert(t@.subrange(n - 3, n as int) =~= fence@);
            }
        }
    }
    trimmed_text
}

// ---------------------------------------------------------------------------
// The scope
// ---------------------------------------------------------------------------

/// The first line of a message.
pub open spec fn first_line(m: Seq<char>) -> Seq<char> {
    m.take(text::position_or_len(m, '\n') as int)
}

/// Where the scope of a message stands: between the first parenthesis that its first line
/// opens and the next that it closes.
pub open spec fn scope_range(m: Seq<char>) -> Option<(int, int)> {
    let line = first_line(m);
    let open = text::position_or_len(line, '(') as int;
    if open >= line.len() {
        None
    } else {
        let rest = line.skip(open + 1);
        let close = text::position_or_len(rest, ')') as int;
        if close >= rest.len() {
            None
        } else {
            Some((open + 1, open + 1 + close))
        }
    }
}

/// The scope of a message.
pub open spec fn scope_of(m: Seq<char>) -> Option<Seq<char>> {
    match scope_range(m) {
        Some((a, b)) => Some(m.subrange(a, b)),
        None => None,
    }
}

/// The message with `scope` in the place of its scope, where it has one.
pub open spec fn with_scope(m: Seq<char>, scope: Seq<char>) -> Seq<char> {
    match scope_range(m) {
        Some((a, b)) => m.take(a) + scope + m.skip(b),
        None => m,
    }
}

/// The message with its scope in lower case.
pub open spec fn with_lowercase_scope(m: Seq<char>) -> Seq<char> {
    match scope_of(m) {
        Some(scope) => with_scope(m, outside::lowercase(scope)),
        None => m,
    }
}

/// An ASCII text in lower case.
pub open spec fn ascii_lowercase(s: Seq<char>) -> Seq<char> {
    s.map_values(|c: char| outside::ascii_lower(c))
}

/// What there is to know of where a scope stands.
proof fn lemma_scope_range(m: Seq<char>)
    ensures
        scope_range(m) matches Some((a, b)) ==> {
            &&& 1 <= a <= b < m.len()
            &&& m[a - 1] == '('
            &&& m[b] == ')'
            &&& forall|j: int| 0 <= j < a - 1 ==> m[j] != '('
            &&& forall|j: int| a <= j < b ==> m[j] != ')'
            &&& forall|j: int| 0 <= j <= b ==> m[j] != '\n'
        },
{
    let nl = text::position_or_len(m, '\n') as int;
    let line = first_line(m);
    text::lemma_position(m, '\n');
    text::lemma_position(line, '(');
    let open = text::position_or_len(line, '(') as int;
    if open < line.len() {
        let rest = line.skip(open + 1);
        text::lemma_position(rest, ')');
        let close = text::position_or_len(rest, ')') as int;
        if close < rest.len() {
            assert(rest[close] == m[open + 1 + close]);
            assert forall|j: int| open + 1 <= j < open + 1 + close implies m[j] != ')' by {
                assert(rest[j - open - 1] == m[j]);
            }
            assert forall|j: int| 0 <= j < open implies m[j] != '(' by {
                assert(line[j] == m[j]);
            }
        }
    }
}

/// Where the scope of a message stands.
fn find_scope(m: &Vec<char>) -> (r: Option<(usize, usize)>)
    ensures
        match r {
            Some((a, b)) => scope_range(m@) == Some((a as int, b as int)) && a <= b <= m@.len(),
            None => scope_range(m@) is None,
        },
{
    let n: usize = m.len();
    let nl: usize = find_char(m, 0, n, '\n');
    assert(m@.subrange(0, n as int) =~= m@);
    assert(m@.subrange(0, nl as int) =~= first_line(m@));
    let open: usize = find_char(m, 0, nl, '(');
    if open == nl {
        return None;
    }
    let close: usize = find_char(m, open + 1, nl, ')');
    assert(m@.subrange(open + 1, nl as int) =~= first_line(m@).skip(open + 1));
    if close == nl {
        return None;
    }
    Some((open + 1, close))
}

/// The message with `scope` in the place of its scope, where it has one.
pub fn replace_scope(message: &str, scope: &str) -> (r: String)
    ensures
        r@ == with_scope(message@, scope@),
{
    let m: Vec<char> = chars_of(message);
    match find_scope(&m) {
        Some((a, b)) => {
            let mut r: String = string_of(&m, 0, a);
            r.append(scope);
            r.append(string_of(&m, b, m.len()).as_str());
            assert(r@ =~= with_scope(message@, scope@));
            r
        },
        None => message.to_owned(),
    }
}

/// Puts the scope of a message into lower case, and leaves the rest as it is.
pub fn lowercase_scope(message: &str) -> (r: String)
    ensures
        r@ == with_lowercase_scope(message@),
        scope_of(message@) matches Some(scope) ==> (is_ascii_chars(scope) ==> r@ == with_scope(
            message@,
            ascii_lowercase(scope),
        )),
{
    let m: Vec<char> = chars_of(message);
    match find_scope(&m) {
        Some((a, b)) => {
            let scope: String = string_of(&m, a, b);
            replace_scope(message, to_lowercase(scope.as_str()).as_str())
        },
        None => message.to_owned(),
    }
}

// ---------------------------------------------------------------------------
// Laws
// ---------------------------------------------------------------------------

/// A message without a scope on its first line is left as it is, whatever follows.
pub proof fn law_only_the_first_line_has_a_scope(m: Seq<char>)
    requires
        !first_line(m).contains('('),
    ensures
        with_lowercase_scope(m) == m,
{
    text::lemma_position(first_line(m), '(');
}

/// Putting a scope into another form touches nothing else: what stands before the scope and
/// what stands after it stays.
pub proof fn law_the_rest_of_the_message_stays(m: Seq<char>, scope: Seq<char>)
    ensures
        scope_range(m) matches Some((a, b)) ==> {
            &&& with_scope(m, scope).take(a) == m.take(a)
            &&& with_scope(m, scope).skip(a + scope.len()) == m.skip(b)
        },
{
    lemma_scope_range(m);
    if let Some((a, b)) = scope_range(m) {
        let w = with_scope(m, scope);
        assert(w.take(a) =~= m.take(a));
        assert(w.skip(a + scope.len()) =~= m.skip(b));
    }
}

/// A message in which its own scope is put is the same message.
pub proof fn law_the_own_scope_changes_nothing(m: Seq<char>)
    ensures
        scope_of(m) matches Some(scope) ==> with_scope(m, scope) == m,
{
    lemma_scope_range(m);
    if let Some((a, b)) = scope_range(m) {
        assert(m.take(a) + m.subrange(a, b) + m.skip(b) =~= m);
    }
}

/// Where a new scope holds neither a parenthesis that closes nor a line feed, it is the scope
/// of the message that it is put into.
pub proof fn law_a_new_scope_is_read_back(m: Seq<char>, scope: Seq<char>)
    requires
        scope_range(m) is Some,
        !scope.contains(')'),
        !scope.contains('\n'),
    ensures
        scope_of(with_scope(m, scope)) == Some(scope),
{
    lemma_scope_range(m);
    let (a, b) = scope_range(m)->0;
    let w = with_scope(m, scope);
    let e = a + scope.len();
    assert(w[e] == m[b]);
    text::lemma_position(w, '\n');
    let nl = text::position_or_len(w, '\n') as int;
    assert forall|j: int| 0 <= j <= e implies w[j] != '\n' by {
        if a <= j < e {
            assert(w[j] == scope[j - a]);
        }
    }
    assert(nl > e);
    let line = first_line(w);
    assert forall|j: int| 0 <= j < a - 1 implies line[j] != '(' by {
        assert(line[j] == m[j]);
    }
    assert(line[a - 1] == m[a - 1]);
    text::lemma_position_is(line, '(', a - 1);
    let rest = line.skip(a);
    assert forall|j: int| 0 <= j < scope.len() implies rest[j] != ')' by {
        assert(rest[j] == scope[j]);
    }
    assert(rest[scope.len() as int] == w[e]);
    text::lemma_position_is(rest, ')', scope.len() as int);
    assert(w.subrange(a, e) =~= scope);
}

/// A message whose scope is in lower case already comes back unchanged.
pub proof fn law_a_lowercase_scope_stays(m: Seq<char>)
    requires
        scope_of(m) matches Some(scope) ==> outside::lowercase(scope) == scope,
    ensures
        with_lowercase_scope(m) == m,
{
    law_the_own_scope_changes_nothing(m);
}

/// Putting the scope of a message into lower case again changes nothing, for every message
/// without a scope and for every scope whose lower case is its own lower case and ends no
/// scope or line.
pub proof fn law_lowercasing_twice_is_lowercasing_once(m: Seq<char>)
    requires
        scope_of(m) matches Some(scope) ==> ({
            let lowered = outside::lowercase(scope);
            &&& outside::lowercase(lowered) == lowered
            &&& !lowered.contains(')')
            &&& !lowered.contains('\n')
        }),
    ensures
        with_lowercase_scope(with_lowercase_scope(m)) == with_lowercase_scope(m),
{
    if let Some(scope) = scope_of(m) {
        law_a_new_scope_is_read_back(m, outside::lowercase(scope));
        law_the_own_scope_changes_nothing(with_lowercase_scope(m));
    }
}

/// An ASCII scope is in lower case once it has been put into lower case: doing it again
/// changes nothing.
pub proof fn law_lowercasing_ascii_twice_is_lowercasing_once(m: Seq<char>)
    requires
        scope_of(m) is Some,
        is_ascii_chars(scope_of(m)->0),
    ensures
        ({
            let lowered = ascii_lowercase(scope_of(m)->0);
            let once = with_scope(m, lowered);
            &&& scope_of(once) == Some(lowered)
            &&& is_ascii_chars(lowered)
            &&& with_scope(once, ascii_lowercase(lowered)) == once
        }),
{
    lemma_scope_range(m);
    let (a, b) = scope_range(m)->0;
    let scope = scope_of(m)->0;
    let lowered = ascii_lowercase(scope);
    let once = with_scope(m, lowered);
    assert forall|j: int| 0 <= j < lowered.len() implies lowered[j] != ')' && lowered[j] != '\n'
        && '\0' <= #[trigger] lowered[j] <= '\u{7f}' && outside::ascii_lower(lowered[j])
        == lowered[j] by {
        assert(scope[j] == m[a + j]);
        assert(lowered[j] == outside::ascii_lower(scope[j]));
        assert('\0' <= scope[j] <= '\u{7f}');
    }
    law_a_new_scope_is_read_back(m, lowered);
    assert(ascii_lowercase(lowered) =~= lowered);
    lemma_scope_range(once);
    let (c, d) = scope_range(once)->0;
    assert(once.take(c) + once.subrange(c, d) + once.skip(d) =~= once);
}

/// What is left of an answer has no white space at either end.
pub proof fn law_stripped_text_is_trimmed(text: Seq<char>)
    ensures
        text::is_trimmed(without_fence(text)),
{
    let t = text::trimmed(text);
    text::lemma_trimmed(text);
    text::lemma_trimmed(t.subrange(inside_start(t), t.len() - 3));
}

/// Stripping undoes wrapping: a trimmed message in a code block, of whatever language and
/// with white space around the whole, comes out as it went in.
pub proof fn law_stripping_undoes_wrapping(
    before: Seq<char>,
    lang: Seq<char>,
    m: Seq<char>,
    after: Seq<char>,
)
    requires
        text::is_blank(before),
        text::is_blank(after),
        !lang.contains('\n'),
        text::is_trimmed(m),
    ensures
        without_fence(before + ("```"@ + lang + "\n"@ + m + "\n"@ + "```"@) + after) == m,
{
    reveal_strlit("```");
    reveal_strlit("\n");
    let fence = "```"@;
    let t = fence + lang + "\n"@ + m + "\n"@ + fence;
    let n = t.len() as int;
    assert(t[0] == fence[0] && t.last() == fence[2]);
    text::lemma_trimmed_around(before, t, after);
    assert(t.subrange(0, 3) =~= fence);
    assert(t.skip(n - 3) =~= fence);
    let k = 3 + lang.len() as int;
    assert(t[k] == '\n');
    assert forall|j: int| 0 <= j < k implies t[j] != '\n' by {
        if j < 3 {
            assert(t[j] == fence[j]);
        } else {
            assert(t[j] == lang[j - 3]);
        }
    }
    text::lemma_position_is(t, '\n', k);
    let none = Seq::<char>::empty();
    assert(t.subrange(k + 1, n - 3) =~= none + m + "\n"@);
    text::lemma_trimmed_around(none, m, "\n"@);
}

/// A text that is not fenced is only trimmed.
pub proof fn law_unfenced_text_is_only_trimmed(text: Seq<char>)
    requires
        !is_fenced(text::trimmed(text)),
    ensures
        without_fence(text) == text::trimmed(text),
{
}

/// A new scope does not bring white space to the ends of a message.
pub proof fn law_a_new_scope_keeps_a_message_trimmed(m: Seq<char>, scope: Seq<char>)
    requires
        text::is_trimmed(m),
    ensures
        text::is_trimmed(with_scope(m, scope)),
        m.len() > 0 ==> with_scope(m, scope).len() > 0,
{
    lemma_scope_range(m);
    if let Some((a, b)) = scope_range(m) {
        let w = with_scope(m, scope);
        assert(w[0] == m[0]);
        assert(w.last() == m.last());
    }
}

/// In a message that reads `before(scope)after`, where the first parenthesis of the first
/// line opens the scope and the next one closes it, the scope is what stands between them,
/// and putting it into lower case changes that and nothing else.
pub proof fn law_the_scope_stands_between_the_first_parentheses(
    before: Seq<char>,
    scope: Seq<char>,
    after: Seq<char>,
)
    requires
        !before.contains('('),
        !before.contains('\n'),
        !scope.contains(')'),
        !scope.contains('\n'),
    ensures
        scope_of(before + seq!['('] + scope + seq![')'] + after) == Some(scope),
        with_lowercase_scope(before + seq!['('] + scope + seq![')'] + after) == before + seq!['(']
            + outside::lowercase(scope) + seq![')'] + after,
        forall|other: Seq<char>| #[trigger]
            with_scope(before + seq!['('] + scope + seq![')'] + after, other) == before + seq!['(']
                + other + seq![')'] + after,
{
    let m = before + seq!['('] + scope + seq![')'] + after;
    let a = before.len() as int;
    let b = a + 1 + scope.len();
    assert(m[a] == '(' && m[b] == ')');
    assert forall|j: int| 0 <= j <= b implies m[j] != '\n' by {
        if j < a {
            assert(before.contains(before[j]));
            assert(m[j] == before[j]);
        } else if a < j < b {
            assert(scope.contains(scope[j - a - 1]));
            assert(m[j] == scope[j - a - 1]);
        }
    }
    text::lemma_position(m, '\n');
    let line = first_line(m);
    assert(line.len() > b);
    assert forall|j: int| 0 <= j < a implies line[j] != '(' by {
        assert(before.contains(before[j]));
        assert(line[j] == before[j]);
    }
    assert(line[a] == m[a]);
    text::lemma_position_is(line, '(', a);
    let rest = line.skip(a + 1);
    assert forall|j: int| 0 <= j < scope.len() implies rest[j] != ')' by {
        assert(scope.contains(scope[j]));
        assert(rest[j] == scope[j]);
    }
    assert(rest[scope.len() as int] == m[b]);
    text::lemma_position_is(rest, ')', scope.len() as int);
    assert(m.subrange(a + 1, b) =~= scope);
    assert(m.take(a + 1) =~= before + seq!['(']);
    assert(m.skip(b) =~= seq![')'] + after);
    assert forall|other: Seq<char>| #[trigger] with_scope(m, other) == before + seq!['('] + other
        + seq![')'] + after by {
        assert(with_scope(m, other) =~= before + seq!['('] + other + seq![')'] + after);
    }
    assert(with_lowercase_scope(m) == with_scope(m, outside::lowercase(scope)));
}

/// A message whose first line holds no `(`, or no `)` behind the first `(`, has no scope
/// and stays as it is.
pub proof fn law_without_parentheses_there_is_no_scope(line: Seq<char>, more: Seq<char>)
    requires
        !line.contains('\n'),
        more.len() == 0 || more[0] == '\n',
        forall|i: int, j: int| 0 <= i < j < line.len() ==> !(line[i] == '(' && line[j] == ')'),
    ensures
        scope_of(line + more) is None,
        with_lowercase_scope(line + more) == line + more,
{
    let m = line + more;
    lemma_scope_range(m);
    if let Some((a, b)) = scope_range(m) {
        assert(m[a - 1] == '(' && m[b] == ')');
        if b >= line.len() {
            assert(more.len() > 0);
            assert(m[line.len() as int] == '\n');
        } else {
            assert(line[a - 1] == m[a - 1] && line[b] == m[b]);
        }
    }
}

/// An answer with no fence at its beginning, or none at its end, is only trimmed. The fence
/// is three backticks.
pub proof fn law_what_is_not_between_backticks_stays(
    before: Seq<char>,
    m: Seq<char>,
    after: Seq<char>,
)
    requires
        text::is_blank(before),
        text::is_blank(after),
        text::is_trimmed(m),
        m.len() < 3 || !(m[0] == '`' && m[1] == '`' && m[2] == '`') || !(m[m.len() - 1] == '`'
            && m[m.len() - 2] == '`' && m[m.len() - 3] == '`'),
    ensures
        without_fence(before + m + after) == m,
{
    text::lemma_trimmed_around(before, m, after);
    reveal_strlit("```");
    let f = "```"@;
    if is_fenced(m) {
        assert(m.subrange(0, 3) =~= f);
        assert(m[0] == m.subrange(0, 3)[0] && m[1] == m.subrange(0, 3)[1] && m[2] == m.subrange(
            0,
            3,
        )[2]);
        let e = m.subrange(m.len() - 3, m.len() as int);
        assert(e =~= f);
        assert(m[m.len() - 1] == e[2] && m[m.len() - 2] == e[1] && m[m.len() - 3] == e[0]);
    }
}

/// An answer between two fences on one line is what stands between them.
pub proof fn law_fences_on_one_line_are_taken_off(m: Seq<char>)
    requires
        m.len() > 0,
        !m.contains('\n'),
    ensures
        without_fence("```"@ + m + "```"@) == text::trimmed(m),
{
    reveal_strlit("```");
    let f = "```"@;
    let t = f + m + f;
    let n = t.len() as int;
    assert(t[0] == f[0] && t.last() == f[2]);
    text::lemma_trimmed(t);
    assert(t.subrange(0, 3) =~= f);
    assert(t.skip(n - 3) =~= f);
    assert forall|j: int| 0 <= j < n implies t[j] != '\n' by {
        if j < 3 {
            assert(t[j] == f[j]);
        } else if j < n - 3 {
            assert(m.contains(m[j - 3]));
            assert(t[j] == m[j - 3]);
        } else {
            assert(t[j] == f[j - (n - 3)]);
        }
    }
    text::lemma_position_is(t, '\n', n);
    assert(t.subrange(3, n - 3) =~= m);
}

/// The letters `A` to `Z` of an ASCII text become the 32nd character after them, and every
/// other character stays.
pub proof fn law_ascii_letters_are_lowered(s: Seq<char>, i: int)
    requires
        is_ascii_chars(s),
        0 <= i < s.len(),
    ensures
        ascii_lowercase(s).len() == s.len(),
        'A' <= s[i] <= 'Z' ==> ascii_lowercase(s)[i] as int == s[i] as int + 32,
        !('A' <= s[i] <= 'Z') ==> ascii_lowercase(s)[i] == s[i],
{
}

/// Between a fence with whatever is said behind it on its line, and a fence at the end, the
/// message is what stands there, trimmed, whether or not the last fence has a line of its own.
pub proof fn law_the_message_stands_between_the_fences(lang: Seq<char>, m: Seq<char>)
    requires
        !lang.contains('\n'),
        m.len() > 0,
    ensures
        without_fence("```"@ + lang + seq!['\n'] + m + "```"@) == text::trimmed(m),
{
    reveal_strlit("```");
    let f = "```"@;
    let t = f + lang + seq!['\n'] + m + f;
    let n = t.len() as int;
    assert(t[0] == f[0] && t.last() == f[2]);
    text::lemma_trimmed(t);
    assert(t.subrange(0, 3) =~= f);
    assert(t.skip(n - 3) =~= f);
    let k = 3 + lang.len() as int;
    assert(t[k] == '\n');
    assert forall|j: int| 0 <= j < k implies t[j] != '\n' by {
        if j < 3 {
            assert(t[j] == f[j]);
        } else {
            assert(lang.contains(lang[j - 3]));
            assert(t[j] == lang[j - 3]);
        }
    }
    text::lemma_position_is(t, '\n', k);
    assert(t.subrange(k + 1, n - 3) =~= m);
}

} // verus!
