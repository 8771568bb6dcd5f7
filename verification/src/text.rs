//! Text primitives: the string operations the rest of the library is built from,
//! each with an exact contract over sequences of characters.

use vstd::prelude::*;

verus! {

/// Appends one character to the end of a string (`String::push`).
pub assume_specification[ String::push ](s: &mut String, c: char)
    ensures
        final(s)@ == old(s)@.push(c),
;

// ---------------------------------------------------------------------------
// Models
// ---------------------------------------------------------------------------

/// The texts held by a sequence of strings.
pub open spec fn texts(v: Seq<String>) -> Seq<Seq<char>> {
    v.map_values(|s: String| s@)
}

/// The text held by an optional string.
pub open spec fn opt_text(o: Option<String>) -> Option<Seq<char>> {
    match o {
        Some(s) => Some(s@),
        None => None,
    }
}

/// The characters with the Unicode property `White_Space`.
pub open spec fn is_white(c: char) -> bool {
    ||| '\u{9}' <= c <= '\u{d}'
    ||| c == ' '
    ||| c == '\u{85}'
    ||| c == '\u{a0}'
    ||| c == '\u{1680}'
    ||| '\u{2000}' <= c <= '\u{200a}'
    ||| c == '\u{2028}'
    ||| c == '\u{2029}'
    ||| c == '\u{202f}'
    ||| c == '\u{205f}'
    ||| c == '\u{3000}'
}

/// `s` without its leading white space.
pub open spec fn trimmed_start(s: Seq<char>) -> Seq<char>
    decreases s.len(),
{
    if s.len() > 0 && is_white(s[0]) {
        trimmed_start(s.drop_first())
    } else {
        s
    }
}

/// `s` without its trailing white space.
pub open spec fn trimmed_end(s: Seq<char>) -> Seq<char>
    decreases s.len(),
{
    if s.len() > 0 && is_white(s.last()) {
        trimmed_end(s.drop_last())
    } else {
        s
    }
}

/// `s` without the white space at either end.
pub open spec fn trimmed(s: Seq<char>) -> Seq<char> {
    trimmed_end(trimmed_start(s))
}

/// `s` has no white space at either end.
pub open spec fn is_trimmed(s: Seq<char>) -> bool {
    s.len() > 0 ==> !is_white(s[0]) && !is_white(s.last())
}

/// The position of the first `c` in `s`, or the length of `s` where there is none.
pub open spec fn position_or_len(s: Seq<char>, c: char) -> nat
    decreases s.len(),
{
    if s.len() == 0 || s[0] == c {
        0
    } else {
        1 + position_or_len(s.drop_first(), c)
    }
}

/// `s` without one trailing carriage return.
pub open spec fn without_cr(s: Seq<char>) -> Seq<char> {
    if s.len() > 0 && s.last() == '\r' {
        s.drop_last()
    } else {
        s
    }
}

/// The lines of `s`: every line ends at a line feed, which is not part of it, nor is a
/// carriage return right before the line feed. What follows the last line feed is a
/// line of its own unless it is empty.
pub open spec fn lines_of(s: Seq<char>) -> Seq<Seq<char>>
    decreases s.len(),
{
    let k = position_or_len(s, '\n') as int;
    if s.len() == 0 {
        seq![]
    } else if k < s.len() {
        seq![without_cr(s.take(k))] + lines_of(s.skip(k + 1))
    } else {
        seq![s]
    }
}

/// `p` stands in `s` at position `i`.
pub open spec fn matches_at(s: Seq<char>, p: Seq<char>, i: int) -> bool {
    0 <= i && i + p.len() <= s.len() && s.subrange(i, i + p.len()) == p
}

/// `p` stands somewhere in `s`.
pub open spec fn occurs(s: Seq<char>, p: Seq<char>) -> bool {
    exists|i: int| matches_at(s, p, i)
}

/// The first position at which `p` stands in `s`.
pub open spec fn first_match(s: Seq<char>, p: Seq<char>) -> Option<int>
    decreases s.len(),
{
    if matches_at(s, p, 0) {
        Some(0)
    } else if s.len() == 0 {
        None
    } else {
        match first_match(s.drop_first(), p) {
            Some(i) => Some(i + 1),
            None => None,
        }
    }
}

/// The decimal digit of value `d`.
pub open spec fn digit(d: nat) -> char {
    (48 + d) as u8 as char
}

/// `n` in decimal, without leading zeros.
pub open spec fn decimal(n: nat) -> Seq<char>
    decreases n,
{
    if n < 10 {
        seq![digit(n)]
    } else {
        decimal(n / 10).push(digit(n % 10))
    }
}

/// `n` times the character `c`.
pub open spec fn repeated(c: char, n: nat) -> Seq<char> {
    Seq::new(n, |i: int| c)
}

/// How many blanks fill a text of `len` characters up to `width` characters.
pub open spec fn fill(len: nat, width: nat) -> nat {
    if len < width {
        (width - len) as nat
    } else {
        0
    }
}

/// `s` followed by blanks up to `width` characters.
pub open spec fn left_aligned(s: Seq<char>, width: nat) -> Seq<char> {
    s + repeated(' ', fill(s.len(), width))
}

/// `s` preceded by blanks up to `width` characters.
pub open spec fn right_aligned(s: Seq<char>, width: nat) -> Seq<char> {
    repeated(' ', fill(s.len(), width)) + s
}

/// The texts of `parts` one after the other, `sep` between two neighbours.
pub open spec fn joined(parts: Seq<Seq<char>>, sep: Seq<char>) -> Seq<char>
    decreases parts.len(),
{
    if parts.len() == 0 {
        seq![]
    } else if parts.len() == 1 {
        parts[0]
    } else {
        joined(parts.drop_last(), sep) + sep + parts.last()
    }
}

/// The value of a text of decimal digits, `None` where it is empty or holds anything else.
pub open spec fn digits_value(s: Seq<char>) -> Option<nat>
    decreases s.len(),
{
    if s.len() == 0 || !('0' <= s.last() <= '9') {
        None
    } else if s.len() == 1 {
        Some((s.last() as int - 48) as nat)
    } else {
        match digits_value(s.drop_last()) {
            Some(v) => Some((v * 10 + (s.last() as int - 48)) as nat),
            None => None,
        }
    }
}

/// What a text says as a number of machine size: decimal digits, which a single `+` may
/// precede.
pub open spec fn number_value(s: Seq<char>) -> Option<nat> {
    let v = if s.len() > 0 && s[0] == '+' {
        digits_value(s.drop_first())
    } else {
        digits_value(s)
    };
    match v {
        Some(n) => if n <= usize::MAX {
            Some(n)
        } else {
            None
        },
        None => None,
    }
}

// ---------------------------------------------------------------------------
// Lemmas about the models
// ---------------------------------------------------------------------------

proof fn lemma_trimmed_start(s: Seq<char>)
    ensures
        trimmed_start(s).len() > 0 ==> !is_white(trimmed_start(s)[0]),
        s.len() > 0 && !is_white(s[0]) ==> trimmed_start(s) == s,
    decreases s.len(),
{
    if s.len() > 0 && is_white(s[0]) {
        lemma_trimmed_start(s.drop_first());
    }
}

proof fn lemma_trimmed_end(s: Seq<char>)
    ensures
        trimmed_end(s).len() > 0 ==> !is_white(trimmed_end(s).last()) && trimmed_end(s)[0] == s[0],
        s.len() > 0 && !is_white(s.last()) ==> trimmed_end(s) == s,
    decreases s.len(),
{
    if s.len() > 0 && is_white(s.last()) {
        lemma_trimmed_end(s.drop_last());
    }
}

/// Trimming leaves no white space at the ends, and does nothing where there is none.
pub proof fn lemma_trimmed(s: Seq<char>)
    ensures
        is_trimmed(trimmed(s)),
        is_trimmed(s) ==> trimmed(s) == s,
{
    lemma_trimmed_start(s);
    lemma_trimmed_end(trimmed_start(s));
}

/// Every character of the text is white space.
pub open spec fn is_blank(s: Seq<char>) -> bool {
    forall|i: int| 0 <= i < s.len() ==> is_white(#[trigger] s[i])
}

/// Trimming takes off all the white space around a text that has none at its own ends.
pub proof fn lemma_trimmed_around(before: Seq<char>, s: Seq<char>, after: Seq<char>)
    requires
        is_blank(before),
        is_trimmed(s),
        is_blank(after),
    ensures
        trimmed(before + s + after) == s,
    decreases before.len() + after.len(),
{
    let all = before + s + after;
    if before.len() > 0 {
        assert(is_white(before[0]));
        assert(all[0] == before[0]);
        assert(all.drop_first() =~= before.drop_first() + s + after);
        assert(is_blank(before.drop_first())) by {
            assert forall|i: int| 0 <= i < before.drop_first().len() implies is_white(
                #[trigger] before.drop_first()[i],
            ) by {
                assert(is_white(before[i + 1]));
            }
        }
        lemma_trimmed_around(before.drop_first(), s, after);
    } else if s.len() == 0 && after.len() > 0 {
        assert(is_white(after[0]));
        assert(all =~= after);
        assert(all.drop_first() =~= before + s + after.drop_first());
        assert(is_blank(after.drop_first())) by {
            assert forall|i: int| 0 <= i < after.drop_first().len() implies is_white(
                #[trigger] after.drop_first()[i],
            ) by {
                assert(is_white(after[i + 1]));
            }
        }
        lemma_trimmed_around(before, s, after.drop_first());
    } else if after.len() > 0 {
        assert(all[0] == s[0]);
        assert(all.last() == after.last());
        assert(is_white(after[after.len() - 1]));
        assert(all.drop_last() =~= before + s + after.drop_last());
        assert(all.drop_last()[0] == s[0]);
        assert(is_blank(after.drop_last())) by {
            assert forall|i: int| 0 <= i < after.drop_last().len() implies is_white(
                #[trigger] after.drop_last()[i],
            ) by {
                assert(is_white(after[i]));
            }
        }
        lemma_trimmed_around(before, s, after.drop_last());
    } else {
        assert(all =~= s);
        lemma_trimmed(s);
    }
}

pub proof fn lemma_position(s: Seq<char>, c: char)
    ensures
        position_or_len(s, c) <= s.len(),
        position_or_len(s, c) < s.len() ==> s[position_or_len(s, c) as int] == c,
        forall|j: int| 0 <= j < position_or_len(s, c) ==> s[j] != c,
    decreases s.len(),
{
    if s.len() > 0 && s[0] != c {
        lemma_position(s.drop_first(), c);
        assert forall|j: int| 0 <= j < position_or_len(s, c) implies s[j] != c by {
            if j > 0 {
                assert(s.drop_first()[j - 1] == s[j]);
            }
        }
    }
}

/// A position that holds the first `c` is the one that `position_or_len` gives.
pub proof fn lemma_position_is(s: Seq<char>, c: char, k: int)
    requires
        0 <= k <= s.len(),
        k < s.len() ==> s[k] == c,
        forall|j: int| 0 <= j < k ==> s[j] != c,
    ensures
        position_or_len(s, c) == k,
{
    lemma_position(s, c);
    let p = position_or_len(s, c) as int;
    if p < k {
        assert(s[p] != c);
    } else if k < p {
        assert(s[k] != c);
    }
}

pub proof fn lemma_first_match(s: Seq<char>, p: Seq<char>)
    ensures
        first_match(s, p) matches Some(i) ==> matches_at(s, p, i) && forall|j: int|
            0 <= j < i ==> !matches_at(s, p, j),
        first_match(s, p) is None <==> !occurs(s, p),
    decreases s.len(),
{
    if matches_at(s, p, 0) {
    } else if s.len() == 0 {
        assert forall|j: int| !matches_at(s, p, j) by {
            if matches_at(s, p, j) {
                assert(s.subrange(j, j) =~= s.subrange(0, 0));
            }
        }
    } else {
        let t = s.drop_first();
        lemma_first_match(t, p);
        assert forall|j: int| j > 0 implies matches_at(s, p, j) == matches_at(t, p, j - 1) by {
            if j + p.len() <= s.len() {
                assert(s.subrange(j, j + p.len()) =~= t.subrange(j - 1, j - 1 + p.len()));
            }
        }
        match first_match(t, p) {
            Some(i) => {
                assert(matches_at(s, p, i + 1));
                assert forall|j: int| 0 <= j < i + 1 implies !matches_at(s, p, j) by {
                    if j > 0 {
                        assert(!matches_at(t, p, j - 1));
                    }
                }
            },
            None => {
                assert forall|j: int| !matches_at(s, p, j) by {
                    if j > 0 {
                        assert(!matches_at(t, p, j - 1));
                    }
                }
            },
        }
    }
}

/// A match that nothing precedes is the first match.
pub proof fn lemma_first_match_is(s: Seq<char>, p: Seq<char>, k: int)
    requires
        matches_at(s, p, k),
        forall|j: int| 0 <= j < k ==> !matches_at(s, p, j),
    ensures
        first_match(s, p) == Some(k),
{
    lemma_first_match(s, p);
    assert(occurs(s, p));
}

/// What is left of a sequence after filtering is what was in it and is wanted.
pub proof fn lemma_filtered<A>(s: Seq<A>, wanted: spec_fn(A) -> bool, x: A)
    ensures
        s.filter(wanted).contains(x) <==> s.contains(x) && wanted(x),
    decreases s.len(),
{
    reveal(Seq::filter);
    if s.len() > 0 {
        let before = s.drop_last();
        let kept = before.filter(wanted);
        lemma_filtered(before, wanted, x);
        assert(s =~= before.push(s.last()));
        assert(s.contains(x) <==> before.contains(x) || s.last() == x) by {
            if before.contains(x) {
                let i = choose|i: int| 0 <= i < before.len() && before[i] == x;
                assert(s[i] == x);
            }
            if s.contains(x) && s.last() != x {
                let i = choose|i: int| 0 <= i < s.len() && s[i] == x;
                assert(before[i] == x);
            }
            assert(s[s.len() - 1] == s.last());
        }
        if wanted(s.last()) {
            assert(kept.push(s.last()).contains(x) <==> kept.contains(x) || s.last() == x) by {
                let more = kept.push(s.last());
                if kept.contains(x) {
                    let i = choose|i: int| 0 <= i < kept.len() && kept[i] == x;
                    assert(more[i] == x);
                }
                if more.contains(x) && s.last() != x {
                    let i = choose|i: int| 0 <= i < more.len() && more[i] == x;
                    assert(kept[i] == x);
                }
                assert(more[kept.len() as int] == s.last());
            }
        }
    }
}

/// The lines of two texts one after the other, where the first ends with a line feed.
pub proof fn lemma_lines_concat(a: Seq<char>, b: Seq<char>)
    requires
        a.len() == 0 || a.last() == '\n',
    ensures
        lines_of(a + b) == lines_of(a) + lines_of(b),
    decreases a.len(),
{
    let all = a + b;
    if a.len() == 0 {
        assert(all =~= b);
        assert(lines_of(all) =~= lines_of(a) + lines_of(b));
    } else {
        lemma_position(a, '\n');
        let k = position_or_len(a, '\n') as int;
        assert(k < a.len()) by {
            if k == a.len() {
                assert(a[a.len() - 1] != '\n');
            }
        }
        assert forall|j: int| 0 <= j < k implies all[j] != '\n' by {
            assert(all[j] == a[j]);
        }
        lemma_position_is(all, '\n', k);
        let rest = a.skip(k + 1);
        assert(rest.len() > 0 ==> rest.last() == a.last());
        lemma_lines_concat(rest, b);
        assert(all.take(k) =~= a.take(k));
        assert(all.skip(k + 1) =~= rest + b);
        assert(lines_of(all) =~= lines_of(a) + lines_of(b));
    }
}

// ---------------------------------------------------------------------------
// Operations
// ---------------------------------------------------------------------------

/// The characters of a string, in order.
pub fn chars_of(s: &str) -> (r: Vec<char>)
    ensures
        r@ == s@,
{
    let mut r: Vec<char> = Vec::new();
    for c in it: s.chars()
        invariant
            r@ == it.seq().take(it.index()),
            it.seq() == s@,
    {
        r.push(c);
    }
    r
}

/// The string made of the characters `chars[from..to]`.
pub fn string_of(chars: &Vec<char>, from: usize, to: usize) -> (r: String)
    requires
        from <= to <= chars@.len(),
    ensures
        r@ == chars@.subrange(from as int, to as int),
{
    let mut r: String = String::new();
    let mut i: usize = from;
    while i < to
        invariant
            from <= i <= to <= chars@.len(),
            r@ == chars@.subrange(from as int, i as int),
        decreases to - i,
    {
        r.push(chars[i]);
        i = i + 1;
    }
    r
}

/// The text `a` followed by the text `b`.
pub fn concat(a: &str, b: &str) -> (r: String)
    ensures
        r@ == a@ + b@,
{
    let mut r: String = a.to_owned();
    r.append(b);
    r
}

/// Whether the two texts are the same.
pub fn same_text(a: &str, b: &str) -> (r: bool)
    ensures
        r == (a@ == b@),
{
    let x: Vec<char> = chars_of(a);
    let y: Vec<char> = chars_of(b);
    if x.len() != y.len() {
        return false;
    }
    let mut i: usize = 0;
    while i < x.len()
        invariant
            i <= x@.len(),
            x@.len() == y@.len(),
            x@ == a@,
            y@ == b@,
            forall|j: int| 0 <= j < i ==> x@[j] == y@[j],
        decreases x.len() - i,
    {
        if x[i] != y[i] {
            return false;
        }
        i = i + 1;
    }
    assert(x@ =~= y@);
    true
}

/// Whether the character has the Unicode property `White_Space`.
pub fn is_whitespace(c: char) -> (r: bool)
    ensures
        r == is_white(c),
{
    ('\u{9}' <= c && c <= '\u{d}') || c == ' ' || c == '\u{85}' || c == '\u{a0}' || c == '\u{1680}'
        || ('\u{2000}' <= c && c <= '\u{200a}') || c == '\u{2028}' || c == '\u{2029}' || c
        == '\u{202f}' || c == '\u{205f}' || c == '\u{3000}'
}

/// The part of `chars[from..to]` that is left when the white space at both ends goes.
pub fn trim_range(chars: &Vec<char>, from: usize, to: usize) -> (r: (usize, usize))
    requires
        from <= to <= chars@.len(),
    ensures
        from <= r.0 <= r.1 <= to,
        chars@.subrange(r.0 as int, r.1 as int) == trimmed(
            chars@.subrange(from as int, to as int),
        ),
{
    let mut a: usize = from;
    while a < to && is_whitespace(chars[a])
        invariant
            from <= a <= to <= chars@.len(),
            trimmed_start(chars@.subrange(a as int, to as int)) == trimmed_start(
                chars@.subrange(from as int, to as int),
            ),
        decreases to - a,
    {
        assert(chars@.subrange(a as int, to as int).drop_first() =~= chars@.subrange(
            a + 1,
            to as int,
        ));
        a = a + 1;
    }
    let ghost head = chars@.subrange(a as int, to as int);
    assert(head == trimmed_start(chars@.subrange(from as int, to as int)));
    let mut b: usize = to;
    while b > a && is_whitespace(chars[b - 1])
        invariant
            from <= a <= b <= to <= chars@.len(),
            trimmed_end(chars@.subrange(a as int, b as int)) == trimmed_end(head),
        decreases b,
    {
        assert(chars@.subrange(a as int, b as int).drop_last() =~= chars@.subrange(
            a as int,
            b - 1,
        ));
        b = b - 1;
    }
    (a, b)
}

/// `s` without the white space at either end.
pub fn trim(s: &str) -> (r: String)
    ensures
        r@ == trimmed(s@),
{
    let chars: Vec<char> = chars_of(s);
    let (a, b) = trim_range(&chars, 0, chars.len());
    assert(chars@.subrange(0, chars@.len() as int) =~= s@);
    string_of(&chars, a, b)
}

/// The position of the first `c` in `chars[from..to]`, or `to`.
pub fn find_char(chars: &Vec<char>, from: usize, to: usize, c: char) -> (k: usize)
    requires
        from <= to <= chars@.len(),
    ensures
        from <= k <= to,
        k - from == position_or_len(chars@.subrange(from as int, to as int), c),
{
    let mut k: usize = from;
    while k < to && chars[k] != c
        invariant
            from <= k <= to <= chars@.len(),
            forall|j: int| from <= j < k ==> chars@[j] != c,
        decreases to - k,
    {
        k = k + 1;
    }
    proof {
        let s = chars@.subrange(from as int, to as int);
        assert forall|j: int| 0 <= j < k - from implies s[j] != c by {
            assert(s[j] == chars@[from + j]);
        }
        lemma_position_is(s, c, k - from);
    }
    k
}

/// The lines of a text.
pub fn lines(s: &str) -> (r: Vec<String>)
    ensures
        texts(r@) == lines_of(s@),
{
    let chars: Vec<char> = chars_of(s);
    let n: usize = chars.len();
    let mut r: Vec<String> = Vec::new();
    let mut start: usize = 0;
    assert(chars@.skip(0) =~= s@);
    assert(texts(r@) + lines_of(chars@.skip(0)) =~= lines_of(s@));
    while start < n
        invariant
            start <= n == chars@.len(),
            texts(r@) + lines_of(chars@.skip(start as int)) == lines_of(s@),
        decreases n - start,
    {
        let k: usize = find_char(&chars, start, n, '\n');
        let ghost rest = chars@.skip(start as int);
        let ghost before = texts(r@);
        proof {
            assert(rest =~= chars@.subrange(start as int, n as int));
            lemma_position(rest, '\n');
        }
        if k < n {
            let mut end: usize = k;
            if k > start && chars[k - 1] == '\r' {
                end = k - 1;
            }
            let line: String = string_of(&chars, start, end);
            proof {
                assert(rest.take(k - start) =~= chars@.subrange(start as int, k as int));
                assert(line@ =~= without_cr(rest.take(k - start)));
                assert(rest.skip(k - start + 1) =~= chars@.skip(k + 1));
            }
            r.push(line);
            assert(texts(r@) =~= before.push(line@));
            assert(texts(r@) + lines_of(chars@.skip(k + 1)) =~= before + lines_of(rest));
            start = k + 1;
        } else {
            let line: String = string_of(&chars, start, n);
            r.push(line);
            proof {
                assert(texts(r@) =~= before.push(line@));
                assert(chars@.skip(n as int).len() == 0);
                assert(texts(r@) + lines_of(chars@.skip(n as int)) =~= before + lines_of(rest));
            }
            start = n;
        }
    }
    assert(lines_of(chars@.skip(n as int)) =~= seq![]);
    assert(texts(r@) =~= lines_of(s@));
    r
}

/// Whether `p` stands in `chars` at position `i`.
pub fn stands_at(chars: &Vec<char>, p: &Vec<char>, i: usize) -> (r: bool)
    requires
        i <= chars@.len(),
    ensures
        r == matches_at(chars@, p@, i as int),
{
    if chars.len() - i < p.len() {
        return false;
    }
    let mut j: usize = 0;
    while j < p.len()
        invariant
            j <= p@.len(),
            i + p@.len() <= chars.len(),
            forall|k: int| 0 <= k < j ==> chars@[i + k] == p@[k],
        decreases p.len() - j,
    {
        if chars[i + j] != p[j] {
            assert(chars@.subrange(i as int, i + p@.len())[j as int] != p@[j as int]);
            return false;
        }
        j = j + 1;
    }
    assert(chars@.subrange(i as int, i + p@.len()) =~= p@);
    true
}

/// The first position at or after `from` at which `p` stands in `chars`.
pub fn find_from(chars: &Vec<char>, p: &Vec<char>, from: usize) -> (r: Option<usize>)
    requires
        from <= chars@.len(),
    ensures
        match r {
            Some(k) => from <= k && first_match(chars@.skip(from as int), p@) == Some(
                k - from,
            ) && matches_at(chars@, p@, k as int),
            None => first_match(chars@.skip(from as int), p@) is None,
        },
{
    let n: usize = chars.len();
    let ghost rest = chars@.skip(from as int);
    let mut k: usize = from;
    loop
        invariant
            from <= k <= n == chars@.len(),
            rest == chars@.skip(from as int),
            forall|j: int| 0 <= j < k - from ==> !matches_at(rest, p@, j),
        decreases n - k,
    {
        let here: bool = stands_at(chars, p, k);
        proof {
            if k + p@.len() <= n {
                assert(rest.subrange(k - from, k - from + p@.len()) =~= chars@.subrange(
                    k as int,
                    k + p@.len(),
                ));
            }
            assert(here == matches_at(rest, p@, k - from));
        }
        if here {
            proof {
                lemma_first_match_is(rest, p@, k - from);
            }
            return Some(k);
        }
        if k == n {
            proof {
                lemma_first_match(rest, p@);
                assert forall|j: int| !matches_at(rest, p@, j) by {}
            }
            return None;
        }
        k = k + 1;
    }
}

/// Whether `p` stands somewhere in `s`.
pub fn contains(s: &str, p: &str) -> (r: bool)
    ensures
        r == occurs(s@, p@),
{
    let chars: Vec<char> = chars_of(s);
    let pattern: Vec<char> = chars_of(p);
    proof {
        assert(chars@.skip(0) =~= s@);
        lemma_first_match(s@, p@);
    }
    match find_from(&chars, &pattern, 0) {
        Some(_) => true,
        None => false,
    }
}

/// Whether the text has no characters.
pub fn is_empty(s: &str) -> (r: bool)
    ensures
        r == (s@.len() == 0),
{
    let bytes = s.as_bytes();
    bytes.len() == 0
}

/// Whether `s` begins with `p`.
pub fn starts_with(s: &str, p: &str) -> (r: bool)
    ensures
        r == p@.is_prefix_of(s@),
{
    let chars: Vec<char> = chars_of(s);
    let pattern: Vec<char> = chars_of(p);
    stands_at(&chars, &pattern, 0)
}

/// A number in decimal.
pub fn decimal_text(n: u64) -> (r: String)
    ensures
        r@ == decimal(n as nat),
    decreases n,
{
    let c: char = (48u8 + (n % 10) as u8) as char;
    if n < 10 {
        let mut r: String = String::new();
        r.push(c);
        r
    } else {
        let mut r: String = decimal_text(n / 10);
        r.push(c);
        r
    }
}

/// Appends `n` times the character `c`.
pub fn push_repeated(r: &mut String, c: char, n: usize)
    ensures
        final(r)@ == old(r)@ + repeated(c, n as nat),
{
    let ghost start = r@;
    let mut i: usize = 0;
    assert(start + repeated(c, 0) =~= start);
    while i < n
        invariant
            i <= n,
            r@ == start + repeated(c, i as nat),
        decreases n - i,
    {
        r.push(c);
        i = i + 1;
        assert(r@ =~= start + repeated(c, i as nat));
    }
}

/// `s` followed by blanks up to `width` characters.
pub fn pad_right(s: &str, width: usize) -> (r: String)
    ensures
        r@ == left_aligned(s@, width as nat),
{
    let len: usize = chars_of(s).len();
    let mut r: String = s.to_owned();
    push_repeated(&mut r, ' ', if len < width { width - len } else { 0 });
    r
}

/// `s` preceded by blanks up to `width` characters.
pub fn pad_left(s: &str, width: usize) -> (r: String)
    ensures
        r@ == right_aligned(s@, width as nat),
{
    let len: usize = chars_of(s).len();
    let mut r: String = String::new();
    push_repeated(&mut r, ' ', if len < width { width - len } else { 0 });
    r.append(s);
    r
}

/// The given texts one after the other, `sep` between two neighbours.
pub fn join(parts: &Vec<String>, sep: &str) -> (r: String)
    ensures
        r@ == joined(texts(parts@), sep@),
{
    let mut r: String = String::new();
    let mut i: usize = 0;
    let ghost all = texts(parts@);
    while i < parts.len()
        invariant
            i <= parts@.len(),
            all == texts(parts@),
            r@ == joined(all.take(i as int), sep@),
        decreases parts.len() - i,
    {
        if i > 0 {
            r.append(sep);
        }
        r.append(parts[i].as_str());
        assert(all.take(i + 1).drop_last() =~= all.take(i as int));
        assert(r@ =~= joined(all.take(i + 1), sep@));
        i = i + 1;
    }
    assert(all.take(i as int) =~= all);
    r
}

/// A beginning of a number is a number that is no greater.
proof fn lemma_digits(s: Seq<char>, i: int)
    requires
        0 < i <= s.len(),
    ensures
        digits_value(s) matches Some(n) ==> (digits_value(s.take(i)) matches Some(m) && m <= n),
    decreases s.len(),
{
    if i < s.len() {
        lemma_digits(s.drop_last(), i);
        assert(s.drop_last().take(i) =~= s.take(i));
    } else {
        assert(s.take(i) =~= s);
    }
}

/// What a text says as a number of machine size.
pub fn parse_number(s: &str) -> (r: Option<usize>)
    ensures
        match r {
            Some(n) => number_value(s@) == Some(n as nat),
            None => number_value(s@) is None,
        },
{
    let chars: Vec<char> = chars_of(s);
    let from: usize = if chars.len() > 0 && chars[0] == '+' {
        1
    } else {
        0
    };
    let n: usize = chars.len();
    let ghost digits = chars@.skip(from as int);
    assert(from == 1 ==> digits =~= s@.drop_first());
    assert(from == 0 ==> digits =~= s@);
    if from == n {
        return None;
    }
    let mut value: usize = 0;
    let mut i: usize = from;
    while i < n
        invariant
            from <= i <= n == chars@.len(),
            from < n,
            digits == chars@.skip(from as int),
            number_value(s@) == match digits_value(digits) {
                Some(v) => if v <= usize::MAX {
                    Some(v)
                } else {
                    None
                },
                None => None,
            },
            i > from ==> digits_value(digits.take(i - from)) == Some(value as nat),
            i == from ==> value == 0,
        decreases n - i,
    {
        let c: char = chars[i];
        let ghost head = digits.take(i + 1 - from);
        proof {
            assert(head.last() == c);
            assert(head.drop_last() =~= digits.take(i - from));
            lemma_digits(digits, i + 1 - from);
        }
        if c < '0' || c > '9' {
            return None;
        }
        let d: usize = (c as u32 - 48) as usize;
        if value > (usize::MAX - d) / 10 {
            assert(digits_value(head) == Some((value * 10 + d) as nat));
            return None;
        }
        value = value * 10 + d;
        i = i + 1;
    }
    assert(digits.take(n - from) =~= digits);
    Some(value)
}

/// What a number is in decimal is read back as that number, and has nothing to be trimmed.
pub proof fn law_a_decimal_number_is_read_back(n: nat)
    requires
        n <= usize::MAX,
    ensures
        number_value(decimal(n)) == Some(n),
        trimmed(decimal(n)) == decimal(n),
{
    lemma_decimal(n);
    lemma_trimmed(decimal(n));
}

/// A number in decimal is a text of digits with the value of that number.
proof fn lemma_decimal(n: nat)
    ensures
        digits_value(decimal(n)) == Some(n),
        decimal(n).len() > 0,
        '0' <= decimal(n)[0] <= '9',
        '0' <= decimal(n).last() <= '9',
    decreases n,
{
    if n >= 10 {
        lemma_decimal(n / 10);
        assert(decimal(n).drop_last() =~= decimal(n / 10));
        assert(decimal(n)[0] == decimal(n / 10)[0]);
    }
}

// ---------------------------------------------------------------------------
// Laws
// ---------------------------------------------------------------------------

/// Trimming takes off nothing but white space: the text is white space, what is left, and
/// white space, and what is left neither begins nor ends with any. No other text fits.
pub proof fn law_trimming_takes_off_white_space_alone(s: Seq<char>)
    ensures
        exists|before: Seq<char>, after: Seq<char>|
            {
                &&& #[trigger] is_blank(before)
                &&& #[trigger] is_blank(after)
                &&& s == before + trimmed(s) + after
            },
        trimmed(s).len() > 0 ==> !is_white(trimmed(s)[0]) && !is_white(trimmed(s).last()),
        forall|before: Seq<char>, kept: Seq<char>, after: Seq<char>|
            is_blank(before) && is_blank(after) && s == #[trigger] (before + kept + after) && (
            kept.len() > 0 ==> !is_white(kept[0]) && !is_white(kept.last())) ==> trimmed(s) == kept,
{
    lemma_trimmed(s);
    let before = lemma_taken_at_start(s);
    let after = lemma_taken_at_end(trimmed_start(s));
    assert(s =~= before + trimmed(s) + after);
    assert(is_blank(before) && is_blank(after));
    assert forall|before: Seq<char>, kept: Seq<char>, after: Seq<char>|
        is_blank(before) && is_blank(after) && s == #[trigger] (before + kept + after) && (
        kept.len() > 0 ==> !is_white(kept[0]) && !is_white(kept.last())) implies trimmed(s)
        == kept by {
        lemma_trimmed_around(before, kept, after);
    }
}

/// What trimming takes off at the start.
proof fn lemma_taken_at_start(s: Seq<char>) -> (before: Seq<char>)
    ensures
        is_blank(before),
        s == before + trimmed_start(s),
    decreases s.len(),
{
    if s.len() > 0 && is_white(s[0]) {
        let rest = lemma_taken_at_start(s.drop_first());
        let before = seq![s[0]] + rest;
        assert(s =~= seq![s[0]] + s.drop_first());
        assert(s =~= seq![s[0]] + (rest + trimmed_start(s)));
        assert(s =~= before + trimmed_start(s));
        assert forall|i: int| 0 <= i < before.len() implies is_white(#[trigger] before[i]) by {
            if i > 0 {
                assert(is_white(rest[i - 1]));
            }
        }
        before
    } else {
        assert(s =~= Seq::<char>::empty() + s);
        Seq::empty()
    }
}

/// What trimming takes off at the end.
proof fn lemma_taken_at_end(s: Seq<char>) -> (after: Seq<char>)
    ensures
        is_blank(after),
        s == trimmed_end(s) + after,
    decreases s.len(),
{
    if s.len() > 0 && is_white(s.last()) {
        let rest = lemma_taken_at_end(s.drop_last());
        let after = rest.push(s.last());
        assert(s =~= s.drop_last().push(s.last()));
        assert(s =~= (trimmed_end(s) + rest).push(s.last()));
        assert(s =~= trimmed_end(s) + after);
        assert forall|i: int| 0 <= i < after.len() implies is_white(#[trigger] after[i]) by {
            if i < rest.len() {
                assert(is_white(rest[i]));
            }
        }
        after
    } else {
        assert(s =~= s + Seq::<char>::empty());
        Seq::empty()
    }
}

/// White space is the tab, the line feed, the vertical tab, the form feed, the carriage
/// return, the blank and the fifteen spaces and separators of Unicode beyond ASCII, and a
/// character that is seen is none.
pub proof fn law_what_is_seen_is_no_white_space(c: char)
    ensures
        c <= '\u{7f}' ==> (is_white(c) <==> c == '\t' || c == '\n' || c == '\u{b}' || c == '\u{c}'
            || c == '\r' || c == ' '),
        '!' <= c <= '~' ==> !is_white(c),
{
}

/// A line ends at its line feed, with or without a carriage return before it, and what
/// follows is read on its own.
pub proof fn law_a_text_is_its_lines(line: Seq<char>, rest: Seq<char>)
    requires
        !line.contains('\n'),
    ensures
        line.len() == 0 || line.last() != '\r' ==> lines_of(line + seq!['\n'] + rest) == seq![line]
            + lines_of(rest),
        lines_of(line + seq!['\r', '\n'] + rest) == seq![line] + lines_of(rest),
        lines_of(line) == if line.len() == 0 {
            Seq::<Seq<char>>::empty()
        } else {
            seq![line]
        },
{
    let n = line.len() as int;
    assert forall|j: int| 0 <= j < n implies line[j] != '\n' by {
        assert(line.contains(line[j]));
    }
    let plain = line + seq!['\n'] + rest;
    assert forall|j: int| 0 <= j < n implies plain[j] != '\n' by {
        assert(plain[j] == line[j]);
    }
    assert(plain[n] == '\n');
    lemma_position_is(plain, '\n', n);
    assert(plain.take(n) =~= line);
    assert(plain.skip(n + 1) =~= rest);
    let ended = line + seq!['\r', '\n'] + rest;
    assert forall|j: int| 0 <= j < n + 1 implies ended[j] != '\n' by {
        if j < n {
            assert(ended[j] == line[j]);
        }
    }
    assert(ended[n + 1] == '\n');
    lemma_position_is(ended, '\n', n + 1);
    assert(ended.take(n + 1) =~= line.push('\r'));
    assert(ended.take(n + 1).drop_last() =~= line);
    assert(ended.skip(n + 2) =~= rest);
    lemma_position_is(line, '\n', n);
}

/// A text occurs in another one if and only if the other one is something, the text, and
/// something.
pub proof fn law_to_occur_is_to_be_a_part(s: Seq<char>, p: Seq<char>)
    ensures
        occurs(s, p) <==> exists|before: Seq<char>, after: Seq<char>|
            s == #[trigger] (before + p + after),
{
    if occurs(s, p) {
        let i = choose|i: int| matches_at(s, p, i);
        let before = s.take(i);
        let after = s.skip(i + p.len());
        assert(s =~= before + p + after);
    }
    if exists|before: Seq<char>, after: Seq<char>| s == #[trigger] (before + p + after) {
        let (before, after) = choose|before: Seq<char>, after: Seq<char>|
            s == #[trigger] (before + p + after);
        assert(s.subrange(before.len() as int, (before.len() + p.len()) as int) =~= p);
        assert(matches_at(s, p, before.len() as int));
    }
}

/// A number in decimal has digits alone, the last one counts the ones, and what stands
/// before it counts the tens. There are no leading zeros.
pub proof fn law_decimals_count_tens_and_ones(n: nat)
    ensures
        decimal(n).len() > 0,
        decimal(n).last() as int == '0' as int + n % 10,
        n >= 10 ==> decimal(n).drop_last() == decimal(n / 10),
        n < 10 ==> decimal(n).len() == 1,
        n > 0 ==> decimal(n)[0] != '0',
    decreases n,
{
    if n >= 10 {
        law_decimals_count_tens_and_ones(n / 10);
        assert(decimal(n).drop_last() =~= decimal(n / 10));
        assert(decimal(n)[0] == decimal(n / 10)[0]);
    }
}

/// Only digits are a number, but for one plus sign before them.
pub proof fn law_only_digits_are_a_number(s: Seq<char>, i: int)
    requires
        number_value(s) is Some,
        0 <= i < s.len(),
    ensures
        '0' <= s[i] <= '9' || (i == 0 && s[i] == '+' && s.len() > 1),
        s[0] == '+' ==> number_value(s.drop_first()) == number_value(s),
{
    if s[0] == '+' {
        lemma_all_digits(s.drop_first());
        if i > 0 {
            assert(s.drop_first()[i - 1] == s[i]);
        }
    } else {
        lemma_all_digits(s);
    }
}

/// A number is made of digits.
proof fn lemma_all_digits(s: Seq<char>)
    ensures
        digits_value(s) is Some ==> s.len() > 0 && forall|i: int|
            0 <= i < s.len() ==> '0' <= #[trigger] s[i] <= '9',
    decreases s.len(),
{
    if s.len() > 1 {
        lemma_all_digits(s.drop_last());
        assert(digits_value(s) is Some ==> forall|i: int|
            0 <= i < s.len() ==> '0' <= #[trigger] s[i] <= '9') by {
            if digits_value(s) is Some {
                assert forall|i: int| 0 <= i < s.len() implies '0' <= #[trigger] s[i] <= '9' by {
                    if i < s.len() - 1 {
                        assert(s.drop_last()[i] == s[i]);
                    }
                }
            }
        }
    }
}

/// Texts are filled up with blanks to the width, and never cut.
pub proof fn law_alignment_adds_blanks_alone(s: Seq<char>, width: nat, i: int)
    ensures
        left_aligned(s, width).take(s.len() as int) == s,
        right_aligned(s, width).skip(right_aligned(s, width).len() - s.len()) == s,
        left_aligned(s, width).len() == if s.len() < width {
            width
        } else {
            s.len()
        },
        right_aligned(s, width).len() == left_aligned(s, width).len(),
        s.len() <= i < left_aligned(s, width).len() ==> left_aligned(s, width)[i] == ' ',
        0 <= i < right_aligned(s, width).len() - s.len() ==> right_aligned(s, width)[i] == ' ',
{
    assert(left_aligned(s, width).take(s.len() as int) =~= s);
    assert(right_aligned(s, width).skip(right_aligned(s, width).len() - s.len()) =~= s);
}

/// One more part comes after one more separator.
pub proof fn law_parts_are_joined_one_by_one(
    parts: Seq<Seq<char>>,
    part: Seq<char>,
    sep: Seq<char>,
)
    ensures
        joined(parts.push(part), sep) == if parts.len() == 0 {
            part
        } else {
            joined(parts, sep) + sep + part
        },
{
    assert(parts.push(part).drop_last() =~= parts);
}

/// The texts of a list are those of its strings, each in its place.
pub proof fn law_texts_stand_in_their_places(v: Seq<String>, s: String, i: int)
    ensures
        texts(v).len() == v.len(),
        0 <= i < v.len() ==> texts(v)[i] == v[i]@,
        opt_text(Some(s)) == Some(s@),
        opt_text(None) is None,
{
}

} // verus!
