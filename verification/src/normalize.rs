//! Column-name normalization: a raw header string becomes a safe, lower-case
//! identifier.  Every parenthesized span (a `(` up to the next `)`, shortest
//! match, non-overlapping) is removed, the remainder is lower-cased, spaces
//! become underscores, dots and question marks are dropped, and residual
//! leading and trailing whitespace is trimmed.
//!
//! Lower-casing is deliberately ASCII-scoped: only `A`–`Z` are mapped, and
//! any other character passes through unchanged.  Unicode case mapping is
//! not a fixed character map (it is context-sensitive and can change the
//! length of the text), so it cannot be stated here as the exact,
//! idempotent function that these contracts and laws prove; the identifier
//! characters this tool is for are ASCII.  Trimming, by contrast, removes
//! the whole Unicode `White_Space` set.

use vstd::prelude::*;
use crate::text::{is_space, is_space_char, chars_of, string_from_chars};

verus! {

// ---------------------------------------------------------------------------
// Parenthesized-span removal
// ---------------------------------------------------------------------------

/// The position of the first `)` at or after `i`, if any.
pub open spec fn find_close(s: Seq<char>, i: int) -> Option<int>
    decreases s.len() - i,
{
    if i < 0 || i >= s.len() {
        None
    } else if s[i] == ')' {
        Some(i)
    } else {
        find_close(s, i + 1)
    }
}

pub proof fn lemma_find_close_some(s: Seq<char>, i: int)
    ensures
        find_close(s, i) matches Some(j) ==> i <= j < s.len() && s[j] == ')',
    decreases s.len() - i,
{
    if 0 <= i < s.len() && s[i] != ')' {
        lemma_find_close_some(s, i + 1);
    }
}

pub proof fn lemma_find_close_none(s: Seq<char>, i: int)
    requires
        0 <= i,
    ensures
        find_close(s, i) is None <==> (forall|k: int| i <= k < s.len() ==> s[k] != ')'),
    decreases s.len() - i,
{
    if i < s.len() && s[i] != ')' {
        lemma_find_close_none(s, i + 1);
    }
}

/// The characters of `s` from position `i` on, with every parenthesized span
/// removed: at each `(` that has a later `)`, everything through that next
/// `)` is dropped and scanning resumes after it.
pub open spec fn strip_from(s: Seq<char>, i: int) -> Seq<char>
    decreases s.len() - i,
    via strip_from_dec
{
    if i < 0 || i >= s.len() {
        Seq::empty()
    } else if s[i] == '(' && find_close(s, i + 1) is Some {
        strip_from(s, find_close(s, i + 1)->Some_0 + 1)
    } else {
        seq![s[i]] + strip_from(s, i + 1)
    }
}

#[via_fn]
proof fn strip_from_dec(s: Seq<char>, i: int) {
    lemma_find_close_some(s, i + 1);
}

/// Parenthesized-span removal over a whole string.
pub open spec fn strip_parens(s: Seq<char>) -> Seq<char> {
    strip_from(s, 0)
}

/// No `(` in `s` from position `i` on is followed by a `)`.
pub open spec fn no_span_from(s: Seq<char>, i: int) -> bool {
    forall|p: int, q: int| i <= p < q < s.len() && s[p] == '(' ==> s[q] != ')'
}

/// No `(` anywhere in `s` is followed by a `)`: the span pattern cannot
/// match anywhere.
pub open spec fn no_span(s: Seq<char>) -> bool {
    no_span_from(s, 0)
}

/// When no `)` occurs at or after `i`, nothing is removed.
proof fn lemma_strip_all_kept(s: Seq<char>, i: int)
    requires
        0 <= i <= s.len(),
        forall|k: int| i <= k < s.len() ==> s[k] != ')',
    ensures
        strip_from(s, i) == s.subrange(i, s.len() as int),
    decreases s.len() - i,
{
    if i < s.len() {
        lemma_find_close_none(s, i + 1);
        lemma_strip_all_kept(s, i + 1);
        assert(seq![s[i]] + s.subrange(i + 1, s.len() as int)
            =~= s.subrange(i, s.len() as int));
    } else {
        assert(s.subrange(i, s.len() as int) =~= Seq::<char>::empty());
    }
}

/// The output of span removal has no complete span left in it.
pub proof fn lemma_strip_no_span(s: Seq<char>, i: int)
    requires
        0 <= i,
    ensures
        no_span(strip_from(s, i)),
    decreases s.len() - i,
{
    if i >= s.len() {
    } else if s[i] == '(' && find_close(s, i + 1) is Some {
        lemma_find_close_some(s, i + 1);
        lemma_strip_no_span(s, find_close(s, i + 1)->Some_0 + 1);
    } else if s[i] == '(' {
        // No later `)` at all: the whole suffix is kept and holds no `)`.
        lemma_find_close_none(s, i + 1);
        lemma_strip_all_kept(s, i + 1);
        let r = strip_from(s, i);
        assert forall|p: int, q: int|
            0 <= p < q < r.len() && r[p] == '(' implies r[q] != ')' by {
            assert(r[q] == s.subrange(i + 1, s.len() as int)[q - 1]);
        }
    } else {
        lemma_strip_no_span(s, i + 1);
        let r = strip_from(s, i);
        let rest = strip_from(s, i + 1);
        assert forall|p: int, q: int|
            0 <= p < q < r.len() && r[p] == '(' implies r[q] != ')' by {
            assert(r[p] == rest[p - 1] && r[q] == rest[q - 1]);
        }
    }
}

/// On a string with no complete span, removal keeps every character.
proof fn lemma_strip_identity_from(s: Seq<char>, i: int)
    requires
        no_span(s),
        0 <= i <= s.len(),
    ensures
        strip_from(s, i) == s.subrange(i, s.len() as int),
    decreases s.len() - i,
{
    if i >= s.len() {
        assert(s.subrange(i, s.len() as int) =~= Seq::<char>::empty());
    } else {
        if s[i] == '(' {
            lemma_find_close_none(s, i + 1);
        }
        lemma_strip_identity_from(s, i + 1);
        assert(seq![s[i]] + s.subrange(i + 1, s.len() as int)
            =~= s.subrange(i, s.len() as int));
    }
}

/// Span removal is the identity on its own output.
pub proof fn lemma_strip_identity(s: Seq<char>)
    requires
        no_span(s),
    ensures
        strip_parens(s) == s,
{
    lemma_strip_identity_from(s, 0);
    assert(s.subrange(0, s.len() as int) =~= s);
}

// ---------------------------------------------------------------------------
// Character cleaning: lower-case, space to underscore, drop dots and
// question marks
// ---------------------------------------------------------------------------

/// ASCII upper-case letters.
pub open spec fn is_upper(c: char) -> bool {
    'A' <= c && c <= 'Z'
}

/// The lower-case counterpart of an ASCII upper-case letter; any other
/// character is unchanged.
pub open spec fn lower_char(c: char) -> char {
    match c {
        'A' => 'a',
        'B' => 'b',
        'C' => 'c',
        'D' => 'd',
        'E' => 'e',
        'F' => 'f',
        'G' => 'g',
        'H' => 'h',
        'I' => 'i',
        'J' => 'j',
        'K' => 'k',
        'L' => 'l',
        'M' => 'm',
        'N' => 'n',
        'O' => 'o',
        'P' => 'p',
        'Q' => 'q',
        'R' => 'r',
        'S' => 's',
        'T' => 't',
        'U' => 'u',
        'V' => 'v',
        'W' => 'w',
        'X' => 'x',
        'Y' => 'y',
        'Z' => 'z',
        _ => c,
    }
}

/// Executable counterpart of [`lower_char`].
pub fn lower_char_exec(c: char) -> (r: char)
    ensures
        r == lower_char(c),
{
    match c {
        'A' => 'a',
        'B' => 'b',
        'C' => 'c',
        'D' => 'd',
        'E' => 'e',
        'F' => 'f',
        'G' => 'g',
        'H' => 'h',
        'I' => 'i',
        'J' => 'j',
        'K' => 'k',
        'L' => 'l',
        'M' => 'm',
        'N' => 'n',
        'O' => 'o',
        'P' => 'p',
        'Q' => 'q',
        'R' => 'r',
        'S' => 's',
        'T' => 't',
        'U' => 'u',
        'V' => 'v',
        'W' => 'w',
        'X' => 'x',
        'Y' => 'y',
        'Z' => 'z',
        _ => c,
    }
}

/// What one character contributes to the cleaned string: dots and question
/// marks vanish, a space becomes an underscore, everything else is
/// lower-cased.
pub open spec fn clean_char(c: char) -> Seq<char> {
    if c == '.' || c == '?' {
        Seq::empty()
    } else if c == ' ' {
        seq!['_']
    } else {
        seq![lower_char(c)]
    }
}

/// The cleaned form of `s` from position `i` on.
pub open spec fn clean_from(s: Seq<char>, i: int) -> Seq<char>
    decreases s.len() - i,
{
    if i < 0 || i >= s.len() {
        Seq::empty()
    } else {
        clean_char(s[i]) + clean_from(s, i + 1)
    }
}

/// Cleaning over a whole string.
pub open spec fn clean(s: Seq<char>) -> Seq<char> {
    clean_from(s, 0)
}

/// A character that cleaning leaves exactly as it is.
pub open spec fn char_ok(c: char) -> bool {
    c != ' ' && c != '.' && c != '?' && !is_upper(c)
}

pub proof fn lemma_lower_char_ok(c: char)
    ensures
        !is_upper(lower_char(c)),
        lower_char(c) == ')' <==> c == ')',
        lower_char(c) == '(' <==> c == '(',
        !is_upper(c) ==> lower_char(c) == c,
        lower_char(c) != ' ' && lower_char(c) != '_' ==> c != ' ',
{
}

/// Every character of a cleaned string is safe: no space, dot or question
/// mark, and no upper-case ASCII letter.
pub proof fn lemma_clean_chars(s: Seq<char>, i: int)
    ensures
        forall|k: int|
            0 <= k < clean_from(s, i).len() ==> #[trigger] char_ok(clean_from(s, i)[k]),
    decreases s.len() - i,
{
    if 0 <= i < s.len() {
        lemma_clean_chars(s, i + 1);
        let r = clean_from(s, i);
        let rest = clean_from(s, i + 1);
        assert forall|k: int| 0 <= k < r.len() implies #[trigger] char_ok(r[k]) by {
            lemma_lower_char_ok(s[i]);
            if k >= clean_char(s[i]).len() {
                assert(r[k] == rest[k - clean_char(s[i]).len()]);
                assert(char_ok(rest[k - clean_char(s[i]).len()]));
            }
        }
    }
}

/// Cleaning is the identity on a string whose characters are all safe.
pub proof fn lemma_clean_identity(s: Seq<char>, i: int)
    requires
        0 <= i <= s.len(),
        forall|k: int| 0 <= k < s.len() ==> #[trigger] char_ok(s[k]),
    ensures
        clean_from(s, i) == s.subrange(i, s.len() as int),
    decreases s.len() - i,
{
    if i >= s.len() {
        assert(s.subrange(i, s.len() as int) =~= Seq::<char>::empty());
    } else {
        lemma_lower_char_ok(s[i]);
        assert(char_ok(s[i]));
        lemma_clean_identity(s, i + 1);
        assert(seq![s[i]] + s.subrange(i + 1, s.len() as int)
            =~= s.subrange(i, s.len() as int));
    }
}

/// When no `)` occurs in `s` at or after `i`, none occurs in the cleaned
/// string either.
proof fn lemma_clean_no_close(s: Seq<char>, i: int)
    requires
        0 <= i,
        forall|k: int| i <= k < s.len() ==> s[k] != ')',
    ensures
        forall|k: int| 0 <= k < clean_from(s, i).len() ==> clean_from(s, i)[k] != ')',
    decreases s.len() - i,
{
    if 0 <= i < s.len() {
        lemma_clean_no_close(s, i + 1);
        let r = clean_from(s, i);
        let rest = clean_from(s, i + 1);
        assert forall|k: int| 0 <= k < r.len() implies r[k] != ')' by {
            lemma_lower_char_ok(s[i]);
            if k >= clean_char(s[i]).len() {
                assert(r[k] == rest[k - clean_char(s[i]).len()]);
            }
        }
    }
}

/// Cleaning preserves the absence of complete parenthesized spans.
pub proof fn lemma_clean_no_span(s: Seq<char>, i: int)
    requires
        0 <= i,
        no_span_from(s, i),
    ensures
        no_span(clean_from(s, i)),
    decreases s.len() - i,
{
    if 0 <= i < s.len() {
        assert(no_span_from(s, i + 1));
        lemma_clean_no_span(s, i + 1);
        let r = clean_from(s, i);
        let rest = clean_from(s, i + 1);
        let head = clean_char(s[i]);
        assert forall|p: int, q: int|
            0 <= p < q < r.len() && r[p] == '(' implies r[q] != ')' by {
            lemma_lower_char_ok(s[i]);
            if p >= head.len() {
                // Both positions fall in the cleaned tail.
                assert(r[p] == rest[p - head.len()]);
                assert(r[q] == rest[q - head.len()]);
            } else {
                // The head contributes at most one character; if it is a
                // `(` then `s[i]` was a `(`, so no `)` follows in `s`,
                // hence none in the cleaned tail.
                assert(head.len() == 1 && p == 0);
                assert(r[0] == head[0]);
                assert(head[0] == '(' ==> s[i] == '(');
                assert(s[i] == '(' ==> forall|k: int| i + 1 <= k < s.len() ==> s[k] != ')');
                if s[i] == '(' {
                    lemma_clean_no_close(s, i + 1);
                }
                assert(r[q] == rest[q - 1]);
            }
        }
    }
}

// ---------------------------------------------------------------------------
// Trimming
// ---------------------------------------------------------------------------

/// The first position at or after `i` holding a non-whitespace character,
/// or the length of `s` when there is none.
pub open spec fn first_solid(s: Seq<char>, i: int) -> int
    decreases s.len() - i,
{
    if i < 0 || i >= s.len() {
        s.len() as int
    } else if !is_space(s[i]) {
        i
    } else {
        first_solid(s, i + 1)
    }
}

/// One past the last position before `j` holding a non-whitespace
/// character, or 0 when there is none.
pub open spec fn last_solid(s: Seq<char>, j: int) -> int
    decreases j,
{
    if j <= 0 || j > s.len() {
        0
    } else if !is_space(s[j - 1]) {
        j
    } else {
        last_solid(s, j - 1)
    }
}

/// `s` with leading and trailing whitespace removed.
pub open spec fn trim_spec(s: Seq<char>) -> Seq<char> {
    let a = first_solid(s, 0);
    let b = last_solid(s, s.len() as int);
    if a < b {
        s.subrange(a, b)
    } else {
        Seq::empty()
    }
}

pub proof fn lemma_first_solid(s: Seq<char>, i: int)
    requires
        0 <= i <= s.len(),
    ensures
        i <= first_solid(s, i) <= s.len(),
        first_solid(s, i) < s.len() ==> !is_space(s[first_solid(s, i)]),
        forall|k: int| i <= k < first_solid(s, i) ==> is_space(s[k]),
    decreases s.len() - i,
{
    if i < s.len() && is_space(s[i]) {
        lemma_first_solid(s, i + 1);
    }
}

pub proof fn lemma_last_solid(s: Seq<char>, j: int)
    requires
        0 <= j <= s.len(),
    ensures
        0 <= last_solid(s, j) <= j,
        last_solid(s, j) > 0 ==> !is_space(s[last_solid(s, j) - 1]),
        forall|k: int| last_solid(s, j) <= k < j ==> is_space(s[k]),
    decreases j,
{
    if j > 0 && is_space(s[j - 1]) {
        lemma_last_solid(s, j - 1);
    }
}

/// A trimmed string is empty or starts and ends with non-whitespace.
pub proof fn lemma_trim_ends(s: Seq<char>)
    ensures
        trim_spec(s).len() == 0 || (!is_space(trim_spec(s)[0])
            && !is_space(trim_spec(s)[trim_spec(s).len() - 1])),
{
    lemma_first_solid(s, 0);
    lemma_last_solid(s, s.len() as int);
}

/// Trimming is the identity on a string that is empty or whose first and
/// last characters are not whitespace.
pub proof fn lemma_trim_identity(s: Seq<char>)
    requires
        s.len() == 0 || (!is_space(s[0]) && !is_space(s[s.len() - 1])),
    ensures
        trim_spec(s) == s,
{
    if s.len() == 0 {
        assert(trim_spec(s) =~= s);
    } else {
        assert(first_solid(s, 0) == 0);
        assert(last_solid(s, s.len() as int) == s.len());
        assert(s.subrange(0, s.len() as int) =~= s);
    }
}

// ---------------------------------------------------------------------------
// The normalizer
// ---------------------------------------------------------------------------

/// The normalized form of a raw header: parenthesized spans removed, the
/// remainder lower-cased (ASCII letters; see the module note) with spaces
/// as underscores and dots and question marks dropped, and leading and
/// trailing whitespace trimmed.
pub open spec fn normalize_spec(s: Seq<char>) -> Seq<char> {
    trim_spec(clean(strip_parens(s)))
}

/// Law: every character of a normalized name is safe — no space, no dot,
/// no question mark, and no upper-case ASCII letter.
pub proof fn lemma_normalize_safe(s: Seq<char>)
    ensures
        forall|k: int|
            0 <= k < normalize_spec(s).len() ==> #[trigger] char_ok(normalize_spec(s)[k]),
{
    let stripped = strip_parens(s);
    let cleaned = clean(stripped);
    lemma_clean_chars(stripped, 0);
    let a = first_solid(cleaned, 0);
    let b = last_solid(cleaned, cleaned.len() as int);
    lemma_first_solid(cleaned, 0);
    lemma_last_solid(cleaned, cleaned.len() as int);
    assert forall|k: int|
        0 <= k < normalize_spec(s).len() implies #[trigger] char_ok(normalize_spec(s)[k]) by {
        assert(normalize_spec(s)[k] == cleaned[a + k]);
    }
}

/// No complete parenthesized span survives in a normalized name.
proof fn lemma_normalize_no_span(s: Seq<char>)
    ensures
        no_span(normalize_spec(s)),
{
    let stripped = strip_parens(s);
    let cleaned = clean(stripped);
    lemma_strip_no_span(s, 0);
    lemma_clean_no_span(stripped, 0);
    let a = first_solid(cleaned, 0);
    let b = last_solid(cleaned, cleaned.len() as int);
    lemma_first_solid(cleaned, 0);
    lemma_last_solid(cleaned, cleaned.len() as int);
    let r = normalize_spec(s);
    assert forall|p: int, q: int|
        0 <= p < q < r.len() && r[p] == '(' implies r[q] != ')' by {
        assert(r[p] == cleaned[a + p] && r[q] == cleaned[a + q]);
    }
}

/// Law: normalization is idempotent — normalizing a name a second time
/// changes nothing.
pub proof fn lemma_normalize_idempotent(s: Seq<char>)
    ensures
        normalize_spec(normalize_spec(s)) == normalize_spec(s),
{
    let r = normalize_spec(s);
    lemma_normalize_safe(s);
    lemma_normalize_no_span(s);
    lemma_strip_identity(r);
    lemma_clean_identity(r, 0);
    assert(r.subrange(0, r.len() as int) =~= r);
    assert(clean(strip_parens(r)) == r);
    lemma_trim_ends(clean(strip_parens(s)));
    lemma_trim_identity(r);
}

// ---------------------------------------------------------------------------
// Executable normalizer
// ---------------------------------------------------------------------------

/// The position of the first `)` at or after `i`, if any.
fn find_close_exec(s: &Vec<char>, i: usize) -> (r: Option<usize>)
    requires
        i <= s@.len(),
    ensures
        match r {
            Some(j) => i <= j < s@.len() && find_close(s@, i as int) == Some(j as int),
            None => find_close(s@, i as int) is None,
        },
{
    let mut k = i;
    while k < s.len()
        invariant
            i <= k <= s@.len(),
            find_close(s@, i as int) == find_close(s@, k as int),
        decreases s@.len() - k,
    {
        if s[k] == ')' {
            return Some(k);
        }
        k = k + 1;
    }
    None
}

/// Removes every parenthesized span from `s`, starting at position `i`.
fn strip_from_exec(s: &Vec<char>, i: usize) -> (r: Vec<char>)
    requires
        i <= s@.len(),
    ensures
        r@ == strip_from(s@, i as int),
    decreases s@.len() - i,
{
    if i >= s.len() {
        let r: Vec<char> = Vec::new();
        return r;
    }
    if s[i] == '(' {
        if let Some(j) = find_close_exec(s, i + 1) {
            return strip_from_exec(s, j + 1);
        }
    }
    let mut r: Vec<char> = Vec::new();
    r.push(s[i]);
    let mut rest = strip_from_exec(s, i + 1);
    r.append(&mut rest);
    proof {
        assert(r@ =~= seq![s@[i as int]] + strip_from(s@, i + 1));
    }
    r
}

/// Cleans the characters of `s`: lower-case, spaces to underscores, dots
/// and question marks dropped.
fn clean_exec(s: &Vec<char>) -> (r: Vec<char>)
    ensures
        r@ == clean(s@),
{
    let mut r: Vec<char> = Vec::new();
    let mut i: usize = 0;
    while i < s.len()
        invariant
            i <= s@.len(),
            clean(s@) == r@ + clean_from(s@, i as int),
        decreases s@.len() - i,
    {
        let c = s[i];
        if c == '.' || c == '?' {
        } else if c == ' ' {
            r.push('_');
        } else {
            r.push(lower_char_exec(c));
        }
        i = i + 1;
        proof {
            assert(clean_from(s@, i - 1) == clean_char(s@[i - 1]) + clean_from(s@, i as int));
            assert(clean(s@) == r@ + clean_from(s@, i as int));
        }
    }
    r
}

/// Removes leading and trailing whitespace.
fn trim_exec(s: &Vec<char>) -> (r: Vec<char>)
    ensures
        r@ == trim_spec(s@),
{
    let ghost gs = s@;
    let mut a: usize = 0;
    while a < s.len() && is_space_char(s[a])
        invariant
            0 <= a <= s@.len(),
            first_solid(s@, 0) == first_solid(s@, a as int),
        decreases s@.len() - a,
    {
        a = a + 1;
    }
    let mut b: usize = s.len();
    while b > 0 && is_space_char(s[b - 1])
        invariant
            0 <= b <= s@.len(),
            last_solid(s@, s@.len() as int) == last_solid(s@, b as int),
        decreases b,
    {
        b = b - 1;
    }
    proof {
        assert(first_solid(s@, a as int) == a as int);
        assert(last_solid(s@, b as int) == b as int);
    }
    let mut r: Vec<char> = Vec::new();
    if a < b {
        let mut k = a;
        while k < b
            invariant
                a <= k <= b <= s@.len(),
                r@ == s@.subrange(a as int, k as int),
            decreases b - k,
        {
            r.push(s[k]);
            k = k + 1;
            proof {
                assert(s@.subrange(a as int, k as int)
                    =~= s@.subrange(a as int, k - 1).push(s@[k - 1]));
            }
        }
    }
    r
}

/// Normalizes one raw header field into a safe column identifier.
pub fn normalize_col(col: &str) -> (r: String)
    ensures
        r@ == normalize_spec(col@),
{
    let cs = chars_of(col);
    let stripped = strip_from_exec(&cs, 0);
    let cleaned = clean_exec(&stripped);
    let trimmed = trim_exec(&cleaned);
    string_from_chars(&trimmed)
}

} // verus!
