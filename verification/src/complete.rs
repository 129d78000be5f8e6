//! Word completion: given a line and a cursor position, the word being
//! typed is the run of characters after the last break character, and the
//! candidates are every vocabulary entry it is a prefix of.

use vstd::prelude::*;
use vstd::string::*;

verus! {

/// Characters that end a word: space, parentheses and comma.
pub open spec fn is_break(c: char) -> bool {
    c == ' ' || c == '(' || c == ')' || c == ','
}

/// Executable check for [`is_break`].
fn is_break_char(c: char) -> (r: bool)
    ensures
        r == is_break(c),
{
    c == ' ' || c == '(' || c == ')' || c == ','
}

/// The start of the word under the cursor, within the line text up to the
/// cursor: the position right after the last break character.
pub open spec fn word_start(s: Seq<char>) -> int
    decreases s.len(),
{
    if s.len() == 0 {
        0
    } else if is_break(s.last()) {
        s.len() as int
    } else {
        word_start(s.drop_last())
    }
}

/// The word under the cursor at `pos`.
pub open spec fn current_word(line: Seq<char>, pos: int) -> Seq<char> {
    line.take(pos).skip(word_start(line.take(pos)))
}

/// Every entry of `words` from position `i` on that `w` is a prefix of, in
/// vocabulary order.
pub open spec fn prefix_matches_from(words: Seq<Seq<char>>, w: Seq<char>, i: int) -> Seq<
    Seq<char>,
>
    decreases words.len() - i,
{
    if i < 0 || i >= words.len() {
        Seq::empty()
    } else if w.is_prefix_of(words[i]) {
        seq![words[i]] + prefix_matches_from(words, w, i + 1)
    } else {
        prefix_matches_from(words, w, i + 1)
    }
}

/// The completion candidates for `w` out of `words`.
pub open spec fn prefix_matches(words: Seq<Seq<char>>, w: Seq<char>) -> Seq<Seq<char>> {
    prefix_matches_from(words, w, 0)
}

/// Law: a name is among the completion candidates exactly when it is a
/// vocabulary entry that the current word is a prefix of.
pub proof fn lemma_prefix_matches_complete(words: Seq<Seq<char>>, w: Seq<char>, v: Seq<char>)
    ensures
        prefix_matches(words, w).contains(v) <==> exists|i: int|
            0 <= i < words.len() && words[i] == v && w.is_prefix_of(v),
{
    lemma_prefix_matches_complete_from(words, w, v, 0);
}

proof fn lemma_prefix_matches_complete_from(
    words: Seq<Seq<char>>,
    w: Seq<char>,
    v: Seq<char>,
    i: int,
)
    requires
        0 <= i,
    ensures
        prefix_matches_from(words, w, i).contains(v) <==> exists|k: int|
            i <= k < words.len() && words[k] == v && w.is_prefix_of(v),
    decreases words.len() - i,
{
    if i < words.len() {
        lemma_prefix_matches_complete_from(words, w, v, i + 1);
        let r = prefix_matches_from(words, w, i);
        let rest = prefix_matches_from(words, w, i + 1);
        if w.is_prefix_of(words[i]) {
            assert(r == seq![words[i]] + rest);
            if r.contains(v) {
                let k = choose|k: int| 0 <= k < r.len() && r[k] == v;
                if k == 0 {
                    assert(words[i] == v);
                } else {
                    assert(rest[k - 1] == v);
                    assert(rest.contains(v));
                }
            }
            if exists|k: int| i <= k < words.len() && words[k] == v && w.is_prefix_of(v) {
                let k = choose|k: int|
                    i <= k < words.len() && words[k] == v && w.is_prefix_of(v);
                if k == i {
                    assert(r[0] == v);
                } else {
                    assert(rest.contains(v));
                    let m = choose|m: int| 0 <= m < rest.len() && rest[m] == v;
                    assert(r[m + 1] == v);
                }
            }
        } else {
            if exists|k: int| i <= k < words.len() && words[k] == v && w.is_prefix_of(v) {
                let k = choose|k: int|
                    i <= k < words.len() && words[k] == v && w.is_prefix_of(v);
                assert(k != i);
            }
        }
    }
}

/// Law: an empty word matches the whole vocabulary.
pub proof fn lemma_prefix_matches_empty(words: Seq<Seq<char>>, w: Seq<char>)
    requires
        w.len() == 0,
    ensures
        prefix_matches(words, w) == words,
{
    lemma_prefix_matches_empty_from(words, w, 0);
    assert(words.skip(0) =~= words);
}

proof fn lemma_prefix_matches_empty_from(words: Seq<Seq<char>>, w: Seq<char>, i: int)
    requires
        w.len() == 0,
        0 <= i,
    ensures
        prefix_matches_from(words, w, i) == words.skip(if i <= words.len() {
            i
        } else {
            words.len() as int
        }),
    decreases words.len() - i,
{
    if i < words.len() {
        assert(w.is_prefix_of(words[i])) by {
            assert(w =~= words[i].subrange(0, 0));
        }
        lemma_prefix_matches_empty_from(words, w, i + 1);
        assert(seq![words[i]] + words.skip(i + 1) =~= words.skip(i));
    } else {
        assert(words.skip(words.len() as int) =~= Seq::<Seq<char>>::empty());
    }
}

/// Does `p` start the string `s`?
fn is_prefix_of_str(p: &Vec<char>, s: &str) -> (r: bool)
    ensures
        r == p@.is_prefix_of(s@),
{
    let n = s.unicode_len();
    if p.len() > n {
        return false;
    }
    let mut i: usize = 0;
    while i < p.len()
        invariant
            i <= p@.len() <= s@.len(),
            n == s@.len(),
            forall|k: int| 0 <= k < i ==> p@[k] == s@[k],
        decreases p@.len() - i,
    {
        if s.get_char(i) != p[i] {
            assert(!p@.is_prefix_of(s@));
            return false;
        }
        i = i + 1;
    }
    proof {
        assert(p@ =~= s@.subrange(0, p@.len() as int));
    }
    true
}

/// A word completer over a fixed vocabulary.
pub struct SimpleWordCompleter {
    pub words: Vec<String>,
}

impl SimpleWordCompleter {
    /// A completer holding exactly the given vocabulary.
    pub fn new(words: Vec<String>) -> (r: SimpleWordCompleter)
        ensures
            r.words == words,
    {
        SimpleWordCompleter { words }
    }

    /// The start of the word under the cursor and every vocabulary entry
    /// that word is a prefix of, in vocabulary order.
    pub fn complete(&self, line: &Vec<char>, pos: usize) -> (r: (usize, Vec<String>))
        requires
            pos <= line@.len(),
        ensures
            r.0 == word_start(line@.take(pos as int)),
            r.1.deep_view() == prefix_matches(
                self.words.deep_view(),
                current_word(line@, pos as int),
            ),
    {
        let ghost lp = line@.take(pos as int);
        let mut start: usize = pos;
        while start > 0 && !is_break_char(line[start - 1])
            invariant
                start <= pos <= line@.len(),
                lp == line@.take(pos as int),
                word_start(lp) == word_start(line@.take(start as int)),
            decreases start,
        {
            start = start - 1;
            proof {
                assert(line@.take(start + 1).drop_last() =~= line@.take(start as int));
            }
        }
        proof {
            if start > 0 {
                assert(line@.take(start as int).last() == line@[start - 1]);
            }
            assert(word_start(lp) == start as int);
        }
        let mut w: Vec<char> = Vec::new();
        let mut k: usize = start;
        while k < pos
            invariant
                start <= k <= pos <= line@.len(),
                w@ == line@.subrange(start as int, k as int),
            decreases pos - k,
        {
            w.push(line[k]);
            k = k + 1;
            proof {
                assert(line@.subrange(start as int, k as int)
                    =~= line@.subrange(start as int, k - 1).push(line@[k - 1]));
            }
        }
        proof {
            assert(w@ =~= current_word(line@, pos as int));
        }
        let ghost wv = self.words.deep_view();
        let ghost cw = current_word(line@, pos as int);
        let mut matches: Vec<String> = Vec::new();
        let mut i: usize = 0;
        while i < self.words.len()
            invariant
                i <= self.words@.len(),
                wv == self.words.deep_view(),
                w@ == cw,
                matches.deep_view() + prefix_matches_from(wv, cw, i as int)
                    == prefix_matches_from(wv, cw, 0),
            decreases self.words@.len() - i,
        {
            proof {
                assert(wv[i as int] == self.words@[i as int]@);
            }
            if is_prefix_of_str(&w, self.words[i].as_str()) {
                matches.push(self.words[i].clone());
            }
            i = i + 1;
            proof {
                assert(matches.deep_view() + prefix_matches_from(wv, cw, i as int)
                    =~= prefix_matches_from(wv, cw, 0));
            }
        }
        proof {
            assert(prefix_matches_from(wv, cw, i as int) =~= Seq::<Seq<char>>::empty());
            assert(matches.deep_view() =~= prefix_matches(wv, cw));
        }
        (start, matches)
    }
}

} // verus!
