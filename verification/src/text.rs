//! Plain-text groundwork: ASCII lowercasing, whitespace splitting and
//! character-wise string comparison.  Every command line is broken into
//! whitespace-separated words before the engine interprets it.

use vstd::prelude::*;

verus! {

/// The whitespace characters that separate words of a command line.
pub open spec fn is_space(c: char) -> bool {
    c == ' ' || c == '\t' || c == '\n' || c == '\r' || c == '\u{000B}' || c == '\u{000C}'
}

/// ASCII lowercasing of a single character; everything outside `A`..`Z`
/// is left unchanged.
pub open spec fn lower_char(c: char) -> char {
    if c == 'A' {
        'a'
    } else if c == 'B' {
        'b'
    } else if c == 'C' {
        'c'
    } else if c == 'D' {
        'd'
    } else if c == 'E' {
        'e'
    } else if c == 'F' {
        'f'
    } else if c == 'G' {
        'g'
    } else if c == 'H' {
        'h'
    } else if c == 'I' {
        'i'
    } else if c == 'J' {
        'j'
    } else if c == 'K' {
        'k'
    } else if c == 'L' {
        'l'
    } else if c == 'M' {
        'm'
    } else if c == 'N' {
        'n'
    } else if c == 'O' {
        'o'
    } else if c == 'P' {
        'p'
    } else if c == 'Q' {
        'q'
    } else if c == 'R' {
        'r'
    } else if c == 'S' {
        's'
    } else if c == 'T' {
        't'
    } else if c == 'U' {
        'u'
    } else if c == 'V' {
        'v'
    } else if c == 'W' {
        'w'
    } else if c == 'X' {
        'x'
    } else if c == 'Y' {
        'y'
    } else if c == 'Z' {
        'z'
    } else {
        c
    }
}

/// ASCII lowercasing of a whole word.
pub open spec fn lower(s: Seq<char>) -> Seq<char> {
    Seq::new(s.len(), |i: int| lower_char(s[i]))
}

/// The words of `s` still to be produced from position `i` on, given the
/// partial word `cur` gathered so far.  Words are maximal runs of
/// non-whitespace characters.
pub open spec fn words_from(s: Seq<char>, i: int, cur: Seq<char>) -> Seq<Seq<char>>
    decreases s.len() - i,
{
    if i < 0 || i >= s.len() {
        if cur.len() == 0 {
            Seq::empty()
        } else {
            seq![cur]
        }
    } else if is_space(s[i]) {
        (if cur.len() == 0 {
            Seq::empty()
        } else {
            seq![cur]
        }) + words_from(s, i + 1, Seq::empty())
    } else {
        words_from(s, i + 1, cur.push(s[i]))
    }
}

/// The whitespace-separated words of `s`, in order.
pub open spec fn words(s: Seq<char>) -> Seq<Seq<char>> {
    words_from(s, 0, Seq::empty())
}

/// Relies on std's `String::push`, which appends the given character to
/// the end of the string.
#[verifier::external_body]
fn push_char(s: &mut String, c: char)
    ensures
        final(s)@ == old(s)@.push(c),
{
    s.push(c);
}

/// Executable test of [`is_space`].
fn is_space_char(c: char) -> (r: bool)
    ensures
        r == is_space(c),
{
    c == ' ' || c == '\t' || c == '\n' || c == '\r' || c == '\u{000B}' || c == '\u{000C}'
}

/// Executable ASCII lowercasing of a single character.
fn lower_char_exec(c: char) -> (r: char)
    ensures
        r == lower_char(c),
{
    if c == 'A' {
        'a'
    } else if c == 'B' {
        'b'
    } else if c == 'C' {
        'c'
    } else if c == 'D' {
        'd'
    } else if c == 'E' {
        'e'
    } else if c == 'F' {
        'f'
    } else if c == 'G' {
        'g'
    } else if c == 'H' {
        'h'
    } else if c == 'I' {
        'i'
    } else if c == 'J' {
        'j'
    } else if c == 'K' {
        'k'
    } else if c == 'L' {
        'l'
    } else if c == 'M' {
        'm'
    } else if c == 'N' {
        'n'
    } else if c == 'O' {
        'o'
    } else if c == 'P' {
        'p'
    } else if c == 'Q' {
        'q'
    } else if c == 'R' {
        'r'
    } else if c == 'S' {
        's'
    } else if c == 'T' {
        't'
    } else if c == 'U' {
        'u'
    } else if c == 'V' {
        'v'
    } else if c == 'W' {
        'w'
    } else if c == 'X' {
        'x'
    } else if c == 'Y' {
        'y'
    } else if c == 'Z' {
        'z'
    } else {
        c
    }
}

/// ASCII lowercasing of a whole string.
pub fn lowercase(s: &str) -> (r: String)
    ensures
        r@ == lower(s@),
{
    let n: usize = s.unicode_len();
    let mut r = String::new();
    let mut i: usize = 0;
    while i < n
        invariant
            i <= n,
            n == s@.len(),
            r@ == lower(s@.subrange(0, i as int)),
        decreases n - i,
    {
        let c = lower_char_exec(s.get_char(i));
        push_char(&mut r, c);
        proof {
            assert(lower(s@.subrange(0, i as int + 1)) =~= lower(s@.subrange(0, i as int)).push(
                lower_char(s@[i as int]),
            ));
        }
        i = i + 1;
    }
    proof {
        assert(s@.subrange(0, n as int) =~= s@);
    }
    r
}

/// Character-wise equality of two strings.
pub fn str_eq(a: &str, b: &str) -> (r: bool)
    ensures
        r == (a@ == b@),
{
    let n: usize = a.unicode_len();
    if n != b.unicode_len() {
        return false;
    }
    let mut i: usize = 0;
    while i < n
        invariant
            i <= n,
            n == a@.len(),
            n == b@.len(),
            forall|j: int| 0 <= j < i ==> a@[j] == b@[j],
        decreases n - i,
    {
        if a.get_char(i) != b.get_char(i) {
            return false;
        }
        i = i + 1;
    }
    proof {
        assert(a@ =~= b@);
    }
    true
}

/// Splits a line into its whitespace-separated words.
pub fn split_words(s: &str) -> (r: Vec<String>)
    ensures
        r.deep_view() == words(s@),
{
    let n: usize = s.unicode_len();
    let mut r: Vec<String> = Vec::new();
    let mut cur = String::new();
    let mut i: usize = 0;
    proof {
        assert(r.deep_view() =~= Seq::<Seq<char>>::empty());
    }
    while i < n
        invariant
            i <= n,
            n == s@.len(),
            r.deep_view() + words_from(s@, i as int, cur@) =~= words(s@),
        decreases n - i,
    {
        let c = s.get_char(i);
        if is_space_char(c) {
            if !cur.as_str().is_empty() {
                let ghost prev = r.deep_view();
                let ghost cv = cur@;
                r.push(cur);
                cur = String::new();
                proof {
                    assert(words_from(s@, i as int, cv) == seq![cv] + words_from(
                        s@,
                        i as int + 1,
                        Seq::empty(),
                    ));
                    assert(r.deep_view() =~= prev.push(cv));
                    assert(prev.push(cv) + words_from(s@, i as int + 1, Seq::empty()) =~= prev + (
                    seq![cv] + words_from(s@, i as int + 1, Seq::empty())));
                    assert(r.deep_view() + words_from(s@, i as int + 1, cur@) =~= words(s@));
                }
            } else {
                proof {
                    assert(cur@ =~= Seq::<char>::empty());
                    assert(words_from(s@, i as int, cur@) == Seq::<Seq<char>>::empty()
                        + words_from(s@, i as int + 1, Seq::empty()));
                    assert(Seq::<Seq<char>>::empty() + words_from(s@, i as int + 1, Seq::empty())
                        =~= words_from(s@, i as int + 1, Seq::empty()));
                    assert(r.deep_view() + words_from(s@, i as int + 1, cur@) =~= words(s@));
                }
            }
        } else {
            let ghost oc = cur@;
            push_char(&mut cur, c);
            proof {
                assert(words_from(s@, i as int, oc) == words_from(s@, i as int + 1, oc.push(
                    s@[i as int],
                )));
                assert(r.deep_view() + words_from(s@, i as int + 1, cur@) =~= words(s@));
            }
        }
        i = i + 1;
    }
    if !cur.as_str().is_empty() {
        let ghost prev = r.deep_view();
        let ghost cv = cur@;
        r.push(cur);
        proof {
            assert(r.deep_view() =~= prev.push(cv));
            assert(prev.push(cv) =~= prev + seq![cv]);
        }
    }
    proof {
        assert(r.deep_view() =~= words(s@));
    }
    r
}

/// Every word produced from position `i` on is nonempty: a word is only
/// emitted once at least one non-whitespace character has been gathered.
proof fn lemma_words_from_nonempty(s: Seq<char>, i: int, cur: Seq<char>)
    ensures
        forall|k: int|
            0 <= k < words_from(s, i, cur).len() ==> (#[trigger] words_from(s, i, cur)[k]).len()
                > 0,
    decreases s.len() - i,
{
    if i < 0 || i >= s.len() {
    } else if is_space(s[i]) {
        lemma_words_from_nonempty(s, i + 1, Seq::empty());
        let head = if cur.len() == 0 {
            Seq::<Seq<char>>::empty()
        } else {
            seq![cur]
        };
        let tail = words_from(s, i + 1, Seq::empty());
        assert(words_from(s, i, cur) == head + tail);
        assert forall|k: int| 0 <= k < words_from(s, i, cur).len() implies (#[trigger] words_from(
            s,
            i,
            cur,
        )[k]).len() > 0 by {
            if k < head.len() {
                assert(words_from(s, i, cur)[k] == cur);
            } else {
                assert(words_from(s, i, cur)[k] == tail[k - head.len()]);
            }
        }
    } else {
        lemma_words_from_nonempty(s, i + 1, cur.push(s[i]));
        assert(words_from(s, i, cur) == words_from(s, i + 1, cur.push(s[i])));
    }
}

/// Every word of a line is nonempty.
pub proof fn lemma_words_nonempty(s: Seq<char>)
    ensures
        forall|k: int| 0 <= k < words(s).len() ==> (#[trigger] words(s)[k]).len() > 0,
{
    lemma_words_from_nonempty(s, 0, Seq::empty());
}

/// A line that has any non-whitespace character splits into at least one
/// word; with this a caller can discharge the engine's demand that a turn
/// hold at least one word.
proof fn lemma_words_from_exist(s: Seq<char>, i: int, cur: Seq<char>)
    requires
        0 <= i,
        cur.len() > 0 || exists|j: int| i <= j < s.len() && !is_space(#[trigger] s[j]),
    ensures
        words_from(s, i, cur).len() > 0,
    decreases s.len() - i,
{
    if i >= s.len() {
    } else if is_space(s[i]) {
        if cur.len() == 0 {
            let j0 = choose|j: int| i <= j < s.len() && !is_space(#[trigger] s[j]);
            assert(i + 1 <= j0 < s.len() && !is_space(s[j0]));
            lemma_words_from_exist(s, i + 1, Seq::empty());
        } else {
            assert(words_from(s, i, cur).len() == 1 + words_from(s, i + 1, Seq::empty()).len());
        }
    } else {
        lemma_words_from_exist(s, i + 1, cur.push(s[i]));
    }
}

/// A line with any non-whitespace character has at least one word.
pub proof fn lemma_words_exist(s: Seq<char>)
    requires
        exists|j: int| 0 <= j < s.len() && !is_space(#[trigger] s[j]),
    ensures
        words(s).len() > 0,
{
    lemma_words_from_exist(s, 0, Seq::empty());
}

} // verus!
