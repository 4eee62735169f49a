//! Text primitives shared by the whole crate: what counts as white space,
//! trimming, splitting a text into words, joining words back with single
//! spaces, and rendering a number in decimal.
//!
//! Every executable function here comes with a specification function over
//! `Seq<char>`, and the lemmas at the end relate those specifications to each
//! other.

use vstd::prelude::*;
use vstd::string::StringExecFns;

verus! {

broadcast use vstd::string::group_string_axioms;

/// `String::push` appends one character.
pub assume_specification[ String::push ](s: &mut String, c: char)
    ensures
        final(s)@ == old(s)@.push(c),
;

/// The characters that separate words: the code points that carry the
/// Unicode property `White_Space`.
pub open spec fn is_space(c: char) -> bool {
    ||| c == ' '
    ||| ('\u{9}' <= c && c <= '\u{d}')
    ||| c == '\u{85}'
    ||| c == '\u{a0}'
    ||| c == '\u{1680}'
    ||| ('\u{2000}' <= c && c <= '\u{200a}')
    ||| c == '\u{2028}'
    ||| c == '\u{2029}'
    ||| c == '\u{202f}'
    ||| c == '\u{205f}'
    ||| c == '\u{3000}'
}

/// Executable form of [`is_space`].
pub fn is_whitespace(c: char) -> (b: bool)
    ensures
        b == is_space(c),
{
    c == ' ' || ('\u{9}' <= c && c <= '\u{d}') || c == '\u{85}' || c == '\u{a0}' || c
        == '\u{1680}' || ('\u{2000}' <= c && c <= '\u{200a}') || c == '\u{2028}' || c
        == '\u{2029}' || c == '\u{202f}' || c == '\u{205f}' || c == '\u{3000}'
}

/// The views of a sequence of strings.
pub open spec fn strs(v: Seq<String>) -> Seq<Seq<char>> {
    v.map_values(|s: String| s@)
}

/// A word is a non-empty run of characters without white space.
pub open spec fn is_word(w: Seq<char>) -> bool {
    w.len() > 0 && forall|i: int| 0 <= i < w.len() ==> !is_space(#[trigger] w[i])
}

/// Every element is a word.
pub open spec fn all_words(ws: Seq<Seq<char>>) -> bool {
    forall|i: int| 0 <= i < ws.len() ==> is_word(#[trigger] ws[i])
}

/// `s` without its leading white space.
pub open spec fn trim_start(s: Seq<char>) -> Seq<char>
    decreases s.len(),
{
    if s.len() > 0 && is_space(s[0]) {
        trim_start(s.drop_first())
    } else {
        s
    }
}

/// `s` without its trailing white space.
pub open spec fn trim_end(s: Seq<char>) -> Seq<char>
    decreases s.len(),
{
    if s.len() > 0 && is_space(s.last()) {
        trim_end(s.drop_last())
    } else {
        s
    }
}

/// `s` without leading and trailing white space.
pub open spec fn trim_spec(s: Seq<char>) -> Seq<char> {
    trim_end(trim_start(s))
}

/// The words of `s`, in order: its maximal runs of characters that are not
/// white space.
pub open spec fn words(s: Seq<char>) -> Seq<Seq<char>>
    decreases s.len(),
{
    if s.len() == 0 {
        Seq::empty()
    } else if is_space(s.last()) {
        words(s.drop_last())
    } else if s.len() >= 2 && !is_space(s[s.len() - 2]) {
        let before = words(s.drop_last());
        before.drop_last().push(before.last().push(s.last()))
    } else {
        words(s.drop_last()).push(seq![s.last()])
    }
}

/// The elements of `ws` with one space between neighbours.
pub open spec fn join(ws: Seq<Seq<char>>) -> Seq<char>
    decreases ws.len(),
{
    if ws.len() == 0 {
        Seq::empty()
    } else if ws.len() == 1 {
        ws[0]
    } else {
        join(ws.drop_last()) + seq![' '] + ws.last()
    }
}

/// The character for one decimal digit.
pub open spec fn digit_char(d: nat) -> char {
    if d == 0 {
        '0'
    } else if d == 1 {
        '1'
    } else if d == 2 {
        '2'
    } else if d == 3 {
        '3'
    } else if d == 4 {
        '4'
    } else if d == 5 {
        '5'
    } else if d == 6 {
        '6'
    } else if d == 7 {
        '7'
    } else if d == 8 {
        '8'
    } else {
        '9'
    }
}

/// `n` in decimal, without leading zeros.
pub open spec fn decimal(n: nat) -> Seq<char>
    decreases n,
{
    if n < 10 {
        seq![digit_char(n)]
    } else {
        decimal(n / 10).push(digit_char(n % 10))
    }
}

/// The characters of `s` as a vector.
pub fn to_chars(s: &str) -> (v: Vec<char>)
    ensures
        v@ == s@,
{
    let mut v: Vec<char> = Vec::new();
    for c in it: s.chars()
        invariant
            it.seq() == s@,
            v@ == s@.take(it.index() as int),
    {
        v.push(c);
    }
    v
}

/// The characters `v[lo..hi]` as a string.
fn from_chars(v: &Vec<char>, lo: usize, hi: usize) -> (s: String)
    requires
        lo <= hi <= v.len(),
    ensures
        s@ == v@.subrange(lo as int, hi as int),
{
    let mut s = String::new();
    let mut i: usize = lo;
    while i < hi
        invariant
            lo <= i <= hi <= v.len(),
            s@ == v@.subrange(lo as int, i as int),
        decreases hi - i,
    {
        s.push(v[i]);
        i += 1;
    }
    s
}

/// Removes leading and trailing white space.
pub fn trim(s: &str) -> (r: String)
    ensures
        r@ == trim_spec(s@),
{
    let v = to_chars(s);
    let n = v.len();
    let mut lo: usize = 0;
    assert(v@.subrange(0, n as int) == v@);
    while lo < n && is_whitespace(v[lo])
        invariant
            lo <= n == v.len(),
            trim_start(v@) == trim_start(v@.subrange(lo as int, n as int)),
        decreases n - lo,
    {
        assert(v@.subrange(lo as int, n as int).drop_first() == v@.subrange(lo + 1, n as int));
        lo += 1;
    }
    let mut hi: usize = n;
    while hi > lo && is_whitespace(v[hi - 1])
        invariant
            lo <= hi <= n == v.len(),
            trim_end(v@.subrange(lo as int, n as int)) == trim_end(
                v@.subrange(lo as int, hi as int),
            ),
        decreases hi - lo,
    {
        assert(v@.subrange(lo as int, hi as int).drop_last() == v@.subrange(
            lo as int,
            hi - 1,
        ));
        hi -= 1;
    }
    from_chars(&v, lo, hi)
}

/// Splits `s` at white space.
pub fn split_words(s: &str) -> (list: Vec<String>)
    ensures
        strs(list@) == words(s@),
{
    let mut list: Vec<String> = Vec::new();
    let mut cur = String::new();
    let mut in_word = false;
    for c in it: s.chars()
        invariant
            it.seq() == s@,
            in_word == (cur@.len() > 0),
            in_word == (it.index() > 0 && !is_space(s@[it.index() - 1])),
            words(s@.take(it.index() as int)) == if in_word {
                strs(list@).push(cur@)
            } else {
                strs(list@)
            },
    {
        let ghost i = it.index() as int;
        let ghost old_list = list@;
        let ghost old_cur = cur@;
        let ghost next = s@.take(i + 1);
        assert(next.drop_last() == s@.take(i));
        assert(next.last() == c);
        assert(i > 0 ==> next[next.len() - 2] == s@[i - 1]);
        if is_whitespace(c) {
            if in_word {
                list.push(cur);
                cur = String::new();
                in_word = false;
                assert(strs(list@) == strs(old_list).push(old_cur));
            }
        } else {
            cur.push(c);
            in_word = true;
            proof {
                if old_cur.len() > 0 {
                    let before = strs(old_list).push(old_cur);
                    assert(before.drop_last() == strs(old_list));
                    assert(words(next) == strs(old_list).push(old_cur.push(c)));
                } else {
                    assert(seq![c] == old_cur.push(c));
                    assert(words(next) == strs(old_list).push(seq![c]));
                }
            }
        }
    }
    assert(s@.take(s@.len() as int) == s@);
    if in_word {
        let ghost old_list = list@;
        list.push(cur);
        assert(strs(list@) == strs(old_list).push(cur@));
    }
    list
}

/// Joins `ws` with single spaces.
pub fn join_words(ws: &Vec<String>) -> (out: String)
    ensures
        out@ == join(strs(ws@)),
{
    let mut out = String::new();
    let n = ws.len();
    let mut i: usize = 0;
    while i < n
        invariant
            i <= n == ws.len(),
            out@ == join(strs(ws@).take(i as int)),
        decreases n - i,
    {
        assert(strs(ws@).take(i + 1).drop_last() == strs(ws@).take(i as int));
        if i > 0 {
            out.push(' ');
        }
        out.append(ws[i].as_str());
        i += 1;
    }
    assert(strs(ws@).take(n as int) == strs(ws@));
    out
}

/// The character of a decimal digit.
fn digit(d: u8) -> (c: char)
    requires
        d < 10,
    ensures
        c == digit_char(d as nat),
{
    if d == 0 {
        '0'
    } else if d == 1 {
        '1'
    } else if d == 2 {
        '2'
    } else if d == 3 {
        '3'
    } else if d == 4 {
        '4'
    } else if d == 5 {
        '5'
    } else if d == 6 {
        '6'
    } else if d == 7 {
        '7'
    } else if d == 8 {
        '8'
    } else {
        '9'
    }
}

/// Appends `n` in decimal to `out`.
pub fn push_decimal(out: &mut String, n: u64)
    ensures
        final(out)@ == old(out)@ + decimal(n as nat),
    decreases n,
{
    if n >= 10 {
        push_decimal(out, n / 10);
    }
    let d: u8 = (n % 10) as u8;
    out.push(digit(d));
}

/// `n` in decimal.
pub fn to_decimal(n: u64) -> (s: String)
    ensures
        s@ == decimal(n as nat),
{
    let mut s = String::new();
    push_decimal(&mut s, n);
    s
}

/// The words of a text are words.
pub proof fn lemma_words_are_words(s: Seq<char>)
    ensures
        all_words(words(s)),
        s.len() > 0 && !is_space(s.last()) ==> words(s).len() > 0,
    decreases s.len(),
{
    if s.len() > 0 {
        lemma_words_are_words(s.drop_last());
    }
}

/// White space between two texts separates their words.
pub proof fn lemma_words_concat(x: Seq<char>, sp: char, y: Seq<char>)
    requires
        is_space(sp),
    ensures
        words(x + seq![sp] + y) == words(x) + words(y),
    decreases y.len(),
{
    let whole = x + seq![sp] + y;
    if y.len() == 0 {
        assert(whole.drop_last() == x);
        assert(words(x) + words(y) == words(x));
    } else {
        let init = x + seq![sp] + y.drop_last();
        assert(whole.drop_last() == init);
        lemma_words_concat(x, sp, y.drop_last());
        lemma_words_are_words(y.drop_last());
        if is_space(y.last()) {
        } else if y.len() >= 2 && !is_space(y[y.len() - 2]) {
            let a = words(x);
            let b = words(y.drop_last());
            assert(whole[whole.len() - 2] == y[y.len() - 2]);
            assert((a + b).drop_last().push((a + b).last().push(y.last())) == a
                + b.drop_last().push(b.last().push(y.last())));
        } else {
            assert(is_space(whole[whole.len() - 2]));
            assert((words(x) + words(y.drop_last())).push(seq![y.last()]) == words(x)
                + words(y.drop_last()).push(seq![y.last()]));
        }
    }
}

/// A word is the only word of itself.
pub proof fn lemma_words_of_word(w: Seq<char>)
    requires
        is_word(w),
    ensures
        words(w) == seq![w],
    decreases w.len(),
{
    if w.len() == 1 {
        assert(words(w.drop_last()) == Seq::<Seq<char>>::empty());
        assert(seq![w.last()] == w);
        assert(Seq::<Seq<char>>::empty().push(w) == seq![w]);
    } else {
        let init = w.drop_last();
        assert(is_word(init));
        lemma_words_of_word(init);
        assert(init.push(w.last()) == w);
        assert(seq![init].drop_last().push(w) == seq![w]);
    }
}

/// Splitting undoes joining, when what was joined are words.
pub proof fn lemma_words_of_join(ws: Seq<Seq<char>>)
    requires
        all_words(ws),
    ensures
        words(join(ws)) == ws,
    decreases ws.len(),
{
    if ws.len() == 0 {
    } else if ws.len() == 1 {
        lemma_words_of_word(ws[0]);
    } else {
        let init = ws.drop_last();
        assert(all_words(init));
        lemma_words_of_join(init);
        lemma_words_of_word(ws.last());
        lemma_words_concat(join(init), ' ', ws.last());
        assert(init + seq![ws.last()] == ws);
    }
}

/// Joined words neither start nor end with white space.
pub proof fn lemma_join_ends(ws: Seq<Seq<char>>)
    requires
        all_words(ws),
        ws.len() > 0,
    ensures
        join(ws).len() > 0,
        !is_space(join(ws)[0]),
        !is_space(join(ws).last()),
    decreases ws.len(),
{
    assert(is_word(ws.last()));
    assert(is_word(ws[0]));
    if ws.len() > 1 {
        let init = ws.drop_last();
        assert(all_words(init));
        assert(init[0] == ws[0]);
        lemma_join_ends(init);
    }
}

/// Leading white space holds no word.
pub proof fn lemma_words_trim_start(s: Seq<char>)
    ensures
        words(trim_start(s)) == words(s),
    decreases s.len(),
{
    if s.len() > 0 && is_space(s[0]) {
        lemma_words_trim_start(s.drop_first());
        lemma_words_concat(Seq::empty(), s[0], s.drop_first());
        assert(Seq::<char>::empty() + seq![s[0]] + s.drop_first() == s);
        assert(words(Seq::<char>::empty()) + words(s.drop_first()) == words(s.drop_first()));
    }
}

/// Trailing white space holds no word.
pub proof fn lemma_words_trim_end(s: Seq<char>)
    ensures
        words(trim_end(s)) == words(s),
    decreases s.len(),
{
    if s.len() > 0 && is_space(s.last()) {
        lemma_words_trim_end(s.drop_last());
    }
}

/// Trimming keeps the words.
pub proof fn lemma_words_trim(s: Seq<char>)
    ensures
        words(trim_spec(s)) == words(s),
{
    lemma_words_trim_end(trim_start(s));
    lemma_words_trim_start(s);
}

/// A trimmed text is empty exactly when the text has no word.
pub proof fn lemma_trim_empty(s: Seq<char>)
    ensures
        trim_spec(s).len() == 0 <==> words(s).len() == 0,
{
    lemma_words_trim(s);
    lemma_trim_ends(s);
    let t = trim_spec(s);
    if t.len() > 0 {
        lemma_words_are_words(t);
    }
}

/// A trimmed text neither starts nor ends with white space.
pub proof fn lemma_trim_ends(s: Seq<char>)
    ensures
        trim_spec(s).len() > 0 ==> !is_space(trim_spec(s)[0]) && !is_space(trim_spec(s).last()),
{
    lemma_trim_start_head(s);
    lemma_trim_end_keeps_head(trim_start(s));
}

proof fn lemma_trim_start_head(s: Seq<char>)
    ensures
        trim_start(s).len() > 0 ==> !is_space(trim_start(s)[0]),
    decreases s.len(),
{
    if s.len() > 0 && is_space(s[0]) {
        lemma_trim_start_head(s.drop_first());
    }
}

proof fn lemma_trim_end_keeps_head(s: Seq<char>)
    ensures
        trim_end(s).len() > 0 ==> !is_space(trim_end(s).last()) && trim_end(s)[0] == s[0],
        trim_end(s).len() <= s.len(),
    decreases s.len(),
{
    if s.len() > 0 && is_space(s.last()) {
        lemma_trim_end_keeps_head(s.drop_last());
    }
}

} // verus!
