//! The deduplication engine: of the words of a text, each distinct word is
//! kept once, at the place of its last occurrence.
//!
//! [`cleanup_cnl`] removes the earlier occurrence and appends;
//! [`normalize_list_impl`] blanks the earlier slot and filters at the end. Both
//! are proved against the same specification, [`dedup_text`].

use vstd::prelude::*;
use vstd::hash_map::StringHashMap;
use crate::text::{all_words, is_space, is_word, join, join_words, split_words, strs, words};
use crate::text::{lemma_join_ends, lemma_words_are_words, lemma_words_of_join};

verus! {

/// `==` on string slices compares their characters.
pub assume_specification[ <str as PartialEq>::eq ](a: &str, b: &str) -> (r: bool)
    ensures
        r == (a@ == b@),
;

/// `s` without the elements equal to `a`.
pub open spec fn without<A>(s: Seq<A>, a: A) -> Seq<A>
    decreases s.len(),
{
    if s.len() == 0 {
        s
    } else if s[0] == a {
        without(s.drop_first(), a)
    } else {
        seq![s[0]] + without(s.drop_first(), a)
    }
}

/// The elements of `s` that do not occur again later in `s`, in order.
pub open spec fn dedup<A>(s: Seq<A>) -> Seq<A>
    decreases s.len(),
{
    if s.len() == 0 {
        s
    } else if s.drop_first().contains(s[0]) {
        dedup(s.drop_first())
    } else {
        seq![s[0]] + dedup(s.drop_first())
    }
}

/// The class list of a text: its words, deduplicated, joined by single spaces.
pub open spec fn dedup_text(s: Seq<char>) -> Seq<char> {
    join(dedup(words(s)))
}

/// Position `p` holds the last occurrence of its element.
pub open spec fn is_last_occurrence<A>(s: Seq<A>, p: int) -> bool {
    0 <= p < s.len() && forall|q: int| p < q < s.len() ==> #[trigger] s[q] != s[p]
}

/// Position `p` holds the only occurrence of its element.
pub open spec fn occurs_once<A>(s: Seq<A>, p: int) -> bool {
    0 <= p < s.len() && forall|q: int| 0 <= q < s.len() && q != p ==> #[trigger] s[q] != s[p]
}

/// The positions of `s` that hold a last occurrence, ascending.
pub open spec fn last_positions<A>(s: Seq<A>) -> Seq<int>
    decreases s.len(),
{
    if s.len() == 0 {
        Seq::empty()
    } else if s.drop_first().contains(s[0]) {
        last_positions(s.drop_first()).map_values(|p: int| p + 1)
    } else {
        seq![0int] + last_positions(s.drop_first()).map_values(|p: int| p + 1)
    }
}

/// What `without` keeps: the elements of `s` other than `a`, and no
/// duplicate that `s` did not have.
pub proof fn lemma_without_contains<A>(s: Seq<A>, a: A)
    ensures
        forall|x: A| #[trigger] without(s, a).contains(x) <==> s.contains(x) && x != a,
        s.no_duplicates() ==> without(s, a).no_duplicates(),
        without(s, a).len() <= s.len(),
    decreases s.len(),
{
    if s.len() > 0 {
        let t = s.drop_first();
        lemma_without_contains(t, a);
        let r = without(t, a);
        assert forall|x: A| #[trigger] without(s, a).contains(x) <==> s.contains(x) && x != a by {
            if without(s, a).contains(x) {
                let k = choose|k: int| 0 <= k < without(s, a).len() && without(s, a)[k] == x;
                if s[0] == a {
                    assert(r.contains(x));
                    let j = choose|j: int| 0 <= j < t.len() && t[j] == x;
                    assert(s[j + 1] == x);
                } else if k == 0 {
                    assert(s[0] == x);
                } else {
                    assert(r[k - 1] == x);
                    assert(r.contains(x));
                    let j = choose|j: int| 0 <= j < t.len() && t[j] == x;
                    assert(s[j + 1] == x);
                }
            }
            if s.contains(x) && x != a {
                let j = choose|j: int| 0 <= j < s.len() && s[j] == x;
                if j == 0 {
                    assert(without(s, a)[0] == x);
                } else {
                    assert(t[j - 1] == x);
                    assert(t.contains(x));
                    assert(r.contains(x));
                    let k = choose|k: int| 0 <= k < r.len() && r[k] == x;
                    if s[0] == a {
                    } else {
                        assert(without(s, a)[k + 1] == x);
                    }
                }
            }
        }
        if s.no_duplicates() {
            assert(t.no_duplicates());
            if s[0] != a {
                let w = without(s, a);
                assert forall|i: int, j: int| 0 <= i < w.len() && 0 <= j < w.len() && i != j implies w[i]
                    != w[j] by {
                    if i == 0 || j == 0 {
                        let m = if i == 0 {
                            j
                        } else {
                            i
                        };
                        assert(r[m - 1] == w[m]);
                        assert(r.contains(w[m]));
                        assert(t.contains(w[m]));
                        let q = choose|q: int| 0 <= q < t.len() && t[q] == w[m];
                        assert(s[q + 1] == w[m]);
                    } else {
                        assert(r[i - 1] == w[i]);
                        assert(r[j - 1] == w[j]);
                    }
                }
            }
        }
    }
}

/// Removing what is absent changes nothing.
pub proof fn lemma_without_absent<A>(s: Seq<A>, a: A)
    requires
        !s.contains(a),
    ensures
        without(s, a) == s,
    decreases s.len(),
{
    if s.len() > 0 {
        let t = s.drop_first();
        assert(s[0] != a);
        assert forall|x: A| t.contains(x) implies s.contains(x) by {
            let j = choose|j: int| 0 <= j < t.len() && t[j] == x;
            assert(s[j + 1] == x);
        }
        lemma_without_absent(t, a);
        assert(seq![s[0]] + t == s);
    }
}

/// In a sequence without duplicates, removing the element at `k` removes
/// every element equal to it.
pub proof fn lemma_without_remove<A>(s: Seq<A>, k: int)
    requires
        0 <= k < s.len(),
        s.no_duplicates(),
    ensures
        without(s, s[k]) == s.remove(k),
    decreases s.len(),
{
    let t = s.drop_first();
    if k == 0 {
        assert(!t.contains(s[0])) by {
            if t.contains(s[0]) {
                let j = choose|j: int| 0 <= j < t.len() && t[j] == s[0];
                assert(s[j + 1] == s[0]);
            }
        }
        lemma_without_absent(t, s[0]);
        assert(s.remove(0) == t);
    } else {
        assert(s[0] != s[k]);
        assert(t.no_duplicates());
        lemma_without_remove(t, k - 1);
        assert(seq![s[0]] + t.remove(k - 1) == s.remove(k));
    }
}

/// `without` on a sequence that grew by one element.
pub proof fn lemma_without_push<A>(s: Seq<A>, x: A, a: A)
    ensures
        without(s.push(x), a) == if x == a {
            without(s, a)
        } else {
            without(s, a).push(x)
        },
    decreases s.len(),
{
    if s.len() == 0 {
        assert(s.push(x).drop_first() == s);
        if x != a {
            assert(seq![x] + without(s, a) == without(s, a).push(x));
        }
    } else {
        let t = s.drop_first();
        assert(s.push(x).drop_first() == t.push(x));
        lemma_without_push(t, x, a);
        if s[0] != a && x != a {
            assert(seq![s[0]] + without(t, a).push(x) == (seq![s[0]] + without(t, a)).push(x));
        }
    }
}

/// Blanking the one slot that holds an element removes that element from
/// what is not blank.
pub proof fn lemma_without_blanked<A>(s: Seq<A>, k: int, blank: A)
    requires
        0 <= k < s.len(),
        s[k] != blank,
        forall|j: int| 0 <= j < s.len() && j != k ==> #[trigger] s[j] != s[k],
    ensures
        without(s.update(k, blank), blank) == without(without(s, blank), s[k]),
    decreases s.len(),
{
    let t = s.drop_first();
    let u = s.update(k, blank);
    if k == 0 {
        assert(u.drop_first() == t);
        assert(!without(t, blank).contains(s[0])) by {
            lemma_without_contains(t, blank);
            if t.contains(s[0]) {
                let j = choose|j: int| 0 <= j < t.len() && t[j] == s[0];
                assert(s[j + 1] == s[0]);
            }
        }
        lemma_without_absent(without(t, blank), s[0]);
        assert((seq![s[0]] + without(t, blank)).drop_first() == without(t, blank));
    } else {
        assert(u.drop_first() == t.update(k - 1, blank));
        assert(t[k - 1] == s[k]);
        assert forall|j: int| 0 <= j < t.len() && j != k - 1 implies #[trigger] t[j] != t[k - 1] by {
            assert(s[j + 1] != s[k]);
        }
        lemma_without_blanked(t, k - 1, blank);
        assert(s[0] != s[k]);
        if s[0] != blank {
            let w = seq![s[0]] + without(t, blank);
            assert(w.drop_first() == without(t, blank));
        }
    }
}

/// What `dedup` keeps: the elements of `s`, each once.
pub proof fn lemma_dedup_contains<A>(s: Seq<A>)
    ensures
        dedup(s).no_duplicates(),
        forall|x: A| #[trigger] dedup(s).contains(x) <==> s.contains(x),
        dedup(s).len() <= s.len(),
    decreases s.len(),
{
    if s.len() > 0 {
        let t = s.drop_first();
        let d = dedup(t);
        lemma_dedup_contains(t);
        assert forall|x: A| #[trigger] dedup(s).contains(x) <==> s.contains(x) by {
            if dedup(s).contains(x) {
                let k = choose|k: int| 0 <= k < dedup(s).len() && dedup(s)[k] == x;
                if !t.contains(s[0]) && k == 0 {
                    assert(s[0] == x);
                } else {
                    if !t.contains(s[0]) {
                        assert(d[k - 1] == x);
                    }
                    assert(d.contains(x));
                    let j = choose|j: int| 0 <= j < t.len() && t[j] == x;
                    assert(s[j + 1] == x);
                }
            }
            if s.contains(x) {
                let j = choose|j: int| 0 <= j < s.len() && s[j] == x;
                if j > 0 {
                    assert(t[j - 1] == x);
                }
                if t.contains(x) {
                    assert(d.contains(x));
                    let k = choose|k: int| 0 <= k < d.len() && d[k] == x;
                    if !t.contains(s[0]) {
                        assert(dedup(s)[k + 1] == x);
                    }
                } else {
                    assert(dedup(s)[0] == x);
                }
            }
        }
        if !t.contains(s[0]) {
            let w = dedup(s);
            assert forall|i: int, j: int| 0 <= i < w.len() && 0 <= j < w.len() && i != j implies w[i]
                != w[j] by {
                if i == 0 || j == 0 {
                    let m = if i == 0 {
                        j
                    } else {
                        i
                    };
                    assert(d[m - 1] == w[m]);
                    assert(d.contains(w[m]));
                } else {
                    assert(d[i - 1] == w[i]);
                    assert(d[j - 1] == w[j]);
                }
            }
        }
    }
}

/// One more element at the end: its earlier copy leaves, and it is appended.
pub proof fn lemma_dedup_push<A>(s: Seq<A>, x: A)
    ensures
        dedup(s.push(x)) == without(dedup(s), x).push(x),
    decreases s.len(),
{
    if s.len() == 0 {
        assert(s.push(x).drop_first() == s);
        assert(seq![x] + s == s.push(x));
    } else {
        let t = s.drop_first();
        let tx = t.push(x);
        assert(s.push(x).drop_first() == tx);
        lemma_dedup_push(t, x);
        if s[0] == x {
            assert(tx[t.len() as int] == x);
            assert(tx.contains(s[0]));
            if !t.contains(s[0]) {
                lemma_dedup_contains(t);
                let w = seq![s[0]] + dedup(t);
                assert(w.drop_first() == dedup(t));
            }
        } else {
            assert(tx.contains(s[0]) <==> t.contains(s[0])) by {
                if tx.contains(s[0]) {
                    let j = choose|j: int| 0 <= j < tx.len() && tx[j] == s[0];
                    assert(t[j] == s[0]);
                }
                if t.contains(s[0]) {
                    let j = choose|j: int| 0 <= j < t.len() && t[j] == s[0];
                    assert(tx[j] == s[0]);
                }
            }
            if !t.contains(s[0]) {
                let w = seq![s[0]] + dedup(t);
                assert(w.drop_first() == dedup(t));
                assert(seq![s[0]] + without(dedup(t), x).push(x) == (seq![s[0]] + without(
                    dedup(t),
                    x,
                )).push(x));
            }
        }
    }
}

/// A sequence without duplicates is its own deduplication.
pub proof fn lemma_dedup_fixed<A>(s: Seq<A>)
    requires
        s.no_duplicates(),
    ensures
        dedup(s) == s,
    decreases s.len(),
{
    if s.len() > 0 {
        let t = s.drop_first();
        assert(t.no_duplicates());
        assert(!t.contains(s[0])) by {
            if t.contains(s[0]) {
                let j = choose|j: int| 0 <= j < t.len() && t[j] == s[0];
                assert(s[j + 1] == s[0]);
            }
        }
        lemma_dedup_fixed(t);
        assert(seq![s[0]] + t == s);
    }
}

/// The words of a class list are the deduplicated words of the text.
pub proof fn lemma_words_of_dedup_text(s: Seq<char>)
    ensures
        words(dedup_text(s)) == dedup(words(s)),
        all_words(dedup(words(s))),
{
    let ws = words(s);
    let d = dedup(ws);
    lemma_words_are_words(s);
    lemma_dedup_contains(ws);
    assert forall|i: int| 0 <= i < d.len() implies is_word(#[trigger] d[i]) by {
        assert(d.contains(d[i]));
        assert(ws.contains(d[i]));
        let j = choose|j: int| 0 <= j < ws.len() && ws[j] == d[i];
        assert(is_word(ws[j]));
    }
    lemma_words_of_join(d);
}

/// A class list is empty where the text has no word, and else neither
/// starts nor ends with white space.
pub proof fn lemma_dedup_text_ends(s: Seq<char>)
    ensures
        words(s).len() == 0 ==> dedup_text(s).len() == 0,
        words(s).len() > 0 ==> dedup_text(s).len() > 0 && !is_space(dedup_text(s)[0]) && !is_space(
            dedup_text(s).last(),
        ),
{
    lemma_words_of_dedup_text(s);
    lemma_dedup_contains(words(s));
    if words(s).len() > 0 {
        assert(words(s).contains(words(s)[0]));
        let d = dedup(words(s));
        assert(d.contains(words(s)[0]));
        lemma_join_ends(d);
    }
}

/// Deduplicating twice gives what deduplicating once gives.
pub proof fn law_idempotent(s: Seq<char>)
    ensures
        dedup_text(dedup_text(s)) == dedup_text(s),
{
    lemma_words_of_dedup_text(s);
    lemma_dedup_contains(words(s));
    lemma_dedup_fixed(dedup(words(s)));
}

/// What is kept is what stood at the last occurrences, in their order: the
/// `k`-th element of `dedup(s)` is the element of `s` at the `k`-th position
/// that holds a last occurrence. No earlier occurrence is kept.
pub proof fn law_last_occurrence<A>(s: Seq<A>)
    ensures
        last_positions(s).len() == dedup(s).len(),
        forall|k: int|
            0 <= k < dedup(s).len() ==> is_last_occurrence(s, #[trigger] last_positions(s)[k])
                && dedup(s)[k] == s[last_positions(s)[k]],
        forall|k1: int, k2: int|
            0 <= k1 < k2 < dedup(s).len() ==> #[trigger] last_positions(s)[k1]
                < #[trigger] last_positions(s)[k2],
        forall|p: int| is_last_occurrence(s, p) ==> #[trigger] last_positions(s).contains(p),
    decreases s.len(),
{
    if s.len() > 0 {
        let t = s.drop_first();
        law_last_occurrence(t);
        let kt = last_positions(t);
        let shifted = kt.map_values(|p: int| p + 1);
        let ks = last_positions(s);
        let first = !t.contains(s[0]);
        let off: int = if first {
            1
        } else {
            0
        };
        assert forall|p: int| is_last_occurrence(t, p) implies is_last_occurrence(s, p + 1) by {
            assert forall|q: int| p + 1 < q < s.len() implies #[trigger] s[q] != s[p + 1] by {
                assert(t[q - 1] != t[p]);
            }
        }
        if first {
            assert(is_last_occurrence(s, 0)) by {
                assert forall|q: int| 0 < q < s.len() implies #[trigger] s[q] != s[0] by {
                    if s[q] == s[0] {
                        assert(t[q - 1] == s[0]);
                    }
                }
            }
        }
        assert forall|k: int| 0 <= k < dedup(s).len() implies is_last_occurrence(
            s,
            #[trigger] ks[k],
        ) && dedup(s)[k] == s[ks[k]] by {
            if k >= off {
                assert(ks[k] == kt[k - off] + 1);
                assert(is_last_occurrence(t, kt[k - off]));
                assert(dedup(s)[k] == dedup(t)[k - off]);
            }
        }
        assert forall|k1: int, k2: int| 0 <= k1 < k2 < dedup(s).len() implies #[trigger] ks[k1]
            < #[trigger] ks[k2] by {
            assert(ks[k2] == kt[k2 - off] + 1);
            if k1 >= off {
                assert(ks[k1] == kt[k1 - off] + 1);
            }
        }
        assert forall|p: int| is_last_occurrence(s, p) implies #[trigger] ks.contains(p) by {
            if p == 0 {
                if !first {
                    let j = choose|j: int| 0 <= j < t.len() && t[j] == s[0];
                    assert(s[j + 1] == s[0]);
                }
                assert(ks[0] == 0);
            } else {
                assert(is_last_occurrence(t, p - 1)) by {
                    assert forall|q: int| p - 1 < q < t.len() implies #[trigger] t[q] != t[p - 1] by {
                        assert(s[q + 1] != s[p]);
                    }
                }
                assert(kt.contains(p - 1));
                let k = choose|k: int| 0 <= k < kt.len() && kt[k] == p - 1;
                assert(ks[k + off] == p);
            }
        }
    }
}

/// Two elements that each occur once keep their order.
pub proof fn law_order_preserved<A>(s: Seq<A>, i: int, j: int)
    requires
        0 <= i < j < s.len(),
        occurs_once(s, i),
        occurs_once(s, j),
    ensures
        dedup(s).contains(s[i]),
        dedup(s).contains(s[j]),
        dedup(s).index_of(s[i]) < dedup(s).index_of(s[j]),
{
    law_last_occurrence(s);
    lemma_dedup_contains(s);
    let ks = last_positions(s);
    let d = dedup(s);
    assert(is_last_occurrence(s, i));
    assert(is_last_occurrence(s, j));
    assert(ks.contains(i));
    assert(ks.contains(j));
    let k1 = choose|k: int| 0 <= k < ks.len() && ks[k] == i;
    let k2 = choose|k: int| 0 <= k < ks.len() && ks[k] == j;
    assert(d[k1] == s[i]);
    assert(d[k2] == s[j]);
    assert(k1 < k2) by {
        if k1 > k2 {
            assert(ks[k2] < ks[k1]);
        }
    }
    let a = d.index_of(s[i]);
    let b = d.index_of(s[j]);
    assert(d.contains(s[i]));
    assert(d.contains(s[j]));
    assert(a == k1);
    assert(b == k2);
}

/// In the words of a class list, each word of the text stands once, where
/// its last occurrence fell among the last occurrences.
pub proof fn law_text_last_occurrence(s: Seq<char>)
    ensures
        words(dedup_text(s)).len() == last_positions(words(s)).len(),
        forall|k: int|
            0 <= k < words(dedup_text(s)).len() ==> is_last_occurrence(
                words(s),
                #[trigger] last_positions(words(s))[k],
            ) && words(dedup_text(s))[k] == words(s)[last_positions(words(s))[k]],
        forall|k1: int, k2: int|
            0 <= k1 < k2 < words(dedup_text(s)).len() ==> #[trigger] last_positions(words(s))[k1]
                < #[trigger] last_positions(words(s))[k2],
        forall|p: int|
            is_last_occurrence(words(s), p) ==> #[trigger] last_positions(words(s)).contains(p),
        words(dedup_text(s)).no_duplicates(),
{
    lemma_words_of_dedup_text(s);
    law_last_occurrence(words(s));
    lemma_dedup_contains(words(s));
}

/// Two words of a text that each occur once stand in the class list in the
/// order they had in the text.
pub proof fn law_text_order_preserved(s: Seq<char>, i: int, j: int)
    requires
        0 <= i < j < words(s).len(),
        occurs_once(words(s), i),
        occurs_once(words(s), j),
    ensures
        words(dedup_text(s)).contains(words(s)[i]),
        words(dedup_text(s)).contains(words(s)[j]),
        words(dedup_text(s)).index_of(words(s)[i]) < words(dedup_text(s)).index_of(words(s)[j]),
{
    lemma_words_of_dedup_text(s);
    law_order_preserved(words(s), i, j);
}

/// The first position of `s` that holds `a`, or the length of `s` where
/// none does.
pub open spec fn first_index<A>(s: Seq<A>, a: A) -> int
    decreases s.len(),
{
    if s.len() == 0 || s[0] == a {
        0
    } else {
        1 + first_index(s.drop_first(), a)
    }
}

/// `first_index` is the position before which the element does not stand.
pub proof fn lemma_first_index<A>(s: Seq<A>, a: A, k: int)
    requires
        0 <= k <= s.len(),
        forall|j: int| 0 <= j < k ==> #[trigger] s[j] != a,
        k < s.len() ==> s[k] == a,
    ensures
        first_index(s, a) == k,
    decreases s.len(),
{
    if s.len() > 0 && k > 0 {
        assert(s[0] != a);
        assert forall|j: int| 0 <= j < k - 1 implies #[trigger] s.drop_first()[j] != a by {
            assert(s[j + 1] != a);
        }
        lemma_first_index(s.drop_first(), a, k - 1);
    }
}

/// The first position of `input` that holds `str_chunk`.
pub fn find_in(input: &Vec<String>, str_chunk: &str) -> (found: Option<usize>)
    ensures
        match found {
            Some(k) => k < input.len() && input[k as int]@ == str_chunk@ && forall|j: int|
                0 <= j < k ==> (#[trigger] input[j])@ != str_chunk@,
            None => forall|j: int| 0 <= j < input.len() ==> (#[trigger] input[j])@ != str_chunk@,
        },
        found is Some <==> strs(input@).contains(str_chunk@),
        found matches Some(k) ==> k == first_index(strs(input@), str_chunk@),
{
    let ghost views = strs(input@);
    let mut i: usize = 0;
    while i < input.len()
        invariant
            i <= input.len(),
            views == strs(input@),
            forall|j: int| 0 <= j < i ==> (#[trigger] input[j])@ != str_chunk@,
        decreases input.len() - i,
    {
        if input[i].as_str().eq(str_chunk) {
            proof {
                assert(views[i as int] == str_chunk@);
                assert forall|j: int| 0 <= j < i implies #[trigger] views[j] != str_chunk@ by {
                    assert(input[j]@ != str_chunk@);
                }
                lemma_first_index(views, str_chunk@, i as int);
            }
            return Some(i);
        }
        i += 1;
    }
    proof {
        if views.contains(str_chunk@) {
            let j = choose|j: int| 0 <= j < views.len() && views[j] == str_chunk@;
            assert(input[j]@ != str_chunk@);
        }
    }
    None
}

/// Deduplicates a list of words: for each word in turn, its earlier copy is
/// removed and the word is appended.
pub fn dedup_words(list: &Vec<String>) -> (out: Vec<String>)
    ensures
        strs(out@) == dedup(strs(list@)),
{
    let mut out: Vec<String> = Vec::new();
    let n = list.len();
    let mut i: usize = 0;
    while i < n
        invariant
            i <= n == list.len(),
            strs(out@) == dedup(strs(list@).take(i as int)),
        decreases n - i,
    {
        let word = list[i].clone();
        let ghost before = strs(out@);
        let ghost w = word@;
        proof {
            let seen = strs(list@).take(i as int);
            assert(strs(list@).take(i + 1) == seen.push(w));
            lemma_dedup_push(seen, w);
            lemma_dedup_contains(seen);
        }
        match find_in(&out, word.as_str()) {
            Some(k) => {
                let _ = out.remove(k);
                proof {
                    assert(before[k as int] == w);
                    lemma_without_remove(before, k as int);
                    assert(strs(out@) == before.remove(k as int));
                }
            },
            None => {
                proof {
                    assert(!before.contains(w)) by {
                        if before.contains(w) {
                            let j = choose|j: int| 0 <= j < before.len() && before[j] == w;
                            assert(out@[j]@ != w);
                        }
                    }
                    lemma_without_absent(before, w);
                }
            },
        }
        let ghost mid = out@;
        out.push(word);
        assert(strs(out@) == strs(mid).push(w));
        i += 1;
    }
    assert(strs(list@).take(n as int) == strs(list@));
    out
}

/// The class list of `input`: its words, split at white space, each distinct
/// word kept once at the place of its last occurrence, joined by single
/// spaces.
pub fn cleanup_cnl(input: &str) -> (line: String)
    ensures
        line@ == dedup_text(input@),
{
    if input.is_empty() {
        assert(input@ == Seq::<char>::empty());
        return String::new();
    }
    let pieces = split_words(input);
    let strings_list = dedup_words(&pieces);
    if strings_list.len() == 0 {
        assert(strs(strings_list@) == Seq::<Seq<char>>::empty());
        return String::new();
    }
    join_words(&strings_list)
}

/// Every word that is cached stands in the slot cached for it, and every
/// slot that is not blank is the one cached for its word.
pub open spec fn cache_agrees(cache: Map<Seq<char>, usize>, slots: Seq<Seq<char>>) -> bool {
    &&& forall|w: Seq<char>| #[trigger]
        cache.contains_key(w) ==> cache[w] < slots.len() && slots[cache[w] as int] == w
    &&& forall|j: int|
        0 <= j < slots.len() && #[trigger] slots[j].len() > 0 ==> cache.contains_key(slots[j])
            && cache[slots[j]] == j
}

/// The class list of `list`, computed by blanking: each word is looked up in
/// a hash map from words to slots; a word that comes again has its earlier
/// slot blanked; the blank slots are dropped at the end. The result is that
/// of [`cleanup_cnl`].
pub fn normalize_list_impl(list: &str) -> (line: String)
    ensures
        line@ == dedup_text(list@),
{
    let pieces = split_words(list);
    let ghost ws = strs(pieces@);
    let ghost blank = Seq::<char>::empty();
    proof {
        lemma_words_are_words(list@);
    }
    let mut string_list: Vec<String> = Vec::new();
    let mut cache_list_indexes: StringHashMap<usize> = StringHashMap::new();
    let n = pieces.len();
    let mut i: usize = 0;
    assert(without(strs(string_list@), blank) == Seq::<Seq<char>>::empty());
    while i < n
        invariant
            i <= n == pieces.len(),
            ws == strs(pieces@),
            all_words(ws),
            blank == Seq::<char>::empty(),
            string_list.len() == i,
            without(strs(string_list@), blank) == dedup(ws.take(i as int)),
            cache_agrees(cache_list_indexes@, strs(string_list@)),
        decreases n - i,
    {
        let word = pieces[i].clone();
        let ghost slots = strs(string_list@);
        let ghost cache = cache_list_indexes@;
        let ghost w = word@;
        proof {
            let seen = ws.take(i as int);
            assert(ws.take(i + 1) == seen.push(w));
            assert(is_word(ws[i as int]));
            assert(w != blank);
            lemma_dedup_push(seen, w);
            lemma_without_contains(slots, blank);
        }
        let cached = match cache_list_indexes.get(word.as_str()) {
            Some(cached_index) => Some(*cached_index),
            None => None,
        };
        match cached {
            Some(cached_index) => {
                string_list.set(cached_index, String::new());
                proof {
                    let k = cached_index as int;
                    assert(slots[k] == w);
                    assert(strs(string_list@) == slots.update(k, blank));
                    assert forall|j: int| 0 <= j < slots.len() && j != k implies #[trigger] slots[j]
                        != slots[k] by {
                        if slots[j] == w {
                            assert(slots[j].len() > 0);
                        }
                    }
                    lemma_without_blanked(slots, k, blank);
                }
            },
            None => {
                proof {
                    assert(!without(slots, blank).contains(w)) by {
                        if slots.contains(w) {
                            let j = choose|j: int| 0 <= j < slots.len() && slots[j] == w;
                            assert(slots[j].len() > 0);
                        }
                    }
                    lemma_without_absent(without(slots, blank), w);
                }
            },
        }
        let ghost mid = strs(string_list@);
        cache_list_indexes.insert(word.clone(), string_list.len());
        string_list.push(word);
        proof {
            let after = strs(string_list@);
            let next = cache_list_indexes@;
            assert(after == mid.push(w));
            lemma_without_push(mid, w, blank);
            assert forall|x: Seq<char>| #[trigger] next.contains_key(x) implies next[x] < after.len()
                && after[next[x] as int] == x by {
                if x != w {
                    assert(cache.contains_key(x));
                    assert(slots[cache[x] as int] == x);
                }
            }
            assert forall|j: int| 0 <= j < after.len() && #[trigger] after[j].len() > 0 implies next.contains_key(
                after[j],
            ) && next[after[j]] == j by {
                if j < i {
                    assert(mid[j] == after[j]);
                    assert(slots[j] == mid[j]);
                    assert(slots[j].len() > 0);
                    assert(cache.contains_key(slots[j]) && cache[slots[j]] == j);
                    if slots[j] == w {
                        assert(cached == Some(j as usize));
                    }
                }
            }
        }
        i += 1;
    }
    assert(ws.take(n as int) == ws);
    let mut kept: Vec<String> = Vec::new();
    let m = string_list.len();
    let mut j: usize = 0;
    assert(without(strs(string_list@).take(0), blank) == Seq::<Seq<char>>::empty());
    while j < m
        invariant
            j <= m == string_list.len(),
            blank == Seq::<char>::empty(),
            strs(kept@) == without(strs(string_list@).take(j as int), blank),
        decreases m - j,
    {
        let ghost before = strs(kept@);
        let ghost seen = strs(string_list@).take(j as int);
        proof {
            assert(strs(string_list@).take(j + 1) == seen.push(string_list@[j as int]@));
            lemma_without_push(seen, string_list@[j as int]@, blank);
        }
        if !string_list[j].as_str().is_empty() {
            kept.push(string_list[j].clone());
            assert(strs(kept@) == before.push(string_list@[j as int]@));
        } else {
            assert(string_list@[j as int]@ == blank);
        }
        j += 1;
    }
    assert(strs(string_list@).take(m as int) == strs(string_list@));
    join_words(&kept)
}

} // verus!
