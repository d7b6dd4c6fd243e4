//! Words of a text (`split_whitespace`) and how much two texts share.

use vstd::prelude::*;
use crate::text::{is_whitespace, is_ws, seq_eq, sub_chars};

verus! {

/// Index of the first whitespace at or after `i` (the length where there is none).
pub open spec fn word_end(s: Seq<char>, i: int) -> int
    decreases s.len() - i,
{
    if i < 0 || i >= s.len() {
        s.len() as int
    } else if is_ws(s[i]) {
        i
    } else {
        word_end(s, i + 1)
    }
}

pub proof fn lemma_word_end(s: Seq<char>, i: int)
    requires
        0 <= i <= s.len(),
    ensures
        i <= word_end(s, i) <= s.len(),
        i < s.len() && !is_ws(s[i]) ==> word_end(s, i) > i,
        forall|k: int| i <= k < word_end(s, i) ==> !is_ws(#[trigger] s[k]),
        word_end(s, i) < s.len() ==> is_ws(s[word_end(s, i)]),
    decreases s.len() - i,
{
    if i < s.len() && !is_ws(s[i]) {
        lemma_word_end(s, i + 1);
    }
}

/// The words of `s` from index `i` on: its maximal runs of
/// non-whitespace, in order (`split_whitespace`).
pub open spec fn words_from(s: Seq<char>, i: int) -> Seq<Seq<char>>
    decreases s.len() - i,
{
    if i < 0 || i >= s.len() {
        Seq::empty()
    } else if is_ws(s[i]) {
        words_from(s, i + 1)
    } else {
        proof {
            lemma_word_end(s, i);
        }
        seq![s.subrange(i, word_end(s, i))] + words_from(s, word_end(s, i))
    }
}

pub open spec fn words(s: Seq<char>) -> Seq<Seq<char>> {
    words_from(s, 0)
}

/// The set of words of `s`.
pub open spec fn word_set(s: Seq<char>) -> Set<Seq<char>> {
    words(s).to_set()
}

pub open spec fn seqs_view(v: Seq<Vec<char>>) -> Seq<Seq<char>> {
    v.map_values(|x: Vec<char>| x@)
}

/// The words of a text, in order.
pub fn split_words(s: &[char]) -> (r: Vec<Vec<char>>)
    ensures
        seqs_view(r@) == words(s@),
{
    let mut out: Vec<Vec<char>> = Vec::new();
    let mut i: usize = 0;
    while i < s.len()
        invariant
            i <= s.len(),
            seqs_view(out@) + words_from(s@, i as int) == words(s@),
        decreases s.len() - i,
    {
        if is_whitespace(s[i]) {
            i += 1;
        } else {
            let mut j = i;
            while j < s.len() && !is_whitespace(s[j])
                invariant
                    i <= j <= s.len(),
                    word_end(s@, i as int) == word_end(s@, j as int),
                decreases s.len() - j,
            {
                j += 1;
            }
            proof {
                lemma_word_end(s@, i as int);
            }
            let w = sub_chars(s, i, j);
            let ghost before = seqs_view(out@);
            out.push(w);
            assert(seqs_view(out@) =~= before.push(w@));
            assert(before.push(w@) + words_from(s@, j as int) =~= before + (seq![w@] + words_from(
                s@,
                j as int,
            )));
            i = j;
        }
    }
    assert(seqs_view(out@) + words_from(s@, i as int) =~= seqs_view(out@));
    out
}

fn listed(v: &Vec<Vec<char>>, w: &Vec<char>) -> (r: bool)
    ensures
        r == seqs_view(v@).contains(w@),
{
    let mut i: usize = 0;
    while i < v.len()
        invariant
            i <= v.len(),
            forall|k: int| 0 <= k < i ==> (#[trigger] seqs_view(v@)[k]) != w@,
        decreases v.len() - i,
    {
        if seq_eq(&v[i], w) {
            assert(seqs_view(v@)[i as int] == w@);
            return true;
        }
        i += 1;
    }
    false
}

/// The words of `v`, each once, in the order they first appear.
pub fn distinct(v: &Vec<Vec<char>>) -> (r: Vec<Vec<char>>)
    ensures
        seqs_view(r@).no_duplicates(),
        seqs_view(r@).to_set() == seqs_view(v@).to_set(),
{
    let mut out: Vec<Vec<char>> = Vec::new();
    let mut i: usize = 0;
    while i < v.len()
        invariant
            i <= v.len(),
            seqs_view(out@).no_duplicates(),
            seqs_view(out@).to_set() == seqs_view(v@).take(i as int).to_set(),
        decreases v.len() - i,
    {
        let ghost before = seqs_view(out@);
        let ghost x = seqs_view(v@)[i as int];
        assert(seqs_view(v@).take((i + 1) as int) =~= seqs_view(v@).take(i as int).push(x));
        if !listed(&out, &v[i]) {
            let w = sub_chars(&v[i], 0, v[i].len());
            assert(w@ =~= x);
            out.push(w);
            assert(seqs_view(out@) =~= before.push(x));
            assert(seqs_view(out@).to_set() =~= before.to_set().insert(x)) by {
                before.lemma_push_to_set_commute(x);
            }
        } else {
            assert(before.to_set().insert(x) =~= before.to_set());
        }
        proof {
            seqs_view(v@).take(i as int).lemma_push_to_set_commute(x);
        }
        i += 1;
    }
    assert(seqs_view(v@).take(v.len() as int) =~= seqs_view(v@));
    out
}

/// The number of words `a` and `b` share, each without repeats.
pub fn count_common(a: &Vec<Vec<char>>, b: &Vec<Vec<char>>) -> (r: usize)
    requires
        seqs_view(a@).no_duplicates(),
    ensures
        r == seqs_view(a@).to_set().intersect(seqs_view(b@).to_set()).len(),
{
    let ghost sa = seqs_view(a@);
    let ghost sb = seqs_view(b@).to_set();
    let ghost mut common: Seq<Seq<char>> = Seq::empty();
    let mut n: usize = 0;
    let mut i: usize = 0;
    while i < a.len()
        invariant
            i <= a.len(),
            sa == seqs_view(a@),
            sb == seqs_view(b@).to_set(),
            sa.no_duplicates(),
            common.no_duplicates(),
            common.len() == n,
            n <= i,
            common.to_set() == sa.take(i as int).to_set().intersect(sb),
            forall|k: int| 0 <= k < common.len() ==> sa.take(i as int).contains(#[trigger] common[k]),
        decreases a.len() - i,
    {
        let ghost x = sa[i as int];
        assert(sa.take((i + 1) as int) =~= sa.take(i as int).push(x));
        proof {
            sa.take(i as int).lemma_push_to_set_commute(x);
        }
        if listed(b, &a[i]) {
            proof {
                assert(!sa.take(i as int).contains(x)) by {
                    if sa.take(i as int).contains(x) {
                        let k = choose|k: int| 0 <= k < i && sa.take(i as int)[k] == x;
                        assert(sa[k] == sa[i as int]);
                    }
                }
                assert(!common.contains(x)) by {
                    if common.contains(x) {
                        let k = choose|k: int| 0 <= k < common.len() && common[k] == x;
                        assert(sa.take(i as int).contains(common[k]));
                    }
                }
                let c2 = common.push(x);
                assert forall|p: int, q: int| 0 <= p < c2.len() && 0 <= q < c2.len() && p != q implies c2[p]
                    != c2[q] by {
                    if p < common.len() && q < common.len() {
                    } else if p == common.len() {
                        assert(common.contains(c2[q]));
                    } else {
                        assert(common.contains(c2[p]));
                    }
                }
                common.lemma_push_to_set_commute(x);
                assert(c2.to_set() =~= sa.take((i + 1) as int).to_set().intersect(sb));
                assert forall|k: int| 0 <= k < c2.len() implies sa.take((i + 1) as int).contains(
                    #[trigger] c2[k],
                ) by {
                    if k < common.len() {
                        let m = choose|m: int| 0 <= m < i && sa.take(i as int)[m] == common[k];
                        assert(sa.take((i + 1) as int)[m] == common[k]);
                    } else {
                        assert(sa.take((i + 1) as int)[i as int] == x);
                    }
                }
                common = c2;
            }
            n += 1;
        } else {
            proof {
                assert(common.to_set() =~= sa.take((i + 1) as int).to_set().intersect(sb));
                assert forall|k: int| 0 <= k < common.len() implies sa.take((i + 1) as int).contains(
                    #[trigger] common[k],
                ) by {
                    let m = choose|m: int| 0 <= m < i && sa.take(i as int)[m] == common[k];
                    assert(sa.take((i + 1) as int)[m] == common[k]);
                }
            }
        }
        i += 1;
    }
    proof {
        assert(sa.take(a.len() as int) =~= sa);
        common.unique_seq_to_set();
    }
    n
}

} // verus!
