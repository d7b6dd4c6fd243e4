//! Sequences of indices ordered by a strict order: such a sequence is fixed
//! by the indices it holds, and one index can be inserted at its place.

use vstd::prelude::*;

verus! {

/// `prec` is a strict order: no index precedes itself, and it is transitive.
pub open spec fn strict_order(prec: spec_fn(int, int) -> bool) -> bool {
    &&& forall|i: int| !#[trigger] prec(i, i)
    &&& forall|i: int, j: int, k: int| #[trigger] prec(i, j) && #[trigger] prec(j, k) ==> prec(i, k)
}

/// Each index of `o` precedes every later one.
pub open spec fn ordered_by(prec: spec_fn(int, int) -> bool, o: Seq<int>) -> bool {
    forall|k: int, l: int| 0 <= k < l < o.len() ==> #[trigger] prec(o[k], o[l])
}

proof fn lemma_ordered_drop_first(prec: spec_fn(int, int) -> bool, a: Seq<int>)
    requires
        strict_order(prec),
        a.len() > 0,
        ordered_by(prec, a),
    ensures
        a.drop_first().to_set() == a.to_set().remove(a[0]),
        ordered_by(prec, a.drop_first()),
{
    let d = a.drop_first();
    assert forall|x: int| d.to_set().contains(x) <==> a.to_set().remove(a[0]).contains(x) by {
        if d.to_set().contains(x) {
            let i = choose|i: int| 0 <= i < d.len() && d[i] == x;
            assert(a[i + 1] == x);
            assert(prec(a[0], a[i + 1]));
            assert(!prec(a[0], a[0]));
            assert(a.contains(x));
        }
        if a.to_set().remove(a[0]).contains(x) {
            let i = choose|i: int| 0 <= i < a.len() && a[i] == x;
            assert(i != 0);
            assert(d[i - 1] == x);
            assert(d.contains(x));
        }
    }
    assert(d.to_set() =~= a.to_set().remove(a[0]));
    assert forall|i: int, j: int| 0 <= i < j < d.len() implies #[trigger] prec(d[i], d[j]) by {
        assert(d[i] == a[i + 1] && d[j] == a[j + 1]);
        assert(prec(a[i + 1], a[j + 1]));
    }
}

/// Two sequences ordered by a strict order that hold the same indices are
/// the same sequence.
pub proof fn lemma_ordered_unique(prec: spec_fn(int, int) -> bool, a: Seq<int>, b: Seq<int>)
    requires
        strict_order(prec),
        ordered_by(prec, a),
        ordered_by(prec, b),
        a.to_set() == b.to_set(),
    ensures
        a == b,
    decreases a.len(),
{
    if a.len() == 0 {
        if b.len() > 0 {
            assert(b.to_set().contains(b[0]));
            assert(!a.to_set().contains(b[0]));
        }
        assert(a =~= b);
    } else {
        assert(a.to_set().contains(a[0]));
        assert(b.to_set().contains(a[0]));
        let j = choose|j: int| 0 <= j < b.len() && b[j] == a[0];
        assert(b.to_set().contains(b[0]));
        assert(a.to_set().contains(b[0]));
        let k = choose|k: int| 0 <= k < a.len() && a[k] == b[0];
        if j > 0 && k > 0 {
            assert(prec(b[0], b[j]));
            assert(prec(a[0], a[k]));
            assert(prec(a[0], a[0]));
        }
        assert(a[0] == b[0]);
        lemma_ordered_drop_first(prec, a);
        lemma_ordered_drop_first(prec, b);
        lemma_ordered_unique(prec, a.drop_first(), b.drop_first());
        assert(a =~= seq![a[0]] + a.drop_first());
        assert(b =~= seq![b[0]] + b.drop_first());
    }
}

/// Inserting `x` after the indices that precede it and before those it
/// precedes keeps the sequence ordered, and adds `x` to its indices.
pub proof fn lemma_insert_ordered(prec: spec_fn(int, int) -> bool, s: Seq<int>, p: int, x: int)
    requires
        strict_order(prec),
        ordered_by(prec, s),
        0 <= p <= s.len(),
        forall|q: int| 0 <= q < p ==> #[trigger] prec(s[q], x),
        p < s.len() ==> prec(x, s[p]),
    ensures
        ordered_by(prec, s.take(p).push(x) + s.skip(p)),
        (s.take(p).push(x) + s.skip(p)).to_set() == s.to_set().insert(x),
        (s.take(p).push(x) + s.skip(p)).len() == s.len() + 1,
{
    let t = s.take(p).push(x) + s.skip(p);
    assert forall|a: int, b: int| 0 <= a < b < t.len() implies #[trigger] prec(t[a], t[b]) by {
        if b < p {
            assert(t[a] == s[a] && t[b] == s[b]);
        } else if b == p {
            assert(t[a] == s[a] && t[b] == x);
        } else if a == p {
            assert(t[a] == x && t[b] == s[b - 1]);
            if b - 1 > p {
                assert(prec(s[p], s[b - 1]));
            }
        } else if a < p {
            assert(t[a] == s[a] && t[b] == s[b - 1]);
            assert(prec(s[a], s[b - 1]));
        } else {
            assert(t[a] == s[a - 1] && t[b] == s[b - 1]);
            assert(prec(s[a - 1], s[b - 1]));
        }
    }
    assert forall|y: int| t.to_set().contains(y) <==> s.to_set().insert(x).contains(y) by {
        if t.contains(y) {
            let a = choose|a: int| 0 <= a < t.len() && t[a] == y;
            if a < p {
                assert(s[a] == y);
            } else if a > p {
                assert(s[a - 1] == y);
            }
        }
        if s.contains(y) {
            let a = choose|a: int| 0 <= a < s.len() && s[a] == y;
            if a < p {
                assert(t[a] == y);
            } else {
                assert(t[a + 1] == y);
            }
        }
        if y == x {
            assert(t[p] == y);
        }
    }
    assert(t.to_set() =~= s.to_set().insert(x));
}

} // verus!
