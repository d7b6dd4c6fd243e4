//! Listing log records a page at a time: newest first, records created at
//! the same time in the order in which they were collected.

use vstd::prelude::*;
use crate::log_format::LogRecordSummary;
use crate::stable_order::{lemma_insert_ordered, lemma_ordered_unique, ordered_by, strict_order};
use crate::text::{lemma_lex_asymmetric, lemma_lex_irreflexive, lemma_lex_total, lemma_lex_transitive, lex_lt, str_lt};

verus! {

/// One page of a log listing.
#[derive(Debug)]
pub struct LogRecordPage {
    pub records: Vec<LogRecordSummary>,
    pub offset: i64,
    pub limit: i64,
    pub has_more: bool,
    pub total_count: i64,
}

/// The creation times of the records, as text.
pub open spec fn created_keys(s: Seq<LogRecordSummary>) -> Seq<Seq<char>> {
    s.map_values(|r: LogRecordSummary| r.created_at@)
}

/// Record `i` comes before record `j` in a listing: it was created later,
/// or at the same time and was collected first.
pub open spec fn listed_before(keys: Seq<Seq<char>>, i: int, j: int) -> bool {
    lex_lt(keys[j], keys[i]) || (keys[i] == keys[j] && i < j)
}

/// The listing order as a relation on record indices.
pub open spec fn listing_prec(keys: Seq<Seq<char>>) -> spec_fn(int, int) -> bool {
    |i: int, j: int| listed_before(keys, i, j)
}

/// Each index of `order` comes before the next one.
pub open spec fn in_listing_order(keys: Seq<Seq<char>>, order: Seq<int>) -> bool {
    ordered_by(listing_prec(keys), order)
}

/// `order` names every record of `keys` once, in listing order.
pub open spec fn is_listing(keys: Seq<Seq<char>>, order: Seq<int>) -> bool {
    &&& in_listing_order(keys, order)
    &&& order.to_set() == Set::new(|i: int| 0 <= i < keys.len())
}

/// The order in which records are listed.
pub open spec fn listing_order(keys: Seq<Seq<char>>) -> Seq<int> {
    choose|o: Seq<int>| is_listing(keys, o)
}

pub open spec fn min_int(a: int, b: int) -> int {
    if a < b {
        a
    } else {
        b
    }
}

/// The records of a listing from position `offset` on, at most `limit` of them.
pub open spec fn listed_page(s: Seq<LogRecordSummary>, offset: int, limit: int) -> Seq<LogRecordSummary> {
    let o = listing_order(created_keys(s));
    let lo = min_int(offset, s.len() as int);
    let hi = min_int(offset + limit, s.len() as int);
    Seq::new((hi - lo) as nat, |k: int| s[o[lo + k]])
}

// ---------------------------------------------------------------------------
// Laws of paging
// ---------------------------------------------------------------------------

/// Two pages that follow one another hold the records of the one page that
/// spans both, in the same order.
pub proof fn law_pages_concatenate(s: Seq<LogRecordSummary>, offset: int, a: int, b: int)
    requires
        0 <= offset,
        0 <= a,
        0 <= b,
    ensures
        listed_page(s, offset, a) + listed_page(s, offset + a, b) == listed_page(s, offset, a + b),
{
    let p = listed_page(s, offset, a);
    let q = listed_page(s, offset + a, b);
    let w = listed_page(s, offset, a + b);
    assert(p + q =~= w);
}

/// More records follow a page exactly when the next page is not empty.
pub proof fn law_more_iff_next_page(s: Seq<LogRecordSummary>, offset: int, limit: int)
    requires
        0 <= offset,
        1 <= limit,
    ensures
        (s.len() > offset + limit) == (listed_page(s, offset + limit, limit).len() > 0),
{
}

// ---------------------------------------------------------------------------
// The listing order is a strict order
// ---------------------------------------------------------------------------

pub proof fn lemma_listed_irreflexive(keys: Seq<Seq<char>>, i: int)
    ensures
        !listed_before(keys, i, i),
{
    lemma_lex_irreflexive(keys[i]);
}

pub proof fn lemma_listed_asymmetric(keys: Seq<Seq<char>>, i: int, j: int)
    ensures
        !(listed_before(keys, i, j) && listed_before(keys, j, i)),
{
    lemma_lex_asymmetric(keys[i], keys[j]);
    lemma_lex_irreflexive(keys[i]);
}

pub proof fn lemma_listed_transitive(keys: Seq<Seq<char>>, i: int, j: int, k: int)
    requires
        listed_before(keys, i, j),
        listed_before(keys, j, k),
    ensures
        listed_before(keys, i, k),
{
    if lex_lt(keys[j], keys[i]) && lex_lt(keys[k], keys[j]) {
        lemma_lex_transitive(keys[k], keys[j], keys[i]);
    }
}

/// The listing order is a strict order.
pub proof fn lemma_listing_strict(keys: Seq<Seq<char>>)
    ensures
        strict_order(listing_prec(keys)),
{
    let prec = listing_prec(keys);
    assert forall|i: int| !#[trigger] prec(i, i) by {
        lemma_listed_irreflexive(keys, i);
    }
    assert forall|i: int, j: int, k: int| #[trigger] prec(i, j) && #[trigger] prec(j, k) implies prec(i, k) by {
        lemma_listed_transitive(keys, i, j, k);
    }
}

// ---------------------------------------------------------------------------
// Computing the listing
// ---------------------------------------------------------------------------

pub open spec fn indices_view(o: Seq<usize>) -> Seq<int> {
    o.map_values(|x: usize| x as int)
}

/// Inserts record `i` into a listing of the records before it.
fn insert_listed(records: &Vec<LogRecordSummary>, order: &mut Vec<usize>, i: usize)
    requires
        i < records.len(),
        in_listing_order(created_keys(records@), indices_view(old(order)@)),
        forall|k: int| 0 <= k < old(order)@.len() ==> #[trigger] old(order)@[k] < i,
    ensures
        in_listing_order(created_keys(records@), indices_view(final(order)@)),
        indices_view(final(order)@).to_set() == indices_view(old(order)@).to_set().insert(i as int),
        forall|k: int| 0 <= k < final(order)@.len() ==> #[trigger] final(order)@[k] <= i,
        final(order)@.len() == old(order)@.len() + 1,
{
    let ghost keys = created_keys(records@);
    let ghost s = indices_view(order@);
    let ghost old_order = order@;
    let mut p: usize = 0;
    while p < order.len() && !str_lt(records[order[p]].created_at.as_str(), records[i].created_at.as_str())
        invariant
            p <= order.len(),
            order@ == old_order,
            s == indices_view(order@),
            i < records.len(),
            keys == created_keys(records@),
            forall|k: int| 0 <= k < order@.len() ==> #[trigger] order@[k] < i,
            forall|q: int| 0 <= q < p ==> listed_before(keys, #[trigger] s[q], i as int),
            in_listing_order(keys, s),
        decreases order.len() - p,
    {
        let ghost x = s[p as int];
        proof {
            assert(order@[p as int] < i);
            assert(keys[x] == records@[x].created_at@);
            assert(keys[i as int] == records@[i as int].created_at@);
            lemma_lex_total(keys[x], keys[i as int]);
        }
        p += 1;
    }
    proof {
        if p < s.len() {
            assert(keys[s[p as int]] == records@[s[p as int]].created_at@);
            assert(keys[i as int] == records@[i as int].created_at@);
            assert(listed_before(keys, i as int, s[p as int]));
        }
    }
    proof {
        lemma_listing_strict(keys);
        assert forall|q: int| 0 <= q < p implies #[trigger] listing_prec(keys)(s[q], i as int) by {
            assert(listed_before(keys, s[q], i as int));
        }
        lemma_insert_ordered(listing_prec(keys), s, p as int, i as int);
    }
    order.insert(p, i);
    assert(indices_view(order@) =~= s.take(p as int).push(i as int) + s.skip(p as int));
    assert forall|k: int| 0 <= k < order@.len() implies #[trigger] order@[k] <= i by {
        if k < p {
            assert(order@[k] == old_order[k]);
        } else if k > p {
            assert(order@[k] == old_order[k - 1]);
        }
    }
}

/// The order in which the records are listed: newest first, records of the
/// same time in the order given.
pub fn listing_indices(records: &Vec<LogRecordSummary>) -> (order: Vec<usize>)
    ensures
        indices_view(order@) == listing_order(created_keys(records@)),
        is_listing(created_keys(records@), indices_view(order@)),
        order@.len() == records@.len(),
        forall|k: int| 0 <= k < order@.len() ==> #[trigger] order@[k] < records@.len(),
{
    let ghost keys = created_keys(records@);
    let mut order: Vec<usize> = Vec::new();
    let mut i: usize = 0;
    while i < records.len()
        invariant
            i <= records.len(),
            keys == created_keys(records@),
            in_listing_order(keys, indices_view(order@)),
            indices_view(order@).to_set() == Set::new(|j: int| 0 <= j < i),
            forall|k: int| 0 <= k < order@.len() ==> #[trigger] order@[k] < i,
            order@.len() == i,
        decreases records.len() - i,
    {
        insert_listed(records, &mut order, i);
        assert(Set::new(|j: int| 0 <= j < i).insert(i as int) =~= Set::new(|j: int| 0 <= j < i + 1));
        i += 1;
    }
    proof {
        assert(keys.len() == records@.len());
        assert(Set::new(|j: int| 0 <= j < i) =~= Set::new(|j: int| 0 <= j < keys.len()));
        let o = indices_view(order@);
        assert(is_listing(keys, o));
        let c = listing_order(keys);
        assert(is_listing(keys, c));
        lemma_listing_strict(keys);
        lemma_ordered_unique(listing_prec(keys), o, c);
    }
    order
}

fn take_slot(slots: &mut Vec<Option<LogRecordSummary>>, pos: usize) -> (x: Option<LogRecordSummary>)
    requires
        pos < old(slots)@.len(),
    ensures
        x == old(slots)@[pos as int],
        final(slots)@ == old(slots)@.update(pos as int, None),
{
    let mut tmp: Option<LogRecordSummary> = None;
    std::mem::swap(&mut tmp, &mut slots[pos]);
    tmp
}

/// One page of the listing of `records`: the records from position
/// `offset` of the listing on, at most `limit` of them, newest first;
/// whether more records follow the page, and how many there are in all.
pub fn page_log_records(records: Vec<LogRecordSummary>, offset: i64, limit: i64) -> (r: LogRecordPage)
    requires
        0 <= offset,
        0 <= limit,
        offset + limit <= i64::MAX,
        records@.len() <= i64::MAX,
    ensures
        r.offset == offset,
        r.limit == limit,
        r.total_count == records@.len(),
        r.has_more == (records@.len() > offset + limit),
        r.records@ == listed_page(records@, offset as int, limit as int),
        forall|k: int, l: int|
            0 <= k < l < r.records@.len() ==> !lex_lt(
                #[trigger] r.records@[k].created_at@,
                #[trigger] r.records@[l].created_at@,
            ),
{
    let ghost src = records@;
    let ghost keys = created_keys(src);
    let n = records.len();
    let order = listing_indices(&records);
    let ghost o = indices_view(order@);
    let mut rest = records;
    let mut slots: Vec<Option<LogRecordSummary>> = Vec::new();
    while rest.len() > 0
        invariant
            slots@.len() + rest@.len() == n,
            n == src.len(),
            rest@ == src.take(rest@.len() as int),
            forall|k: int| 0 <= k < slots@.len() ==> #[trigger] slots@[k] == Some(src[n - 1 - k]),
        decreases rest@.len(),
    {
        let ghost before = rest@;
        let x = rest.pop().unwrap();
        assert(x == src[rest@.len() as int]);
        slots.push(Some(x));
        assert(rest@ =~= src.take(rest@.len() as int));
    }
    let total = n as i64;
    let lo: usize = if offset < total {
        offset as usize
    } else {
        n
    };
    let hi: usize = if offset + limit < total {
        (offset + limit) as usize
    } else {
        n
    };
    let mut out: Vec<LogRecordSummary> = Vec::new();
    let mut k: usize = lo;
    while k < hi
        invariant
            lo <= k <= hi <= n,
            n == src.len(),
            slots@.len() == n,
            order@.len() == n,
            o == indices_view(order@),
            o == listing_order(keys),
            is_listing(keys, o),
            forall|q: int| 0 <= q < order@.len() ==> #[trigger] order@[q] < n,
            forall|q: int| k <= q < n ==> #[trigger] slots@[n - 1 - o[q]] == Some(src[o[q]]),
            out@ == Seq::new((k - lo) as nat, |j: int| src[o[lo + j]]),
        decreases hi - k,
    {
        let idx = order[k];
        let pos = n - 1 - idx;
        assert(slots@[n - 1 - o[k as int]] == Some(src[o[k as int]]));
        let x = take_slot(&mut slots, pos);
        let y = x.unwrap();
        out.push(y);
        proof {
            assert forall|q: int| k + 1 <= q < n implies #[trigger] slots@[n - 1 - o[q]] == Some(src[o[q]]) by {
                assert(listing_prec(keys)(o[k as int], o[q]));
                lemma_listed_irreflexive(keys, o[k as int]);
                assert(o[q] != o[k as int]);
                assert(order@[q] < n);
            }
        }
        assert(out@ =~= Seq::new((k + 1 - lo) as nat, |j: int| src[o[lo + j]]));
        k += 1;
    }
    proof {
        assert(keys.len() == n);
        assert(out@ =~= listed_page(src, offset as int, limit as int));
        assert forall|a: int, b: int| 0 <= a < b < out@.len() implies !lex_lt(
            #[trigger] out@[a].created_at@,
            #[trigger] out@[b].created_at@,
        ) by {
            let x = o[lo + a];
            let y = o[lo + b];
            assert(listing_prec(keys)(x, y));
            assert(keys[x] == src[x].created_at@);
            assert(keys[y] == src[y].created_at@);
            lemma_listed_asymmetric(keys, x, y);
            lemma_lex_asymmetric(keys[x], keys[y]);
            lemma_lex_irreflexive(keys[x]);
        }
    }
    LogRecordPage { records: out, offset, limit, has_more: total > offset + limit, total_count: total }
}

} // verus!
