//! Listings: the one way to write a finite set out in increasing order.
use vstd::prelude::*;

verus! {

/// `lt` is a strict total order.
pub open spec fn strict_total_order<T>(lt: spec_fn(T, T) -> bool) -> bool {
    &&& forall|a: T| !#[trigger] lt(a, a)
    &&& forall|a: T, b: T, c: T| #[trigger] lt(a, b) && #[trigger] lt(b, c) ==> lt(a, c)
    &&& forall|a: T, b: T| a != b ==> #[trigger] lt(a, b) || lt(b, a)
}

/// Each element of `q` comes strictly before every later one.
pub open spec fn increasing<T>(q: Seq<T>, lt: spec_fn(T, T) -> bool) -> bool {
    forall|i: int, j: int| 0 <= i < j < q.len() ==> lt(#[trigger] q[i], #[trigger] q[j])
}

/// `q` lists the set `s`: in increasing order, each element of `s` once and nothing else.
pub open spec fn lists<T>(q: Seq<T>, s: Set<T>, lt: spec_fn(T, T) -> bool) -> bool {
    increasing(q, lt) && q.to_set() == s
}

/// The listing of `s` in the order `lt`.
pub open spec fn listing<T>(s: Set<T>, lt: spec_fn(T, T) -> bool) -> Seq<T> {
    choose|q: Seq<T>| lists(q, s, lt)
}

/// Two increasing sequences with the same elements are the same sequence.
pub proof fn lemma_increasing_unique<T>(a: Seq<T>, b: Seq<T>, lt: spec_fn(T, T) -> bool)
    requires
        strict_total_order(lt),
        increasing(a, lt),
        increasing(b, lt),
        a.to_set() == b.to_set(),
    ensures
        a == b,
    decreases a.len(),
{
    if a.len() == 0 {
        if b.len() > 0 {
            assert(b.to_set().contains(b[0]));
            assert(a.contains(b[0]));
        }
        assert(a =~= b);
    } else {
        assert(a.to_set().contains(a[0]));
        assert(b.contains(a[0]));
        let j = choose|j: int| 0 <= j < b.len() && b[j] == a[0];
        assert(b.to_set().contains(b[0]));
        assert(a.contains(b[0]));
        let i = choose|i: int| 0 <= i < a.len() && a[i] == b[0];
        if a[0] != b[0] {
            assert(lt(a[0], a[i]));
            assert(lt(b[0], b[j]));
            assert(lt(a[0], a[0]));
        }
        let ta = a.skip(1);
        let tb = b.skip(1);
        assert forall|x: T| ta.to_set().contains(x) <==> tb.to_set().contains(x) by {
            if ta.contains(x) {
                let k = choose|k: int| 0 <= k < ta.len() && ta[k] == x;
                assert(lt(a[0], a[k + 1]));
                assert(b.to_set().contains(x));
                assert(b.contains(x));
                let m = choose|m: int| 0 <= m < b.len() && b[m] == x;
                assert(m != 0);
                assert(tb[m - 1] == x);
            }
            if tb.contains(x) {
                let k = choose|k: int| 0 <= k < tb.len() && tb[k] == x;
                assert(lt(b[0], b[k + 1]));
                assert(a.to_set().contains(x));
                assert(a.contains(x));
                let m = choose|m: int| 0 <= m < a.len() && a[m] == x;
                assert(m != 0);
                assert(ta[m - 1] == x);
            }
        }
        assert(ta.to_set() =~= tb.to_set());
        assert forall|p: int, q: int| 0 <= p < q < ta.len() implies lt(
            #[trigger] ta[p],
            #[trigger] ta[q],
        ) by {
            assert(lt(a[p + 1], a[q + 1]));
        }
        assert forall|p: int, q: int| 0 <= p < q < tb.len() implies lt(
            #[trigger] tb[p],
            #[trigger] tb[q],
        ) by {
            assert(lt(b[p + 1], b[q + 1]));
        }
        lemma_increasing_unique(ta, tb, lt);
        assert(a =~= seq![a[0]] + ta);
        assert(b =~= seq![b[0]] + tb);
    }
}

/// A sequence that lists a set is the listing of that set.
pub proof fn lemma_listing_is<T>(q: Seq<T>, s: Set<T>, lt: spec_fn(T, T) -> bool)
    requires
        strict_total_order(lt),
        lists(q, s, lt),
    ensures
        listing(s, lt) == q,
{
    let p = listing(s, lt);
    assert(lists(p, s, lt));
    lemma_increasing_unique(p, q, lt);
}

/// An increasing sequence holds no element twice.
pub proof fn lemma_increasing_distinct<T>(q: Seq<T>, lt: spec_fn(T, T) -> bool)
    requires
        strict_total_order(lt),
        increasing(q, lt),
    ensures
        q.no_duplicates(),
{
    assert forall|i: int, j: int| 0 <= i < q.len() && 0 <= j < q.len() && i != j implies q[i]
        != q[j] by {
        if i < j {
            assert(lt(q[i], q[j]));
        } else {
            assert(lt(q[j], q[i]));
        }
    }
}

/// The place of `x` in the increasing sequence `q`: what comes before it is
/// smaller than `x`, and what follows is not.
pub proof fn lemma_position<T>(q: Seq<T>, x: T, lt: spec_fn(T, T) -> bool) -> (k: int)
    requires
        strict_total_order(lt),
        increasing(q, lt),
    ensures
        0 <= k <= q.len(),
        forall|i: int| 0 <= i < k ==> lt(#[trigger] q[i], x),
        forall|i: int| k <= i < q.len() ==> !lt(#[trigger] q[i], x),
    decreases q.len(),
{
    if q.len() == 0 {
        0
    } else if lt(q.last(), x) {
        assert forall|i: int| 0 <= i < q.len() implies lt(#[trigger] q[i], x) by {
            if i < q.len() - 1 {
                assert(lt(q[i], q[q.len() - 1]));
            }
        }
        q.len() as int
    } else {
        let p = q.drop_last();
        assert forall|i: int, j: int| 0 <= i < j < p.len() implies lt(
            #[trigger] p[i],
            #[trigger] p[j],
        ) by {
            assert(lt(q[i], q[j]));
        }
        let k = lemma_position(p, x, lt);
        assert forall|i: int| 0 <= i < k implies lt(#[trigger] q[i], x) by {
            assert(lt(p[i], x));
        }
        assert forall|i: int| k <= i < q.len() implies !lt(#[trigger] q[i], x) by {
            if i < p.len() {
                assert(!lt(p[i], x));
            }
        }
        k
    }
}

/// Putting `x` between the smaller and the larger elements of an increasing
/// sequence gives an increasing sequence with one element more.
pub proof fn lemma_insert_increasing<T>(q: Seq<T>, k: int, x: T, lt: spec_fn(T, T) -> bool)
    requires
        strict_total_order(lt),
        increasing(q, lt),
        0 <= k <= q.len(),
        forall|i: int| 0 <= i < k ==> lt(#[trigger] q[i], x),
        forall|i: int| k <= i < q.len() ==> lt(x, #[trigger] q[i]),
    ensures
        increasing(q.insert(k, x), lt),
        q.insert(k, x).to_set() == q.to_set().insert(x),
{
    let r = q.insert(k, x);
    assert forall|i: int, j: int| 0 <= i < j < r.len() implies lt(
        #[trigger] r[i],
        #[trigger] r[j],
    ) by {
        if j < k {
            assert(lt(q[i], q[j]));
        } else if j == k {
            assert(lt(q[i], x));
        } else if i == k {
            assert(lt(x, q[j - 1]));
        } else if i < k {
            assert(lt(q[i], q[j - 1]));
        } else {
            assert(lt(q[i - 1], q[j - 1]));
        }
    }
    assert forall|m: T| r.to_set().contains(m) <==> q.to_set().insert(x).contains(m) by {
        if r.contains(m) {
            let i = choose|i: int| 0 <= i < r.len() && r[i] == m;
            if i < k {
                assert(q[i] == m);
            } else if i > k {
                assert(q[i - 1] == m);
            }
        }
        if m == x {
            assert(r[k] == m);
        }
        if q.contains(m) {
            let i = choose|i: int| 0 <= i < q.len() && q[i] == m;
            if i < k {
                assert(r[i] == m);
            } else {
                assert(r[i + 1] == m);
            }
        }
    }
    assert(r.to_set() =~= q.to_set().insert(x));
}

/// Every finite set has a listing.
pub proof fn lemma_listing_exists<T>(s: Set<T>, lt: spec_fn(T, T) -> bool)
    requires
        s.finite(),
        strict_total_order(lt),
    ensures
        lists(listing(s, lt), s, lt),
    decreases s.len(),
{
    if s.len() == 0 {
        let q = Seq::<T>::empty();
        assert(q.to_set() =~= s);
        assert(lists(q, s, lt));
    } else {
        let x = s.choose();
        let rest = s.remove(x);
        lemma_listing_exists(rest, lt);
        let q = listing(rest, lt);
        let k = lemma_position(q, x, lt);
        assert forall|i: int| k <= i < q.len() implies lt(x, #[trigger] q[i]) by {
            assert(q.to_set().contains(q[i]));
            assert(q[i] != x);
        }
        lemma_insert_increasing(q, k, x, lt);
        assert(q.insert(k, x).to_set() =~= s);
        assert(lists(q.insert(k, x), s, lt));
    }
}

} // verus!
