//! The mark registry: the set of (node, label) pairs of a session.
use crate::listing::{
    increasing, lemma_insert_increasing, lemma_listing_is, listing, strict_total_order,
};
use crate::text::{
    label_lt, label_order, lemma_lex_irreflexive, lemma_lex_total, lemma_lex_transitive, lex_lt,
};
use vstd::prelude::*;

verus! {

/// The order in which marks are kept: by node, then by label.
pub open spec fn mark_lt(a: (usize, Seq<char>), b: (usize, Seq<char>)) -> bool {
    a.0 < b.0 || (a.0 == b.0 && lex_lt(a.1, b.1))
}

/// [`mark_lt`] as a relation.
pub open spec fn mark_order() -> spec_fn((usize, Seq<char>), (usize, Seq<char>)) -> bool {
    |a: (usize, Seq<char>), b: (usize, Seq<char>)| mark_lt(a, b)
}

/// The order of node ids.
pub open spec fn id_order() -> spec_fn(usize, usize) -> bool {
    |a: usize, b: usize| a < b
}

/// The labels that `marks` gives to the node `id`.
pub open spec fn labels_of(marks: Set<(usize, Seq<char>)>, id: usize) -> Set<Seq<char>> {
    Set::new(|label: Seq<char>| marks.contains((id, label)))
}

/// The nodes that carry a mark.
pub open spec fn marked_ids(marks: Set<(usize, Seq<char>)>) -> Set<usize> {
    Set::new(|id: usize| exists|label: Seq<char>| marks.contains((id, label)))
}

/// `marks` without the marks of the node `id`.
pub open spec fn without(marks: Set<(usize, Seq<char>)>, id: usize) -> Set<(usize, Seq<char>)> {
    Set::new(|m: (usize, Seq<char>)| marks.contains(m) && m.0 != id)
}

/// The lexicographic order of labels is a strict total order.
pub proof fn lemma_label_order()
    ensures
        strict_total_order(label_order()),
{
    let lt = label_order();
    assert forall|a: Seq<char>| !#[trigger] lt(a, a) by {
        lemma_lex_irreflexive(a);
    }
    assert forall|a: Seq<char>, b: Seq<char>, c: Seq<char>| #[trigger]
        lt(a, b) && #[trigger] lt(b, c) implies lt(a, c) by {
        lemma_lex_transitive(a, b, c);
    }
    assert forall|a: Seq<char>, b: Seq<char>| a != b implies #[trigger] lt(a, b) || lt(b, a) by {
        lemma_lex_total(a, b);
    }
}

/// The order of marks is a strict total order.
pub proof fn lemma_mark_order()
    ensures
        strict_total_order(mark_order()),
{
    let lt = mark_order();
    assert forall|a: (usize, Seq<char>)| !#[trigger] lt(a, a) by {
        lemma_lex_irreflexive(a.1);
    }
    assert forall|a: (usize, Seq<char>), b: (usize, Seq<char>), c: (usize, Seq<char>)| #[trigger]
        lt(a, b) && #[trigger] lt(b, c) implies lt(a, c) by {
        if a.0 == b.0 && b.0 == c.0 {
            lemma_lex_transitive(a.1, b.1, c.1);
        }
    }
    assert forall|a: (usize, Seq<char>), b: (usize, Seq<char>)| a != b implies #[trigger] lt(a, b)
        || lt(b, a) by {
        if a.0 == b.0 {
            lemma_lex_total(a.1, b.1);
        }
    }
}

/// The order of node ids is a strict total order.
pub proof fn lemma_id_order()
    ensures
        strict_total_order(id_order()),
{
}

/// Whether the mark `(a_id, a_label)` is kept before `(b_id, b_label)`.
pub fn mark_before(a_id: usize, a_label: &str, b_id: usize, b_label: &str) -> (r: bool)
    ensures
        r == mark_lt((a_id, a_label@), (b_id, b_label@)),
{
    a_id < b_id || (a_id == b_id && label_lt(a_label, b_label))
}

/// The marks of a session. A pair is held once however often it is added,
/// and one node may carry several labels.
pub struct MarkRegistry {
    marks: Vec<(usize, String)>,
}

impl View for MarkRegistry {
    type V = Set<(usize, Seq<char>)>;

    closed spec fn view(&self) -> Set<(usize, Seq<char>)> {
        self.marks.deep_view().to_set()
    }
}

impl MarkRegistry {
    /// The marks are kept in increasing order, so none is held twice.
    pub closed spec fn wf(&self) -> bool {
        increasing(self.marks.deep_view(), mark_order())
    }

    /// A registry holds finitely many marks.
    pub proof fn lemma_finite(&self)
        ensures
            self@.finite(),
    {
        vstd::seq_lib::seq_to_set_is_finite(self.marks.deep_view());
    }

    /// The registry without marks.
    pub fn new() -> (r: MarkRegistry)
        ensures
            r.wf(),
            r@ == Set::<(usize, Seq<char>)>::empty(),
    {
        let r = MarkRegistry { marks: Vec::new() };
        assert(r.marks.deep_view().to_set() =~= Set::<(usize, Seq<char>)>::empty());
        r
    }

    /// Adds the mark `(id, label)`; nothing changes where it is held already.
    pub fn add(&mut self, id: usize, label: String)
        requires
            old(self).wf(),
        ensures
            final(self).wf(),
            final(self)@ == old(self)@.insert((id, label@)),
    {
        proof {
            lemma_mark_order();
        }
        let ghost before = self.marks.deep_view();
        let ghost x = (id, label@);
        let n = self.marks.len();
        let mut i: usize = 0;
        while i < n && mark_before(self.marks[i].0, self.marks[i].1.as_str(), id, label.as_str())
            invariant
                n == self.marks.len(),
                i <= n,
                self.marks.deep_view() == before,
                x == (id, label@),
                forall|k: int| 0 <= k < i ==> mark_lt(#[trigger] before[k], x),
            decreases n - i,
        {
            i += 1;
        }
        if i < n && self.marks[i].0 == id && self.marks[i].1 == label {
            assert(before[i as int] == x);
            assert(before.to_set().insert(x) =~= before.to_set());
        } else {
            self.marks.insert(i, (id, label));
            proof {
                let lt = mark_order();
                assert(self.marks.deep_view() =~= before.insert(i as int, x));
                assert forall|k: int| i <= k < before.len() implies lt(x, #[trigger] before[k]) by {
                    assert(before[i as int] != x);
                    assert(!lt(before[i as int], x));
                    assert(lt(x, before[i as int]));
                    if i < k {
                        assert(lt(before[i as int], before[k]));
                    }
                }
                assert forall|k: int| 0 <= k < i implies lt(#[trigger] before[k], x) by {
                    assert(mark_lt(before[k], x));
                }
                lemma_insert_increasing(before, i as int, x, lt);
            }
        }
    }

    /// Drops every mark of the node `id`.
    pub fn remove(&mut self, id: usize)
        requires
            old(self).wf(),
        ensures
            final(self).wf(),
            final(self)@ == without(old(self)@, id),
    {
        proof {
            lemma_mark_order();
        }
        let ghost before = self.marks.deep_view();
        let mut kept: Vec<(usize, String)> = Vec::new();
        let n = self.marks.len();
        let mut i: usize = 0;
        while i < n
            invariant
                n == self.marks.len(),
                i <= n,
                self.marks.deep_view() == before,
                increasing(before, mark_order()),
                strict_total_order(mark_order()),
                increasing(kept.deep_view(), mark_order()),
                forall|k: int|
                    0 <= k < kept.len() ==> before.contains(#[trigger] kept.deep_view()[k])
                        && kept.deep_view()[k].0 != id,
                forall|m: int|
                    0 <= m < i && before[m].0 != id ==> kept.deep_view().contains(
                        #[trigger] before[m],
                    ),
                kept.len() > 0 ==> forall|m: int|
                    i <= m < n ==> mark_lt(kept.deep_view().last(), #[trigger] before[m]),
            decreases n - i,
        {
            if self.marks[i].0 != id {
                let ghost prev = kept.deep_view();
                kept.push((self.marks[i].0, self.marks[i].1.clone()));
                proof {
                    let lt = mark_order();
                    let now = kept.deep_view();
                    let x = before[i as int];
                    assert(now =~= prev.push(x));
                    assert forall|p: int, q: int| 0 <= p < q < now.len() implies lt(
                        #[trigger] now[p],
                        #[trigger] now[q],
                    ) by {
                        if q < prev.len() {
                            assert(lt(prev[p], prev[q]));
                        } else {
                            assert(mark_lt(prev.last(), x));
                            if p < prev.len() - 1 {
                                assert(lt(prev[p], prev[prev.len() - 1]));
                                assert(lt(prev.last(), x));
                            }
                        }
                    }
                    assert forall|k: int| 0 <= k < now.len() implies before.contains(
                        #[trigger] now[k],
                    ) && now[k].0 != id by {
                        if k < prev.len() {
                            assert(now[k] == prev[k]);
                        }
                    }
                    assert forall|m: int| 0 <= m < i + 1 && before[m].0 != id implies now.contains(
                        #[trigger] before[m],
                    ) by {
                        if m < i {
                            let k = choose|k: int| 0 <= k < prev.len() && prev[k] == before[m];
                            assert(now[k] == before[m]);
                        } else {
                            assert(now[prev.len() as int] == before[m]);
                        }
                    }
                    assert forall|m: int| i + 1 <= m < n implies mark_lt(
                        now.last(),
                        #[trigger] before[m],
                    ) by {
                        assert(lt(before[i as int], before[m]));
                    }
                }
            }
            i += 1;
        }
        self.marks = kept;
        proof {
            let after = self.marks.deep_view();
            assert forall|m: (usize, Seq<char>)| after.to_set().contains(m) <==> without(
                before.to_set(),
                id,
            ).contains(m) by {
                if after.contains(m) {
                    let k = choose|k: int| 0 <= k < after.len() && after[k] == m;
                    assert(before.contains(after[k]));
                }
                if before.contains(m) && m.0 != id {
                    let j = choose|j: int| 0 <= j < before.len() && before[j] == m;
                    assert(after.contains(before[j]));
                }
            }
            assert(after.to_set() =~= without(before.to_set(), id));
        }
    }

    /// The labels of the node `id`, each once, in lexicographic order.
    pub fn get(&self, id: usize) -> (labels: Vec<String>)
        requires
            self.wf(),
        ensures
            labels.deep_view() == listing(labels_of(self@, id), label_order()),
    {
        proof {
            lemma_mark_order();
            lemma_label_order();
        }
        let ghost all = self.marks.deep_view();
        let ghost mut last: int = 0;
        let mut labels: Vec<String> = Vec::new();
        let n = self.marks.len();
        let mut i: usize = 0;
        while i < n
            invariant
                n == self.marks.len(),
                i <= n,
                self.marks.deep_view() == all,
                increasing(all, mark_order()),
                strict_total_order(label_order()),
                increasing(labels.deep_view(), label_order()),
                forall|k: int|
                    0 <= k < labels.len() ==> all.contains((id, #[trigger] labels.deep_view()[k])),
                forall|m: int|
                    0 <= m < i && all[m].0 == id ==> labels.deep_view().contains(
                        (#[trigger] all[m]).1,
                    ),
                labels.len() > 0 ==> 0 <= last < i && all[last] == (id, labels.deep_view().last()),
            decreases n - i,
        {
            if self.marks[i].0 == id {
                let ghost prev = labels.deep_view();
                labels.push(self.marks[i].1.clone());
                proof {
                    let lt = label_order();
                    let now = labels.deep_view();
                    let x = all[i as int].1;
                    assert(now =~= prev.push(x));
                    assert forall|p: int, q: int| 0 <= p < q < now.len() implies lt(
                        #[trigger] now[p],
                        #[trigger] now[q],
                    ) by {
                        if q < prev.len() {
                            assert(lt(prev[p], prev[q]));
                        } else {
                            assert(mark_order()(all[last], all[i as int]));
                            assert(lt(prev.last(), x));
                            if p < prev.len() - 1 {
                                assert(lt(prev[p], prev[prev.len() - 1]));
                            }
                        }
                    }
                    assert forall|k: int| 0 <= k < now.len() implies all.contains(
                        (id, #[trigger] now[k]),
                    ) by {
                        if k < prev.len() {
                            assert(now[k] == prev[k]);
                        } else {
                            assert(all[i as int] == (id, now[k]));
                        }
                    }
                    assert forall|m: int| 0 <= m < i + 1 && all[m].0 == id implies now.contains(
                        (#[trigger] all[m]).1,
                    ) by {
                        if m < i {
                            let k = choose|k: int| 0 <= k < prev.len() && prev[k] == all[m].1;
                            assert(now[k] == all[m].1);
                        } else {
                            assert(now[prev.len() as int] == all[m].1);
                        }
                    }
                    last = i as int;
                }
            }
            i += 1;
        }
        proof {
            let got = labels.deep_view();
            let want = labels_of(self@, id);
            assert forall|l: Seq<char>| got.to_set().contains(l) <==> want.contains(l) by {
                if got.contains(l) {
                    let k = choose|k: int| 0 <= k < got.len() && got[k] == l;
                    assert(all.contains((id, got[k])));
                }
                if all.contains((id, l)) {
                    let j = choose|j: int| 0 <= j < all.len() && all[j] == (id, l);
                    assert(got.contains(all[j].1));
                }
            }
            assert(got.to_set() =~= want);
            lemma_listing_is(got, want, label_order());
        }
        labels
    }

    /// The marked nodes, each once, in increasing order.
    pub fn ids(&self) -> (ids: Vec<usize>)
        requires
            self.wf(),
        ensures
            ids@ == listing(marked_ids(self@), id_order()),
    {
        proof {
            lemma_mark_order();
            lemma_id_order();
        }
        let ghost all = self.marks.deep_view();
        let mut ids: Vec<usize> = Vec::new();
        let n = self.marks.len();
        let mut i: usize = 0;
        while i < n
            invariant
                n == self.marks.len(),
                i <= n,
                self.marks.deep_view() == all,
                increasing(all, mark_order()),
                increasing(ids@, id_order()),
                forall|k: int|
                    0 <= k < ids.len() ==> marked_ids(all.to_set()).contains(#[trigger] ids@[k]),
                forall|m: int| 0 <= m < i ==> ids@.contains((#[trigger] all[m]).0),
                ids.len() > 0 ==> i > 0 && ids@.last() == all[i - 1].0,
            decreases n - i,
        {
            let id = self.marks[i].0;
            let fresh = ids.len() == 0 || ids[ids.len() - 1] != id;
            let ghost prev = ids@;
            if fresh {
                ids.push(id);
            }
            proof {
                let now = ids@;
                assert(all.to_set().contains(all[i as int]));
                assert(all[i as int] == (id, all[i as int].1));
                assert(marked_ids(all.to_set()).contains(id));
                if fresh {
                    assert forall|p: int, q: int| 0 <= p < q < now.len() implies id_order()(
                        #[trigger] now[p],
                        #[trigger] now[q],
                    ) by {
                        if q < prev.len() {
                            assert(id_order()(prev[p], prev[q]));
                        } else {
                            assert(mark_order()(all[i - 1], all[i as int]));
                            if p < prev.len() - 1 {
                                assert(id_order()(prev[p], prev[prev.len() - 1]));
                            }
                        }
                    }
                }
                assert forall|m: int| 0 <= m < i + 1 implies now.contains((#[trigger] all[m]).0) by {
                    if m < i {
                        let k = choose|k: int| 0 <= k < prev.len() && prev[k] == all[m].0;
                        assert(now[k] == all[m].0);
                    } else {
                        assert(now[now.len() - 1] == id);
                    }
                }
            }
            i += 1;
        }
        proof {
            let want = marked_ids(self@);
            assert forall|id: usize| ids@.to_set().contains(id) <==> want.contains(id) by {
                if ids@.contains(id) {
                    let k = choose|k: int| 0 <= k < ids.len() && ids@[k] == id;
                    assert(marked_ids(all.to_set()).contains(ids@[k]));
                }
                if want.contains(id) {
                    let l = choose|l: Seq<char>| all.to_set().contains((id, l));
                    let j = choose|j: int| 0 <= j < all.len() && all[j] == (id, l);
                    assert(ids@.contains(all[j].0));
                }
            }
            assert(ids@.to_set() =~= want);
            lemma_listing_is(ids@, want, id_order());
        }
        ids
    }

    /// All marks, each once, by node and then by label.
    pub fn snapshot(&self) -> (marks: Vec<(usize, String)>)
        requires
            self.wf(),
        ensures
            marks.deep_view() == listing(self@, mark_order()),
    {
        let ghost all = self.marks.deep_view();
        let mut marks: Vec<(usize, String)> = Vec::new();
        let n = self.marks.len();
        let mut i: usize = 0;
        while i < n
            invariant
                n == self.marks.len(),
                i <= n,
                self.marks.deep_view() == all,
                marks.deep_view() == all.take(i as int),
            decreases n - i,
        {
            let ghost prev = marks.deep_view();
            marks.push((self.marks[i].0, self.marks[i].1.clone()));
            assert(marks.deep_view() =~= prev.push(all[i as int]));
            assert(marks.deep_view() =~= all.take(i + 1));
            i += 1;
        }
        proof {
            assert(all.take(n as int) =~= all);
            lemma_mark_order();
            lemma_listing_is(all, self@, mark_order());
        }
        marks
    }

    /// The registry that holds the given pairs and no others.
    pub fn from_pairs(pairs: &Vec<(usize, String)>) -> (r: MarkRegistry)
        ensures
            r.wf(),
            r@ == pairs.deep_view().to_set(),
    {
        let ghost all = pairs.deep_view();
        let mut r = MarkRegistry::new();
        let n = pairs.len();
        let mut i: usize = 0;
        while i < n
            invariant
                n == pairs.len(),
                i <= n,
                pairs.deep_view() == all,
                r.wf(),
                r@ == all.take(i as int).to_set(),
            decreases n - i,
        {
            r.add(pairs[i].0, pairs[i].1.clone());
            proof {
                let a = all.take(i as int);
                let b = all.take(i + 1);
                assert(b =~= a.push(all[i as int]));
                assert forall|m: (usize, Seq<char>)| b.to_set().contains(m) <==> a.to_set().insert(
                    all[i as int],
                ).contains(m) by {
                    if b.contains(m) {
                        let k = choose|k: int| 0 <= k < b.len() && b[k] == m;
                        if k < i {
                            assert(a[k] == m);
                        }
                    }
                    if a.contains(m) {
                        let k = choose|k: int| 0 <= k < a.len() && a[k] == m;
                        assert(b[k] == m);
                    }
                    if m == all[i as int] {
                        assert(b[i as int] == m);
                    }
                }
                assert(b.to_set() =~= a.to_set().insert(all[i as int]));
            }
            i += 1;
        }
        assert(all.take(n as int) =~= all);
        r
    }
}

} // verus!
