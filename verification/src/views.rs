//! Facts on the deep views of vectors.
use vstd::prelude::*;

verus! {

/// The model of a result: that of its value, or that of its error.
pub open spec fn result_view<T: DeepView, E: DeepView>(r: Result<T, E>) -> Result<T::V, E::V> {
    match r {
        Ok(t) => Ok(t.deep_view()),
        Err(e) => Err(e.deep_view()),
    }
}

/// The models of a sequence of results.
pub open spec fn results_view<T: DeepView, E: DeepView>(v: Seq<Result<T, E>>) -> Seq<
    Result<T::V, E::V>,
> {
    Seq::new(v.len(), |i: int| result_view(v[i]))
}

/// Pushing onto a vector pushes the element's view onto the vector's deep view.
pub proof fn lemma_deep_push<T: DeepView>(before: Vec<T>, after: Vec<T>, x: T)
    requires
        after@ == before@.push(x),
    ensures
        after.deep_view() == before.deep_view().push(x.deep_view()),
{
    assert(after.deep_view() =~= before.deep_view().push(x.deep_view()));
}

/// The deep view of an empty vector is empty.
pub proof fn lemma_deep_empty<T: DeepView>(v: Vec<T>)
    requires
        v@.len() == 0,
    ensures
        v.deep_view() == Seq::<T::V>::empty(),
{
    assert(v.deep_view() =~= Seq::<T::V>::empty());
}

/// Appending vectors appends their deep views.
pub proof fn lemma_deep_append<T: DeepView>(before: Vec<T>, more: Vec<T>, after: Vec<T>)
    requires
        after@ == before@ + more@,
    ensures
        after.deep_view() == before.deep_view() + more.deep_view(),
{
    assert(after.deep_view() =~= before.deep_view() + more.deep_view());
}

/// A copy of a vector of texts.
pub fn copy_texts(texts: &Vec<String>) -> (copy: Vec<String>)
    ensures
        copy.deep_view() == texts.deep_view(),
{
    let mut copy: Vec<String> = Vec::new();
    let n = texts.len();
    let mut i: usize = 0;
    while i < n
        invariant
            n == texts.len(),
            i <= n,
            copy.deep_view() == texts.deep_view().take(i as int),
        decreases n - i,
    {
        let ghost prev = copy.deep_view();
        copy.push(texts[i].clone());
        assert(copy.deep_view() =~= prev.push(texts.deep_view()[i as int]));
        assert(copy.deep_view() =~= texts.deep_view().take(i + 1));
        i += 1;
    }
    assert(texts.deep_view().take(n as int) =~= texts.deep_view());
    copy
}

/// The vector with the same elements in the opposite order.
pub fn reversed<T>(v: Vec<T>) -> (r: Vec<T>)
    ensures
        r@ == v@.reverse(),
{
    let ghost all = v@;
    let mut v = v;
    let mut r: Vec<T> = Vec::new();
    while v.len() > 0
        invariant
            v@ == all.take(v.len() as int),
            r.len() + v.len() == all.len(),
            forall|k: int| 0 <= k < r.len() ==> r@[k] == all[all.len() - 1 - k],
        decreases v.len(),
    {
        match v.pop() {
            Some(x) => {
                r.push(x);
            },
            None => {},
        }
    }
    assert(r@ =~= all.reverse());
    r
}

} // verus!
