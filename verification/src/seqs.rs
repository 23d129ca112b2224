//! Generic facts about filtered sequences, shared by the pipeline stages.

use vstd::prelude::*;

verus! {

/// Filtering one more element keeps the previous result and appends the new
/// element exactly when it satisfies the predicate.
pub proof fn lemma_filter_take_succ<A>(s: Seq<A>, p: spec_fn(A) -> bool, i: int)
    requires
        0 <= i < s.len(),
    ensures
        s.take(i + 1).filter(p) == if p(s[i]) {
            s.take(i).filter(p).push(s[i])
        } else {
            s.take(i).filter(p)
        },
{
    reveal(Seq::filter);
    assert(s.take(i + 1).drop_last() =~= s.take(i));
    assert(s.take(i + 1).last() == s[i]);
}

/// An element mapped to `Some` appears in the output of `filter_map`.
pub proof fn lemma_filter_map_at<A, B>(s: Seq<A>, f: spec_fn(A) -> Option<B>, k: int)
    requires
        0 <= k < s.len(),
        f(s[k]) is Some,
    ensures
        s.filter_map(f).contains(f(s[k]).unwrap()),
        s.filter_map(f).len() > 0,
    decreases s.len(),
{
    let full = s.filter_map(f);
    let pre = s.drop_last().filter_map(f);
    if k == s.len() - 1 {
        assert(full[full.len() - 1] == f(s[k]).unwrap());
    } else {
        lemma_filter_map_at(s.drop_last(), f, k);
        let b = f(s.drop_last()[k]).unwrap();
        let idx = choose|idx: int| 0 <= idx < pre.len() && pre[idx] == b;
        assert(full[idx] == b);
    }
}

/// When no element maps to `Some`, `filter_map` yields nothing.
pub proof fn lemma_filter_map_all_none<A, B>(s: Seq<A>, f: spec_fn(A) -> Option<B>)
    requires
        forall|k: int| 0 <= k < s.len() ==> f(#[trigger] s[k]) is None,
    ensures
        s.filter_map(f) == Seq::<B>::empty(),
    decreases s.len(),
{
    if s.len() > 0 {
        assert(forall|k: int|
            0 <= k < s.drop_last().len() ==> #[trigger] s.drop_last()[k] == s[k]);
        lemma_filter_map_all_none(s.drop_last(), f);
        assert(f(s.last()) is None);
    }
}

/// When exactly one element maps to `Some`, `filter_map` yields that value
/// alone.
pub proof fn lemma_filter_map_single<A, B>(s: Seq<A>, f: spec_fn(A) -> Option<B>, k: int)
    requires
        0 <= k < s.len(),
        f(s[k]) is Some,
        forall|j: int| 0 <= j < s.len() && j != k ==> f(#[trigger] s[j]) is None,
    ensures
        s.filter_map(f) == seq![f(s[k]).unwrap()],
    decreases s.len(),
{
    assert(forall|j: int| 0 <= j < s.drop_last().len() ==> #[trigger] s.drop_last()[j] == s[j]);
    if k == s.len() - 1 {
        lemma_filter_map_all_none(s.drop_last(), f);
        assert(s.filter_map(f) =~= seq![f(s[k]).unwrap()]);
    } else {
        lemma_filter_map_single(s.drop_last(), f, k);
        assert(f(s.last()) is None);
        assert(s.filter_map(f) =~= seq![f(s[k]).unwrap()]);
    }
}

/// When no element satisfies the predicate, `filter` yields nothing.
pub proof fn lemma_filter_all_false<A>(s: Seq<A>, p: spec_fn(A) -> bool)
    requires
        forall|k: int| 0 <= k < s.len() ==> !p(#[trigger] s[k]),
    ensures
        s.filter(p) == Seq::<A>::empty(),
    decreases s.len(),
{
    reveal(Seq::filter);
    if s.len() > 0 {
        assert(forall|k: int|
            0 <= k < s.drop_last().len() ==> #[trigger] s.drop_last()[k] == s[k]);
        lemma_filter_all_false(s.drop_last(), p);
        assert(!p(s.last()));
    }
}

/// Every element of a filtered sequence stems from some index of the
/// original.
pub proof fn lemma_filter_index<A>(s: Seq<A>, p: spec_fn(A) -> bool, i: int)
    requires
        0 <= i < s.filter(p).len(),
    ensures
        exists|j: int| 0 <= j < s.len() && #[trigger] s[j] == s.filter(p)[i],
    decreases s.len(),
{
    reveal(Seq::filter);
    if s.len() > 0 {
        let pre = s.drop_last().filter(p);
        if i < pre.len() {
            lemma_filter_index(s.drop_last(), p, i);
            let j = choose|j: int|
                0 <= j < s.drop_last().len() && #[trigger] s.drop_last()[j] == pre[i];
            assert(s[j] == s.filter(p)[i]);
        } else {
            assert(s[s.len() - 1] == s.filter(p)[i]);
        }
    }
}

/// Pushes a value and tracks the deep view of the vector.
pub fn push_dv<T: DeepView>(v: &mut Vec<T>, x: T)
    ensures
        final(v).deep_view() == old(v).deep_view().push(x.deep_view()),
        final(v)@.len() == old(v)@.len() + 1,
{
    let ghost prev = v.deep_view();
    let ghost prevv = v@;
    let ghost xv = x.deep_view();
    v.push(x);
    proof {
        assert(v@ == prevv.push(v@[prevv.len() as int]));
        assert forall|k: int| 0 <= k < v@.len() implies v.deep_view()[k] == prev.push(xv)[k] by {
            if k < prevv.len() {
                assert(v@[k] == prevv[k]);
            }
        }
        assert(v.deep_view() =~= prev.push(xv));
    }
}

} // verus!
