//! Small text helpers shared by the pipeline stages.

use vstd::prelude::*;

verus! {

/// Equality of two string slices, decided at the level of their character
/// sequences.
pub fn str_eq(a: &str, b: &str) -> (r: bool)
    ensures
        r == (a@ == b@),
{
    let oa: String = a.to_owned();
    let ob: String = b.to_owned();
    oa == ob
}

/// A fresh copy of a vector of strings with the same character sequences.
pub fn copy_strings(v: &Vec<String>) -> (r: Vec<String>)
    ensures
        r.deep_view() == v.deep_view(),
{
    let mut r: Vec<String> = Vec::new();
    let mut i: usize = 0;
    while i < v.len()
        invariant
            i <= v.len(),
            r.deep_view() == v.deep_view().take(i as int),
        decreases v.len() - i,
    {
        let x = v[i].clone();
        proof {
            assert(x == v@[i as int]);
        }
        let ghost prev = r.deep_view();
        r.push(x);
        proof {
            assert(r@.len() == prev.len() + 1);
            assert forall|k: int| 0 <= k < r@.len() implies r.deep_view()[k] == v.deep_view().take(
                i as int + 1,
            )[k] by {
                if k < i as int {
                    assert(r.deep_view()[k] == prev[k]);
                }
            }
            assert(r.deep_view() =~= v.deep_view().take(i as int + 1));
        }
        i += 1;
    }
    proof {
        assert(v.deep_view().take(v.len() as int) =~= v.deep_view());
    }
    r
}

} // verus!
