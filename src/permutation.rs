//! Permutations of channel indices: what a shuffle keeps, how a full-width
//! permutation restricts to a narrower one, and what scattering values by
//! a permutation does to them.

use vstd::prelude::*;
use vstd::seq_lib::group_filter_ensures;

verus! {

/// `d` holds each of `0..n` exactly once.
pub open spec fn is_permutation(d: Seq<usize>, n: nat) -> bool {
    &&& d.len() == n
    &&& forall|i: int| 0 <= i < n ==> (#[trigger] d[i]) < n
    &&& forall|i: int, j: int| 0 <= i < n && 0 <= j < n && i != j ==> d[i] != d[j]
    &&& forall|v: usize| v < n ==> #[trigger] d.contains(v)
}

/// `new` is `old` with its elements moved about: position `i` of `new`
/// holds position `p[i]` of `old`, for a permutation `p`.
pub open spec fn rearranges(new: Seq<usize>, old: Seq<usize>) -> bool {
    &&& new.len() == old.len()
    &&& exists|p: Seq<usize>|
        is_permutation(p, old.len()) && forall|i: int|
            0 <= i < old.len() ==> #[trigger] new[i] == old[p[i] as int]
}

pub open spec fn below(n: nat) -> spec_fn(usize) -> bool {
    |v: usize| (v as nat) < n
}

/// The values of `full` below `n`, in the order in which `full` holds them.
pub open spec fn restricted(full: Seq<usize>, n: nat) -> Seq<usize> {
    full.filter(below(n))
}

/// `out` holds value `i` of `values` at position `destinations[i]`.
pub open spec fn is_scattered<T>(out: Seq<T>, values: Seq<T>, destinations: Seq<usize>) -> bool {
    &&& out.len() == values.len()
    &&& forall|i: int| 0 <= i < values.len() ==> out[#[trigger] destinations[i] as int] == values[i]
}

/// Rearranging a permutation yields a permutation.
pub proof fn lemma_rearranged_permutation(new: Seq<usize>, old: Seq<usize>, n: nat)
    requires
        is_permutation(old, n),
        rearranges(new, old),
        n <= usize::MAX,
    ensures
        is_permutation(new, n),
{
    let p = choose|p: Seq<usize>|
        is_permutation(p, old.len()) && forall|i: int|
            0 <= i < old.len() ==> #[trigger] new[i] == old[p[i] as int];
    assert forall|i: int| 0 <= i < n implies (#[trigger] new[i]) < n by {
        assert(p[i] < n);
    }
    assert forall|i: int, j: int| 0 <= i < n && 0 <= j < n && i != j implies new[i] != new[j] by {
        assert(p[i] < n && p[j] < n && p[i] != p[j]);
        assert(new[i] == old[p[i] as int]);
        assert(new[j] == old[p[j] as int]);
    }
    assert forall|v: usize| v < n implies #[trigger] new.contains(v) by {
        assert(old.contains(v));
        let k = choose|k: int| 0 <= k < n && #[trigger] old[k] == v;
        let ku = k as usize;
        assert(ku as int == k);
        assert(p.contains(ku));
        let i = choose|i: int| 0 <= i < n && #[trigger] p[i] == ku;
        assert(new[i] == old[p[i] as int]);
        assert(new[i] == v);
    }
}

proof fn lemma_filter_no_duplicates(s: Seq<usize>, pred: spec_fn(usize) -> bool)
    requires
        s.no_duplicates(),
    ensures
        s.filter(pred).no_duplicates(),
    decreases s.len(),
{
    if s.len() > 0 {
        let rest = s.drop_last();
        let last = s.last();
        assert(rest.push(last) =~= s);
        assert(rest.no_duplicates());
        lemma_filter_no_duplicates(rest, pred);
        rest.lemma_filter_push(last, pred);
        if pred(last) {
            if rest.filter(pred).contains(last) {
                rest.lemma_filter_contains_rev(pred, last);
                let k = choose|k: int| 0 <= k < rest.len() && rest[k] == last;
                assert(s[k] == s[s.len() - 1]);
            }
        }
    }
}

/// Restricting a permutation of `0..m` to its values below `n <= m`,
/// kept in their order, yields a permutation of `0..n`.
pub proof fn lemma_restriction_is_permutation(full: Seq<usize>, m: nat, n: nat)
    requires
        is_permutation(full, m),
        n <= m <= usize::MAX,
    ensures
        is_permutation(restricted(full, n), n),
{
    broadcast use group_filter_ensures;

    let r = restricted(full, n);
    assert(full.no_duplicates());
    lemma_filter_no_duplicates(full, below(n));
    assert forall|i: int| 0 <= i < r.len() implies (#[trigger] r[i]) < n by {
        assert(below(n)(r[i]));
    }
    assert forall|v: usize| v < n implies r.contains(v) by {
        assert(full.contains(v));
        let k = choose|k: int| 0 <= k < m && #[trigger] full[k] == v;
        assert(below(n)(full[k]));
    }
    let ids = Seq::new(n, |i: int| i as usize);
    assert(r.to_set() =~= ids.to_set()) by {
        assert forall|v: usize| r.to_set().contains(v) implies ids.to_set().contains(v) by {
            let i = choose|i: int| 0 <= i < r.len() && r[i] == v;
            assert(ids[v as int] == v);
        }
        assert forall|v: usize| ids.to_set().contains(v) implies r.to_set().contains(v) by {
            let i = choose|i: int| 0 <= i < ids.len() && ids[i] == v;
            assert(r.contains(v));
        }
    }
    r.unique_seq_to_set();
    ids.unique_seq_to_set();
    assert(r.len() == n);
}

/// Scattering values to the positions a permutation gives loses and
/// duplicates none of them.
pub proof fn lemma_scatter_preserves_multiset<T>(out: Seq<T>, values: Seq<T>, destinations: Seq<usize>)
    requires
        is_permutation(destinations, values.len()),
        is_scattered(out, values, destinations),
        values.len() <= usize::MAX,
    ensures
        out.to_multiset() == values.to_multiset(),
    decreases values.len(),
{
    broadcast use vstd::seq_lib::group_to_multiset_ensures;

    let n = values.len();
    if n == 0 {
        assert(out =~= values);
    } else {
        let d = destinations[n - 1] as int;
        let out2 = out.remove(d);
        let values2 = values.drop_last();
        let dest2 = Seq::new(
            (n - 1) as nat,
            |i: int|
                if (destinations[i] as int) < d {
                    destinations[i]
                } else {
                    (destinations[i] - 1) as usize
                },
        );
        out.remove_ensures(d);
        assert forall|i: int| 0 <= i < n - 1 implies (#[trigger] dest2[i]) < n - 1 by {
            assert(destinations[i] != destinations[n - 1]);
        }
        assert forall|i: int, j: int|
            0 <= i < n - 1 && 0 <= j < n - 1 && i != j implies dest2[i] != dest2[j] by {
            assert(destinations[i] != destinations[n - 1]);
            assert(destinations[j] != destinations[n - 1]);
            assert(destinations[i] != destinations[j]);
        }
        assert forall|v: usize| v < n - 1 implies #[trigger] dest2.contains(v) by {
            if (v as int) < d {
                assert(destinations.contains(v));
                let k = choose|k: int| 0 <= k < n && #[trigger] destinations[k] == v;
                assert(k != n - 1);
                assert(dest2[k] == v);
            } else {
                let w = (v + 1) as usize;
                assert(w as int == v as int + 1);
                assert(destinations.contains(w));
                let k = choose|k: int| 0 <= k < n && #[trigger] destinations[k] == w;
                assert(destinations[k] as int != d);
                assert(k != n - 1);
                assert(dest2[k] == v);
            }
        }
        assert forall|i: int| 0 <= i < values2.len() implies out2[#[trigger] dest2[i] as int]
            == values2[i] by {
            assert(destinations[i] != destinations[n - 1]);
            assert(out[destinations[i] as int] == values[i]);
        }
        lemma_scatter_preserves_multiset(out2, values2, dest2);
        assert(out[d] == values[n - 1]);
        assert(values2.push(values[n - 1]) =~= values);
    }
}

} // verus!
