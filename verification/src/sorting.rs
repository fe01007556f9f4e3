//! Insertion sort and bubble sort on `i32` sequences, with the facts that make
//! their outputs interchangeable.

use vstd::prelude::*;
use vstd::slice::slice_to_vec;

verus! {

/// `s` is in non-descending order.
pub open spec fn is_sorted(s: Seq<i32>) -> bool {
    forall|i: int, j: int| 0 <= i <= j < s.len() ==> s[i] <= s[j]
}

/// `r` is a sort of `s`: the same values, each as often as in `s`, in
/// non-descending order.
pub open spec fn is_sort_of(r: Seq<i32>, s: Seq<i32>) -> bool {
    &&& r.len() == s.len()
    &&& r.to_multiset() == s.to_multiset()
    &&& is_sorted(r)
}

/// The order on `i32` as a relation, for vstd's lemmas on sorted sequences.
pub open spec fn int_leq() -> spec_fn(i32, i32) -> bool {
    |a: i32, b: i32| a <= b
}

/// Exchanging two elements of a sequence keeps its multiset of values.
pub proof fn lemma_swap_keeps_values(s: Seq<i32>, i: int, j: int)
    requires
        0 <= i < s.len(),
        0 <= j < s.len(),
    ensures
        s.update(i, s[j]).update(j, s[i]).to_multiset() == s.to_multiset(),
{
    broadcast use vstd::multiset::group_multiset_axioms;

    vstd::seq_lib::to_multiset_update(s, i, s[j]);
    vstd::seq_lib::to_multiset_update(s.update(i, s[j]), j, s[i]);
    vstd::seq_lib::to_multiset_contains(s, s[i]);
    vstd::seq_lib::to_multiset_contains(s, s[j]);
    assert(s.contains(s[i]));
    assert(s.contains(s[j]));
    assert(s.update(i, s[j]).update(j, s[i]).to_multiset() =~= s.to_multiset());
}

/// Two sorted sequences with the same multiset of values are the same
/// sequence: a sequence has exactly one sort.
pub proof fn lemma_sort_is_unique(a: Seq<i32>, b: Seq<i32>)
    requires
        is_sorted(a),
        is_sorted(b),
        a.to_multiset() == b.to_multiset(),
    ensures
        a == b,
{
    let leq = int_leq();
    assert(vstd::relations::total_ordering(leq));
    assert(vstd::relations::sorted_by(a, leq));
    assert(vstd::relations::sorted_by(b, leq));
    vstd::seq_lib::lemma_sorted_unique(a, b, leq);
}

/// Sorts by insertion: each element in turn is moved left, past every larger
/// element before it. The input is left as it is; the result is a new vector.
pub fn insertion_sort(arr: &[i32]) -> (result: Vec<i32>)
    ensures
        is_sort_of(result@, arr@),
        is_sorted(arr@) ==> result@ == arr@,
        arr@.len() <= 1 ==> result@ == arr@,
{
    let mut result = slice_to_vec(arr);
    let n = result.len();
    let mut i: usize = 1;
    while i < n
        invariant
            result@.len() == n,
            arr@.len() == n,
            1 <= i,
            i <= n || n == 0,
            result@.to_multiset() == arr@.to_multiset(),
            forall|p: int, q: int| 0 <= p <= q < i && q < n ==> result@[p] <= result@[q],
        decreases n - i,
    {
        let key = result[i];
        let mut j: usize = i;
        let ghost before = result@;
        assert(result@.update(j as int, key) =~= result@);
        while j > 0 && result[j - 1] > key
            invariant
                0 <= j <= i < n,
                result@.len() == n,
                before.len() == n,
                key == before[i as int],
                forall|k: int| 0 <= k < j ==> result@[k] == before[k],
                forall|k: int| j < k <= i ==> result@[k] == before[k - 1],
                forall|k: int| j < k <= i ==> result@[k] > key,
                forall|p: int, q: int| 0 <= p <= q < i ==> before[p] <= before[q],
                result@.update(j as int, key).to_multiset() == arr@.to_multiset(),
            decreases j,
        {
            let ghost held = result@.update(j as int, key);
            let moved = result[j - 1];
            result.set(j, moved);
            j -= 1;
            proof {
                lemma_swap_keeps_values(held, j as int + 1, j as int);
                assert(result@.update(j as int, key) =~= held.update(
                    j as int + 1,
                    held[j as int],
                ).update(j as int, held[j as int + 1]));
            }
        }
        let ghost shifted = result@;
        result.set(j, key);
        proof {
            assert forall|p: int, q: int| 0 <= p <= q <= i implies result@[p] <= result@[q] by {
                if j > 0 {
                    assert(shifted[j as int - 1] == before[j as int - 1]);
                }
                if p < j {
                    assert(shifted[p] == before[p]);
                }
                if q < j {
                    assert(shifted[q] == before[q]);
                }
                if p > j {
                    assert(shifted[p] == before[p - 1]);
                }
                if q > j {
                    assert(shifted[q] == before[q - 1]);
                    assert(shifted[q] > key);
                }
            }
        }
        i += 1;
    }
    proof {
        if is_sorted(arr@) {
            lemma_sort_is_unique(result@, arr@);
        }
        if arr@.len() <= 1 {
            lemma_sort_is_unique(result@, arr@);
        }
    }
    result
}

/// Sorts by passes of adjacent exchanges: each pass carries the largest
/// element not yet placed to its place, and a pass that exchanges nothing ends
/// the work early. The input is left as it is; the result is a new vector.
pub fn bubble_sort(arr: &[i32]) -> (result: Vec<i32>)
    ensures
        is_sort_of(result@, arr@),
        is_sorted(arr@) ==> result@ == arr@,
        arr@.len() <= 1 ==> result@ == arr@,
{
    let mut result = slice_to_vec(arr);
    let n = result.len();
    let mut i: usize = 0;
    while i < n
        invariant
            result@.len() == n,
            arr@.len() == n,
            i <= n,
            result@.to_multiset() == arr@.to_multiset(),
            forall|p: int, q: int| 0 <= p <= q < n && n - i <= q ==> result@[p] <= result@[q],
        ensures
            result@.len() == n,
            result@.to_multiset() == arr@.to_multiset(),
            is_sorted(result@),
        decreases n - i,
    {
        let mut swapped = false;
        let mut j: usize = 0;
        while j < n - i - 1
            invariant
                result@.len() == n,
                i < n,
                j <= n - i - 1,
                result@.to_multiset() == arr@.to_multiset(),
                forall|p: int, q: int| 0 <= p <= q < n && n - i <= q ==> result@[p] <= result@[q],
                forall|k: int| 0 <= k <= j ==> result@[k] <= result@[j as int],
                !swapped ==> forall|p: int, q: int| 0 <= p <= q <= j ==> result@[p] <= result@[q],
            decreases n - i - 1 - j,
        {
            if result[j] > result[j + 1] {
                let ghost held = result@;
                let left = result[j];
                let right = result[j + 1];
                result.set(j, right);
                result.set(j + 1, left);
                swapped = true;
                proof {
                    lemma_swap_keeps_values(held, j as int, j as int + 1);
                    assert(result@ =~= held.update(j as int, held[j as int + 1]).update(
                        j as int + 1,
                        held[j as int],
                    ));
                    assert forall|p: int, q: int| 0 <= p <= q < n && n - i <= q implies result@[p]
                        <= result@[q] by {
                        assert(result@[q] == held[q]);
                        if p == j {
                            assert(result@[p] == held[j as int + 1]);
                        } else if p == j + 1 {
                            assert(result@[p] == held[j as int]);
                        } else {
                            assert(result@[p] == held[p]);
                        }
                    }
                }
            }
            j += 1;
        }
        if !swapped {
            break ;
        }
        i += 1;
    }
    proof {
        if is_sorted(arr@) {
            lemma_sort_is_unique(result@, arr@);
        }
        if arr@.len() <= 1 {
            lemma_sort_is_unique(result@, arr@);
        }
    }
    result
}

/// How many elements of `s` satisfy `p`, each counted as often as it occurs.
pub open spec fn count_where(s: Seq<i32>, p: spec_fn(i32) -> bool) -> nat
    decreases s.len(),
{
    if s.len() == 0 {
        0
    } else {
        count_where(s.drop_last(), p) + if p(s.last()) {
            1nat
        } else {
            0nat
        }
    }
}

/// Being less than `v`.
pub open spec fn below(v: i32) -> spec_fn(i32) -> bool {
    |x: i32| x < v
}

/// Being `v` or less.
pub open spec fn at_most(v: i32) -> spec_fn(i32) -> bool {
    |x: i32| x <= v
}

/// Taking one element out of a sequence lowers the count by one if the
/// element satisfies `p`, and leaves it as it is otherwise.
pub proof fn lemma_count_without(s: Seq<i32>, p: spec_fn(i32) -> bool, i: int)
    requires
        0 <= i < s.len(),
    ensures
        count_where(s, p) == count_where(s.remove(i), p) + if p(s[i]) {
            1nat
        } else {
            0nat
        },
    decreases s.len(),
{
    if i == s.len() - 1 {
        assert(s.remove(i) =~= s.drop_last());
    } else {
        lemma_count_without(s.drop_last(), p, i);
        assert(s.remove(i).drop_last() =~= s.drop_last().remove(i));
        assert(s.remove(i).last() == s.last());
    }
}

/// Sequences with the same multiset of values have the same count for every
/// `p`: a count does not depend on the order.
pub proof fn lemma_count_ignores_order(a: Seq<i32>, b: Seq<i32>, p: spec_fn(i32) -> bool)
    requires
        a.to_multiset() == b.to_multiset(),
    ensures
        count_where(a, p) == count_where(b, p),
    decreases a.len(),
{
    broadcast use vstd::multiset::group_multiset_axioms;

    vstd::seq_lib::to_multiset_len(a);
    vstd::seq_lib::to_multiset_len(b);
    if a.len() > 0 {
        let x = a.last();
        let end = a.len() - 1;
        assert(a.contains(x)) by {
            assert(a[end] == x);
        }
        vstd::seq_lib::to_multiset_contains(a, x);
        vstd::seq_lib::to_multiset_contains(b, x);
        let i = choose|i: int| 0 <= i < b.len() && b[i] == x;
        vstd::seq_lib::to_multiset_remove(a, end);
        vstd::seq_lib::to_multiset_remove(b, i);
        assert(a.remove(end) =~= a.drop_last());
        lemma_count_ignores_order(a.drop_last(), b.remove(i), p);
        lemma_count_without(b, p, i);
    }
}

/// Where no element from position `k` on satisfies `p`, at most `k` elements
/// do, and never more than there are.
pub proof fn lemma_count_is_at_most(s: Seq<i32>, p: spec_fn(i32) -> bool, k: int)
    requires
        0 <= k,
        forall|j: int| k <= j < s.len() ==> !p(s[j]),
    ensures
        count_where(s, p) <= k,
        count_where(s, p) <= s.len(),
    decreases s.len(),
{
    if s.len() > 0 {
        lemma_count_is_at_most(s.drop_last(), p, k);
    }
}

/// Where the first `m` elements all satisfy `p`, at least `m` elements do.
pub proof fn lemma_count_is_at_least(s: Seq<i32>, p: spec_fn(i32) -> bool, m: int)
    requires
        0 <= m <= s.len(),
        forall|j: int| 0 <= j < m ==> p(s[j]),
    ensures
        count_where(s, p) >= m,
    decreases s.len(),
{
    if m > 0 {
        if s.len() > m {
            lemma_count_is_at_least(s.drop_last(), p, m);
        } else {
            lemma_count_is_at_least(s.drop_last(), p, m - 1);
        }
    }
}

/// A sort puts each value at the place of its rank: the value at position
/// `k` of a sort of `s` is a value of `s`, fewer than `k + 1` values of `s`
/// are less than it, and more than `k` are it or less.
pub proof fn lemma_sort_is_by_rank(s: Seq<i32>, r: Seq<i32>, k: int)
    requires
        is_sort_of(r, s),
        0 <= k < r.len(),
    ensures
        s.contains(r[k]),
        count_where(s, below(r[k])) <= k < count_where(s, at_most(r[k])),
{
    let v = r[k];
    assert(r.contains(v));
    vstd::seq_lib::to_multiset_contains(r, v);
    vstd::seq_lib::to_multiset_contains(s, v);
    lemma_count_ignores_order(s, r, below(v));
    lemma_count_ignores_order(s, r, at_most(v));
    lemma_count_is_at_most(r, below(v), k);
    lemma_count_is_at_least(r, at_most(v), k + 1);
}

/// Insertion sort and bubble sort agree: whatever two sequences are sorts of
/// the same input, they are one and the same sequence.
pub proof fn lemma_sorts_agree(s: Seq<i32>, a: Seq<i32>, b: Seq<i32>)
    requires
        is_sort_of(a, s),
        is_sort_of(b, s),
    ensures
        a == b,
{
    lemma_sort_is_unique(a, b);
}

/// Sorting is idempotent: a sort of a sort of `s` is that sort of `s`.
pub proof fn lemma_sort_is_idempotent(s: Seq<i32>, once: Seq<i32>, twice: Seq<i32>)
    requires
        is_sort_of(once, s),
        is_sort_of(twice, once),
    ensures
        twice == once,
{
    lemma_sort_is_unique(twice, once);
}

} // verus!
