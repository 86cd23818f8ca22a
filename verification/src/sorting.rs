//! A verified stable merge sort, used to order directory listings.

use vstd::prelude::*;

verus! {

/// The outcome of comparing two values.
#[derive(Clone, Copy, Debug, PartialEq, Eq, Structural)]
pub enum Order {
    Less,
    Equal,
    Greater,
}

/// The ordering with its two sides exchanged.
pub open spec fn flipped(o: Order) -> Order {
    match o {
        Order::Less => Order::Greater,
        Order::Equal => Order::Equal,
        Order::Greater => Order::Less,
    }
}

/// `a` comes no later than `b` under `order`.
pub open spec fn no_later<T>(order: spec_fn(T, T) -> Order, a: T, b: T) -> bool {
    order(a, b) != Order::Greater
}

/// `order` is a total preorder: exchanging the arguments flips the answer, and
/// "no later than" is transitive.
pub open spec fn is_total_preorder<T>(order: spec_fn(T, T) -> Order) -> bool {
    &&& forall|a: T, b: T| #[trigger] order(a, b) == flipped(order(b, a))
    &&& forall|a: T, b: T, c: T|
        #[trigger] no_later(order, a, b) && #[trigger] no_later(order, b, c) ==> no_later(order, a, c)
}

/// Position `i` of `v` comes before position `j` in a stable sort: its element
/// is smaller, or equal and not later in the input.
pub open spec fn precedes_in<T>(v: Seq<T>, order: spec_fn(T, T) -> Order, i: int, j: int) -> bool {
    let o = order(v[i], v[j]);
    o == Order::Less || (o == Order::Equal && i <= j)
}

/// `p` lists each position below `n` exactly once.
pub open spec fn is_index_permutation(p: Seq<usize>, n: nat) -> bool {
    &&& p.len() == n
    &&& p.no_duplicates()
    &&& forall|k: int| 0 <= k < p.len() ==> #[trigger] p[k] < n
}

/// Listing the positions `p` of `v` gives a stable sort by `order`.
pub open spec fn stably_sorted<T>(v: Seq<T>, p: Seq<usize>, order: spec_fn(T, T) -> Order) -> bool {
    forall|k: int, l: int| 0 <= k < l < p.len() ==> precedes_in(v, order, #[trigger] p[k] as int, #[trigger] p[l] as int)
}

/// `out` is `v` stably sorted by `order`.
pub open spec fn is_stable_sort_of<T>(out: Seq<T>, v: Seq<T>, order: spec_fn(T, T) -> Order) -> bool {
    exists|p: Seq<usize>|
        {
            &&& is_index_permutation(p, v.len())
            &&& stably_sorted(v, p, order)
            &&& out.len() == p.len()
            &&& forall|k: int| 0 <= k < out.len() ==> #[trigger] out[k] == v[p[k] as int]
        }
}

proof fn lemma_precedes_trans<T>(v: Seq<T>, order: spec_fn(T, T) -> Order, i: int, j: int, k: int)
    requires
        is_total_preorder(order),
        precedes_in(v, order, i, j),
        precedes_in(v, order, j, k),
    ensures
        precedes_in(v, order, i, k),
{
    let (a, b, c) = (v[i], v[j], v[k]);
    assert(no_later(order, a, b));
    assert(no_later(order, b, c));
    assert(no_later(order, a, c));
    if order(a, c) == Order::Equal {
        assert(order(c, a) == flipped(order(a, c)));
        assert(no_later(order, c, a));
        if order(a, b) == Order::Less {
            assert(no_later(order, c, b));
            assert(order(b, c) == flipped(order(c, b)));
            assert(order(a, b) == flipped(order(b, a)));
            assert(no_later(order, b, a));
        }
        if order(b, c) == Order::Less {
            assert(no_later(order, b, a));
            assert(order(a, b) == flipped(order(b, a)));
            assert(order(b, c) == flipped(order(c, b)));
            assert(no_later(order, c, b));
        }
    }
}

/// Merges two stably sorted runs of positions, the first all below the second.
fn merge_runs<T, F: Fn(&T, &T) -> Order>(
    v: &Vec<T>,
    f: &F,
    Ghost(order): Ghost<spec_fn(T, T) -> Order>,
    a: Vec<usize>,
    b: Vec<usize>,
    Ghost(lo): Ghost<int>,
    Ghost(mid): Ghost<int>,
    Ghost(hi): Ghost<int>,
) -> (out: Vec<usize>)
    requires
        forall|x: &T, y: &T| #[trigger] f.requires((x, y)),
        forall|x: &T, y: &T, o: Order| f.ensures((x, y), o) ==> o == order(*x, *y),
        is_total_preorder(order),
        0 <= lo <= mid <= hi <= v.len(),
        a@.len() == mid - lo,
        b@.len() == hi - mid,
        a@.no_duplicates(),
        b@.no_duplicates(),
        forall|k: int| 0 <= k < a@.len() ==> lo <= #[trigger] a@[k] < mid,
        forall|k: int| 0 <= k < b@.len() ==> mid <= #[trigger] b@[k] < hi,
        stably_sorted(v@, a@, order),
        stably_sorted(v@, b@, order),
    ensures
        out@.len() == hi - lo,
        out@.no_duplicates(),
        forall|k: int| 0 <= k < out@.len() ==> lo <= #[trigger] out@[k] < hi,
        stably_sorted(v@, out@, order),
{
    let mut out: Vec<usize> = Vec::new();
    let mut i: usize = 0;
    let mut j: usize = 0;
    while i < a.len() || j < b.len()
        invariant
            forall|x: &T, y: &T| #[trigger] f.requires((x, y)),
            forall|x: &T, y: &T, o: Order| f.ensures((x, y), o) ==> o == order(*x, *y),
            is_total_preorder(order),
            0 <= lo <= mid <= hi <= v.len(),
            a@.len() == mid - lo,
            b@.len() == hi - mid,
            a@.no_duplicates(),
            b@.no_duplicates(),
            forall|k: int| 0 <= k < a@.len() ==> lo <= #[trigger] a@[k] < mid,
            forall|k: int| 0 <= k < b@.len() ==> mid <= #[trigger] b@[k] < hi,
            stably_sorted(v@, a@, order),
            stably_sorted(v@, b@, order),
            i <= a@.len(),
            j <= b@.len(),
            out@.len() == i + j,
            out@.no_duplicates(),
            forall|k: int|
                0 <= k < out@.len() ==> (#[trigger] out@[k] < mid ==> exists|m: int|
                    0 <= m < i && a@[m] == out@[k]),
            forall|k: int|
                0 <= k < out@.len() ==> (#[trigger] out@[k] >= mid ==> exists|m: int|
                    0 <= m < j && b@[m] == out@[k]),
            forall|k: int| 0 <= k < out@.len() ==> lo <= #[trigger] out@[k] < hi,
            stably_sorted(v@, out@, order),
            forall|k: int, m: int|
                0 <= k < out@.len() && i <= m < a@.len() ==> precedes_in(
                    v@,
                    order,
                    #[trigger] out@[k] as int,
                    #[trigger] a@[m] as int,
                ),
            forall|k: int, m: int|
                0 <= k < out@.len() && j <= m < b@.len() ==> precedes_in(
                    v@,
                    order,
                    #[trigger] out@[k] as int,
                    #[trigger] b@[m] as int,
                ),
        decreases a@.len() + b@.len() - i - j,
    {
        let take_a = if i < a.len() && j < b.len() {
            let o = f(&v[a[i]], &v[b[j]]);
            o != Order::Greater
        } else {
            i < a.len()
        };
        let ghost old_out = out@;
        if take_a {
            let x = a[i];
            proof {
                if j < b@.len() {
                    assert(precedes_in(v@, order, x as int, b@[j as int] as int));
                }
                assert forall|m: int| i < m < a@.len() implies precedes_in(v@, order, x as int, #[trigger] a@[m] as int) by {
                    assert(a@[i as int] == x);
                }
                assert forall|m: int| j <= m < b@.len() implies precedes_in(v@, order, x as int, #[trigger] b@[m] as int) by {
                    assert(j < b@.len());
                    if m > j {
                        assert(precedes_in(v@, order, b@[j as int] as int, b@[m] as int));
                        lemma_precedes_trans(v@, order, x as int, b@[j as int] as int, b@[m] as int);
                    }
                }
                assert forall|k: int| 0 <= k < old_out.len() implies old_out[k] != x by {
                    if old_out[k] == x {
                        let m = choose|m: int| 0 <= m < i && a@[m] == old_out[k];
                        assert(a@[m] == a@[i as int]);
                    }
                }
            }
            out.push(x);
            proof {
                assert(out@ == old_out.push(x));
                assert forall|k: int, l: int| 0 <= k < l < out@.len() implies precedes_in(v@, order, #[trigger] out@[k] as int, #[trigger] out@[l] as int) by {
                    if l == out@.len() - 1 {
                        assert(precedes_in(v@, order, old_out[k] as int, a@[i as int] as int));
                    } else {
                        assert(precedes_in(v@, order, old_out[k] as int, old_out[l] as int));
                    }
                }
                assert forall|k: int| 0 <= k < out@.len() implies (#[trigger] out@[k] < mid ==> exists|m: int| 0 <= m < i + 1 && a@[m] == out@[k]) by {
                    if k == out@.len() - 1 {
                        assert(a@[i as int] == out@[k]);
                    } else if out@[k] < mid {
                        assert(old_out[k] == out@[k]);
                        let m = choose|m: int| 0 <= m < i && a@[m] == old_out[k];
                    }
                }
                assert forall|k: int| 0 <= k < out@.len() implies (#[trigger] out@[k] >= mid ==> exists|m: int| 0 <= m < j && b@[m] == out@[k]) by {
                    if k < out@.len() - 1 && out@[k] >= mid {
                        assert(old_out[k] == out@[k]);
                    }
                }
            }
            i = i + 1;
        } else {
            let y = b[j];
            proof {
                if i < a@.len() {
                    assert(order(v@[a@[i as int] as int], v@[y as int]) == Order::Greater);
                    assert(order(v@[y as int], v@[a@[i as int] as int]) == flipped(order(v@[a@[i as int] as int], v@[y as int])));
                    assert(precedes_in(v@, order, y as int, a@[i as int] as int));
                }
                assert forall|m: int| j < m < b@.len() implies precedes_in(v@, order, y as int, #[trigger] b@[m] as int) by {
                    assert(b@[j as int] == y);
                }
                assert forall|m: int| i <= m < a@.len() implies precedes_in(v@, order, y as int, #[trigger] a@[m] as int) by {
                    assert(i < a@.len());
                    if m > i {
                        assert(precedes_in(v@, order, a@[i as int] as int, a@[m] as int));
                        lemma_precedes_trans(v@, order, y as int, a@[i as int] as int, a@[m] as int);
                    }
                }
                assert forall|k: int| 0 <= k < old_out.len() implies old_out[k] != y by {
                    if old_out[k] == y {
                        let m = choose|m: int| 0 <= m < j && b@[m] == old_out[k];
                        assert(b@[m] == b@[j as int]);
                    }
                }
            }
            out.push(y);
            proof {
                assert(out@ == old_out.push(y));
                assert forall|k: int, l: int| 0 <= k < l < out@.len() implies precedes_in(v@, order, #[trigger] out@[k] as int, #[trigger] out@[l] as int) by {
                    if l == out@.len() - 1 {
                        assert(precedes_in(v@, order, old_out[k] as int, b@[j as int] as int));
                    } else {
                        assert(precedes_in(v@, order, old_out[k] as int, old_out[l] as int));
                    }
                }
                assert forall|k: int| 0 <= k < out@.len() implies (#[trigger] out@[k] >= mid ==> exists|m: int| 0 <= m < j + 1 && b@[m] == out@[k]) by {
                    if k == out@.len() - 1 {
                        assert(b@[j as int] == out@[k]);
                    } else if out@[k] >= mid {
                        assert(old_out[k] == out@[k]);
                        let m = choose|m: int| 0 <= m < j && b@[m] == old_out[k];
                    }
                }
                assert forall|k: int| 0 <= k < out@.len() implies (#[trigger] out@[k] < mid ==> exists|m: int| 0 <= m < i && a@[m] == out@[k]) by {
                    if k < out@.len() - 1 && out@[k] < mid {
                        assert(old_out[k] == out@[k]);
                    }
                }
            }
            j = j + 1;
        }
    }
    out
}


/// Stably sorts the positions `lo..hi` of `v`.
fn sort_range<T, F: Fn(&T, &T) -> Order>(
    v: &Vec<T>,
    f: &F,
    Ghost(order): Ghost<spec_fn(T, T) -> Order>,
    lo: usize,
    hi: usize,
) -> (out: Vec<usize>)
    requires
        forall|x: &T, y: &T| #[trigger] f.requires((x, y)),
        forall|x: &T, y: &T, o: Order| f.ensures((x, y), o) ==> o == order(*x, *y),
        is_total_preorder(order),
        lo <= hi <= v.len(),
    ensures
        out@.len() == hi - lo,
        out@.no_duplicates(),
        forall|k: int| 0 <= k < out@.len() ==> lo <= #[trigger] out@[k] < hi,
        stably_sorted(v@, out@, order),
    decreases hi - lo,
{
    if hi - lo == 0 {
        let out: Vec<usize> = Vec::new();
        return out;
    }
    if hi - lo == 1 {
        let mut out: Vec<usize> = Vec::new();
        out.push(lo);
        return out;
    }
    let mid = lo + (hi - lo) / 2;
    let a = sort_range(v, f, Ghost(order), lo, mid);
    let b = sort_range(v, f, Ghost(order), mid, hi);
    merge_runs(v, f, Ghost(order), a, b, Ghost(lo as int), Ghost(mid as int), Ghost(hi as int))
}

/// The positions of `v` in stably sorted order: `v[p[0]]`, `v[p[1]]`, ... is `v`
/// sorted by `order`, with equal elements kept in their input order.
pub fn stable_sort_permutation<T, F: Fn(&T, &T) -> Order>(
    v: &Vec<T>,
    f: &F,
    Ghost(order): Ghost<spec_fn(T, T) -> Order>,
) -> (p: Vec<usize>)
    requires
        forall|x: &T, y: &T| #[trigger] f.requires((x, y)),
        forall|x: &T, y: &T, o: Order| f.ensures((x, y), o) ==> o == order(*x, *y),
        is_total_preorder(order),
    ensures
        is_index_permutation(p@, v@.len()),
        stably_sorted(v@, p@, order),
{
    sort_range(v, f, Ghost(order), 0, v.len())
}

/// A list of each position below `n` once holds every position below `n`.
proof fn lemma_permutation_covers(p: Seq<usize>, n: nat, b: usize)
    requires
        is_index_permutation(p, n),
        b < n,
    ensures
        exists|l: int| 0 <= l < p.len() && p[l] == b,
{
    broadcast use vstd::seq_lib::seq_to_set_is_finite;
    let q = p.map_values(|x: usize| x as int);
    assert(q.no_duplicates()) by {
        assert forall|i: int, j: int| 0 <= i < q.len() && 0 <= j < q.len() && i != j implies q[i]
            != q[j] by {
            assert(p[i] != p[j]);
        }
    }
    q.unique_seq_to_set();
    vstd::set_lib::lemma_int_range(0, n as int);
    let range = vstd::set_lib::set_int_range(0, n as int);
    assert(q.to_set().subset_of(range)) by {
        assert forall|x: int| q.to_set().contains(x) implies range.contains(x) by {
            let i = choose|i: int| 0 <= i < q.len() && q[i] == x;
            assert(p[i] < n);
        }
    }
    vstd::set_lib::lemma_subset_equality(q.to_set(), range);
    assert(range.contains(b as int));
    assert(q.to_set().contains(b as int));
    let l = choose|l: int| 0 <= l < q.len() && q[l] == b as int;
    assert(p[l] == b);
}

proof fn lemma_sorted_prefix_equal<T>(
    v: Seq<T>,
    order: spec_fn(T, T) -> Order,
    p: Seq<usize>,
    q: Seq<usize>,
    k: int,
)
    requires
        is_total_preorder(order),
        is_index_permutation(p, v.len()),
        is_index_permutation(q, v.len()),
        stably_sorted(v, p, order),
        stably_sorted(v, q, order),
        0 <= k <= v.len(),
    ensures
        forall|j: int| 0 <= j < k ==> p[j] == q[j],
    decreases k,
{
    if k > 0 {
        lemma_sorted_prefix_equal(v, order, p, q, k - 1);
        let a = p[k - 1];
        let b = q[k - 1];
        if a != b {
            lemma_permutation_covers(p, v.len(), b);
            let l = choose|l: int| 0 <= l < p.len() && p[l] == b;
            if l < k - 1 {
                assert(q[l] == b);
            }
            assert(l > k - 1);
            assert(precedes_in(v, order, p[k - 1] as int, p[l] as int));
            lemma_permutation_covers(q, v.len(), a);
            let m = choose|m: int| 0 <= m < q.len() && q[m] == a;
            if m < k - 1 {
                assert(p[m] == a);
            }
            assert(m > k - 1);
            assert(precedes_in(v, order, q[k - 1] as int, q[m] as int));
            assert(order(v[a as int], v[b as int]) == flipped(order(v[b as int], v[a as int])));
        }
    }
}

/// Stable sorting is deterministic: there is only one stable sort of a
/// sequence by a total preorder.
pub proof fn law_stable_sort_unique<T>(
    v: Seq<T>,
    order: spec_fn(T, T) -> Order,
    out1: Seq<T>,
    out2: Seq<T>,
)
    requires
        is_total_preorder(order),
        is_stable_sort_of(out1, v, order),
        is_stable_sort_of(out2, v, order),
    ensures
        out1 == out2,
{
    let p = choose|p: Seq<usize>|
        {
            &&& is_index_permutation(p, v.len())
            &&& stably_sorted(v, p, order)
            &&& out1.len() == p.len()
            &&& forall|k: int| 0 <= k < out1.len() ==> #[trigger] out1[k] == v[p[k] as int]
        };
    let q = choose|q: Seq<usize>|
        {
            &&& is_index_permutation(q, v.len())
            &&& stably_sorted(v, q, order)
            &&& out2.len() == q.len()
            &&& forall|k: int| 0 <= k < out2.len() ==> #[trigger] out2[k] == v[q[k] as int]
        };
    lemma_sorted_prefix_equal(v, order, p, q, v.len() as int);
    assert(out1 =~= out2) by {
        assert forall|k: int| 0 <= k < out1.len() implies out1[k] == out2[k] by {
            assert(p[k] == q[k]);
        }
    }
}

/// Sorting a sorted sequence again by the same order changes nothing.
pub proof fn law_stable_sort_idempotent<T>(
    v: Seq<T>,
    order: spec_fn(T, T) -> Order,
    out: Seq<T>,
    again: Seq<T>,
)
    requires
        is_total_preorder(order),
        is_stable_sort_of(out, v, order),
        is_stable_sort_of(again, out, order),
        v.len() <= usize::MAX,
    ensures
        again == out,
{
    let p = choose|p: Seq<usize>|
        {
            &&& is_index_permutation(p, v.len())
            &&& stably_sorted(v, p, order)
            &&& out.len() == p.len()
            &&& forall|k: int| 0 <= k < out.len() ==> #[trigger] out[k] == v[p[k] as int]
        };
    let id = Seq::new(out.len(), |k: int| k as usize);
    assert forall|k: int| 0 <= k < id.len() implies #[trigger] id[k] as int == k by {}
    assert(is_index_permutation(id, out.len()));
    assert(stably_sorted(out, id, order)) by {
        assert forall|k: int, l: int| 0 <= k < l < id.len() implies precedes_in(
            out,
            order,
            #[trigger] id[k] as int,
            #[trigger] id[l] as int,
        ) by {
            assert(precedes_in(v, order, p[k] as int, p[l] as int));
            assert(out[k] == v[p[k] as int] && out[l] == v[p[l] as int]);
        }
    }
    assert(is_stable_sort_of(out, out, order)) by {
        assert(forall|k: int| 0 <= k < out.len() ==> #[trigger] out[k] == out[id[k] as int]);
    }
    law_stable_sort_unique(out, order, out, again);
}

} // verus!
