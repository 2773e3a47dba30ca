//! Sorting algorithms behind one trait: each sorts a list of integers in
//! place, into ascending order, keeping every item.
use vstd::multiset::Multiset;
use vstd::prelude::*;

verus! {

broadcast use vstd::seq_lib::group_to_multiset_ensures, vstd::multiset::group_multiset_axioms;

/// `s` is in ascending order.
pub open spec fn sorted(s: Seq<i32>) -> bool {
    forall|i: int, j: int| 0 <= i < j < s.len() ==> s[i] <= s[j]
}

/// `after` holds the items of `before`, each as often, in ascending order.
pub open spec fn sorts(before: Seq<i32>, after: Seq<i32>) -> bool {
    sorted(after) && after.to_multiset() == before.to_multiset()
}

/// A way of sorting a list in place.
pub trait Sorter {
    /// Sorts `slice` into ascending order.
    fn sort(&self, slice: &mut Vec<i32>)
        ensures
            sorts(old(slice)@, final(slice)@),
    ;
}

proof fn lemma_swap_multiset(s: Seq<i32>, i: int, j: int)
    requires
        0 <= i < s.len(),
        0 <= j < s.len(),
    ensures
        s.update(i, s[j]).update(j, s[i]).to_multiset() == s.to_multiset(),
{
    let t = s.update(i, s[j]);
    assert(s.to_multiset().count(s[i]) > 0);
    assert(t[j] == s[j]);
    assert(t.update(j, s[i]).to_multiset() =~= s.to_multiset());
}

fn swap(v: &mut Vec<i32>, i: usize, j: usize)
    requires
        i < old(v).len(),
        j < old(v).len(),
    ensures
        final(v)@ == old(v)@.update(i as int, old(v)@[j as int]).update(j as int, old(v)@[i as int]),
        final(v)@.to_multiset() == old(v)@.to_multiset(),
{
    let a = v[i];
    let b = v[j];
    v.set(i, b);
    v.set(j, a);
    proof {
        lemma_swap_multiset(old(v)@, i as int, j as int);
    }
}

/// Relies on `slice::sort`: the items end in ascending order, each kept as
/// often as it was there.
#[verifier::external_body]
fn std_sort(v: &mut Vec<i32>)
    ensures
        sorts(old(v)@, final(v)@),
{
    v.sort()
}

/// Sorts with the standard library's sort.
pub struct StdSorter;

impl Sorter for StdSorter {
    fn sort(&self, slice: &mut Vec<i32>) {
        std_sort(slice);
    }
}

/// Selection sort: puts the smallest of the unsorted rest in place, again
/// and again.
pub struct Selection;

impl Sorter for Selection {
    fn sort(&self, slice: &mut Vec<i32>) {
        let n = slice.len();
        let mut unsorted: usize = 0;
        while unsorted < n
            invariant
                n == slice@.len(),
                unsorted <= n,
                slice@.to_multiset() == old(slice)@.to_multiset(),
                forall|i: int, j: int| 0 <= i < j < unsorted ==> slice@[i] <= slice@[j],
                forall|i: int, j: int| 0 <= i < unsorted <= j < n ==> slice@[i] <= slice@[j],
            decreases n - unsorted,
        {
            let mut smallest_in_rest = unsorted;
            let mut i = unsorted + 1;
            while i < n
                invariant
                    n == slice@.len(),
                    unsorted < n,
                    unsorted <= smallest_in_rest < n,
                    unsorted < i <= n,
                    forall|k: int| unsorted <= k < i ==> slice@[smallest_in_rest as int] <= slice@[k],
                decreases n - i,
            {
                if slice[i] < slice[smallest_in_rest] {
                    smallest_in_rest = i;
                }
                i = i + 1;
            }
            if unsorted != smallest_in_rest {
                swap(slice, unsorted, smallest_in_rest);
            }
            unsorted = unsorted + 1;
        }
    }
}

/// Insertion sort: grows a sorted prefix by one item at a time. The naive
/// way swaps the new item down to its place; the other finds the place by
/// binary search and rotates it in.
pub struct Insertion {
    pub naive: bool,
}

impl Sorter for Insertion {
    fn sort(&self, slice: &mut Vec<i32>) {
        let n = slice.len();
        if n == 0 {
            return ;
        }
        let mut unsorted: usize = 1;
        while unsorted < n
            invariant
                n == slice@.len(),
                1 <= unsorted <= n,
                slice@.to_multiset() == old(slice)@.to_multiset(),
                forall|i: int, j: int| 0 <= i < j < unsorted ==> slice@[i] <= slice@[j],
            decreases n - unsorted,
        {
            if self.naive {
                sink(slice, unsorted);
            } else {
                insert_sorted(slice, unsorted);
            }
            unsorted = unsorted + 1;
        }
    }
}

/// Swaps the item at `hi` down until the first `hi + 1` items are sorted.
fn sink(slice: &mut Vec<i32>, hi: usize)
    requires
        hi < old(slice)@.len(),
        forall|i: int, j: int| 0 <= i < j < hi ==> old(slice)@[i] <= old(slice)@[j],
    ensures
        final(slice)@.len() == old(slice)@.len(),
        final(slice)@.to_multiset() == old(slice)@.to_multiset(),
        forall|i: int, j: int| 0 <= i < j <= hi ==> final(slice)@[i] <= final(slice)@[j],
        forall|k: int| hi < k < final(slice)@.len() ==> final(slice)@[k] == old(slice)@[k],
{
    let mut i = hi;
    while i > 0 && slice[i - 1] > slice[i]
        invariant
            i <= hi < slice@.len(),
            slice@.len() == old(slice)@.len(),
            slice@.to_multiset() == old(slice)@.to_multiset(),
            forall|a: int, b: int| 0 <= a < b < i ==> slice@[a] <= slice@[b],
            forall|a: int, b: int| i <= a < b <= hi ==> slice@[a] <= slice@[b],
            forall|a: int, b: int| 0 <= a < i && i < b <= hi ==> slice@[a] <= slice@[b],
            forall|k: int| hi < k < slice@.len() ==> slice@[k] == old(slice)@[k],
        decreases i,
    {
        swap(slice, i - 1, i);
        i = i - 1;
    }
}

/// Relies on `slice::binary_search` over the sorted first `len` items: `Ok`
/// with the index of an item equal to `x`, or else `Err` with the index at
/// which `x` would go to keep them sorted.
#[verifier::external_body]
fn search_sorted(v: &Vec<i32>, len: usize, x: i32) -> (r: Result<usize, usize>)
    requires
        len <= v@.len(),
        forall|i: int, j: int| 0 <= i < j < len ==> v@[i] <= v@[j],
    ensures
        r matches Ok(i) ==> i < len && v@[i as int] == x,
        r matches Err(i) ==> i <= len && (forall|k: int| 0 <= k < i ==> v@[k] < x) && (forall|
            k: int,
        | i <= k < len ==> v@[k] > x),
{
    v[..len].binary_search(&x)
}

/// Relies on `slice::rotate_right` by one over the items `lo..=hi`: the item
/// at `hi` moves to `lo` and those between move up by one.
#[verifier::external_body]
fn rotate_in(v: &mut Vec<i32>, lo: usize, hi: usize)
    requires
        lo <= hi < old(v)@.len(),
    ensures
        final(v)@ == old(v)@.remove(hi as int).insert(lo as int, old(v)@[hi as int]),
{
    v[lo..=hi].rotate_right(1)
}

/// Moves the item at `hi` to its place among the sorted items before it.
fn insert_sorted(slice: &mut Vec<i32>, hi: usize)
    requires
        hi < old(slice)@.len(),
        forall|i: int, j: int| 0 <= i < j < hi ==> old(slice)@[i] <= old(slice)@[j],
    ensures
        final(slice)@.len() == old(slice)@.len(),
        final(slice)@.to_multiset() == old(slice)@.to_multiset(),
        forall|i: int, j: int| 0 <= i < j <= hi ==> final(slice)@[i] <= final(slice)@[j],
{
    let x = slice[hi];
    let i = match search_sorted(slice, hi, x) {
        Ok(i) => i,
        Err(i) => i,
    };
    assert(forall|k: int| 0 <= k < i ==> slice@[k] <= x);
    assert(forall|k: int| i <= k < hi ==> slice@[k] >= x);
    rotate_in(slice, i, hi);
    proof {
        let s = old(slice)@;
        assert(s.remove(hi as int).to_multiset() == s.to_multiset().remove(x));
        assert(s.to_multiset().count(x) > 0);
        assert(final(slice)@.to_multiset() =~= s.to_multiset());
    }
}

proof fn lemma_range_multiset(s: Seq<i32>, t: Seq<i32>, lo: int, a: int, b: int, hi: int)
    requires
        0 <= lo <= a <= b <= hi <= s.len(),
        t.len() == s.len(),
        forall|k: int| 0 <= k < s.len() && !(a <= k < b) ==> t[k] == s[k],
        t.subrange(a, b).to_multiset() == s.subrange(a, b).to_multiset(),
    ensures
        t.subrange(lo, hi).to_multiset() == s.subrange(lo, hi).to_multiset(),
{
    assert(s.subrange(lo, hi) =~= s.subrange(lo, a) + s.subrange(a, b) + s.subrange(b, hi));
    assert(t.subrange(lo, hi) =~= t.subrange(lo, a) + t.subrange(a, b) + t.subrange(b, hi));
    assert(t.subrange(lo, a) =~= s.subrange(lo, a));
    assert(t.subrange(b, hi) =~= s.subrange(b, hi));
    vstd::seq_lib::lemma_multiset_commutative(s.subrange(lo, a), s.subrange(a, b));
    vstd::seq_lib::lemma_multiset_commutative(t.subrange(lo, a), t.subrange(a, b));
    vstd::seq_lib::lemma_multiset_commutative(
        s.subrange(lo, a) + s.subrange(a, b),
        s.subrange(b, hi),
    );
    vstd::seq_lib::lemma_multiset_commutative(
        t.subrange(lo, a) + t.subrange(a, b),
        t.subrange(b, hi),
    );
}

proof fn lemma_swap_range(s: Seq<i32>, i: int, j: int, lo: int, hi: int)
    requires
        0 <= lo <= i < hi <= s.len(),
        lo <= j < hi,
    ensures
        s.update(i, s[j]).update(j, s[i]).subrange(lo, hi).to_multiset() == s.subrange(
            lo,
            hi,
        ).to_multiset(),
{
    let r = s.subrange(lo, hi);
    assert(s.update(i, s[j]).update(j, s[i]).subrange(lo, hi) =~= r.update(i - lo, r[j - lo]).update(
        j - lo,
        r[i - lo],
    ));
    lemma_swap_multiset(r, i - lo, j - lo);
}

proof fn lemma_at_most_kept(s: Seq<i32>, t: Seq<i32>, b: i32)
    requires
        t.to_multiset() == s.to_multiset(),
        forall|k: int| 0 <= k < s.len() ==> s[k] <= b,
    ensures
        forall|k: int| 0 <= k < t.len() ==> t[k] <= b,
{
    assert forall|k: int| 0 <= k < t.len() implies t[k] <= b by {
        assert(t.to_multiset().count(t[k]) > 0);
        assert(s.contains(t[k]));
    }
}

proof fn lemma_above_kept(s: Seq<i32>, t: Seq<i32>, b: i32)
    requires
        t.to_multiset() == s.to_multiset(),
        forall|k: int| 0 <= k < s.len() ==> s[k] > b,
    ensures
        forall|k: int| 0 <= k < t.len() ==> t[k] > b,
{
    assert forall|k: int| 0 <= k < t.len() implies t[k] > b by {
        assert(t.to_multiset().count(t[k]) > 0);
        assert(s.contains(t[k]));
    }
}

/// Sorts the items `lo..hi` around the first of them as pivot: those not
/// above it go before it, the others after, and each side is sorted alike.
fn quicksort(v: &mut Vec<i32>, lo: usize, hi: usize)
    requires
        lo <= hi <= old(v)@.len(),
    ensures
        final(v)@.len() == old(v)@.len(),
        forall|k: int| 0 <= k < old(v)@.len() && !(lo <= k < hi) ==> final(v)@[k] == old(v)@[k],
        final(v)@.subrange(lo as int, hi as int).to_multiset() == old(v)@.subrange(
            lo as int,
            hi as int,
        ).to_multiset(),
        forall|i: int, j: int| lo <= i < j < hi ==> final(v)@[i] <= final(v)@[j],
    decreases hi - lo,
{
    if hi - lo <= 1 {
        return ;
    }
    if hi - lo == 2 {
        if v[lo] > v[lo + 1] {
            swap(v, lo, lo + 1);
            proof {
                lemma_swap_range(old(v)@, lo as int, lo + 1, lo as int, hi as int);
            }
        }
        return ;
    }
    let pivot = v[lo];
    let mut left = lo + 1;
    let mut right = hi;
    while left != right
        invariant
            lo < left <= right <= hi <= v@.len(),
            v@.len() == old(v)@.len(),
            v@[lo as int] == pivot,
            forall|k: int| 0 <= k < v@.len() && !(lo <= k < hi) ==> v@[k] == old(v)@[k],
            v@.subrange(lo as int, hi as int).to_multiset() == old(v)@.subrange(
                lo as int,
                hi as int,
            ).to_multiset(),
            forall|k: int| lo < k < left ==> v@[k] <= pivot,
            forall|k: int| right <= k < hi ==> v@[k] > pivot,
        decreases right - left,
    {
        if v[left] <= pivot {
            left = left + 1;
        } else if v[right - 1] > pivot {
            right = right - 1;
        } else {
            proof {
                lemma_swap_range(v@, left as int, right - 1, lo as int, hi as int);
            }
            swap(v, left, right - 1);
            left = left + 1;
            right = right - 1;
        }
    }
    let mid = left - 1;
    proof {
        lemma_swap_range(v@, lo as int, mid as int, lo as int, hi as int);
    }
    swap(v, lo, mid);
    assert(forall|k: int| lo <= k < mid ==> v@[k] <= pivot);
    assert(forall|k: int| mid < k < hi ==> v@[k] > pivot);
    assert(v@[mid as int] == pivot);
    let ghost s1 = v@;
    quicksort(v, lo, mid);
    proof {
        lemma_range_multiset(s1, v@, lo as int, lo as int, mid as int, hi as int);
        lemma_at_most_kept(s1.subrange(lo as int, mid as int), v@.subrange(lo as int, mid as int), pivot);
    }
    let ghost s2 = v@;
    quicksort(v, left, hi);
    proof {
        lemma_range_multiset(s2, v@, lo as int, left as int, hi as int, hi as int);
        lemma_above_kept(s2.subrange(left as int, hi as int), v@.subrange(left as int, hi as int), pivot);
        assert forall|i: int, j: int| lo <= i < j < hi implies v@[i] <= v@[j] by {
            if i < mid {
                assert(s2.subrange(lo as int, mid as int)[i - lo] <= pivot);
                assert(v@[i] == s2[i]);
            }
            if j > mid {
                assert(v@.subrange(left as int, hi as int)[j - left] > pivot);
            }
        }
    }
}

/// Quicksort: splits around a pivot and sorts the two sides.
pub struct Quick;

impl Sorter for Quick {
    fn sort(&self, slice: &mut Vec<i32>) {
        let n = slice.len();
        quicksort(slice, 0, n);
        assert(slice@.subrange(0, n as int) =~= slice@);
        assert(old(slice)@.subrange(0, n as int) =~= old(slice)@);
    }
}

/// Bubble sort: passes over the list swapping neighbours out of order, until
/// a pass swaps none.
pub struct Bubble;

impl Sorter for Bubble {
    fn sort(&self, slice: &mut Vec<i32>) {
        let n = slice.len();
        if n == 0 {
            return ;
        }
        let mut swapped = true;
        // After `passes` passes the last `passes` items are the largest, in order.
        let ghost mut passes: int = 0;
        while swapped
            invariant
                n == slice@.len(),
                n >= 1,
                0 <= passes <= n,
                passes == n ==> !swapped,
                slice@.to_multiset() == old(slice)@.to_multiset(),
                forall|a: int, b: int| n - passes <= a < b < n ==> slice@[a] <= slice@[b],
                forall|a: int, b: int| 0 <= a < n - passes <= b < n ==> slice@[a] <= slice@[b],
                !swapped ==> sorted(slice@),
            decreases n - passes + if swapped {
                1int
            } else {
                0int
            },
        {
            let ghost start = slice@;
            let ghost m = n - passes;
            swapped = false;
            let mut i: usize = 1;
            while i < n
                invariant
                    n == slice@.len(),
                    1 <= i <= n,
                    m == n - passes,
                    0 < m <= n,
                    slice@.to_multiset() == old(slice)@.to_multiset(),
                    forall|k: int| m <= k < n ==> slice@[k] == start[k],
                    forall|a: int, b: int| m <= a < b < n ==> slice@[a] <= slice@[b],
                    forall|a: int, b: int| 0 <= a < m <= b < n ==> slice@[a] <= slice@[b],
                    i <= m ==> forall|a: int| 0 <= a < i ==> #[trigger] slice@[a] <= slice@[i - 1],
                    i > m ==> forall|a: int| 0 <= a < m ==> #[trigger] slice@[a] <= slice@[m - 1],
                    !swapped ==> slice@ == start,
                    !swapped ==> forall|a: int, b: int| 0 <= a < b < i ==> slice@[a] <= slice@[b],
                    sorted(start) ==> !swapped,
                decreases n - i,
            {
                if slice[i - 1] > slice[i] {
                    swap(slice, i - 1, i);
                    swapped = true;
                }
                i = i + 1;
            }
            proof {
                if m == 1 {
                    assert(sorted(start));
                }
                passes = passes + 1;
            }
        }
    }
}

} // verus!
