//! The mode of a list of numbers: the values that occur most often.
use vstd::prelude::*;

verus! {

/// How many times `x` occurs in `s`.
pub open spec fn count(s: Seq<i32>, x: i32) -> nat
    decreases s.len(),
{
    if s.len() == 0 {
        0
    } else {
        count(s.drop_last(), x) + if s.last() == x {
            1nat
        } else {
            0nat
        }
    }
}

/// The largest number of times that one of the first `k` items of `s`
/// occurs in the whole of `s`.
pub open spec fn most_in(s: Seq<i32>, k: nat) -> nat
    decreases k,
{
    if k == 0 || k > s.len() {
        0
    } else {
        let m = most_in(s, (k - 1) as nat);
        let c = count(s, s[k - 1]);
        if c > m {
            c
        } else {
            m
        }
    }
}

/// Among the first `k` items of `s`, the values that occur `m` times in `s`,
/// each once, in the order in which they first appear.
pub open spec fn firsts_with_count(s: Seq<i32>, k: nat, m: nat) -> Seq<i32>
    decreases k,
{
    if k == 0 || k > s.len() {
        Seq::empty()
    } else {
        let prev = firsts_with_count(s, (k - 1) as nat, m);
        let x = s[k - 1];
        if count(s, x) == m && !s.subrange(0, k - 1).contains(x) {
            prev.push(x)
        } else {
            prev
        }
    }
}

/// The mode of `s`: each value that occurs most often, once, in the order in
/// which it first appears.
pub open spec fn modes(s: Seq<i32>) -> Seq<i32> {
    firsts_with_count(s, s.len(), most_in(s, s.len()))
}

fn count_of(numbers: &[i32], x: i32) -> (r: usize)
    ensures
        r == count(numbers@, x),
{
    let mut c: usize = 0;
    let mut j: usize = 0;
    while j < numbers.len()
        invariant
            j <= numbers@.len(),
            c == count(numbers@.subrange(0, j as int), x),
            c <= j,
        decreases numbers@.len() - j,
    {
        assert(numbers@.subrange(0, j + 1).drop_last() =~= numbers@.subrange(0, j as int));
        if numbers[j] == x {
            c = c + 1;
        }
        j = j + 1;
    }
    assert(numbers@.subrange(0, j as int) =~= numbers@);
    c
}

/// Whether `x` is among the first `k` items of `numbers`.
fn seen_before(numbers: &[i32], k: usize, x: i32) -> (r: bool)
    requires
        k <= numbers@.len(),
    ensures
        r == numbers@.subrange(0, k as int).contains(x),
{
    let mut j: usize = 0;
    while j < k
        invariant
            k <= numbers@.len(),
            j <= k,
            forall|i: int| 0 <= i < j ==> numbers@[i] != x,
        decreases k - j,
    {
        if numbers[j] == x {
            assert(numbers@.subrange(0, k as int)[j as int] == x);
            return true;
        }
        j = j + 1;
    }
    assert forall|i: int| 0 <= i < k implies numbers@.subrange(0, k as int)[i] != x by {}
    false
}

/// The values of `numbers` that occur most often, each once, in the order in
/// which they first appear; empty for no numbers.
pub fn mode(numbers: &[i32]) -> (r: Vec<i32>)
    ensures
        r@ == modes(numbers@),
{
    let n = numbers.len();
    let mut most: usize = 0;
    let mut k: usize = 0;
    while k < n
        invariant
            n == numbers@.len(),
            k <= n,
            most == most_in(numbers@, k as nat),
        decreases n - k,
    {
        let c = count_of(numbers, numbers[k]);
        if c > most {
            most = c;
        }
        k = k + 1;
    }
    let mut r: Vec<i32> = Vec::new();
    let mut k: usize = 0;
    while k < n
        invariant
            n == numbers@.len(),
            k <= n,
            most == most_in(numbers@, n as nat),
            r@ == firsts_with_count(numbers@, k as nat, most as nat),
        decreases n - k,
    {
        let x = numbers[k];
        let c = count_of(numbers, x);
        if c == most && !seen_before(numbers, k, x) {
            r.push(x);
        }
        k = k + 1;
    }
    r
}

/// The mode holds no value twice.
pub proof fn lemma_modes_distinct(s: Seq<i32>)
    ensures
        modes(s).no_duplicates(),
{
    lemma_firsts_distinct(s, s.len(), most_in(s, s.len()));
}

proof fn lemma_firsts_from_prefix(s: Seq<i32>, k: nat, m: nat, x: i32)
    requires
        k <= s.len(),
        firsts_with_count(s, k, m).contains(x),
    ensures
        s.subrange(0, k as int).contains(x),
    decreases k,
{
    if k > 0 {
        let prev = firsts_with_count(s, (k - 1) as nat, m);
        if prev.contains(x) {
            lemma_firsts_from_prefix(s, (k - 1) as nat, m, x);
            let i = choose|i: int| 0 <= i < k - 1 && #[trigger] s.subrange(0, k - 1)[i] == x;
            assert(s.subrange(0, k as int)[i] == x);
        } else {
            assert(s.subrange(0, k as int)[k - 1] == x);
        }
    }
}

proof fn lemma_firsts_distinct(s: Seq<i32>, k: nat, m: nat)
    requires
        k <= s.len(),
    ensures
        firsts_with_count(s, k, m).no_duplicates(),
    decreases k,
{
    if k > 0 {
        let prev = firsts_with_count(s, (k - 1) as nat, m);
        lemma_firsts_distinct(s, (k - 1) as nat, m);
        let x = s[k - 1];
        if count(s, x) == m && !s.subrange(0, k - 1).contains(x) {
            if prev.contains(x) {
                lemma_firsts_from_prefix(s, (k - 1) as nat, m, x);
            }
            assert forall|i: int, j: int|
                0 <= i < prev.push(x).len() && 0 <= j < prev.push(x).len() && i != j implies prev.push(x)[i]
                != prev.push(x)[j] by {
                if i < prev.len() && j < prev.len() {
                } else if i < prev.len() {
                    assert(prev[i] == prev.push(x)[i]);
                    assert(prev.contains(prev[i]));
                } else {
                    assert(prev.contains(prev[j]));
                }
            }
        }
    }
}
} // verus!
