//! The parts of descriptive statistics that do not depend on arithmetic on the values:
//! whether there is anything to summarise, where the median sits in sorted order, and which
//! values occur most often.
use vstd::prelude::*;
use crate::error::{Error, ErrorView};

verus! {

/// How often `x` occurs in `s`.
pub open spec fn occurrences(s: Seq<u64>, x: u64) -> nat
    decreases s.len(),
{
    if s.len() == 0 {
        0
    } else {
        occurrences(s.drop_last(), x) + if s.last() == x { 1nat } else { 0nat }
    }
}

/// `x` occurs in `s`, and no value of `s` occurs more often.
pub open spec fn is_mode(s: Seq<u64>, x: u64) -> bool {
    s.contains(x) && forall|y: u64| s.contains(y) ==> occurrences(s, y) <= occurrences(s, x)
}

/// The positions, in sorted order, of the elements whose mean is the median of `n` values:
/// the middle one twice for odd `n`, the two middle ones for even `n`.
pub open spec fn median_positions(n: nat) -> (nat, nat) {
    if n % 2 == 1 { (n / 2, n / 2) } else { ((n / 2 - 1) as nat, n / 2) }
}

/// Where the median of `n` sorted values is found; an empty data set has none.
pub fn median_indices(n: usize) -> (r: Result<(usize, usize), Error>)
    ensures
        n == 0 <==> r is Err,
        r is Err ==> r->Err_0@ == ErrorView::EmptyDataSet,
        r is Ok ==> (r->Ok_0.0 as nat, r->Ok_0.1 as nat) == median_positions(n as nat),
{
    if n == 0 {
        Err(Error::EmptyDataSet)
    } else if n % 2 == 1 {
        Ok((n / 2, n / 2))
    } else {
        Ok((n / 2 - 1, n / 2))
    }
}

proof fn lemma_occurrences_step(s: Seq<u64>, k: int, x: u64)
    requires
        0 <= k < s.len(),
    ensures
        occurrences(s.subrange(0, k + 1), x) == occurrences(s.subrange(0, k), x) + if s[k] == x { 1nat } else { 0nat },
{
    assert(s.subrange(0, k + 1).drop_last() =~= s.subrange(0, k));
}

proof fn lemma_contains_push(s: Seq<u64>, a: u64, y: u64)
    ensures
        s.push(a).contains(y) <==> (s.contains(y) || y == a),
{
    assert(s.push(a)[s.len() as int] == a);
    if s.contains(y) {
        let w = choose|w: int| 0 <= w < s.len() && s[w] == y;
        assert(s.push(a)[w] == y);
    }
    if s.push(a).contains(y) {
        let w = choose|w: int| 0 <= w < s.len() + 1 && s.push(a)[w] == y;
        if w < s.len() {
            assert(s[w] == y);
        }
    }
}

/// How often `x` occurs in `v`.
fn count_of(v: &Vec<u64>, x: u64) -> (c: usize)
    ensures
        c as nat == occurrences(v@, x),
{
    let mut c: usize = 0;
    let mut k: usize = 0;
    while k < v.len()
        invariant
            k <= v.len(),
            c as nat == occurrences(v@.subrange(0, k as int), x),
            c <= k,
        decreases v.len() - k,
    {
        proof {
            lemma_occurrences_step(v@, k as int, x);
        }
        if v[k] == x {
            c = c + 1;
        }
        k = k + 1;
    }
    assert(v@.subrange(0, v.len() as int) =~= v@);
    c
}

/// The values of `values` that occur most often, each once, in order of first occurrence.
/// Values are compared exactly, so callers pass floating-point numbers as bit patterns.
pub fn modes(values: &Vec<u64>) -> (r: Vec<u64>)
    ensures
        forall|x: u64| r@.contains(x) <==> is_mode(values@, x),
        r@.no_duplicates(),
{
    let n = values.len();
    let mut best: usize = 0;
    let mut i: usize = 0;
    while i < n
        invariant
            n == values.len(),
            i <= n,
            forall|k: int| 0 <= k < i ==> occurrences(values@, #[trigger] values@[k]) <= best,
            i == 0 ==> best == 0,
            i > 0 ==> exists|k: int| 0 <= k < i && occurrences(values@, #[trigger] values@[k]) == best,
        decreases n - i,
    {
        let c = count_of(values, values[i]);
        if c > best {
            best = c;
        }
        assert(occurrences(values@, values@[i as int]) <= best);
        assert(exists|k: int| 0 <= k < i + 1 && occurrences(values@, #[trigger] values@[k]) == best) by {
            if occurrences(values@, values@[i as int]) != best {
                assert(i > 0);
                let k = choose|k: int| 0 <= k < i && occurrences(values@, #[trigger] values@[k]) == best;
                assert(0 <= k < i + 1);
            }
        }
        i = i + 1;
    }
    let mut r: Vec<u64> = Vec::new();
    let mut j: usize = 0;
    while j < n
        invariant
            n == values.len(),
            j <= n,
            forall|k: int| 0 <= k < n ==> occurrences(values@, #[trigger] values@[k]) <= best,
            n > 0 ==> exists|k: int| 0 <= k < n && occurrences(values@, #[trigger] values@[k]) == best,
            r@.no_duplicates(),
            forall|x: u64| r@.contains(x) <==> (values@.subrange(0, j as int).contains(x) && occurrences(values@, x) == best),
        decreases n - j,
    {
        let x = values[j];
        let c = count_of(values, x);
        let mut seen = false;
        let mut m: usize = 0;
        while m < r.len()
            invariant
                m <= r.len(),
                seen == r@.subrange(0, m as int).contains(x),
            decreases r.len() - m,
        {
            if r[m] == x {
                seen = true;
            }
            proof {
                assert(r@.subrange(0, m + 1) =~= r@.subrange(0, m as int).push(r@[m as int]));
                lemma_contains_push(r@.subrange(0, m as int), r@[m as int], x);
            }
            m = m + 1;
        }
        assert(r@.subrange(0, r.len() as int) =~= r@);
        let ghost old_r = r@;
        let ghost pre = values@.subrange(0, j as int);
        if c == best && !seen {
            r.push(x);
        }
        proof {
            assert(values@.subrange(0, j + 1) =~= pre.push(x));
            assert forall|y: u64| r@.contains(y) <==> (values@.subrange(0, j + 1).contains(y) && occurrences(values@, y) == best) by {
                lemma_contains_push(pre, x, y);
                lemma_contains_push(old_r, x, y);
            }
            if c == best && !seen {
                assert forall|a: int, b: int| 0 <= a < r@.len() && 0 <= b < r@.len() && a != b implies r@[a] != r@[b] by {
                    if a == old_r.len() {
                        assert(old_r[b] == r@[b]);
                    } else if b == old_r.len() {
                        assert(old_r[a] == r@[a]);
                    }
                }
            }
        }
        j = j + 1;
    }
    assert(values@.subrange(0, n as int) =~= values@);
    proof {
        assert forall|x: u64| r@.contains(x) <==> is_mode(values@, x) by {
            if is_mode(values@, x) {
                let k = choose|k: int| 0 <= k < n && occurrences(values@, #[trigger] values@[k]) == best;
                let kx = choose|kx: int| 0 <= kx < n && values@[kx] == x;
                assert(values@.contains(values@[k]));
                assert(occurrences(values@, x) <= best);
                assert(occurrences(values@, values@[kx]) <= best);
            }
            if r@.contains(x) {
                assert forall|y: u64| values@.contains(y) implies occurrences(values@, y) <= occurrences(values@, x) by {
                    let ky = choose|ky: int| 0 <= ky < n && values@[ky] == y;
                    assert(occurrences(values@, values@[ky]) <= best);
                }
            }
        }
    }
    r
}

} // verus!
