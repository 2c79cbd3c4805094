use vstd::prelude::*;

verus! {

/// Sum of a sequence of rewards.
pub open spec fn sum_of(s: Seq<i64>) -> int
    decreases s.len(),
{
    if s.len() == 0 {
        0
    } else {
        sum_of(s.drop_last()) + s.last()
    }
}

/// Smallest entry of a non-empty sequence (0 for the empty one).
pub open spec fn min_of(s: Seq<i64>) -> int
    decreases s.len(),
{
    if s.len() == 0 {
        0
    } else if s.len() == 1 {
        s[0] as int
    } else if s.last() < min_of(s.drop_last()) {
        s.last() as int
    } else {
        min_of(s.drop_last())
    }
}

/// Largest entry of a non-empty sequence (0 for the empty one).
pub open spec fn max_of(s: Seq<i64>) -> int
    decreases s.len(),
{
    if s.len() == 0 {
        0
    } else if s.len() == 1 {
        s[0] as int
    } else if s.last() > max_of(s.drop_last()) {
        s.last() as int
    } else {
        max_of(s.drop_last())
    }
}

/// Mean of a sequence rounded down to an integer (0 for the empty one).
pub open spec fn floor_mean_of(s: Seq<i64>) -> int {
    if s.len() == 0 {
        0
    } else {
        sum_of(s) / (s.len() as int)
    }
}

pub proof fn lemma_sum_bounds(s: Seq<i64>)
    ensures
        s.len() * (i64::MIN as int) <= sum_of(s) <= s.len() * (i64::MAX as int),
    decreases s.len(),
{
    if s.len() > 0 {
        lemma_sum_bounds(s.drop_last());
    }
}

/// A quotient by a positive divisor of a value between `n * lo` and `n * hi` lies between `lo` and `hi`.
pub proof fn lemma_div_between(x: int, n: int, lo: int, hi: int)
    requires
        n > 0,
        n * lo <= x <= n * hi,
    ensures
        lo <= x / n <= hi,
{
    vstd::arithmetic::div_mod::lemma_fundamental_div_mod(x, n);
    let q = x / n;
    let r = x % n;
    assert(0 <= r < n) by {
        vstd::arithmetic::div_mod::lemma_mod_bound(x, n);
    }
    assert(lo <= q) by (nonlinear_arith)
        requires
            x == n * q + r,
            r < n,
            n * lo <= x,
            n > 0,
    ;
    assert(q <= hi) by (nonlinear_arith)
        requires
            x == n * q + r,
            0 <= r,
            x <= n * hi,
            n > 0,
    ;
}

/// Sum of the entries, exactly.
pub fn sum_i128(s: &[i64]) -> (r: i128)
    ensures
        r == sum_of(s@),
{
    let mut acc: i128 = 0;
    let mut i: usize = 0;
    while i < s.len()
        invariant
            0 <= i <= s@.len(),
            acc == sum_of(s@.subrange(0, i as int)),
            i * (i64::MIN as int) <= acc <= i * (i64::MAX as int),
        decreases s@.len() - i,
    {
        assert(s@.subrange(0, (i + 1) as int).drop_last() =~= s@.subrange(0, i as int));
        acc = acc + s[i] as i128;
        i = i + 1;
    }
    assert(s@.subrange(0, s@.len() as int) =~= s@);
    acc
}

/// Smallest entry, or 0 when there is none.
pub fn min_i64(s: &[i64]) -> (r: i64)
    ensures
        r == min_of(s@),
{
    if s.len() == 0 {
        return 0;
    }
    let mut m: i64 = s[0];
    let mut i: usize = 1;
    assert(s@.subrange(0, 1).drop_last().len() == 0);
    while i < s.len()
        invariant
            1 <= i <= s@.len(),
            m == min_of(s@.subrange(0, i as int)),
        decreases s@.len() - i,
    {
        assert(s@.subrange(0, (i + 1) as int).drop_last() =~= s@.subrange(0, i as int));
        if s[i] < m {
            m = s[i];
        }
        i = i + 1;
    }
    assert(s@.subrange(0, s@.len() as int) =~= s@);
    m
}

/// Largest entry, or 0 when there is none.
pub fn max_i64(s: &[i64]) -> (r: i64)
    ensures
        r == max_of(s@),
{
    if s.len() == 0 {
        return 0;
    }
    let mut m: i64 = s[0];
    let mut i: usize = 1;
    while i < s.len()
        invariant
            1 <= i <= s@.len(),
            m == max_of(s@.subrange(0, i as int)),
        decreases s@.len() - i,
    {
        assert(s@.subrange(0, (i + 1) as int).drop_last() =~= s@.subrange(0, i as int));
        if s[i] > m {
            m = s[i];
        }
        i = i + 1;
    }
    assert(s@.subrange(0, s@.len() as int) =~= s@);
    m
}

/// Mean of the entries rounded down, or 0 when there is none.
pub fn floor_mean_i64(s: &[i64]) -> (r: i64)
    ensures
        r == floor_mean_of(s@),
{
    if s.len() == 0 {
        return 0;
    }
    let total = sum_i128(s);
    let n = s.len() as i128;
    proof {
        lemma_sum_bounds(s@);
        lemma_div_between(total as int, n as int, i64::MIN as int, i64::MAX as int);
    }
    match total.checked_div_euclid(n) {
        Some(q) => q as i64,
        None => 0,
    }
}

} // verus!
