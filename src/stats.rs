use vstd::prelude::*;
use crate::game::Pallet;
use crate::types::RangePoint;

verus! {

/// Sum of a sequence of integers.
pub open spec fn seq_sum(s: Seq<i64>) -> int
    decreases s.len(),
{
    if s.len() == 0 {
        0
    } else {
        seq_sum(s.drop_last()) + s.last()
    }
}

/// Division that rounds toward zero, as Rust's integer `/` does.
pub open spec fn trunc_div(a: int, b: int) -> int {
    if a >= 0 {
        a / b
    } else {
        -((-a) / b)
    }
}

/// Integer mean (rounded toward zero) of a non-empty sequence.
pub open spec fn mean_spec(s: Seq<i64>) -> Option<int> {
    if s.len() == 0 {
        None
    } else {
        Some(trunc_div(seq_sum(s), s.len() as int))
    }
}

/// Sum of the squared distances of the elements of `s` from `m`.
pub open spec fn sq_dev_sum(s: Seq<i64>, m: int) -> int
    decreases s.len(),
{
    if s.len() == 0 {
        0
    } else {
        sq_dev_sum(s.drop_last(), m) + (m - s.last()) * (m - s.last())
    }
}

/// `r` is the integer square root of `v`.
pub open spec fn is_isqrt(r: int, v: int) -> bool {
    0 <= r && r * r <= v && v < (r + 1) * (r + 1)
}

/// The integer square root of `v`.
pub open spec fn isqrt_spec(v: int) -> int {
    choose|r: int| is_isqrt(r, v)
}

proof fn lemma_isqrt_unique(a: int, b: int, v: int)
    requires
        is_isqrt(a, v),
        is_isqrt(b, v),
    ensures
        a == b,
{
    if a < b {
        assert((a + 1) * (a + 1) <= b * b) by (nonlinear_arith)
            requires
                0 <= a + 1 <= b,
        ;
    } else if b < a {
        assert((b + 1) * (b + 1) <= a * a) by (nonlinear_arith)
            requires
                0 <= b + 1 <= a,
        ;
    }
}

/// The elements of `s` that lie in `[lo, hi]`, in order.
pub open spec fn trimmed(s: Seq<i64>, lo: int, hi: int) -> Seq<i64>
    decreases s.len(),
{
    if s.len() == 0 {
        Seq::empty()
    } else {
        let t = trimmed(s.drop_last(), lo, hi);
        if lo <= s.last() && s.last() <= hi {
            t.push(s.last())
        } else {
            t
        }
    }
}

/// Largest variance whose square root fits in `i64`.
pub open spec fn variance_limit() -> int {
    0x4000_0000_0000_0000_0000_0000_0000_0000
}

/// Population variance of `s` around its integer mean, rounded down.
pub open spec fn variance_spec(s: Seq<i64>) -> int
    recommends
        s.len() > 0,
{
    sq_dev_sum(s, mean_spec(s).unwrap()) / (s.len() as int)
}

/// Whether [`std_deviation_interger`] yields a value: the sample is not
/// empty, the squared deviations sum to at most `u128::MAX`, and the
/// deviation fits in `i64`.
pub open spec fn std_deviation_defined(s: Seq<i64>) -> bool {
    &&& s.len() > 0
    &&& sq_dev_sum(s, mean_spec(s).unwrap()) <= u128::MAX
    &&& variance_spec(s) < variance_limit()
}

proof fn lemma_sq_dev_sum_monotone(s: Seq<i64>, m: int, i: int)
    requires
        0 <= i <= s.len(),
    ensures
        0 <= sq_dev_sum(s.take(i), m) <= sq_dev_sum(s, m),
    decreases s.len(),
{
    if s.len() > 0 {
        if i == s.len() {
            assert(s.take(i) =~= s);
            lemma_sq_dev_sum_monotone(s.drop_last(), m, 0);
            assert(s.take(0) =~= Seq::<i64>::empty());
            assert(s.drop_last().take(0) =~= Seq::<i64>::empty());
        } else {
            lemma_sq_dev_sum_monotone(s.drop_last(), m, i);
            assert(s.drop_last().take(i) =~= s.take(i));
        }
        assert((m - s.last()) * (m - s.last()) >= 0) by (nonlinear_arith);
    }
}


/// Integer square root of `v`.
fn isqrt(v: u128) -> (r: u128)
    ensures
        is_isqrt(r as int, v as int),
{
    let mut lo: u128 = 0;
    let mut hi: u128 = 0x1_0000_0000_0000_0000;
    assert(v < hi * hi) by (nonlinear_arith)
        requires
            hi == 0x1_0000_0000_0000_0000u128,
    ;
    while hi - lo > 1
        invariant
            lo < hi <= 0x1_0000_0000_0000_0000,
            lo * lo <= v,
            v < hi * hi,
        decreases hi - lo,
    {
        let mid: u128 = lo + (hi - lo) / 2;
        assert(mid * mid < 0x1_0000_0000_0000_0000_0000_0000_0000_0000) by (nonlinear_arith)
            requires
                mid < 0x1_0000_0000_0000_0000,
        ;
        if mid * mid <= v {
            lo = mid;
        } else {
            hi = mid;
        }
    }
    assert(hi == lo + 1);
    lo
}


/// The consensus score of a sample: the mean of the samples within one
/// deviation of the mean, when there is one.
pub open spec fn score_consensus(s: Seq<i64>) -> Option<int> {
    if std_deviation_defined(s) {
        let m = mean_spec(s).unwrap();
        let sd = isqrt_spec(variance_spec(s));
        mean_spec(trimmed(s, m - sd, m + sd))
    } else {
        None
    }
}

/// Number of samples of `data` in `[lo, hi]`.
pub fn count_within(data: &Vec<i64>, lo: i128, hi: i128) -> (r: usize)
    ensures
        r == trimmed(data@, lo as int, hi as int).len(),
{
    let mut count: usize = 0;
    let mut i: usize = 0;
    while i < data.len()
        invariant
            i <= data@.len(),
            count == trimmed(data@.take(i as int), lo as int, hi as int).len(),
            count <= i,
        decreases data@.len() - i,
    {
        assert(data@.take(i + 1).drop_last() =~= data@.take(i as int));
        let x: i64 = data[i];
        if lo <= x as i128 && x as i128 <= hi {
            count = count + 1;
        }
        i = i + 1;
    }
    assert(data@.take(data@.len() as int) =~= data@);
    count
}


/// Half-width of the accepted band around the consensus score, scaled by 1000.
pub open spec fn incentives_range_spec(range_point: RangePoint) -> i64 {
    match range_point {
        RangePoint::ZeroToTen => 1500,
        RangePoint::MinusTenToPlusTen => 3000,
        RangePoint::ZeroToFive => 750,
    }
}


impl Pallet {
    /// Integer mean of `data`, rounded toward zero; `None` when empty.
    pub fn mean_integer(data: &Vec<i64>) -> (r: Option<i64>)
        ensures
            match mean_spec(data@) {
                None => r is None,
                Some(m) => r is Some && r.unwrap() as int == m,
            },
    {
        let n: usize = data.len();
        if n == 0 {
            return None;
        }
        let mut acc: i128 = 0;
        let mut i: usize = 0;
        while i < n
            invariant
                n == data@.len(),
                i <= n,
                acc == seq_sum(data@.take(i as int)),
                i * i64::MIN <= acc <= i * i64::MAX,
            decreases n - i,
        {
            assert(data@.take(i + 1).drop_last() =~= data@.take(i as int));
            assert((i + 1) * i64::MIN == i * i64::MIN + i64::MIN) by (nonlinear_arith);
            assert((i + 1) * i64::MAX == i * i64::MAX + i64::MAX) by (nonlinear_arith);
            acc = acc + data[i] as i128;
            i = i + 1;
        }
        assert(data@.take(n as int) =~= data@);
        let ghost sum = seq_sum(data@);
        let q: i128 = if acc >= 0 {
            ((acc as u128) / (n as u128)) as i128
        } else {
            0i128 - (((0i128 - acc) as u128) / (n as u128)) as i128
        };
        assert(i64::MIN <= trunc_div(sum, n as int) <= i64::MAX) by {
            if sum >= 0 {
                assert(sum / (n as int) <= i64::MAX) by (nonlinear_arith)
                    requires
                        0 <= sum <= n * i64::MAX,
                        n > 0,
                ;
            } else {
                assert((-sum) / (n as int) <= -(i64::MIN as int)) by (nonlinear_arith)
                    requires
                        0 < -sum <= n * (-(i64::MIN as int)),
                        n > 0,
                ;
            }
        }
        Some(q as i64)
    }

    /// `(σ, μ)` of `data`: the integer mean `μ` (rounded toward zero) and the
    /// integer square root `σ` of the population variance around it (rounded
    /// down). `None` when `data` is empty or the computation would overflow.
    pub fn std_deviation_interger(data: &Vec<i64>) -> (r: Option<(i64, i64)>)
        ensures
            r is Some <==> std_deviation_defined(data@),
            r matches Some((sd, m)) ==> m == mean_spec(data@).unwrap() && sd == isqrt_spec(
                variance_spec(data@),
            ),
    {
        let mean: i64 = match Pallet::mean_integer(data) {
            Some(m) => m,
            None => {
                return None;
            },
        };
        let n: usize = data.len();
        let mut acc: u128 = 0;
        let mut i: usize = 0;
        while i < n
            invariant
                n == data@.len(),
                n > 0,
                i <= n,
                mean == mean_spec(data@).unwrap(),
                acc == sq_dev_sum(data@.take(i as int), mean as int),
            decreases n - i,
        {
            assert(data@.take(i + 1).drop_last() =~= data@.take(i as int));
            let diff: i128 = mean as i128 - data[i] as i128;
            let a: u128 = if diff >= 0 {
                diff as u128
            } else {
                (0i128 - diff) as u128
            };
            assert(a * a == diff * diff) by (nonlinear_arith)
                requires
                    a == diff || a == -diff,
            ;
            assert(a * a <= 0xFFFF_FFFF_FFFF_FFFE_0000_0000_0000_0001) by (nonlinear_arith)
                requires
                    a <= 0xFFFF_FFFF_FFFF_FFFF,
            ;
            let sq: u128 = a * a;
            match acc.checked_add(sq) {
                Some(t) => {
                    acc = t;
                },
                None => {
                    proof {
                        lemma_sq_dev_sum_monotone(data@, mean as int, i + 1);
                    }
                    return None;
                },
            }
            i = i + 1;
        }
        assert(data@.take(n as int) =~= data@);
        let variance: u128 = acc / (n as u128);
        if variance >= 0x4000_0000_0000_0000_0000_0000_0000_0000 {
            return None;
        }
        let sd: u128 = isqrt(variance);
        assert(sd < 0x8000_0000_0000_0000) by (nonlinear_arith)
            requires
                sd * sd <= variance,
                variance < 0x4000_0000_0000_0000_0000_0000_0000_0000,
                sd >= 0,
        ;
        proof {
            lemma_isqrt_unique(sd as int, isqrt_spec(variance as int), variance as int);
        }
        Some((sd as i64, mean))
    }

    /// Mean of the samples within one deviation of the mean: the samples of
    /// `data` in `[μ - σ, μ + σ]` for `sd_and_mean == Some((σ, μ))`. `None` when
    /// `sd_and_mean` is `None` or no sample is kept.
    pub fn calculate_new_mean(data: &Vec<i64>, sd_and_mean: Option<(i64, i64)>) -> (r: Option<i64>)
        ensures
            match sd_and_mean {
                None => r is None,
                Some((sd, m)) => match mean_spec(trimmed(data@, m - sd, m + sd)) {
                    None => r is None,
                    Some(v) => r is Some && r.unwrap() as int == v,
                },
            },
    {
        let (sd, mean) = match sd_and_mean {
            Some(p) => p,
            None => {
                return None;
            },
        };
        let lo: i128 = mean as i128 - sd as i128;
        let hi: i128 = mean as i128 + sd as i128;
        let mut kept: Vec<i64> = Vec::new();
        let mut i: usize = 0;
        while i < data.len()
            invariant
                i <= data@.len(),
                kept@ == trimmed(data@.take(i as int), lo as int, hi as int),
            decreases data@.len() - i,
        {
            assert(data@.take(i + 1).drop_last() =~= data@.take(i as int));
            let x: i64 = data[i];
            if lo <= x as i128 && x as i128 <= hi {
                kept.push(x);
            }
            i = i + 1;
        }
        assert(data@.take(data@.len() as int) =~= data@);
        Pallet::mean_integer(&kept)
    }

    /// Half-width of the accepted band for a score game's scale.
    pub fn get_incentives_range(range_point: RangePoint) -> (r: i64)
        ensures
            r == incentives_range_spec(range_point),
    {
        match range_point {
            RangePoint::ZeroToTen => 1500,
            RangePoint::MinusTenToPlusTen => 3000,
            RangePoint::ZeroToFive => 750,
        }
    }
}

} // verus!
