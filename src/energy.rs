use vstd::prelude::*;

verus! {

/// Largest squared amplitude of a 16-bit sample.
pub open spec fn max_square() -> int {
    32768int * 32768int
}

/// Sum of the squared amplitudes of a block.
pub open spec fn sum_squares(s: Seq<i16>) -> int
    decreases s.len(),
{
    if s.len() == 0 {
        0
    } else {
        sum_squares(s.drop_last()) + s.last() as int * s.last() as int
    }
}

/// `r` is the integer part of the root-mean-square amplitude of `s`
/// (zero for an empty block): `r² ≤ Σx²/n < (r+1)²`.
pub open spec fn is_floor_rms(s: Seq<i16>, r: int) -> bool {
    if s.len() == 0 {
        r == 0
    } else {
        r >= 0 && r * r * s.len() <= sum_squares(s) < (r + 1) * (r + 1) * s.len()
    }
}

/// The root-mean-square amplitude of `s` is at least `t`.
pub open spec fn is_loud(s: Seq<i16>, t: int) -> bool {
    s.len() > 0 && sum_squares(s) >= t * t * s.len()
}

proof fn lemma_sum_squares_bounds(s: Seq<i16>)
    ensures
        0 <= sum_squares(s) <= max_square() * s.len(),
    decreases s.len(),
{
    if s.len() > 0 {
        lemma_sum_squares_bounds(s.drop_last());
        let x = s.last() as int;
        assert(x * x <= max_square()) by (nonlinear_arith)
            requires
                -32768 <= x <= 32767,
        ;
        assert(0 <= x * x) by (nonlinear_arith);
        assert(max_square() * (s.len() - 1) + max_square() == max_square() * s.len()) by (nonlinear_arith);
    }
}

/// Integer RMS and loudness agree: the integer part of the RMS reaches an
/// integer threshold exactly when the RMS itself does.
pub proof fn lemma_floor_rms_threshold(s: Seq<i16>, r: int, t: int)
    requires
        is_floor_rms(s, r),
        t > 0,
    ensures
        (r >= t) == is_loud(s, t),
{
    if s.len() > 0 {
        let n = s.len() as int;
        let sum = sum_squares(s);
        if r >= t {
            assert(t * t * n <= r * r * n) by (nonlinear_arith)
                requires
                    0 < t <= r,
                    n > 0,
            ;
        } else {
            assert((r + 1) * (r + 1) * n <= t * t * n) by (nonlinear_arith)
                requires
                    0 <= r,
                    r + 1 <= t,
                    n > 0,
            ;
        }
    }
}

/// Integer part of the root-mean-square amplitude of a block of samples;
/// zero for an empty block.
pub fn compute_rms(samples: &[i16]) -> (r: u32)
    ensures
        is_floor_rms(samples@, r as int),
        r >= 0,
        samples@.len() == 0 ==> r == 0,
{
    let n = samples.len();
    if n == 0 {
        return 0;
    }
    let mut sum: u128 = 0;
    let mut i: usize = 0;
    while i < n
        invariant
            n == samples@.len(),
            i <= n,
            sum as int == sum_squares(samples@.subrange(0, i as int)),
            sum <= max_square() * i,
        decreases n - i,
    {
        let x = samples[i] as i64;
        proof {
            assert(0 <= x * x) by (nonlinear_arith);
            let s = samples@.subrange(0, i as int + 1);
            assert(s.drop_last() =~= samples@.subrange(0, i as int));
            assert(x * x <= max_square()) by (nonlinear_arith)
                requires
                    -32768 <= x <= 32767,
            ;
            assert(max_square() * i + max_square() == max_square() * (i + 1)) by (nonlinear_arith);
            assert(max_square() * i <= max_square() * 0x1_0000_0000_0000_0000) by (nonlinear_arith)
                requires
                    i < 0x1_0000_0000_0000_0000,
            ;
        }
        let sq = (x * x) as u128;
        sum = sum + sq;
        i = i + 1;
    }
    assert(samples@.subrange(0, n as int) =~= samples@);
    let nn = n as u128;
    let mut lo: u128 = 0;
    let mut hi: u128 = 32769;
    proof {
        lemma_sum_squares_bounds(samples@);
        assert(max_square() * n < 32769 * 32769 * n) by (nonlinear_arith)
            requires
                n > 0,
        ;
    }
    while lo + 1 < hi
        invariant
            nn == n == samples@.len(),
            n > 0,
            sum as int == sum_squares(samples@),
            lo < hi <= 32769,
            lo * lo * n <= sum,
            sum < hi * hi * n,
        decreases hi - lo,
    {
        let mid = lo + (hi - lo) / 2;
        assert(mid * mid <= 32769 * 32769) by (nonlinear_arith)
            requires
                mid <= 32769,
        ;
        assert(mid * mid * n <= 32769 * 32769 * n) by (nonlinear_arith)
            requires
                mid * mid <= 32769 * 32769,
                n > 0,
        ;
        assert(32769 * 32769 * n <= 32769 * 32769 * 0x1_0000_0000_0000_0000) by (nonlinear_arith)
            requires
                n < 0x1_0000_0000_0000_0000,
        ;
        let sq_mid = mid * mid;
        assert(sq_mid * n <= 32769 * 32769 * 0x1_0000_0000_0000_0000);
        if sq_mid * nn <= sum {
            lo = mid;
        } else {
            hi = mid;
        }
    }
    assert(hi == lo + 1);
    lo as u32
}

} // verus!
