//! Latency calibration arithmetic.

use vstd::prelude::*;

verus! {

/// Microseconds that `lag_samples` samples last at `sample_rate`,
/// rounded down; 0 for a zero sample rate.
pub open spec fn lag_micros_spec(lag_samples: nat, sample_rate: nat) -> nat {
    if sample_rate == 0 {
        0
    } else {
        lag_samples * 1_000_000 / sample_rate
    }
}

/// A lag converts to the whole microseconds it lasts at the sample rate:
/// `r` microseconds hold at most the lag's samples, and one more
/// microsecond would hold more.
pub proof fn law_lag_micros_is_floor(lag_samples: nat, sample_rate: nat)
    ensures
        sample_rate > 0 ==> lag_micros_spec(lag_samples, sample_rate) * sample_rate <= lag_samples * 1_000_000
            < (lag_micros_spec(lag_samples, sample_rate) + 1) * sample_rate,
        sample_rate == 0 ==> lag_micros_spec(lag_samples, sample_rate) == 0,
{
    if sample_rate > 0 {
        let x = lag_samples * 1_000_000;
        let q = x / sample_rate;
        vstd::arithmetic::div_mod::lemma_fundamental_div_mod(x as int, sample_rate as int);
        vstd::arithmetic::div_mod::lemma_mod_pos_bound(x as int, sample_rate as int);
        assert(q * sample_rate <= x < (q + 1) * sample_rate) by (nonlinear_arith)
            requires
                x == sample_rate * q + x % sample_rate,
                0 <= x % sample_rate < sample_rate;
    }
}

/// Converts a correlation lag in samples to microseconds.
pub fn lag_to_micros(lag_samples: usize, sample_rate: u32) -> (r: u64)
    requires
        lag_samples * 1_000_000 <= u64::MAX,
    ensures
        r == lag_micros_spec(lag_samples as nat, sample_rate as nat),
        sample_rate > 0 ==> r * sample_rate <= lag_samples * 1_000_000 < (r + 1) * sample_rate,
        sample_rate == 0 ==> r == 0,
{
    proof {
        law_lag_micros_is_floor(lag_samples as nat, sample_rate as nat);
    }
    if sample_rate == 0 {
        return 0;
    }
    (lag_samples as u64 * 1_000_000) / sample_rate as u64
}

} // verus!
