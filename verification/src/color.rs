//! From a colour channel to the integer that is written: clamping and
//! scaling to eight bits, decided on the binary64 representation.

use crate::scalar::{Scalar, SIGN_BIT};
use vstd::arithmetic::power2::{lemma2_to64_rest, lemma_pow2_strictly_increases, pow2};
use vstd::bits::lemma_u64_shr_is_div;
use vstd::prelude::*;

verus! {

/// Bit pattern of the largest channel value that is written, 0.999.
pub const LIMIT_BITS: u64 = 0x3fef_f7ce_d916_872b;

/// Two to the power 52: the number of fractions per exponent.
pub const FRACTION_SPAN: u64 = 0x10_0000_0000_0000;

/// The exponent of a finite magnitude, biased, with the subnormals counted
/// at exponent one.
pub open spec fn exponent(m: u64) -> nat {
    if m / FRACTION_SPAN == 0 {
        1
    } else {
        (m / FRACTION_SPAN) as nat
    }
}

/// The integer significand of a finite magnitude. The encoded value is
/// `significand(m) * 2^(exponent(m) - 1075)`.
pub open spec fn significand(m: u64) -> nat {
    if m / FRACTION_SPAN == 0 {
        (m % FRACTION_SPAN) as nat
    } else {
        (m % FRACTION_SPAN + FRACTION_SPAN) as nat
    }
}

/// The integer part of 256 times the value that a finite magnitude encodes.
pub open spec fn scaled_floor(m: u64) -> nat {
    if exponent(m) <= 1067 {
        significand(m) / pow2((1067 - exponent(m)) as nat)
    } else {
        significand(m) * pow2((exponent(m) - 1067) as nat)
    }
}

/// The channel confined to the interval from 0 to 0.999. A NaN stays.
pub open spec fn clamped(s: Scalar) -> Scalar {
    if s.lt(Scalar::zero()) {
        Scalar::zero()
    } else if (Scalar { bits: LIMIT_BITS }).lt(s) {
        Scalar { bits: LIMIT_BITS }
    } else {
        s
    }
}

/// The eight-bit value of a gamma-corrected channel: the integer part of
/// 256 times the clamped channel, and 0 for a NaN.
pub open spec fn channel(s: Scalar) -> nat {
    if s.is_nan() {
        0
    } else {
        scaled_floor(clamped(s).magnitude())
    }
}

/// Below the limit the scaling is a shift of the significand, and what it
/// leaves fits in eight bits.
pub proof fn lemma_scaled_floor_is_shift(m: u64)
    requires
        m <= LIMIT_BITS,
    ensures
        exponent(m) <= 1022,
        significand(m) < 0x20_0000_0000_0000,
        1067 - exponent(m) >= 53 ==> scaled_floor(m) == 0,
        1067 - exponent(m) < 53 ==> scaled_floor(m) == (significand(m) as u64) >> ((1067
            - exponent(m)) as u64),
        scaled_floor(m) <= 255,
{
    let sig: u64 = significand(m) as u64;
    let shift: u64 = (1067 - exponent(m)) as u64;
    if shift >= 53 {
        lemma2_to64_rest();
        if shift > 53 {
            lemma_pow2_strictly_increases(53, shift as nat);
        }
        assert(sig as nat / pow2(shift as nat) == 0) by (nonlinear_arith)
            requires
                0 <= sig < pow2(shift as nat),
        ;
    } else {
        lemma_u64_shr_is_div(sig, shift);
        assert(exponent(m) == 1022 ==> sig <= 0x1f_f7ce_d916_872b);
        assert((sig >> shift) < 256) by (bit_vector)
            requires
                45 <= shift < 53,
                sig < 0x20_0000_0000_0000,
                shift == 45 ==> sig <= 0x1f_f7ce_d916_872b,
        ;
    }
}

/// Every channel value fits in eight bits.
pub proof fn lemma_channel_range(s: Scalar)
    ensures
        channel(s) <= 255,
{
    if !s.is_nan() {
        lemma_scaled_floor_is_shift(clamped(s).magnitude());
    }
}

/// A brighter channel is never written darker.
pub proof fn lemma_channel_monotone(a: Scalar, b: Scalar)
    requires
        a.lt(b),
    ensures
        channel(a) <= channel(b),
{
    let ma = clamped(a).magnitude();
    let mb = clamped(b).magnitude();
    assert(ma <= mb <= LIMIT_BITS);
    lemma_scaled_floor_is_shift(ma);
    lemma_scaled_floor_is_shift(mb);
    let sa: u64 = (1067 - exponent(ma)) as u64;
    let sb: u64 = (1067 - exponent(mb)) as u64;
    let sig_a: u64 = significand(ma) as u64;
    let sig_b: u64 = significand(mb) as u64;
    if sa < 53 {
        assert(sb <= sa);
        assert(sa == sb ==> sig_a <= sig_b);
        assert(sb < sa ==> sig_b >= FRACTION_SPAN);
        assert((sig_a >> sa) <= (sig_b >> sb)) by (bit_vector)
            requires
                45 <= sb <= sa < 53,
                sig_a < 0x20_0000_0000_0000,
                sig_b < 0x20_0000_0000_0000,
                sa == sb ==> sig_a <= sig_b,
                sb < sa ==> sig_b >= 0x10_0000_0000_0000,
        ;
    }
}

/// Computes the eight-bit value of a gamma-corrected channel.
pub fn channel_value(s: Scalar) -> (v: u8)
    ensures
        v == channel(s),
{
    if s.nan() {
        return 0;
    }
    let limit = Scalar::from_bits(LIMIT_BITS);
    let c: Scalar = if s.less(Scalar::zero()) {
        Scalar::zero()
    } else if limit.less(s) {
        limit
    } else {
        s
    };
    let m: u64 = if c.bits >= SIGN_BIT {
        c.bits - SIGN_BIT
    } else {
        c.bits
    };
    proof {
        assert(c == clamped(s));
        lemma_scaled_floor_is_shift(m);
    }
    let field: u64 = m / FRACTION_SPAN;
    let fraction: u64 = m % FRACTION_SPAN;
    let e: u64 = if field == 0 {
        1
    } else {
        field
    };
    let sig: u64 = if field == 0 {
        fraction
    } else {
        fraction + FRACTION_SPAN
    };
    let shift: u64 = 1067 - e;
    if shift >= 53 {
        0
    } else {
        (sig >> shift) as u8
    }
}

} // verus!
