use vstd::arithmetic::mul::{lemma_mul_inequality, lemma_mul_strict_inequality};
use vstd::arithmetic::power2::{
    lemma2_to64, lemma2_to64_rest, lemma_pow2_adds, lemma_pow2_pos, lemma_pow2_strictly_increases,
    lemma_pow2_unfold, pow2,
};
use vstd::prelude::*;

verus! {

/// Mantissa of the refinement cutoff. The cutoff is the single-precision
/// value nearest to one hundredth: `CUTOFF_MANTISSA / 2^CUTOFF_SHIFT`.
pub const CUTOFF_MANTISSA: u32 = 10737418;

/// Binary exponent (negated) of the refinement cutoff.
pub const CUTOFF_SHIFT: u32 = 30;

/// Bound on a mantissa: single precision holds 24 significant bits.
pub const MANTISSA_LIMIT: u32 = 16777216;

/// Largest shift of a positive single-precision value (the least subnormal).
pub const MAX_SHIFT: u32 = 149;

/// A positive march step length `mantissa / 2^shift`, held exactly as a
/// single-precision float holds it. Halving a step only raises the shift.
#[derive(Clone, Copy, Debug, PartialEq, Eq, Structural)]
pub struct StepSize {
    pub mantissa: u32,
    pub shift: u32,
}

/// Raw exponent field of an `f32` bit pattern whose sign bit is clear.
pub open spec fn exponent_field(bits: u32) -> nat {
    (bits / 8388608) as nat
}

/// Fraction field of an `f32` bit pattern.
pub open spec fn fraction_field(bits: u32) -> nat {
    (bits % 8388608) as nat
}

/// Bit pattern of the `f32` value one.
pub open spec fn one_bits() -> u32 {
    0x3F80_0000
}

/// The exact step that the bit pattern of a positive finite `f32` stands for.
pub open spec fn decoded(bits: u32) -> StepSize {
    if exponent_field(bits) == 0 {
        StepSize { mantissa: fraction_field(bits) as u32, shift: MAX_SHIFT }
    } else {
        StepSize {
            mantissa: (fraction_field(bits) + 8388608) as u32,
            shift: (150 - exponent_field(bits)) as u32,
        }
    }
}

/// `pow2(e)` as a machine integer.
fn pow2_u128(e: u32) -> (r: u128)
    requires
        e <= 64,
    ensures
        r == pow2(e as nat),
{
    let mut r: u128 = 1;
    let mut i: u32 = 0;
    proof {
        lemma2_to64();
    }
    while i < e
        invariant
            i <= e <= 64,
            r == pow2(i as nat),
        decreases e - i,
    {
        proof {
            lemma_pow2_unfold((i + 1) as nat);
            lemma_pow2_strictly_increases(i as nat, 64);
            lemma2_to64();
        }
        r = r * 2;
        i = i + 1;
    }
    r
}

impl StepSize {
    /// A mantissa that single precision can hold, and a shift no float has exceeded
    /// by more than a few halvings.
    pub open spec fn wf(self) -> bool {
        0 < self.mantissa < MANTISSA_LIMIT && self.shift < 4096
    }

    /// The step is at most one unit long.
    pub open spec fn at_most_one(self) -> bool {
        self.mantissa <= pow2(self.shift as nat)
    }

    /// The step is shorter than the refinement cutoff: `m / 2^s < C / 2^30`.
    pub open spec fn is_fine(self) -> bool {
        self.mantissa * pow2(CUTOFF_SHIFT as nat) < CUTOFF_MANTISSA * pow2(self.shift as nat)
    }

    /// The same step at half its length.
    pub open spec fn half(self) -> StepSize {
        StepSize { mantissa: self.mantissa, shift: (self.shift + 1) as u32 }
    }

    /// The step that an `f32` bit pattern stands for, where that value lies in (0, 1];
    /// `None` for every other pattern (zero, negative, above one, infinite, NaN).
    pub fn from_bits(bits: u32) -> (r: Option<StepSize>)
        ensures
            r.is_some() <==> 0 < bits <= one_bits(),
            r.is_some() ==> r.unwrap() == decoded(bits) && r.unwrap().wf()
                && r.unwrap().at_most_one(),
    {
        if bits == 0 || bits > 0x3F80_0000 {
            return None;
        }
        let e: u32 = bits / 8388608;
        let f: u32 = bits % 8388608;
        proof {
            lemma2_to64();
        }
        if e == 0 {
            proof {
                lemma_pow2_strictly_increases(23, 149);
            }
            Some(StepSize { mantissa: f, shift: MAX_SHIFT })
        } else {
            let s = StepSize { mantissa: f + 8388608, shift: 150 - e };
            proof {
                if e == 127 {
                    assert(f == 0);
                } else {
                    assert(s.shift >= 24);
                    if s.shift > 24 {
                        lemma_pow2_strictly_increases(24, s.shift as nat);
                    }
                }
            }
            Some(s)
        }
    }

    /// Whether the step is shorter than the cutoff, below which a crossing
    /// is reported instead of refined.
    pub fn fine(&self) -> (r: bool)
        requires
            self.wf(),
        ensures
            r == self.is_fine(),
    {
        if self.shift >= 54 {
            proof {
                lemma2_to64();
                lemma_pow2_adds(24, 30);
                if self.shift > 54 {
                    lemma_pow2_strictly_increases(54, self.shift as nat);
                }
                lemma_mul_strict_inequality(self.mantissa as int, pow2(24) as int, pow2(30) as int);
                lemma_mul_inequality(1, CUTOFF_MANTISSA as int, pow2(self.shift as nat) as int);
            }
            true
        } else {
            let q = pow2_u128(CUTOFF_SHIFT);
            let p = pow2_u128(self.shift);
            proof {
                lemma2_to64();
                lemma2_to64_rest();
                lemma_mul_inequality(self.mantissa as int, MANTISSA_LIMIT as int, pow2(30) as int);
                if self.shift < 54 {
                    lemma_pow2_strictly_increases(self.shift as nat, 54);
                }
                assert(CUTOFF_MANTISSA * p < 0x40000000000000 * 10737418) by (nonlinear_arith)
                    requires
                        p < 0x40000000000000,
                ;
            }
            let lhs: u128 = self.mantissa as u128 * q;
            let rhs: u128 = CUTOFF_MANTISSA as u128 * p;
            lhs < rhs
        }
    }

    /// The same step at half its length.
    pub fn halved(&self) -> (r: StepSize)
        requires
            self.shift < u32::MAX,
        ensures
            r == self.half(),
    {
        StepSize { mantissa: self.mantissa, shift: self.shift + 1 }
    }
}

/// Seven halvings bring any step of at most one unit under the cutoff:
/// a step `m / 2^s` with `m <= 2^(s-7)` is fine.
pub proof fn lemma_fine_after_seven_halvings(s: StepSize)
    requires
        s.wf(),
        s.shift >= 7,
        s.mantissa <= pow2((s.shift - 7) as nat),
    ensures
        s.is_fine(),
{
    let t = (s.shift - 7) as nat;
    lemma2_to64();
    lemma_pow2_adds(t, 7);
    lemma_pow2_pos(t);
    lemma_mul_inequality(s.mantissa as int, pow2(t) as int, pow2(30) as int);
    assert(pow2(t) * pow2(30) < CUTOFF_MANTISSA * (pow2(t) * pow2(7))) by (nonlinear_arith)
        requires
            pow2(t) > 0,
            pow2(30) == 0x40000000nat,
            pow2(7) == 128nat,
            CUTOFF_MANTISSA == 10737418,
    ;
}

} // verus!
