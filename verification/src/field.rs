//! The scalar field of the BN254 pairing curve, modelled as four 64-bit
//! little-endian limbs kept reduced below the modulus. The proof relation is
//! stated over these values; conversion to the curve library's own element
//! type is a limb-for-limb copy done by the callers that hold such elements.

use vstd::prelude::*;

verus! {

use vstd::arithmetic::div_mod::{lemma_small_mod, lemma_mod_multiples_vanish};

/// The prime order of the BN254 scalar field.
pub open spec fn fr_modulus() -> int {
    0x30644e72e131a029b85045b68181585d2833e84879b9709143e1f593f0000001int
}

/// The little-endian limbs of the modulus.
pub const FR_MODULUS_LIMB_0: u64 = 0x43e1f593f0000001;

pub const FR_MODULUS_LIMB_1: u64 = 0x2833e84879b97091;

pub const FR_MODULUS_LIMB_2: u64 = 0xb85045b68181585d;

pub const FR_MODULUS_LIMB_3: u64 = 0x30644e72e131a029;

/// The integer held by four 64-bit little-endian limbs.
pub open spec fn limbs_value(l0: u64, l1: u64, l2: u64, l3: u64) -> int {
    l0 + l1 * 0x10000000000000000int + l2 * 0x100000000000000000000000000000000int + l3
        * 0x1000000000000000000000000000000000000000000000000int
}

/// An element of the BN254 scalar field: a non-negative integer strictly
/// below the field's prime order.
pub struct FieldElement {
    l0: u64,
    l1: u64,
    l2: u64,
    l3: u64,
}

impl FieldElement {
    /// The integer this element stands for.
    pub closed spec fn value(&self) -> int {
        limbs_value(self.l0, self.l1, self.l2, self.l3)
    }

    #[verifier::type_invariant]
    spec fn reduced(&self) -> bool {
        0 <= self.value() < fr_modulus()
    }

    /// The additive identity.
    pub fn zero() -> (r: FieldElement)
        ensures
            r.value() == 0,
    {
        FieldElement { l0: 0, l1: 0, l2: 0, l3: 0 }
    }

    /// The element of a small integer.
    pub fn from_u64(x: u64) -> (r: FieldElement)
        ensures
            r.value() == x,
    {
        proof {
            lemma_limbs_cmp(
                x,
                0,
                0,
                0,
                FR_MODULUS_LIMB_0,
                FR_MODULUS_LIMB_1,
                FR_MODULUS_LIMB_2,
                FR_MODULUS_LIMB_3,
            );
            lemma_modulus_limbs();
        }
        FieldElement { l0: x, l1: 0, l2: 0, l3: 0 }
    }

    /// Builds an element from little-endian limbs; a value at or above the
    /// modulus is rejected.
    pub fn from_limbs(l0: u64, l1: u64, l2: u64, l3: u64) -> (r: Option<FieldElement>)
        ensures
            match r {
                Some(fe) => fe.value() == limbs_value(l0, l1, l2, l3) && limbs_value(l0, l1, l2, l3)
                    < fr_modulus(),
                None => limbs_value(l0, l1, l2, l3) >= fr_modulus(),
            },
    {
        proof {
            lemma_modulus_limbs();
            lemma_limbs_cmp(
                l0,
                l1,
                l2,
                l3,
                FR_MODULUS_LIMB_0,
                FR_MODULUS_LIMB_1,
                FR_MODULUS_LIMB_2,
                FR_MODULUS_LIMB_3,
            );
            lemma_limbs_value_bounds(l0, l1, l2, l3);
        }
        let below = if l3 != FR_MODULUS_LIMB_3 {
            l3 < FR_MODULUS_LIMB_3
        } else if l2 != FR_MODULUS_LIMB_2 {
            l2 < FR_MODULUS_LIMB_2
        } else if l1 != FR_MODULUS_LIMB_1 {
            l1 < FR_MODULUS_LIMB_1
        } else {
            l0 < FR_MODULUS_LIMB_0
        };
        if below {
            Some(FieldElement { l0, l1, l2, l3 })
        } else {
            None
        }
    }

    /// The little-endian limbs of this element.
    pub fn limbs(&self) -> (r: (u64, u64, u64, u64))
        ensures
            limbs_value(r.0, r.1, r.2, r.3) == self.value(),
            limbs_value(r.0, r.1, r.2, r.3) < fr_modulus(),
    {
        proof {
            use_type_invariant(&*self);
        }
        (self.l0, self.l1, self.l2, self.l3)
    }

    /// Whether two elements are the same field value.
    pub fn equals(&self, other: &FieldElement) -> (r: bool)
        ensures
            r == (self.value() == other.value()),
    {
        proof {
            lemma_limbs_cmp(
                self.l0,
                self.l1,
                self.l2,
                self.l3,
                other.l0,
                other.l1,
                other.l2,
                other.l3,
            );
            lemma_limbs_cmp(
                other.l0,
                other.l1,
                other.l2,
                other.l3,
                self.l0,
                self.l1,
                self.l2,
                self.l3,
            );
        }
        self.l0 == other.l0 && self.l1 == other.l1 && self.l2 == other.l2 && self.l3 == other.l3
    }

    /// Field addition: the sum of the two values, reduced modulo the prime.
    pub fn add(&self, other: &FieldElement) -> (r: FieldElement)
        ensures
            r.value() == (self.value() + other.value()) % fr_modulus(),
    {
        proof {
            use_type_invariant(&*self);
            use_type_invariant(&*other);
        }
        let t0: u128 = self.l0 as u128 + other.l0 as u128;
        let s0: u64 = (t0 & 0xffff_ffff_ffff_ffff) as u64;
        let c0: u64 = (t0 >> 64) as u64;
        proof {
            lemma_split_u128(t0);
        }
        let t1: u128 = self.l1 as u128 + other.l1 as u128 + c0 as u128;
        let s1: u64 = (t1 & 0xffff_ffff_ffff_ffff) as u64;
        let c1: u64 = (t1 >> 64) as u64;
        proof {
            lemma_split_u128(t1);
        }
        let t2: u128 = self.l2 as u128 + other.l2 as u128 + c1 as u128;
        let s2: u64 = (t2 & 0xffff_ffff_ffff_ffff) as u64;
        let c2: u64 = (t2 >> 64) as u64;
        proof {
            lemma_split_u128(t2);
        }
        let t3: u128 = self.l3 as u128 + other.l3 as u128 + c2 as u128;
        let s3: u64 = (t3 & 0xffff_ffff_ffff_ffff) as u64;
        let c3: u64 = (t3 >> 64) as u64;
        proof {
            lemma_split_u128(t3);
            lemma_limbs_value_bounds(s0, s1, s2, s3);
            lemma_modulus_limbs();
            assert(limbs_value(s0, s1, s2, s3) + c3
                * 0x10000000000000000000000000000000000000000000000000000000000000000int
                == self.value() + other.value());
            assert(c3 == 0);
            lemma_limbs_cmp(
                s0,
                s1,
                s2,
                s3,
                FR_MODULUS_LIMB_0,
                FR_MODULUS_LIMB_1,
                FR_MODULUS_LIMB_2,
                FR_MODULUS_LIMB_3,
            );
        }
        let below = if s3 != FR_MODULUS_LIMB_3 {
            s3 < FR_MODULUS_LIMB_3
        } else if s2 != FR_MODULUS_LIMB_2 {
            s2 < FR_MODULUS_LIMB_2
        } else if s1 != FR_MODULUS_LIMB_1 {
            s1 < FR_MODULUS_LIMB_1
        } else {
            s0 < FR_MODULUS_LIMB_0
        };
        if below {
            proof {
                lemma_small_mod((self.value() + other.value()) as nat, fr_modulus() as nat);
            }
            FieldElement { l0: s0, l1: s1, l2: s2, l3: s3 }
        } else {
            // subtract the modulus once: the sum of two reduced values is
            // below twice the modulus
            let u0: u128 = 0x1_0000_0000_0000_0000u128 + s0 as u128 - FR_MODULUS_LIMB_0 as u128;
            proof {
                lemma_split_u128(u0);
                assert(u0 >> 64 <= 1) by (bit_vector)
                    requires
                        u0 < 0x2_0000_0000_0000_0000u128,
                ;
            }
            let r0: u64 = (u0 & 0xffff_ffff_ffff_ffff) as u64;
            let b0: u64 = 1 - (u0 >> 64) as u64;
            let u1: u128 = 0x1_0000_0000_0000_0000u128 + s1 as u128 - FR_MODULUS_LIMB_1 as u128
                - b0 as u128;
            proof {
                lemma_split_u128(u1);
                assert(u1 >> 64 <= 1) by (bit_vector)
                    requires
                        u1 < 0x2_0000_0000_0000_0000u128,
                ;
            }
            let r1: u64 = (u1 & 0xffff_ffff_ffff_ffff) as u64;
            let b1: u64 = 1 - (u1 >> 64) as u64;
            let u2: u128 = 0x1_0000_0000_0000_0000u128 + s2 as u128 - FR_MODULUS_LIMB_2 as u128
                - b1 as u128;
            proof {
                lemma_split_u128(u2);
                assert(u2 >> 64 <= 1) by (bit_vector)
                    requires
                        u2 < 0x2_0000_0000_0000_0000u128,
                ;
            }
            let r2: u64 = (u2 & 0xffff_ffff_ffff_ffff) as u64;
            let b2: u64 = 1 - (u2 >> 64) as u64;
            let u3: u128 = 0x1_0000_0000_0000_0000u128 + s3 as u128 - FR_MODULUS_LIMB_3 as u128
                - b2 as u128;
            proof {
                lemma_split_u128(u3);
                assert(u3 >> 64 <= 1) by (bit_vector)
                    requires
                        u3 < 0x2_0000_0000_0000_0000u128,
                ;
            }
            let r3: u64 = (u3 & 0xffff_ffff_ffff_ffff) as u64;
            let b3: u64 = 1 - (u3 >> 64) as u64;
            proof {
                lemma_limbs_value_bounds(r0, r1, r2, r3);
                assert(limbs_value(r0, r1, r2, r3) - b3
                    * 0x10000000000000000000000000000000000000000000000000000000000000000int
                    == limbs_value(s0, s1, s2, s3) - fr_modulus());
                assert(b3 == 0);
                assert(limbs_value(r0, r1, r2, r3) == self.value() + other.value() - fr_modulus());
                lemma_mod_multiples_vanish(
                    1,
                    self.value() + other.value() - fr_modulus(),
                    fr_modulus(),
                );
                lemma_small_mod(
                    (self.value() + other.value() - fr_modulus()) as nat,
                    fr_modulus() as nat,
                );
            }
            FieldElement { l0: r0, l1: r1, l2: r2, l3: r3 }
        }
    }
}

/// The modulus is the value of its published limbs.
proof fn lemma_modulus_limbs()
    ensures
        limbs_value(
            FR_MODULUS_LIMB_0,
            FR_MODULUS_LIMB_1,
            FR_MODULUS_LIMB_2,
            FR_MODULUS_LIMB_3,
        ) == fr_modulus(),
{
}

/// Any four limbs hold a value below 2^256, and the low three alone stay
/// below the weight of the top limb.
proof fn lemma_limbs_value_bounds(l0: u64, l1: u64, l2: u64, l3: u64)
    ensures
        0 <= limbs_value(l0, l1, l2, l3),
        limbs_value(l0, l1, l2, l3)
            < 0x10000000000000000000000000000000000000000000000000000000000000000int,
        l0 + l1 * 0x10000000000000000int + l2 * 0x100000000000000000000000000000000
            < 0x1000000000000000000000000000000000000000000000000int,
{
}

/// A 128-bit value splits into its low 64 bits and its high 64 bits.
proof fn lemma_split_u128(t: u128)
    ensures
        t == (t & 0xffff_ffff_ffff_ffff) + (t >> 64) * 0x1_0000_0000_0000_0000,
        (t & 0xffff_ffff_ffff_ffff) <= 0xffff_ffff_ffff_ffffu128,
        (t >> 64) <= 0xffff_ffff_ffff_ffffu128,
{
    assert(t == (t & 0xffff_ffff_ffff_ffff) + (t >> 64) * 0x1_0000_0000_0000_0000
        && (t & 0xffff_ffff_ffff_ffff) <= 0xffff_ffff_ffff_ffffu128 && (t >> 64)
        <= 0xffff_ffff_ffff_ffffu128) by (bit_vector);
}

/// Comparing limb values is comparing limbs from the most significant down.
proof fn lemma_limbs_cmp(
    a0: u64,
    a1: u64,
    a2: u64,
    a3: u64,
    b0: u64,
    b1: u64,
    b2: u64,
    b3: u64,
)
    ensures
        (limbs_value(a0, a1, a2, a3) >= limbs_value(b0, b1, b2, b3)) <==> ((a3 > b3) || (a3 == b3
            && a2 > b2) || (a3 == b3 && a2 == b2 && a1 > b1) || (a3 == b3 && a2 == b2 && a1 == b1
            && a0 >= b0)),
{
    lemma_limbs_value_bounds(a0, a1, a2, a3);
    lemma_limbs_value_bounds(b0, b1, b2, b3);
    if a3 > b3 {
        assert(a3 * 0x1000000000000000000000000000000000000000000000000 >= (b3 + 1)
            * 0x1000000000000000000000000000000000000000000000000int) by (nonlinear_arith)
            requires
                a3 >= b3 + 1,
        ;
    } else if a3 < b3 {
        assert(b3 * 0x1000000000000000000000000000000000000000000000000 >= (a3 + 1)
            * 0x1000000000000000000000000000000000000000000000000int) by (nonlinear_arith)
            requires
                b3 >= a3 + 1,
        ;
    } else if a2 > b2 {
        assert(a2 * 0x100000000000000000000000000000000 >= (b2 + 1)
            * 0x100000000000000000000000000000000int) by (nonlinear_arith)
            requires
                a2 >= b2 + 1,
        ;
    } else if a2 < b2 {
        assert(b2 * 0x100000000000000000000000000000000 >= (a2 + 1)
            * 0x100000000000000000000000000000000int) by (nonlinear_arith)
            requires
                b2 >= a2 + 1,
        ;
    } else if a1 > b1 {
        assert(a1 * 0x10000000000000000int >= (b1 + 1) * 0x10000000000000000int) by (nonlinear_arith)
            requires
                a1 >= b1 + 1,
        ;
    } else if a1 < b1 {
        assert(b1 * 0x10000000000000000int >= (a1 + 1) * 0x10000000000000000int) by (nonlinear_arith)
            requires
                b1 >= a1 + 1,
        ;
    }
}

} // verus!
