use crate::ct::{ct_assign_u64, ct_eq_u64};
use crate::traits::FieldExt;
use vstd::arithmetic::div_mod::*;
use vstd::arithmetic::power::*;
use vstd::arithmetic::power2::*;
use vstd::prelude::*;

verus! {

/// The prime modulus `p = 2^64 - 2^32 + 1`.
pub const P: u64 = 18446744069414584321;

/// The modulus as a decimal string.
pub const MODULUS: &'static str = "18446744069414584321";

/// `(T - 1) / 2`, where `p - 1 = 2^S * T` with `T` odd; here `S = 32` and
/// `T = 2^32 - 1`.
pub const T_MINUS1_OVER2: [u64; 4] = [2147483647, 0, 0, 0];

/// `S`, the two-adicity of `p - 1`.
pub const S: u64 = 32;

/// `T`, the odd part of `p - 1`.
pub const T: u64 = 4294967295;

/// A primitive `2^S`-th root of unity: `7^T`.
pub const ROOT_OF_UNITY_VALUE: u64 = 1753635133440165772;

/// The inverse of the root of unity.
pub const ROOT_OF_UNITY_INV_VALUE: u64 = 8554224884056360729;

/// A generator of the multiplicative subgroup of order `T`: `7^(2^S)`.
pub const DELTA_VALUE: u64 = 12275445934081160404;

/// The inverse of 2.
pub const TWO_INV_VALUE: u64 = 9223372034707292161;

/// An element of multiplicative order 3: `7^((p - 1) / 3)`.
pub const ZETA_VALUE: u64 = 18446744065119617025;

/// `p` as a mathematical integer.
pub open spec fn modulus() -> int {
    P as int
}

/// Canonical residue of an integer.
pub open spec fn residue(x: int) -> int {
    x % modulus()
}

/// The integer written by four little-endian 64-bit limbs, from limb `j` upwards.
pub open spec fn limbs_from(by: Seq<u64>, j: int) -> nat
    decreases by.len() - j,
{
    if j < 0 || j >= by.len() {
        0
    } else {
        by[j] as nat + pow2(64) * limbs_from(by, j + 1)
    }
}

/// The integer written by little-endian 64-bit limbs.
pub open spec fn limbs_value(by: Seq<u64>) -> nat {
    limbs_from(by, 0)
}

/// The integer written by little-endian bytes.
pub open spec fn le_bytes_value(b: Seq<u8>) -> nat
    decreases b.len(),
{
    if b.len() == 0 {
        0
    } else {
        b[0] as nat + 256 * le_bytes_value(b.drop_first())
    }
}

/// An element of the prime field of order `p`, held as its canonical
/// representative in `[0, p)`.
#[derive(Clone, Copy, Debug, PartialEq, Eq, Structural, PartialOrd, Ord, Hash)]
pub struct Fp {
    v: u64,
}

/// `(a^e1 mod m) * (a^e2 mod m) = a^(e1 + e2) (mod m)`.
pub proof fn lemma_pow_mod_mul(a: int, e1: nat, e2: nat, m: int)
    requires
        m > 0,
    ensures
        ((pow(a, e1) % m) * (pow(a, e2) % m)) % m == pow(a, e1 + e2) % m,
{
    lemma_pow_adds(a, e1, e2);
    lemma_mul_mod_noop_general(pow(a, e1), pow(a, e2), m);
}

proof fn lemma_bit_step(e: u64, b: u64)
    requires
        b < 64,
    ensures
        (e >> b) == 2 * (e >> ((b + 1) as u64)) + ((e >> b) & 1),
        (e >> b) & 1 <= 1,
{
    assert((e >> b) == 2 * (e >> ((b + 1) as u64)) + ((e >> b) & 1) && (e >> b) & 1 <= 1)
        by (bit_vector)
        requires
            b < 64,
    ;
}

/// The exponent read so far: the limbs above worth `top`, then the bits of
/// limb `e` from bit 63 down to bit `i`.
pub open spec fn exponent_prefix(top: nat, e: u64, i: u64) -> nat {
    top * pow2((64 - i) as nat) + if i >= 64 {
        0
    } else {
        (e >> i) as nat
    }
}

/// Before any limb is read, the result is `a^0 = 1`.
pub proof fn lemma_pow_start(a: int, by: Seq<u64>, m: int)
    requires
        by.len() == 4,
        m > 1,
    ensures
        limbs_from(by, 4) == 0,
        pow(a, limbs_from(by, 4)) % m == 1,
{
    lemma_pow0(a);
    lemma_small_mod(1, m as nat);
}

/// Before a limb's bits are read, the prefix is the limbs above it.
pub proof fn lemma_prefix_start(top: nat, e: u64)
    ensures
        exponent_prefix(top, e, 64) == top,
{
    lemma2_to64();
    assert(top * pow2(0) == top);
}

/// After all 64 bits of limb `j - 1`, the prefix is the limbs from `j - 1` up.
pub proof fn lemma_prefix_end(by: Seq<u64>, j: int, top: nat, e: u64)
    requires
        0 < j <= 4,
        by.len() == 4,
        e == by[j - 1],
        top == limbs_from(by, j),
    ensures
        exponent_prefix(top, e, 0) == limbs_from(by, j - 1),
{
    lemma2_to64();
    lemma_pow0(2);
    assert(pow2(64) == 0x1_0000_0000_0000_0000) by {
        lemma2_to64_rest();
    }
    assert(e >> 0u64 == e) by (bit_vector);
    assert(limbs_from(by, j - 1) == e as nat + pow2(64) * top);
    assert(top * pow2(64) + (e >> 0u64) as nat == limbs_from(by, j - 1));
}

/// One bit of square-and-multiply: squaring doubles the exponent, a product
/// with `a` adds one, and the next prefix is twice this one plus the bit.
pub proof fn lemma_pow_bit_step(a: int, top: nat, e: u64, i: u64, m: int)
    requires
        0 < i <= 64,
        0 <= a < m,
    ensures
        (e >> ((i - 1) as u64)) & 1 <= 1,
        exponent_prefix(top, e, (i - 1) as u64) == 2 * exponent_prefix(top, e, i) + ((e >> ((i
            - 1) as u64)) & 1) as nat,
        ((pow(a, exponent_prefix(top, e, i)) % m) * (pow(a, exponent_prefix(top, e, i)) % m)) % m
            == pow(a, 2 * exponent_prefix(top, e, i)) % m,
        ((pow(a, 2 * exponent_prefix(top, e, i)) % m) * a) % m == pow(
            a,
            2 * exponent_prefix(top, e, i) + 1,
        ) % m,
{
    let before = exponent_prefix(top, e, i);
    lemma_bit_step(e, (i - 1) as u64);
    if i == 64 {
        assert(e >> 64u64 == 0) by (bit_vector);
    }
    lemma_pow_mod_mul(a, before, before, m);
    lemma_pow1(a);
    lemma_pow_mod_mul(a, before + before, 1, m);
    lemma_small_mod(a as nat, m as nat);
    lemma_pow2_unfold((64 - (i - 1)) as nat);
    assert(top * pow2((64 - (i - 1)) as nat) == 2 * (top * pow2((64 - i) as nat)))
        by (nonlinear_arith)
        requires
            pow2((64 - (i - 1)) as nat) == 2 * pow2((64 - i) as nat),
    ;
}

impl Fp {
    /// The canonical integer representative.
    pub closed spec fn value(self) -> int {
        self.v as int
    }

    /// The representative is canonical.
    pub closed spec fn wf(self) -> bool {
        self.v < P
    }

    /// The element for a bit: 0 or 1.
    pub closed spec fn of_bool(b: bool) -> Fp {
        Fp { v: if b { 1 } else { 0 } }
    }

    /// A bit's element is well formed, with value 0 or 1.
    pub proof fn lemma_of_bool(b: bool)
        ensures
            Fp::of_bool(b).wf(),
            Fp::of_bool(b).value() == if b { 1int } else { 0int },
    {
    }

    /// A well-formed element's value is its residue in `[0, p)`.
    pub proof fn lemma_range(self)
        ensures
            0 <= self.value(),
            self.wf() <==> self.value() < modulus(),
    {
    }

    /// Elements with one representative are one element.
    pub proof fn lemma_equal(self, other: Fp)
        ensures
            self.value() == other.value() ==> self == other,
    {
    }

    pub fn zero() -> (r: Fp)
        ensures
            r.wf(),
            r.value() == 0,
    {
        Fp { v: 0 }
    }

    pub fn one() -> (r: Fp)
        ensures
            r.wf(),
            r.value() == 1,
    {
        Fp { v: 1 }
    }

    pub fn root_of_unity() -> (r: Fp)
        ensures
            r.wf(),
            r.value() == ROOT_OF_UNITY_VALUE,
    {
        Fp { v: ROOT_OF_UNITY_VALUE }
    }

    pub fn root_of_unity_inv() -> (r: Fp)
        ensures
            r.wf(),
            r.value() == ROOT_OF_UNITY_INV_VALUE,
    {
        Fp { v: ROOT_OF_UNITY_INV_VALUE }
    }

    pub fn delta() -> (r: Fp)
        ensures
            r.wf(),
            r.value() == DELTA_VALUE,
    {
        Fp { v: DELTA_VALUE }
    }

    pub fn two_inv() -> (r: Fp)
        ensures
            r.wf(),
            r.value() == TWO_INV_VALUE,
    {
        Fp { v: TWO_INV_VALUE }
    }

    pub fn zeta() -> (r: Fp)
        ensures
            r.wf(),
            r.value() == ZETA_VALUE,
    {
        Fp { v: ZETA_VALUE }
    }

    /// The element congruent to `v`.
    pub fn from_u64(v: u64) -> (r: Fp)
        ensures
            r.wf(),
            r.value() == residue(v as int),
    {
        Fp { v: v % P }
    }

    /// The element congruent to `v`.
    pub fn from_u128(v: u128) -> (r: Fp)
        ensures
            r.wf(),
            r.value() == residue(v as int),
    {
        Fp { v: (v % (P as u128)) as u64 }
    }

    /// The element congruent to the little-endian integer of 64 bytes.
    pub fn from_bytes_wide(bytes: &[u8; 64]) -> (r: Fp)
        ensures
            r.wf(),
            r.value() == residue(le_bytes_value(bytes@) as int),
    {
        let mut acc: u64 = 0;
        let mut i: usize = 64;
        assert(bytes@.subrange(64, 64) =~= Seq::<u8>::empty());
        assert(le_bytes_value(bytes@.subrange(64, 64)) == 0);
        while i > 0
            invariant
                i <= 64,
                bytes@.len() == 64,
                acc < P,
                acc as int == residue(le_bytes_value(bytes@.subrange(i as int, 64)) as int),
            decreases i,
        {
            let b = bytes[i - 1];
            let t: u128 = (acc as u128) * 256 + (b as u128);
            let next = (t % (P as u128)) as u64;
            proof {
                let tail = bytes@.subrange(i as int, 64);
                let longer = bytes@.subrange(i - 1, 64);
                assert(longer.drop_first() =~= tail);
                assert(longer[0] == b);
                let l = le_bytes_value(tail) as int;
                lemma_mul_mod_noop_left(l, 256, modulus());
                lemma_add_mod_noop(l * 256, b as int, modulus());
                lemma_add_mod_noop((l % modulus()) * 256, b as int, modulus());
                lemma_mod_twice((l % modulus()) * 256, modulus());
                assert(le_bytes_value(longer) == b as nat + 256 * le_bytes_value(tail));
            }
            acc = next;
            i = i - 1;
        }
        assert(bytes@.subrange(0, 64) =~= bytes@);
        Fp { v: acc }
    }

    /// The lowest 128 bits of the canonical representative, which is below
    /// `2^64` and so is returned whole.
    pub fn get_lower_128(&self) -> (r: u128)
        requires
            self.wf(),
        ensures
            r as int == self.value(),
    {
        self.v as u128
    }

    /// The lowest 32 bits of the canonical representative.
    pub fn get_lower_32(&self) -> (r: u32)
        requires
            self.wf(),
        ensures
            r as int == self.value() % 0x1_0000_0000,
    {
        (self.v % 0x1_0000_0000) as u32
    }

    pub fn add(&self, rhs: &Fp) -> (r: Fp)
        requires
            self.wf(),
            rhs.wf(),
        ensures
            r.wf(),
            r.value() == residue(self.value() + rhs.value()),
    {
        let s: u128 = (self.v as u128) + (rhs.v as u128);
        Fp { v: (s % (P as u128)) as u64 }
    }

    pub fn sub(&self, rhs: &Fp) -> (r: Fp)
        requires
            self.wf(),
            rhs.wf(),
        ensures
            r.wf(),
            r.value() == residue(self.value() - rhs.value()),
    {
        let s: u128 = (self.v as u128) + (P as u128) - (rhs.v as u128);
        proof {
            lemma_mod_add_multiples_vanish(self.value() - rhs.value(), modulus());
        }
        Fp { v: (s % (P as u128)) as u64 }
    }

    pub fn neg(&self) -> (r: Fp)
        requires
            self.wf(),
        ensures
            r.wf(),
            r.value() == residue(-self.value()),
    {
        let z = Fp::zero();
        z.sub(self)
    }

    pub fn mul(&self, rhs: &Fp) -> (r: Fp)
        requires
            self.wf(),
            rhs.wf(),
        ensures
            r.wf(),
            r.value() == residue(self.value() * rhs.value()),
    {
        let a = self.v as u128;
        let b = rhs.v as u128;
        assert(a * b <= 0xffff_ffff_ffff_ffff * 0xffff_ffff_ffff_ffff) by (nonlinear_arith)
            requires
                a <= 0xffff_ffff_ffff_ffff,
                b <= 0xffff_ffff_ffff_ffff,
        ;
        Fp { v: ((a * b) % (P as u128)) as u64 }
    }

    pub fn square(&self) -> (r: Fp)
        requires
            self.wf(),
        ensures
            r.wf(),
            r.value() == residue(self.value() * self.value()),
    {
        self.mul(self)
    }

    /// Equality decided in constant time.
    pub fn ct_eq(&self, rhs: &Fp) -> (r: bool)
        ensures
            r == (self.value() == rhs.value()),
    {
        ct_eq_u64(self.v, rhs.v)
    }

    pub fn is_zero(&self) -> (r: bool)
        ensures
            r == (self.value() == 0),
    {
        ct_eq_u64(self.v, 0)
    }

    /// Takes `src` when `bit` is 1 and keeps the value when it is 0, without
    /// branching on `bit`.
    pub fn conditional_assign(&mut self, src: &Fp, bit: u8)
        requires
            bit <= 1,
        ensures
            *final(self) == if bit == 1 { *src } else { *old(self) },
    {
        ct_assign_u64(&mut self.v, src.v, bit);
    }

    /// The canonical order: by canonical representative.
    pub fn is_le(&self, rhs: &Fp) -> (r: bool)
        ensures
            r == (self.value() <= rhs.value()),
    {
        self.v <= rhs.v
    }

    /// `self` raised to the little-endian 256-bit exponent `by`, in constant
    /// time: the square-and-select exponentiation of `FieldExt::pow`.
    pub fn pow(&self, by: &[u64; 4]) -> (r: Fp)
        requires
            self.wf(),
        ensures
            r.wf(),
            r.value() == residue(pow(self.value(), limbs_value(by@))),
    {
        <Fp as FieldExt>::pow(self, by)
    }

    /// `self` raised to the little-endian 256-bit exponent `by`, by
    /// square-and-multiply that branches on the exponent's bits.
    pub fn pow_vartime(&self, by: &[u64; 4]) -> (r: Fp)
        requires
            self.wf(),
        ensures
            r.wf(),
            r.value() == residue(pow(self.value(), limbs_value(by@))),
    {
        let ghost a = self.value();
        let mut res = Fp::one();
        let mut j: usize = 4;
        proof {
            lemma_pow_start(a, by@, modulus());
        }
        while j > 0
            invariant
                j <= 4,
                by@.len() == 4,
                self.wf(),
                a == self.value(),
                res.wf(),
                res.value() == residue(pow(a, limbs_from(by@, j as int))),
            decreases j,
        {
            let e = by[j - 1];
            let ghost top = limbs_from(by@, j as int);
            let mut i: u64 = 64;
            proof {
                lemma_prefix_start(top, e);
            }
            while i > 0
                invariant
                    i <= 64,
                    self.wf(),
                    a == self.value(),
                    res.wf(),
                    res.value() == residue(pow(a, exponent_prefix(top, e, i))),
                decreases i,
            {
                proof {
                    self.lemma_range();
                    lemma_pow_bit_step(a, top, e, i, modulus());
                }
                res = res.square();
                if (e >> (i - 1)) & 1 == 1 {
                    res = res.mul(self);
                }
                i = i - 1;
            }
            proof {
                lemma_prefix_end(by@, j as int, top, e);
            }
            j = j - 1;
        }
        res
    }

    /// `self^(p - 2)`, the inverse of a nonzero element and zero for zero.
    /// The exponent is public, so square-and-multiply on its bits leaks
    /// nothing about `self`.
    pub fn invert(&self) -> (r: Fp)
        requires
            self.wf(),
        ensures
            r.wf(),
            r.value() == residue(pow(self.value(), (P - 2) as nat)),
    {
        let by: [u64; 4] = [P - 2, 0, 0, 0];
        proof {
            reveal_with_fuel(limbs_from, 5);
        }
        self.pow_vartime(&by)
    }
}

impl From<bool> for Fp {
    /// `false` maps to 0 and `true` to 1.
    fn from(b: bool) -> (r: Fp) {
        Fp { v: if b { 1 } else { 0 } }
    }
}

impl vstd::std_specs::convert::FromSpecImpl<bool> for Fp {
    open spec fn obeys_from_spec() -> bool {
        true
    }

    open spec fn from_spec(b: bool) -> Fp {
        Fp::of_bool(b)
    }
}

} // verus!
