use crate::field::{
    exponent_prefix, le_bytes_value, lemma_pow_bit_step, lemma_pow_start, lemma_prefix_end,
    lemma_prefix_start, limbs_from, limbs_value, modulus, Fp, ROOT_OF_UNITY_VALUE, S, T,
};
use vstd::arithmetic::div_mod::*;
use vstd::arithmetic::power::*;
use vstd::arithmetic::power2::*;
use vstd::prelude::*;

verus! {

/// The product of a sequence of naturals.
pub open spec fn product(s: Seq<nat>) -> nat
    decreases s.len(),
{
    if s.len() == 0 {
        1
    } else {
        s[0] * product(s.drop_first())
    }
}

/// Square roots in a prime field of odd order: the Tonelli-Shanks exponent,
/// a ratio square root and the low bits of the canonical representative.
pub trait SqrtRatio: Sized {
    /// The field's order `p`.
    spec fn order() -> int;

    /// The canonical integer representative, in `[0, p)` when well formed.
    spec fn repr(&self) -> int;

    spec fn well_formed(&self) -> bool;

    /// `T`, the odd part of `p - 1`.
    spec fn odd_part() -> nat;

    /// The non-square used for non-square ratios: a primitive `2^S`-th root
    /// of unity.
    spec fn non_square() -> int;

    /// `S`, the exponent of 2 in `p - 1`.
    spec fn two_adicity() -> nat;

    /// What `sqrt_ratio` returns for representatives `n` and `d`: the flag,
    /// and the representative of the root.
    spec fn sqrt_ratio_result(n: int, d: int) -> (bool, int);

    /// `p - 1 = 2^S * T` with `T` odd, and `T` is the product of the
    /// increasing factors that `odd_part_primes` lists, each above 1.
    proof fn lemma_odd_part()
        ensures
            product(Self::odd_part_primes()) == Self::odd_part(),
            forall|i: int, j: int|
                0 <= i < j < Self::odd_part_primes().len() ==> 1 < #[trigger] Self::odd_part_primes()[i]
                    < #[trigger] Self::odd_part_primes()[j],
            Self::odd_part_primes().len() == 0 || 1 < Self::odd_part_primes()[0],
            Self::odd_part() % 2 == 1,
            Self::order() - 1 == pow2(Self::two_adicity()) * Self::odd_part(),
    ;

    /// The non-square `g` fails Euler's criterion: `g^((p - 1) / 2) = -1`.
    proof fn lemma_non_square()
        ensures
            pow(Self::non_square(), ((Self::order() - 1) / 2) as nat) % Self::order() == Self::order()
                - 1,
    ;

    /// Well-formed elements with one representative are one element.
    proof fn lemma_repr_injective(&self, other: &Self)
        ensures
            self.well_formed() && other.well_formed() && self.repr() == other.repr() ==> *self
                == *other,
    ;

    /// The order exceeds 1, and a well-formed element's representative lies
    /// in `[0, p)`.
    proof fn lemma_repr_range(&self)
        ensures
            Self::order() > 1,
            self.well_formed() ==> 0 <= self.repr() < Self::order(),
    ;

    /// The multiplicative identity.
    fn one() -> (r: Self)
        ensures
            r.well_formed(),
            r.repr() == 1,
    ;

    /// `self * self`.
    fn square(&self) -> (r: Self)
        requires
            self.well_formed(),
        ensures
            r.well_formed(),
            r.repr() == (self.repr() * self.repr()) % Self::order(),
    ;

    /// `self * rhs`.
    fn mul(&self, rhs: &Self) -> (r: Self)
        requires
            self.well_formed(),
            rhs.well_formed(),
        ensures
            r.well_formed(),
            r.repr() == (self.repr() * rhs.repr()) % Self::order(),
    ;

    /// Takes `src` when `bit` is 1 and keeps the value when it is 0, without
    /// branching on `bit`.
    fn conditional_assign(&mut self, src: &Self, bit: u8)
        requires
            bit <= 1,
        ensures
            *final(self) == if bit == 1 {
                *src
            } else {
                *old(self)
            },
    ;

    /// The distinct primes whose product is `T`.
    spec fn odd_part_primes() -> Seq<nat>;

    /// `(T - 1) / 2` as four little-endian limbs.
    fn t_minus1_over2() -> (r: [u64; 4])
        ensures
            limbs_value(r@) == (Self::odd_part() - 1) / 2,
    ;

    /// `self^((T - 1) / 2)`.
    fn pow_by_t_minus1_over2(&self) -> (r: Self)
        requires
            self.well_formed(),
        ensures
            r.well_formed(),
            r.repr() == pow(self.repr(), ((Self::odd_part() - 1) / 2) as nat) % Self::order(),
    ;

    /// The lowest 32 bits of the canonical representative.
    fn get_lower_32(&self) -> (r: u32)
        requires
            self.well_formed(),
        ensures
            r as int == self.repr() % 0x1_0000_0000,
    ;

    /// `(is_square, r)` for `q = num / div`, the inverse taken as
    /// `div^(p - 2)`; `r` is the canonical root, `r <= p - r`.
    fn sqrt_ratio(num: &Self, div: &Self) -> (r: (bool, Self))
        requires
            num.well_formed(),
            div.well_formed(),
        ensures
            r.1.well_formed(),
            (r.0, r.1.repr()) == Self::sqrt_ratio_result(num.repr(), div.repr()),
            r.1.repr() <= Self::order() - r.1.repr(),
            div.repr() == 0 ==> r.0 == (num.repr() == 0) && r.1.repr() == 0,
            div.repr() != 0 && (num.repr() * (pow(div.repr(), (Self::order() - 2) as nat)
                % Self::order())) % Self::order() == 0 ==> r.0 && r.1.repr() == 0,
            div.repr() != 0 && r.0 ==> (r.1.repr() * r.1.repr()) % Self::order() == (num.repr()
                * (pow(div.repr(), (Self::order() - 2) as nat) % Self::order())) % Self::order(),
            div.repr() != 0 && !r.0 ==> (r.1.repr() * r.1.repr()) % Self::order() == (
            Self::non_square() * ((num.repr() * (pow(div.repr(), (Self::order() - 2) as nat)
                % Self::order())) % Self::order())) % Self::order() || r.1.repr() == 0,
    ;

    /// `sqrt_ratio(self, 1)`: the same flag and root.
    fn sqrt_alt(&self) -> (r: (bool, Self))
        requires
            self.well_formed(),
        ensures
            r.1.well_formed(),
            (r.0, r.1.repr()) == Self::sqrt_ratio_result(self.repr(), 1),
            r.1.repr() <= Self::order() - r.1.repr(),
            self.repr() == 0 ==> r.0 && r.1.repr() == 0,
            r.0 ==> (r.1.repr() * r.1.repr()) % Self::order() == self.repr(),
            !r.0 ==> (r.1.repr() * r.1.repr()) % Self::order() == (Self::non_square()
                * self.repr()) % Self::order() || r.1.repr() == 0,
    ;
}

/// A prime field with the constants and conversions that polynomial
/// commitment and FFT code rely on.
pub trait FieldExt: SqrtRatio + Group<Scalar = Self> + Ord + From<bool> {
    /// As a group over itself, an element's model is its representative.
    proof fn lemma_group_model(&self)
        ensures
            self.log() == self.repr(),
            self.group_wf() == self.well_formed(),
    ;

    /// The inverse of the root of unity `g`: `g * g_inv = 1`.
    fn root_of_unity_inv() -> (r: Self)
        ensures
            r.well_formed(),
            (r.repr() * Self::non_square()) % Self::order() == 1,
    ;

    /// A generator of the multiplicative subgroup of order `T`: `DELTA^T = 1`,
    /// and `DELTA^(T/q) != 1` for each prime `q` that `odd_part_primes` lists.
    fn delta() -> (r: Self)
        ensures
            r.well_formed(),
            pow(r.repr(), Self::odd_part()) % Self::order() == 1,
            forall|i: int|
                0 <= i < Self::odd_part_primes().len() ==> pow(
                    r.repr(),
                    (Self::odd_part() / #[trigger] Self::odd_part_primes()[i]) as nat,
                ) % Self::order() != 1,
    ;

    /// The inverse of 2.
    fn two_inv() -> (r: Self)
        ensures
            r.well_formed(),
            (r.repr() * 2) % Self::order() == 1,
    ;

    /// An element of multiplicative order 3.
    fn zeta() -> (r: Self)
        ensures
            r.well_formed(),
            r.repr() != 1,
            pow(r.repr(), 3) % Self::order() == 1,
    ;

    /// The element congruent to `v`.
    fn from_u128(v: u128) -> (r: Self)
        ensures
            r.well_formed(),
            r.repr() == v as int % Self::order(),
    ;

    /// The element congruent to the little-endian integer of 64 bytes.
    fn from_bytes_wide(bytes: &[u8; 64]) -> (r: Self)
        ensures
            r.well_formed(),
            r.repr() == le_bytes_value(bytes@) as int % Self::order(),
    ;

    /// `self` raised to a little-endian 256-bit exponent, in constant time:
    /// from the top bit down, every bit costs one squaring, one product and
    /// one selection, whatever its value.
    fn pow(&self, by: &[u64; 4]) -> (r: Self)
        requires
            self.well_formed(),
        ensures
            r.well_formed(),
            r.repr() == pow(self.repr(), limbs_value(by@)) % Self::order(),
    {
        let ghost a = self.repr();
        let ghost m = Self::order();
        proof {
            self.lemma_repr_range();
            lemma_pow_start(a, by@, m);
        }
        let mut res = Self::one();
        let mut j: usize = 4;
        while j > 0
            invariant
                j <= 4,
                by@.len() == 4,
                self.well_formed(),
                a == self.repr(),
                m == Self::order(),
                0 <= a < m,
                res.well_formed(),
                res.repr() == pow(a, limbs_from(by@, j as int)) % m,
            decreases j,
        {
            let e = by[j - 1];
            let ghost top = limbs_from(by@, j as int);
            let mut i: u64 = 64;
            proof {
                lemma_prefix_start(top, e);
            }
            while i > 0
                invariant
                    i <= 64,
                    self.well_formed(),
                    a == self.repr(),
                    m == Self::order(),
                    0 <= a < m,
                    res.well_formed(),
                    res.repr() == pow(a, exponent_prefix(top, e, i)) % m,
                decreases i,
            {
                proof {
                    lemma_pow_bit_step(a, top, e, i, m);
                }
                let sq = res.square();
                let tmp = sq.mul(self);
                let bit = ((e >> (i - 1)) & 1) as u8;
                res = sq;
                res.conditional_assign(&tmp, bit);
                i = i - 1;
            }
            proof {
                lemma_prefix_end(by@, j as int, top, e);
            }
            j = j - 1;
        }
        res
    }

    /// The lowest 128 bits of the canonical representative.
    fn get_lower_128(&self) -> (r: u128)
        requires
            self.well_formed(),
        ensures
            r as int == self.repr() % pow2(128) as int,
    ;
}

/// An element of a group of prime order `p`, written additively. Its model is
/// the element's discrete logarithm to a fixed generator, a residue mod `p`:
/// in the field itself, the element's own value.
pub trait Group: Sized {
    type Scalar: SqrtRatio;

    spec fn log(&self) -> int;

    spec fn group_wf(&self) -> bool;

    /// The additive identity.
    fn group_zero() -> (r: Self)
        ensures
            r.group_wf(),
            r.log() == 0,
    ;

    /// `self <- self + rhs`.
    fn group_add(&mut self, rhs: &Self)
        requires
            old(self).group_wf(),
            rhs.group_wf(),
        ensures
            final(self).group_wf(),
            final(self).log() == (old(self).log() + rhs.log()) % Self::Scalar::order(),
    ;

    /// `self <- self - rhs`.
    fn group_sub(&mut self, rhs: &Self)
        requires
            old(self).group_wf(),
            rhs.group_wf(),
        ensures
            final(self).group_wf(),
            final(self).log() == (old(self).log() - rhs.log()) % Self::Scalar::order(),
    ;

    /// `self <- by * self`.
    fn group_scale(&mut self, by: &Self::Scalar)
        requires
            old(self).group_wf(),
            by.well_formed(),
        ensures
            final(self).group_wf(),
            final(self).log() == (old(self).log() * by.repr()) % Self::Scalar::order(),
    ;
}

impl SqrtRatio for Fp {
    open spec fn order() -> int {
        modulus()
    }

    open spec fn repr(&self) -> int {
        self.value()
    }

    open spec fn well_formed(&self) -> bool {
        self.wf()
    }

    open spec fn odd_part() -> nat {
        T as nat
    }

    open spec fn non_square() -> int {
        ROOT_OF_UNITY_VALUE as int
    }

    open spec fn odd_part_primes() -> Seq<nat> {
        seq![3nat, 5nat, 17nat, 257nat, 65537nat]
    }

    open spec fn two_adicity() -> nat {
        S as nat
    }

    open spec fn sqrt_ratio_result(n: int, d: int) -> (bool, int) {
        crate::sqrt::sqrt_ratio_result(n, d)
    }

    proof fn lemma_odd_part() {
        let l = seq![3nat, 5nat, 17nat, 257nat, 65537nat];
        assert(l.drop_first() =~= seq![5nat, 17nat, 257nat, 65537nat]);
        assert(l.drop_first().drop_first() =~= seq![17nat, 257nat, 65537nat]);
        assert(l.drop_first().drop_first().drop_first() =~= seq![257nat, 65537nat]);
        assert(l.drop_first().drop_first().drop_first().drop_first() =~= seq![65537nat]);
        assert(l.drop_first().drop_first().drop_first().drop_first().drop_first() =~= Seq::<
            nat,
        >::empty());
        assert(product(seq![65537nat]) == 65537) by {
            assert(seq![65537nat].drop_first() =~= Seq::<nat>::empty());
            assert(product(Seq::<nat>::empty()) == 1);
            assert(seq![65537nat][0] == 65537);
        }
        assert(product(seq![257nat, 65537nat]) == 257 * 65537) by {
            assert(seq![257nat, 65537nat].drop_first() =~= seq![65537nat]);
        }
        assert(product(seq![17nat, 257nat, 65537nat]) == 17 * 257 * 65537) by {
            assert(seq![17nat, 257nat, 65537nat].drop_first() =~= seq![257nat, 65537nat]);
        }
        assert(product(seq![5nat, 17nat, 257nat, 65537nat]) == 5 * 17 * 257 * 65537) by {
            assert(seq![5nat, 17nat, 257nat, 65537nat].drop_first() =~= seq![
                17nat,
                257nat,
                65537nat,
            ]);
        }
        assert(product(l) == 3 * 5 * 17 * 257 * 65537);
        lemma2_to64();
        assert(pow2(32) * 4294967295 == 18446744069414584320);
    }

    proof fn lemma_non_square() {
        crate::laws::lemma_root_of_unity_euler();
    }

    proof fn lemma_repr_injective(&self, other: &Fp) {
        self.lemma_equal(*other);
    }

    proof fn lemma_repr_range(&self) {
        self.lemma_range();
    }

    fn one() -> (r: Fp) {
        Fp::one()
    }

    fn square(&self) -> (r: Fp) {
        Fp::square(self)
    }

    fn mul(&self, rhs: &Fp) -> (r: Fp) {
        Fp::mul(self, rhs)
    }

    fn conditional_assign(&mut self, src: &Fp, bit: u8) {
        Fp::conditional_assign(self, src, bit)
    }

    fn t_minus1_over2() -> (r: [u64; 4]) {
        let r: [u64; 4] = crate::field::T_MINUS1_OVER2;
        proof {
            reveal_with_fuel(crate::field::limbs_from, 5);
            assert(r@ =~= seq![2147483647u64, 0u64, 0u64, 0u64]);
        }
        r
    }

    fn pow_by_t_minus1_over2(&self) -> (r: Fp) {
        Fp::pow_by_t_minus1_over2(self)
    }

    fn get_lower_32(&self) -> (r: u32) {
        Fp::get_lower_32(self)
    }

    fn sqrt_ratio(num: &Fp, div: &Fp) -> (r: (bool, Fp)) {
        Fp::sqrt_ratio(num, div)
    }

    fn sqrt_alt(&self) -> (r: (bool, Fp)) {
        Fp::sqrt_alt(self)
    }
}

impl FieldExt for Fp {
    proof fn lemma_group_model(&self) {
    }

    fn root_of_unity_inv() -> (r: Fp) {
        Fp::root_of_unity_inv()
    }

    fn delta() -> (r: Fp) {
        let r = Fp::delta();
        proof {
            crate::laws::lemma_delta_order();
            assert forall|i: int| 0 <= i < Self::odd_part_primes().len() implies pow(
                r.repr(),
                (Self::odd_part() / #[trigger] Self::odd_part_primes()[i]) as nat,
            ) % Self::order() != 1 by {
                assert(i == 0 || i == 1 || i == 2 || i == 3 || i == 4);
            }
        }
        r
    }

    fn two_inv() -> (r: Fp) {
        Fp::two_inv()
    }

    fn zeta() -> (r: Fp) {
        let r = Fp::zeta();
        proof {
            crate::laws::lemma_constant_laws();
        }
        r
    }

    fn from_u128(v: u128) -> (r: Fp) {
        Fp::from_u128(v)
    }

    fn from_bytes_wide(bytes: &[u8; 64]) -> (r: Fp) {
        Fp::from_bytes_wide(bytes)
    }

    fn get_lower_128(&self) -> (r: u128) {
        let r = Fp::get_lower_128(self);
        proof {
            self.lemma_range();
            lemma2_to64_rest();
            lemma_pow2_strictly_increases(64, 128);
            lemma_small_mod(self.value() as nat, pow2(128));
        }
        r
    }
}

impl Group for Fp {
    type Scalar = Fp;

    open spec fn log(&self) -> int {
        self.value()
    }

    open spec fn group_wf(&self) -> bool {
        self.wf()
    }

    fn group_zero() -> (r: Fp) {
        Fp::zero()
    }

    fn group_add(&mut self, rhs: &Fp) {
        *self = Fp::add(self, rhs);
    }

    fn group_sub(&mut self, rhs: &Fp) {
        *self = Fp::sub(self, rhs);
    }

    fn group_scale(&mut self, by: &Fp) {
        *self = Fp::mul(self, by);
    }
}

} // verus!
