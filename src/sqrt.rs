use crate::ct::{ct_assign_u64, ct_eq_u64};
use crate::field::{limbs_from, modulus, residue, Fp, P, ROOT_OF_UNITY_VALUE, S, T, T_MINUS1_OVER2};
use vstd::arithmetic::div_mod::*;
use vstd::arithmetic::power::*;
use vstd::prelude::*;

verus! {

/// `n / d` in the field, with the inverse taken as `d^(p - 2)` (zero for zero).
pub open spec fn ratio(n: int, d: int) -> int {
    residue(n * residue(pow(d, (P - 2) as nat)))
}

/// `x` is canonical among `{x, -x}`: `x <= p - x`.
pub open spec fn is_canonical_root(x: int) -> bool {
    x <= modulus() - x
}

/// One pass of the inner Tonelli-Shanks loop from `j` up to `max_v`: the
/// state `(tmp, z, k, still)` as each step leaves it.
pub open spec fn ts_inner(tmp: int, z: int, k: int, still: bool, j: int, max_v: int, v: int) -> (
    int,
    int,
    int,
    bool,
)
    decreases max_v - j,
{
    if j >= max_v {
        (tmp, z, k, still)
    } else {
        let one = tmp == 1;
        let squared = residue(
            if one {
                z * z
            } else {
                tmp * tmp
            },
        );
        let next_still = still && j != v;
        ts_inner(
            if one {
                tmp
            } else {
                squared
            },
            if next_still && one {
                squared
            } else {
                z
            },
            if one {
                k
            } else {
                j
            },
            next_still,
            j + 1,
            max_v,
            v,
        )
    }
}

/// The outer Tonelli-Shanks loop from `max_v` down to 1, on the root
/// candidate `x`, the remainder `b` and the root of unity `z`.
pub open spec fn ts_outer(x: int, b: int, z: int, v: int, max_v: int) -> int
    decreases max_v,
{
    if max_v < 1 {
        x
    } else {
        let inner = ts_inner(residue(b * b), z, 1, true, 2, max_v, v);
        let z2 = residue(inner.1 * inner.1);
        ts_outer(
            if b == 1 {
                x
            } else {
                residue(x * inner.1)
            },
            residue(b * z2),
            z2,
            inner.2,
            max_v - 1,
        )
    }
}

/// The Tonelli-Shanks root candidate of `q`: a square root of `q` whenever
/// `q` is a square.
pub open spec fn ts_candidate(q: int) -> int {
    let w = residue(pow(q, ((T - 1) / 2) as nat));
    let x = residue(q * w);
    ts_outer(x, residue(x * w), ROOT_OF_UNITY_VALUE as int, S as int, S as int)
}

/// The canonical one of `r` and `-r`: the smaller representative.
pub open spec fn canonical(r: int) -> int {
    if r <= residue(-r) {
        r
    } else {
        residue(-r)
    }
}

/// `(is_square, root)` for `n / d`: the candidate root of `q = n / d` when it
/// squares to `q`, else that of `g * q` when it squares to `g * q` (`g` the
/// root of unity), made canonical; `(n == 0, 0)` when `d` is zero, and
/// `(true, 0)` when `q` is zero.
pub open spec fn sqrt_ratio_result(n: int, d: int) -> (bool, int) {
    let q = ratio(n, d);
    let gq = residue(ROOT_OF_UNITY_VALUE * q);
    let s1 = ts_candidate(q);
    let s2 = ts_candidate(gq);
    let ok1 = residue(s1 * s1) == q;
    let ok2 = residue(s2 * s2) == gq;
    let root = if ok1 {
        s1
    } else if ok2 {
        s2
    } else {
        0
    };
    if d == 0 {
        (n == 0, 0)
    } else if q == 0 {
        (true, 0)
    } else {
        (ok1, canonical(root))
    }
}

/// Negation does not change a square.
pub proof fn lemma_neg_square(x: int)
    ensures
        residue(residue(-x) * residue(-x)) == residue(x * x),
{
    lemma_mul_mod_noop_general(-x, -x, modulus());
    assert((-x) * (-x) == x * x) by (nonlinear_arith);
}

proof fn lemma_neg_small(x: int)
    requires
        0 < x < modulus(),
    ensures
        residue(-x) == modulus() - x,
{
    lemma_mod_add_multiples_vanish(-x, modulus());
    lemma_small_mod((modulus() - x) as nat, modulus() as nat);
}

impl Fp {
    /// `self^((T - 1) / 2)`, the first step of Tonelli-Shanks.
    pub fn pow_by_t_minus1_over2(&self) -> (r: Fp)
        requires
            self.wf(),
        ensures
            r.wf(),
            r.value() == residue(pow(self.value(), ((T - 1) / 2) as nat)),
    {
        let by: [u64; 4] = T_MINUS1_OVER2;
        proof {
            reveal_with_fuel(limbs_from, 5);
            assert(by@ =~= seq![2147483647u64, 0u64, 0u64, 0u64]);
        }
        self.pow_vartime(&by)
    }

    /// A Tonelli-Shanks root candidate, with a fixed sequence of operations.
    /// It is a square root of `self` when `self` is a square; callers check it.
    fn sqrt_candidate(&self) -> (r: Fp)
        requires
            self.wf(),
        ensures
            r.wf(),
            r.value() == ts_candidate(self.value()),
    {
        let one = Fp::one();
        let w = self.pow_by_t_minus1_over2();
        let mut x = self.mul(&w);
        let mut b = x.mul(&w);
        let mut z = Fp::root_of_unity();
        let mut v: u64 = S;
        let mut max_v: u64 = S;
        while max_v >= 1
            invariant
                x.wf(),
                b.wf(),
                z.wf(),
                v <= S,
                max_v <= S,
                one.value() == 1,
                ts_outer(x.value(), b.value(), z.value(), v as int, max_v as int) == ts_candidate(
                    self.value(),
                ),
            decreases max_v,
        {
            let mut k: u64 = 1;
            let mut tmp = b.square();
            let mut j_less_than_v: u8 = 1;
            let mut j: u64 = 2;
            let ghost start_z = z.value();
            let ghost start = ts_inner(residue(b.value() * b.value()), z.value(), 1, true, 2, max_v as int, v as int);
            while j < max_v
                invariant
                    tmp.wf(),
                    z.wf(),
                    k <= S,
                    j_less_than_v <= 1,
                    max_v <= S,
                    2 <= j,
                    one.value() == 1,
                    ts_inner(tmp.value(), z.value(), k as int, j_less_than_v == 1, j as int, max_v as int, v as int) == start,
                decreases max_v - j,
            {
                let ghost (t0, z0, k0, s0) = (tmp.value(), z.value(), k as int, j_less_than_v == 1);
                let tmp_is_one = tmp.ct_eq(&one) as u8;
                let mut base = tmp;
                base.conditional_assign(&z, tmp_is_one);
                let squared = base.square();
                let mut next_tmp = squared;
                next_tmp.conditional_assign(&tmp, tmp_is_one);
                let mut new_z = z;
                new_z.conditional_assign(&squared, tmp_is_one);
                let j_is_v = ct_eq_u64(j, v) as u8;
                let still = j_less_than_v & (1 - j_is_v);
                proof {
                    let prev = j_less_than_v;
                    assert(prev & ((1 - j_is_v) as u8) <= prev) by (bit_vector);
                    assert((prev & ((1 - j_is_v) as u8) == 1) <==> (prev == 1 && j_is_v == 0))
                        by (bit_vector)
                        requires
                            prev <= 1,
                            j_is_v <= 1,
                    ;
                }
                j_less_than_v = still;
                ct_assign_u64(&mut k, j, 1 - tmp_is_one);
                z.conditional_assign(&new_z, j_less_than_v);
                tmp = next_tmp;
                j = j + 1;
                proof {
                    let one_ = t0 == 1;
                    assert(tmp_is_one == 1 <==> one_);
                    assert(tmp_is_one <= 1);
                    assert(j_is_v == 1 <==> (j - 1) as int == v as int);
                    assert(squared.value() == residue(
                        if one_ {
                            z0 * z0
                        } else {
                            t0 * t0
                        },
                    ));
                    assert((j_less_than_v == 1) == (s0 && (j - 1) as int != v as int));
                    assert(tmp.value() == if one_ {
                        t0
                    } else {
                        squared.value()
                    });
                    assert(k as int == if one_ {
                        k0
                    } else {
                        (j - 1) as int
                    });
                    assert(z.value() == if (j_less_than_v == 1) && one_ {
                        squared.value()
                    } else {
                        z0
                    });
                    assert(ts_inner(t0, z0, k0, s0, j - 1, max_v as int, v as int) == ts_inner(
                        tmp.value(),
                        z.value(),
                        k as int,
                        j_less_than_v == 1,
                        j as int,
                        max_v as int,
                        v as int,
                    ));
                }
            }
            let ghost inner = (tmp.value(), z.value(), k as int, j_less_than_v == 1);
            let ghost (x0, b0, zz0, v0) = (x.value(), b.value(), start_z, v as int);
            assert(inner == start);
            let result = x.mul(&z);
            let b_is_one = b.ct_eq(&one) as u8;
            let mut next_x = result;
            next_x.conditional_assign(&x, b_is_one);
            x = next_x;
            z = z.square();
            b = b.mul(&z);
            v = k;
            max_v = max_v - 1;
            proof {
                assert(ts_outer(x0, b0, zz0, v0, max_v + 1) == ts_outer(
                    x.value(),
                    b.value(),
                    z.value(),
                    v as int,
                    max_v as int,
                ));
            }
        }
        x
    }

    /// The canonical one of `{self, -self}`, chosen without a branch.
    fn canonical_root(&self) -> (r: Fp)
        requires
            self.wf(),
        ensures
            r.wf(),
            residue(r.value() * r.value()) == residue(self.value() * self.value()),
            is_canonical_root(r.value()),
            self.value() == 0 ==> r.value() == 0,
            r.value() == canonical(self.value()),
    {
        let neg = self.neg();
        let smaller = !self.is_le(&neg) as u8;
        let mut r = *self;
        r.conditional_assign(&neg, smaller);
        proof {
            self.lemma_range();
            lemma_neg_square(self.value());
            if self.value() != 0 {
                lemma_neg_small(self.value());
            } else {
                lemma_small_mod(0, P as nat);
            }
        }
        r
    }

    /// `(is_square, r)` for the ratio `q = num / div`. With `div` nonzero, a
    /// set flag comes with `r^2 = q`; a cleared flag with `r^2 = g * q`, `g`
    /// the primitive `2^S`-th root of unity (a non-square), or with zero when
    /// neither candidate checked out, which a prime modulus rules out. With
    /// `div` zero the result is `(num == 0, 0)`, and a zero ratio gives
    /// `(true, 0)`. A set flag always comes with a witness that `q` is a
    /// square. That every square sets the flag rests on `p` being prime,
    /// which is not stated here. The result is exactly `sqrt_ratio_result`,
    /// the Tonelli-Shanks candidates checked and made canonical, so `r` is
    /// always the canonical root, `r <= p - r`. The flag is computed without
    /// a branch.
    pub fn sqrt_ratio(num: &Fp, div: &Fp) -> (r: (bool, Fp))
        requires
            num.wf(),
            div.wf(),
        ensures
            r.1.wf(),
            (r.0, r.1.value()) == sqrt_ratio_result(num.value(), div.value()),
            is_canonical_root(r.1.value()),
            div.value() == 0 ==> r.0 == (num.value() == 0) && r.1.value() == 0,
            div.value() != 0 && ratio(num.value(), div.value()) == 0 ==> r.0 && r.1.value() == 0,
            r.0 ==> exists|y: int|
                0 <= y < modulus() && #[trigger] residue(y * y) == ratio(num.value(), div.value()),
            div.value() != 0 && r.0 ==> residue(r.1.value() * r.1.value()) == ratio(
                num.value(),
                div.value(),
            ),
            div.value() != 0 && !r.0 ==> residue(r.1.value() * r.1.value()) == residue(
                ROOT_OF_UNITY_VALUE * ratio(num.value(), div.value()),
            ) || r.1.value() == 0,
    {
        let zero = Fp::zero();
        let inv = div.invert();
        let q = num.mul(&inv);
        let g = Fp::root_of_unity();
        let gq = g.mul(&q);
        let s1 = q.sqrt_candidate();
        let s2 = gq.sqrt_candidate();
        let ok1 = s1.square().ct_eq(&q);
        let ok2 = s2.square().ct_eq(&gq);
        let mut root = zero;
        root.conditional_assign(&s2, ok2 as u8);
        root.conditional_assign(&s1, ok1 as u8);
        let mut c = root.canonical_root();
        let num_is_zero = num.is_zero();
        let div_is_zero = div.is_zero();
        let q_is_zero = q.is_zero();
        c.conditional_assign(&zero, q_is_zero as u8);
        c.conditional_assign(&zero, div_is_zero as u8);
        let d = div_is_zero as u8;
        let n = num_is_zero as u8;
        let o = (ok1 as u8) | (q_is_zero as u8);
        let flag = (d & n) | ((d ^ 1) & o);
        proof {
            lemma_small_mod(0, P as nat);
            let (a, b) = (ok1 as u8, q_is_zero as u8);
            assert((o == 1 <==> a == 1 || b == 1) && o <= 1) by (bit_vector)
                requires
                    a <= 1,
                    b <= 1,
                    o == a | b,
            ;
            assert(flag == 1 <==> (d == 1 && n == 1) || (d == 0 && o == 1)) by (bit_vector)
                requires
                    d <= 1,
                    n <= 1,
                    o <= 1,
                    flag == (d & n) | ((d ^ 1) & o),
            ;
            c.lemma_range();
            if flag == 1 {
                if d == 1 {
                    assert(ratio(num.value(), div.value()) == 0);
                    assert(residue(c.value() * c.value()) == ratio(num.value(), div.value()));
                } else {
                    assert(residue(c.value() * c.value()) == ratio(num.value(), div.value()));
                }
            }
        }
        (flag == 1, c)
    }

    /// `sqrt_ratio(self, 1)`.
    pub fn sqrt_alt(&self) -> (r: (bool, Fp))
        requires
            self.wf(),
        ensures
            r.1.wf(),
            (r.0, r.1.value()) == sqrt_ratio_result(self.value(), 1),
            is_canonical_root(r.1.value()),
            self.value() == 0 ==> r.0 && r.1.value() == 0,
            r.0 ==> residue(r.1.value() * r.1.value()) == self.value(),
            r.0 ==> exists|y: int| 0 <= y < modulus() && #[trigger] residue(y * y) == self.value(),
            !r.0 ==> residue(r.1.value() * r.1.value()) == residue(
                ROOT_OF_UNITY_VALUE * self.value(),
            ) || r.1.value() == 0,
    {
        let one = Fp::one();
        proof {
            lemma1_pow((P - 2) as nat);
            lemma_small_mod(1, P as nat);
            self.lemma_range();
            lemma_small_mod(self.value() as nat, P as nat);
            assert(self.value() * 1 == self.value());
        }
        Fp::sqrt_ratio(self, &one)
    }
}

} // verus!
