use field_compat::field::{
    Fp, DELTA_VALUE, MODULUS, P, ROOT_OF_UNITY_INV_VALUE, ROOT_OF_UNITY_VALUE, T, TWO_INV_VALUE,
    T_MINUS1_OVER2, ZETA_VALUE,
};
use field_compat::traits::{FieldExt, Group, SqrtRatio};

fn fp(v: u64) -> Fp {
    Fp::from_u64(v)
}

fn val(x: &Fp) -> u128 {
    x.get_lower_128()
}

/// `b` read as a little-endian integer and reduced mod p, limb by limb,
/// using `2^64 = 2^32 - 1 (mod p)`.
fn reference_wide(b: &[u8; 64]) -> u64 {
    let p = P as u128;
    let two64 = (1u128 << 32) - 1;
    let mut acc: u128 = 0;
    for limb in (0..8).rev() {
        let mut w: u64 = 0;
        for k in (0..8).rev() {
            w = (w << 8) | b[limb * 8 + k] as u64;
        }
        acc = (acc * two64 % p + (w as u128 % p)) % p;
    }
    acc as u64
}

#[test]
fn pow_two_to_the_five() {
    assert_eq!(fp(2).pow(&[5, 0, 0, 0]), fp(32));
    assert_eq!(fp(2).pow_vartime(&[5, 0, 0, 0]), fp(32));
}

#[test]
fn pow_identities() {
    let a = fp(123456789);
    assert_eq!(a.pow(&[1, 0, 0, 0]), a);
    assert_eq!(a.pow(&[0, 0, 0, 0]), Fp::one());
    assert_eq!(Fp::zero().pow(&[0, 0, 0, 0]), Fp::one());
    assert_eq!(Fp::zero().pow(&[7, 0, 0, 0]), Fp::zero());
}

#[test]
fn pow_adds_exponents() {
    let a = fp(987654321);
    let e = [u64::MAX, 3, 0, 1];
    let f = [1, 5, 9, 0];
    let g = [0, 9, 9, 1];
    assert_eq!(a.pow(&e).mul(&a.pow(&f)), a.pow(&g));
    assert_eq!(a.pow(&e), a.pow_vartime(&e));
}

#[test]
fn pow_by_p_minus_one_is_one() {
    let a = fp(5);
    assert_eq!(a.pow(&[P - 1, 0, 0, 0]), Fp::one());
}

#[test]
fn one_plus_one_is_two() {
    let one = Fp::from_u128(1);
    assert_eq!(one.add(&one), Fp::from_u128(2));
    assert_eq!(Fp::from_u128(2).mul(&Fp::two_inv()), Fp::from_u128(1));
}

#[test]
fn zeta_is_a_cube_root_of_unity() {
    let z = Fp::zeta();
    assert_eq!(z.mul(&z).mul(&z), Fp::one());
    assert_ne!(z, Fp::one());
    assert_eq!(val(&z), ZETA_VALUE as u128);
}

#[test]
fn root_of_unity_constants() {
    let g = Fp::root_of_unity();
    assert_eq!(g.mul(&Fp::root_of_unity_inv()), Fp::one());
    assert_eq!(val(&Fp::root_of_unity_inv()), ROOT_OF_UNITY_INV_VALUE as u128);
    assert_eq!(g.pow(&[1u64 << 31, 0, 0, 0]), Fp::one().neg());
    assert_eq!(g.pow(&[1u64 << 32, 0, 0, 0]), Fp::one());
    assert_eq!(val(&g), ROOT_OF_UNITY_VALUE as u128);
}

#[test]
fn delta_generates_the_odd_subgroup() {
    let d = Fp::delta();
    assert_eq!(val(&d), DELTA_VALUE as u128);
    assert_eq!(d.pow(&[T, 0, 0, 0]), Fp::one());
    for q in [3u64, 5, 17, 257, 65537] {
        assert_ne!(d.pow(&[T / q, 0, 0, 0]), Fp::one());
    }
}

#[test]
fn two_inv_times_two() {
    assert_eq!(Fp::two_inv().mul(&fp(2)), Fp::one());
    assert_eq!(val(&Fp::two_inv()), TWO_INV_VALUE as u128);
}

#[test]
fn modulus_string_matches() {
    assert_eq!(MODULUS, P.to_string());
}

#[test]
fn from_u128_reduces() {
    assert_eq!(Fp::from_u128(P as u128), Fp::zero());
    assert_eq!(Fp::from_u128(P as u128 + 7), fp(7));
    assert_eq!(val(&Fp::from_u128(u128::MAX)), u128::MAX % P as u128);
    assert_eq!(fp(u64::MAX), fp(u64::MAX - P));
}

#[test]
fn lower_128_round_trip() {
    for v in [0u128, 1, 42, P as u128 - 1] {
        assert_eq!(Fp::from_u128(v).get_lower_128(), v);
    }
}

#[test]
fn lower_32_bits() {
    let a = fp(0x1234_5678_9abc_def0);
    assert_eq!(a.get_lower_32(), 0x9abc_def0);
    assert_eq!(SqrtRatio::get_lower_32(&fp(P - 1)), ((P - 1) & 0xffff_ffff) as u32);
}

#[test]
fn from_bytes_wide_matches_reference() {
    let mut state: u64 = 0x2545_f491_4f6c_dd1d;
    for _ in 0..20 {
        let mut b = [0u8; 64];
        for byte in b.iter_mut() {
            state ^= state << 13;
            state ^= state >> 7;
            state ^= state << 17;
            *byte = (state >> 24) as u8;
        }
        assert_eq!(val(&Fp::from_bytes_wide(&b)), reference_wide(&b) as u128);
    }
    assert_eq!(Fp::from_bytes_wide(&[0xff; 64]), fp(reference_wide(&[0xff; 64])));
    assert_eq!(Fp::from_bytes_wide(&[0; 64]), Fp::zero());
    let mut one = [0u8; 64];
    one[0] = 1;
    assert_eq!(Fp::from_bytes_wide(&one), Fp::one());
}

#[test]
fn sqrt_ratio_four_over_one() {
    assert_eq!(Fp::sqrt_ratio(&fp(4), &Fp::one()), (true, fp(2)));
    assert_eq!(Fp::sqrt_ratio(&fp(36), &fp(9)), (true, fp(2)));
}

#[test]
fn sqrt_ratio_with_zero_divisor() {
    assert_eq!(Fp::sqrt_ratio(&Fp::zero(), &Fp::zero()), (true, Fp::zero()));
    assert_eq!(Fp::sqrt_ratio(&fp(5), &Fp::zero()), (false, Fp::zero()));
    assert_eq!(Fp::sqrt_ratio(&Fp::zero(), &fp(5)), (true, Fp::zero()));
}

#[test]
fn sqrt_ratio_of_a_non_square() {
    let g = Fp::root_of_unity();
    let (is_square, r) = Fp::sqrt_ratio(&g, &Fp::one());
    assert!(!is_square);
    assert_eq!(r.square(), g.mul(&g));
    assert!(r.is_le(&r.neg()));
}

#[test]
fn sqrt_ratio_results_are_canonical_roots() {
    for (n, d) in [(2u64, 3u64), (7, 11), (P - 1, 5), (123456789, 987654321), (9, 1)] {
        let (num, div) = (fp(n), fp(d));
        let q = num.mul(&div.invert());
        let (is_square, r) = Fp::sqrt_ratio(&num, &div);
        if is_square {
            assert_eq!(r.square(), q);
        } else {
            assert_eq!(r.square(), Fp::root_of_unity().mul(&q));
        }
        assert!(r.is_le(&r.neg()));
    }
}

#[test]
fn sqrt_alt_of_zeta() {
    let z = Fp::zeta();
    let (is_square, r) = z.sqrt_alt();
    assert!(is_square);
    assert_eq!(r.square(), z);
    assert!(r.is_le(&r.neg()));
}

#[test]
fn pow_by_t_minus1_over2_matches_pow() {
    let a = fp(31337);
    assert_eq!(a.pow_by_t_minus1_over2(), a.pow(&T_MINUS1_OVER2));
    assert_eq!(T_MINUS1_OVER2, <Fp as SqrtRatio>::t_minus1_over2());
    assert_eq!(T_MINUS1_OVER2[0], (T - 1) / 2);
}

#[test]
fn field_axioms_on_samples() {
    let (a, b, c) = (fp(P - 3), fp(77), fp(1 << 40));
    assert_eq!(a.add(&b), b.add(&a));
    assert_eq!(a.add(&b).add(&c), a.add(&b.add(&c)));
    assert_eq!(a.mul(&b.add(&c)), a.mul(&b).add(&a.mul(&c)));
    assert_eq!(a.mul(&Fp::one()), a);
    assert_eq!(a.add(&Fp::zero()), a);
    assert_eq!(a.mul(&a.invert()), Fp::one());
    assert_eq!(Fp::zero().invert(), Fp::zero());
    assert_eq!(a.sub(&b).add(&b), a);
    assert_eq!(a.add(&a.neg()), Fp::zero());
}

#[test]
fn group_laws_on_samples() {
    let (x, y, k) = (fp(11), fp(P - 2), fp(1 << 50));
    let mut s = <Fp as Group>::group_zero();
    s.group_add(&x);
    assert_eq!(s, x);
    let mut t = x;
    t.group_add(&y);
    t.group_sub(&y);
    assert_eq!(t, x);
    let mut u = x;
    u.group_scale(&Fp::zero());
    assert_eq!(u, Fp::zero());
    let mut w = x;
    w.group_scale(&Fp::one());
    assert_eq!(w, x);
    let mut z = Fp::zero();
    z.group_scale(&k);
    assert_eq!(z, Fp::zero());
    let (a, b) = (fp(5), fp(P - 1));
    let (mut xa, mut xb, mut xab) = (x, x, x);
    xa.group_scale(&a);
    xb.group_scale(&b);
    xa.group_add(&xb);
    xab.group_scale(&a.add(&b));
    assert_eq!(xa, xab);
}

#[test]
fn order_follows_representatives() {
    let (a, b) = (fp(3), fp(P - 1));
    assert!(a.is_le(&b));
    assert!(!b.is_le(&a));
    assert!(a.is_le(&a));
    assert!(a < b);
}

#[test]
fn conditional_assign_selects() {
    let mut a = fp(1);
    a.conditional_assign(&fp(2), 0);
    assert_eq!(a, fp(1));
    a.conditional_assign(&fp(2), 1);
    assert_eq!(a, fp(2));
    assert!(fp(9).ct_eq(&fp(9)));
    assert!(!fp(9).ct_eq(&fp(8)));
    assert!(Fp::zero().is_zero());
    assert!(!Fp::one().is_zero());
}

#[test]
fn trait_methods_agree() {
    let a = fp(4242);
    assert_eq!(FieldExt::pow(&a, &[3, 0, 0, 0]), a.mul(&a).mul(&a));
    assert_eq!(<Fp as FieldExt>::from_u128(9), fp(9));
    assert_eq!(FieldExt::get_lower_128(&a), 4242);
    assert_eq!(<Fp as FieldExt>::zeta(), Fp::zeta());
    assert_eq!(<Fp as FieldExt>::two_inv(), Fp::two_inv());
    assert_eq!(<Fp as FieldExt>::root_of_unity_inv(), Fp::root_of_unity_inv());
    assert_eq!(<Fp as FieldExt>::delta(), Fp::delta());
    assert_eq!(<Fp as FieldExt>::from_bytes_wide(&[1; 64]), Fp::from_bytes_wide(&[1; 64]));
    assert_eq!(SqrtRatio::sqrt_alt(&fp(4)), (true, fp(2)));
    assert_eq!(<Fp as SqrtRatio>::sqrt_ratio(&fp(4), &Fp::one()), (true, fp(2)));
    assert_eq!(SqrtRatio::pow_by_t_minus1_over2(&a), a.pow_by_t_minus1_over2());
}

#[test]
fn from_bool_gives_bits() {
    assert_eq!(Fp::from(false), Fp::zero());
    assert_eq!(Fp::from(true), Fp::one());
}

#[test]
fn sqrt_of_zero_ratio_is_zero_and_square() {
    assert_eq!(Fp::sqrt_ratio(&Fp::zero(), &fp(P - 1)), (true, Fp::zero()));
    assert_eq!(Fp::zero().sqrt_alt(), (true, Fp::zero()));
    assert_eq!(SqrtRatio::sqrt_alt(&fp(9)), Fp::sqrt_ratio(&fp(9), &Fp::one()));
}
