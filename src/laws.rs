use crate::field::{
    limbs_from, limbs_value, modulus, residue, Fp, P, ROOT_OF_UNITY_INV_VALUE, ROOT_OF_UNITY_VALUE,
    TWO_INV_VALUE, ZETA_VALUE, DELTA_VALUE, T,
};
use crate::field::lemma_pow_mod_mul;
use crate::traits::{FieldExt, Group, SqrtRatio};
use vstd::arithmetic::div_mod::*;
use vstd::arithmetic::power::*;
use vstd::prelude::*;

verus! {

/// `2 * TWO_INV = 1`, `ZETA != 1`, `ZETA^3 = 1`, and the inverse of the root
/// of unity is its inverse.
pub proof fn lemma_constant_laws()
    ensures
        residue(TWO_INV_VALUE * 2) == 1,
        ZETA_VALUE != 1,
        residue(pow(ZETA_VALUE as int, 3)) == 1,
        residue(ROOT_OF_UNITY_INV_VALUE * ROOT_OF_UNITY_VALUE) == 1,
{
    reveal_with_fuel(pow, 4);
    assert((TWO_INV_VALUE as int * 2) % (P as int) == 1);
    let z = ZETA_VALUE as int;
    assert(z * (z * (z * 1)) % (P as int) == 1);
    assert((ROOT_OF_UNITY_INV_VALUE as int * ROOT_OF_UNITY_VALUE as int) % (P as int) == 1);
}

/// `a^e mod p` by square-and-multiply on the bits of `e`.
#[verifier::opaque]
pub open spec fn pow_by_squaring(a: int, e: nat) -> int
    decreases e,
{
    if e == 0 {
        1
    } else {
        let h = pow_by_squaring(a, e / 2);
        if e % 2 == 0 {
            residue(h * h)
        } else {
            residue(residue(h * h) * a)
        }
    }
}

/// Square-and-multiply computes the power.
pub proof fn lemma_pow_by_squaring(a: int, e: nat)
    ensures
        pow_by_squaring(a, e) == residue(pow(a, e)),
    decreases e,
{
    reveal(pow_by_squaring);
    if e == 0 {
        lemma_pow0(a);
        lemma_small_mod(1, P as nat);
    } else {
        let k = e / 2;
        lemma_pow_by_squaring(a, k);
        lemma_pow_mod_mul(a, k, k, modulus());
        if e % 2 == 1 {
            lemma_pow_adds(a, k + k, 1);
            lemma_pow1(a);
            lemma_mul_mod_noop_left(pow(a, k + k), a, modulus());
        }
    }
}

/// One step of square-and-multiply: from `a^k` to `a^(2k + b)`.
proof fn lemma_square_step(a: int, k: nat, b: nat, h: int)
    requires
        b <= 1,
        pow_by_squaring(a, k) == h,
    ensures
        pow_by_squaring(a, 2 * k + b) == if b == 0 {
            residue(h * h)
        } else {
            residue(residue(h * h) * a)
        },
{
    reveal(pow_by_squaring);
    let e = 2 * k + b;
    assert(e / 2 == k && e % 2 == b);
    if k == 0 {
        assert(h == 1);
        lemma_small_mod(1, P as nat);
    }
}

/// `DELTA^1 = DELTA`.
proof fn lemma_delta_pow_one()
    ensures
        pow_by_squaring(12275445934081160404, 1) == 12275445934081160404,
{
    assert(pow_by_squaring(12275445934081160404, 0) == 1) by {
        reveal(pow_by_squaring);
    }
    lemma_square_step(12275445934081160404, 0, 1, 1);
    lemma_small_mod(1, P as nat);
    lemma_small_mod(12275445934081160404, P as nat);
}

/// `DELTA^T` by the steps of square-and-multiply.
#[verifier::rlimit(50)]
proof fn lemma_delta_pow_t()
    ensures
        pow_by_squaring(12275445934081160404, 4294967295) == 1,
{
    lemma_delta_pow_one();
    assert(pow_by_squaring(12275445934081160404, 3) == 1279992132519201448) by {
        lemma_square_step(12275445934081160404, 1, 1, 12275445934081160404);
        assert((12275445934081160404int * 12275445934081160404int) % (P as int) == 4756475762779100925) by (nonlinear_arith);
        assert((4756475762779100925int * 12275445934081160404int) % (P as int) == 1279992132519201448)
            by (nonlinear_arith);
    }
    assert(pow_by_squaring(12275445934081160404, 7) == 4549350404001778198) by {
        lemma_square_step(12275445934081160404, 3, 1, 1279992132519201448);
        assert((1279992132519201448int * 1279992132519201448int) % (P as int) == 11302600489504509467) by (nonlinear_arith);
        assert((11302600489504509467int * 12275445934081160404int) % (P as int) == 4549350404001778198) by (nonlinear_arith);
    }
    assert(pow_by_squaring(12275445934081160404, 15) == 11274872323250451096) by {
        lemma_square_step(12275445934081160404, 7, 1, 4549350404001778198);
        assert((4549350404001778198int * 4549350404001778198int) % (P as int) == 11016800570561344835) by (nonlinear_arith);
        assert((11016800570561344835int * 12275445934081160404int) % (P as int) == 11274872323250451096) by (nonlinear_arith);
    }
    assert(pow_by_squaring(12275445934081160404, 31) == 4304519570518954644) by {
        lemma_square_step(12275445934081160404, 15, 1, 11274872323250451096);
        assert((11274872323250451096int * 11274872323250451096int) % (P as int) == 12069298394184580155) by (nonlinear_arith);
        assert((12069298394184580155int * 12275445934081160404int) % (P as int) == 4304519570518954644) by (nonlinear_arith);
    }
    assert(pow_by_squaring(12275445934081160404, 63) == 16394889243316335910) by {
        lemma_square_step(12275445934081160404, 31, 1, 4304519570518954644);
        assert((4304519570518954644int * 4304519570518954644int) % (P as int) == 12324806857078391184) by (nonlinear_arith);
        assert((12324806857078391184int * 12275445934081160404int) % (P as int) == 16394889243316335910) by (nonlinear_arith);
    }
    assert(pow_by_squaring(12275445934081160404, 127) == 3679734199234472637) by {
        lemma_square_step(12275445934081160404, 63, 1, 16394889243316335910);
        assert((16394889243316335910int * 16394889243316335910int) % (P as int) == 12473340957261074445) by (nonlinear_arith);
        assert((12473340957261074445int * 12275445934081160404int) % (P as int) == 3679734199234472637) by (nonlinear_arith);
    }
    assert(pow_by_squaring(12275445934081160404, 255) == 17588058450869219263) by {
        lemma_square_step(12275445934081160404, 127, 1, 3679734199234472637);
        assert((3679734199234472637int * 3679734199234472637int) % (P as int) == 8578194262823733392) by (nonlinear_arith);
        assert((8578194262823733392int * 12275445934081160404int) % (P as int) == 17588058450869219263) by (nonlinear_arith);
    }
    assert(pow_by_squaring(12275445934081160404, 511) == 13474118253388618134) by {
        lemma_square_step(12275445934081160404, 255, 1, 17588058450869219263);
        assert((17588058450869219263int * 17588058450869219263int) % (P as int) == 683923235602147932) by (nonlinear_arith);
        assert((683923235602147932int * 12275445934081160404int) % (P as int) == 13474118253388618134) by (nonlinear_arith);
    }
    assert(pow_by_squaring(12275445934081160404, 1023) == 3424231069583294856) by {
        lemma_square_step(12275445934081160404, 511, 1, 13474118253388618134);
        assert((13474118253388618134int * 13474118253388618134int) % (P as int) == 9597581785288495783) by (nonlinear_arith);
        assert((9597581785288495783int * 12275445934081160404int) % (P as int) == 3424231069583294856) by (nonlinear_arith);
    }
    assert(pow_by_squaring(12275445934081160404, 2047) == 3212278696635431411) by {
        lemma_square_step(12275445934081160404, 1023, 1, 3424231069583294856);
        assert((3424231069583294856int * 3424231069583294856int) % (P as int) == 4346132479700773704) by (nonlinear_arith);
        assert((4346132479700773704int * 12275445934081160404int) % (P as int) == 3212278696635431411) by (nonlinear_arith);
    }
    assert(pow_by_squaring(12275445934081160404, 4095) == 8674491644268464123) by {
        lemma_square_step(12275445934081160404, 2047, 1, 3212278696635431411);
        assert((3212278696635431411int * 3212278696635431411int) % (P as int) == 16719443524623950531) by (nonlinear_arith);
        assert((16719443524623950531int * 12275445934081160404int) % (P as int) == 8674491644268464123) by (nonlinear_arith);
    }
    assert(pow_by_squaring(12275445934081160404, 8191) == 7614671795105477622) by {
        lemma_square_step(12275445934081160404, 4095, 1, 8674491644268464123);
        assert((8674491644268464123int * 8674491644268464123int) % (P as int) == 6277783851271942210) by (nonlinear_arith);
        assert((6277783851271942210int * 12275445934081160404int) % (P as int) == 7614671795105477622) by (nonlinear_arith);
    }
    assert(pow_by_squaring(12275445934081160404, 16383) == 565825823434018290) by {
        lemma_square_step(12275445934081160404, 8191, 1, 7614671795105477622);
        assert((7614671795105477622int * 7614671795105477622int) % (P as int) == 8462854283528089452) by (nonlinear_arith);
        assert((8462854283528089452int * 12275445934081160404int) % (P as int) == 565825823434018290) by (nonlinear_arith);
    }
    assert(pow_by_squaring(12275445934081160404, 32767) == 1614949354278806530) by {
        lemma_square_step(12275445934081160404, 16383, 1, 565825823434018290);
        assert((565825823434018290int * 565825823434018290int) % (P as int) == 4756329067240810750) by (nonlinear_arith);
        assert((4756329067240810750int * 12275445934081160404int) % (P as int) == 1614949354278806530) by (nonlinear_arith);
    }
    assert(pow_by_squaring(12275445934081160404, 65535) == 8478886009461009681) by {
        lemma_square_step(12275445934081160404, 32767, 1, 1614949354278806530);
        assert((1614949354278806530int * 1614949354278806530int) % (P as int) == 2104588347148204427) by (nonlinear_arith);
        assert((2104588347148204427int * 12275445934081160404int) % (P as int) == 8478886009461009681) by (nonlinear_arith);
    }
    assert(pow_by_squaring(12275445934081160404, 131071) == 16512774553975191984) by {
        lemma_square_step(12275445934081160404, 65535, 1, 8478886009461009681);
        assert((8478886009461009681int * 8478886009461009681int) % (P as int) == 3092532293969191351) by (nonlinear_arith);
        assert((3092532293969191351int * 12275445934081160404int) % (P as int) == 16512774553975191984) by (nonlinear_arith);
    }
    assert(pow_by_squaring(12275445934081160404, 262143) == 10879306936227360953) by {
        lemma_square_step(12275445934081160404, 131071, 1, 16512774553975191984);
        assert((16512774553975191984int * 16512774553975191984int) % (P as int) == 10788258290940062613) by (nonlinear_arith);
        assert((10788258290940062613int * 12275445934081160404int) % (P as int) == 10879306936227360953) by (nonlinear_arith);
    }
    assert(pow_by_squaring(12275445934081160404, 524287) == 14499380711312378497) by {
        lemma_square_step(12275445934081160404, 262143, 1, 10879306936227360953);
        assert((10879306936227360953int * 10879306936227360953int) % (P as int) == 5064781760559858525) by (nonlinear_arith);
        assert((5064781760559858525int * 12275445934081160404int) % (P as int) == 14499380711312378497) by (nonlinear_arith);
    }
    assert(pow_by_squaring(12275445934081160404, 1048575) == 13620044171060547184) by {
        lemma_square_step(12275445934081160404, 524287, 1, 14499380711312378497);
        assert((14499380711312378497int * 14499380711312378497int) % (P as int) == 6848658259395001620) by (nonlinear_arith);
        assert((6848658259395001620int * 12275445934081160404int) % (P as int) == 13620044171060547184) by (nonlinear_arith);
    }
    assert(pow_by_squaring(12275445934081160404, 2097151) == 16026704985743549979) by {
        lemma_square_step(12275445934081160404, 1048575, 1, 13620044171060547184);
        assert((13620044171060547184int * 13620044171060547184int) % (P as int) == 7252545770481645105) by (nonlinear_arith);
        assert((7252545770481645105int * 12275445934081160404int) % (P as int) == 16026704985743549979) by (nonlinear_arith);
    }
    assert(pow_by_squaring(12275445934081160404, 4194303) == 13171580951127167984) by {
        lemma_square_step(12275445934081160404, 2097151, 1, 16026704985743549979);
        assert((16026704985743549979int * 16026704985743549979int) % (P as int) == 16508732627368919058) by (nonlinear_arith);
        assert((16508732627368919058int * 12275445934081160404int) % (P as int) == 13171580951127167984) by (nonlinear_arith);
    }
    assert(pow_by_squaring(12275445934081160404, 8388607) == 10671780847451750837) by {
        lemma_square_step(12275445934081160404, 4194303, 1, 13171580951127167984);
        assert((13171580951127167984int * 13171580951127167984int) % (P as int) == 11605493704041899712) by (nonlinear_arith);
        assert((11605493704041899712int * 12275445934081160404int) % (P as int) == 10671780847451750837) by (nonlinear_arith);
    }
    assert(pow_by_squaring(12275445934081160404, 16777215) == 8784566205410244656) by {
        lemma_square_step(12275445934081160404, 8388607, 1, 10671780847451750837);
        assert((10671780847451750837int * 10671780847451750837int) % (P as int) == 1983463269676594688) by (nonlinear_arith);
        assert((1983463269676594688int * 12275445934081160404int) % (P as int) == 8784566205410244656) by (nonlinear_arith);
    }
    assert(pow_by_squaring(12275445934081160404, 33554431) == 13929018800122643280) by {
        lemma_square_step(12275445934081160404, 16777215, 1, 8784566205410244656);
        assert((8784566205410244656int * 8784566205410244656int) % (P as int) == 3093885354317196478) by (nonlinear_arith);
        assert((3093885354317196478int * 12275445934081160404int) % (P as int) == 13929018800122643280) by (nonlinear_arith);
    }
    assert(pow_by_squaring(12275445934081160404, 67108863) == 2172118419930080758) by {
        lemma_square_step(12275445934081160404, 33554431, 1, 13929018800122643280);
        assert((13929018800122643280int * 13929018800122643280int) % (P as int) == 14965716338202579716) by (nonlinear_arith);
        assert((14965716338202579716int * 12275445934081160404int) % (P as int) == 2172118419930080758) by (nonlinear_arith);
    }
    assert(pow_by_squaring(12275445934081160404, 134217727) == 16616023290509522987) by {
        lemma_square_step(12275445934081160404, 67108863, 1, 2172118419930080758);
        assert((2172118419930080758int * 2172118419930080758int) % (P as int) == 6442390061601221344) by (nonlinear_arith);
        assert((6442390061601221344int * 12275445934081160404int) % (P as int) == 16616023290509522987) by (nonlinear_arith);
    }
    assert(pow_by_squaring(12275445934081160404, 268435455) == 5169155891321124232) by {
        lemma_square_step(12275445934081160404, 134217727, 1, 16616023290509522987);
        assert((16616023290509522987int * 16616023290509522987int) % (P as int) == 9353788618009992355) by (nonlinear_arith);
        assert((9353788618009992355int * 12275445934081160404int) % (P as int) == 5169155891321124232) by (nonlinear_arith);
    }
    assert(pow_by_squaring(12275445934081160404, 536870911) == 4008130831684506902) by {
        lemma_square_step(12275445934081160404, 268435455, 1, 5169155891321124232);
        assert((5169155891321124232int * 5169155891321124232int) % (P as int) == 28159828508716994) by (nonlinear_arith);
        assert((28159828508716994int * 12275445934081160404int) % (P as int) == 4008130831684506902) by (nonlinear_arith);
    }
    assert(pow_by_squaring(12275445934081160404, 1073741823) == 1687683896074273784) by {
        lemma_square_step(12275445934081160404, 536870911, 1, 4008130831684506902);
        assert((4008130831684506902int * 4008130831684506902int) % (P as int) == 9277617905583022096) by (nonlinear_arith);
        assert((9277617905583022096int * 12275445934081160404int) % (P as int) == 1687683896074273784) by (nonlinear_arith);
    }
    assert(pow_by_squaring(12275445934081160404, 2147483647) == 7450758955135236374) by {
        lemma_square_step(12275445934081160404, 1073741823, 1, 1687683896074273784);
        assert((1687683896074273784int * 1687683896074273784int) % (P as int) == 2358192039621491521) by (nonlinear_arith);
        assert((2358192039621491521int * 12275445934081160404int) % (P as int) == 7450758955135236374) by (nonlinear_arith);
    }
    assert(pow_by_squaring(12275445934081160404, 4294967295) == 1) by {
        lemma_square_step(12275445934081160404, 2147483647, 1, 7450758955135236374);
        assert((7450758955135236374int * 7450758955135236374int) % (P as int) == 9127779584614301956) by (nonlinear_arith);
        assert((9127779584614301956int * 12275445934081160404int) % (P as int) == 1) by (nonlinear_arith);
    }
}

/// `DELTA^T/3` by the steps of square-and-multiply.
#[verifier::rlimit(50)]
proof fn lemma_delta_pow_t_over_3()
    ensures
        pow_by_squaring(12275445934081160404, 1431655765) == 18446744065119617025,
{
    lemma_delta_pow_one();
    assert(pow_by_squaring(12275445934081160404, 2) == 4756475762779100925) by {
        lemma_square_step(12275445934081160404, 1, 0, 12275445934081160404);
        assert((12275445934081160404int * 12275445934081160404int) % (P as int) == 4756475762779100925) by (nonlinear_arith);
    }
    assert(pow_by_squaring(12275445934081160404, 5) == 7781028390488215464) by {
        lemma_square_step(12275445934081160404, 2, 1, 4756475762779100925);
        assert((4756475762779100925int * 4756475762779100925int) % (P as int) == 8312008622371998338) by (nonlinear_arith);
        assert((8312008622371998338int * 12275445934081160404int) % (P as int) == 7781028390488215464) by (nonlinear_arith);
    }
    assert(pow_by_squaring(12275445934081160404, 10) == 16538725463549498621) by {
        lemma_square_step(12275445934081160404, 5, 0, 7781028390488215464);
        assert((7781028390488215464int * 7781028390488215464int) % (P as int) == 16538725463549498621) by (nonlinear_arith);
    }
    assert(pow_by_squaring(12275445934081160404, 21) == 8246665031048405574) by {
        lemma_square_step(12275445934081160404, 10, 1, 16538725463549498621);
        assert((16538725463549498621int * 16538725463549498621int) % (P as int) == 7240278926970958133) by (nonlinear_arith);
        assert((7240278926970958133int * 12275445934081160404int) % (P as int) == 8246665031048405574) by (nonlinear_arith);
    }
    assert(pow_by_squaring(12275445934081160404, 42) == 2750330294025098837) by {
        lemma_square_step(12275445934081160404, 21, 0, 8246665031048405574);
        assert((8246665031048405574int * 8246665031048405574int) % (P as int) == 2750330294025098837) by (nonlinear_arith);
    }
    assert(pow_by_squaring(12275445934081160404, 85) == 4733570987445959623) by {
        lemma_square_step(12275445934081160404, 42, 1, 2750330294025098837);
        assert((2750330294025098837int * 2750330294025098837int) % (P as int) == 15490647926983690299) by (nonlinear_arith);
        assert((15490647926983690299int * 12275445934081160404int) % (P as int) == 4733570987445959623) by (nonlinear_arith);
    }
    assert(pow_by_squaring(12275445934081160404, 170) == 10619881994662283040) by {
        lemma_square_step(12275445934081160404, 85, 0, 4733570987445959623);
        assert((4733570987445959623int * 4733570987445959623int) % (P as int) == 10619881994662283040) by (nonlinear_arith);
    }
    assert(pow_by_squaring(12275445934081160404, 341) == 18361179848640336464) by {
        lemma_square_step(12275445934081160404, 170, 1, 10619881994662283040);
        assert((10619881994662283040int * 10619881994662283040int) % (P as int) == 14683850830539800883) by (nonlinear_arith);
        assert((14683850830539800883int * 12275445934081160404int) % (P as int) == 18361179848640336464) by (nonlinear_arith);
    }
    assert(pow_by_squaring(12275445934081160404, 682) == 950055633415809085) by {
        lemma_square_step(12275445934081160404, 341, 0, 18361179848640336464);
        assert((18361179848640336464int * 18361179848640336464int) % (P as int) == 950055633415809085) by (nonlinear_arith);
    }
    assert(pow_by_squaring(12275445934081160404, 1365) == 14539522463670894480) by {
        lemma_square_step(12275445934081160404, 682, 1, 950055633415809085);
        assert((950055633415809085int * 950055633415809085int) % (P as int) == 2008868305916221889) by (nonlinear_arith);
        assert((2008868305916221889int * 12275445934081160404int) % (P as int) == 14539522463670894480) by (nonlinear_arith);
    }
    assert(pow_by_squaring(12275445934081160404, 2730) == 871452039643317218) by {
        lemma_square_step(12275445934081160404, 1365, 0, 14539522463670894480);
        assert((14539522463670894480int * 14539522463670894480int) % (P as int) == 871452039643317218) by (nonlinear_arith);
    }
    assert(pow_by_squaring(12275445934081160404, 5461) == 11310299617345086484) by {
        lemma_square_step(12275445934081160404, 2730, 1, 871452039643317218);
        assert((871452039643317218int * 871452039643317218int) % (P as int) == 6918236945318845013) by (nonlinear_arith);
        assert((6918236945318845013int * 12275445934081160404int) % (P as int) == 11310299617345086484) by (nonlinear_arith);
    }
    assert(pow_by_squaring(12275445934081160404, 10922) == 15244413738397616579) by {
        lemma_square_step(12275445934081160404, 5461, 0, 11310299617345086484);
        assert((11310299617345086484int * 11310299617345086484int) % (P as int) == 15244413738397616579) by (nonlinear_arith);
    }
    assert(pow_by_squaring(12275445934081160404, 21845) == 144820208228696286) by {
        lemma_square_step(12275445934081160404, 10922, 1, 15244413738397616579);
        assert((15244413738397616579int * 15244413738397616579int) % (P as int) == 13415808726118018742) by (nonlinear_arith);
        assert((13415808726118018742int * 12275445934081160404int) % (P as int) == 144820208228696286) by (nonlinear_arith);
    }
    assert(pow_by_squaring(12275445934081160404, 43690) == 3684268560309858177) by {
        lemma_square_step(12275445934081160404, 21845, 0, 144820208228696286);
        assert((144820208228696286int * 144820208228696286int) % (P as int) == 3684268560309858177) by (nonlinear_arith);
    }
    assert(pow_by_squaring(12275445934081160404, 87381) == 18342191855603989543) by {
        lemma_square_step(12275445934081160404, 43690, 1, 3684268560309858177);
        assert((3684268560309858177int * 3684268560309858177int) % (P as int) == 2363289453392170952) by (nonlinear_arith);
        assert((2363289453392170952int * 12275445934081160404int) % (P as int) == 18342191855603989543) by (nonlinear_arith);
    }
    assert(pow_by_squaring(12275445934081160404, 174762) == 14551972485095996566) by {
        lemma_square_step(12275445934081160404, 87381, 0, 18342191855603989543);
        assert((18342191855603989543int * 18342191855603989543int) % (P as int) == 14551972485095996566) by (nonlinear_arith);
    }
    assert(pow_by_squaring(12275445934081160404, 349525) == 16561037900262977897) by {
        lemma_square_step(12275445934081160404, 174762, 1, 14551972485095996566);
        assert((14551972485095996566int * 14551972485095996566int) % (P as int) == 858123293477080600) by (nonlinear_arith);
        assert((858123293477080600int * 12275445934081160404int) % (P as int) == 16561037900262977897) by (nonlinear_arith);
    }
    assert(pow_by_squaring(12275445934081160404, 699050) == 12047248418557059035) by {
        lemma_square_step(12275445934081160404, 349525, 0, 16561037900262977897);
        assert((16561037900262977897int * 16561037900262977897int) % (P as int) == 12047248418557059035) by (nonlinear_arith);
    }
    assert(pow_by_squaring(12275445934081160404, 1398101) == 5709593261608934014) by {
        lemma_square_step(12275445934081160404, 699050, 1, 12047248418557059035);
        assert((12047248418557059035int * 12047248418557059035int) % (P as int) == 4091240428172690146) by (nonlinear_arith);
        assert((4091240428172690146int * 12275445934081160404int) % (P as int) == 5709593261608934014) by (nonlinear_arith);
    }
    assert(pow_by_squaring(12275445934081160404, 2796202) == 2874022416960892837) by {
        lemma_square_step(12275445934081160404, 1398101, 0, 5709593261608934014);
        assert((5709593261608934014int * 5709593261608934014int) % (P as int) == 2874022416960892837) by (nonlinear_arith);
    }
    assert(pow_by_squaring(12275445934081160404, 5592405) == 7802345761617692924) by {
        lemma_square_step(12275445934081160404, 2796202, 1, 2874022416960892837);
        assert((2874022416960892837int * 2874022416960892837int) % (P as int) == 17140426604283717845) by (nonlinear_arith);
        assert((17140426604283717845int * 12275445934081160404int) % (P as int) == 7802345761617692924) by (nonlinear_arith);
    }
    assert(pow_by_squaring(12275445934081160404, 11184810) == 18222847149760681567) by {
        lemma_square_step(12275445934081160404, 5592405, 0, 7802345761617692924);
        assert((7802345761617692924int * 7802345761617692924int) % (P as int) == 18222847149760681567) by (nonlinear_arith);
    }
    assert(pow_by_squaring(12275445934081160404, 22369621) == 13093268643099712084) by {
        lemma_square_step(12275445934081160404, 11184810, 1, 18222847149760681567);
        assert((18222847149760681567int * 18222847149760681567int) % (P as int) == 17499387918775256010) by (nonlinear_arith);
        assert((17499387918775256010int * 12275445934081160404int) % (P as int) == 13093268643099712084) by (nonlinear_arith);
    }
    assert(pow_by_squaring(12275445934081160404, 44739242) == 14805989675903260522) by {
        lemma_square_step(12275445934081160404, 22369621, 0, 13093268643099712084);
        assert((13093268643099712084int * 13093268643099712084int) % (P as int) == 14805989675903260522) by (nonlinear_arith);
    }
    assert(pow_by_squaring(12275445934081160404, 89478485) == 6515397714927682743) by {
        lemma_square_step(12275445934081160404, 44739242, 1, 14805989675903260522);
        assert((14805989675903260522int * 14805989675903260522int) % (P as int) == 6114279652891903562) by (nonlinear_arith);
        assert((6114279652891903562int * 12275445934081160404int) % (P as int) == 6515397714927682743) by (nonlinear_arith);
    }
    assert(pow_by_squaring(12275445934081160404, 178956970) == 11178342284497030948) by {
        lemma_square_step(12275445934081160404, 89478485, 0, 6515397714927682743);
        assert((6515397714927682743int * 6515397714927682743int) % (P as int) == 11178342284497030948) by (nonlinear_arith);
    }
    assert(pow_by_squaring(12275445934081160404, 357913941) == 11368723234197765731) by {
        lemma_square_step(12275445934081160404, 178956970, 1, 11178342284497030948);
        assert((11178342284497030948int * 11178342284497030948int) % (P as int) == 7620522375449696705) by (nonlinear_arith);
        assert((7620522375449696705int * 12275445934081160404int) % (P as int) == 11368723234197765731) by (nonlinear_arith);
    }
    assert(pow_by_squaring(12275445934081160404, 715827882) == 4315988950561070367) by {
        lemma_square_step(12275445934081160404, 357913941, 0, 11368723234197765731);
        assert((11368723234197765731int * 11368723234197765731int) % (P as int) == 4315988950561070367) by (nonlinear_arith);
    }
    assert(pow_by_squaring(12275445934081160404, 1431655765) == 18446744065119617025) by {
        lemma_square_step(12275445934081160404, 715827882, 1, 4315988950561070367);
        assert((4315988950561070367int * 4315988950561070367int) % (P as int) == 12705811026716418861) by (nonlinear_arith);
        assert((12705811026716418861int * 12275445934081160404int) % (P as int) == 18446744065119617025) by (nonlinear_arith);
    }
}

/// `DELTA^T/5` by the steps of square-and-multiply.
#[verifier::rlimit(50)]
proof fn lemma_delta_pow_t_over_5()
    ensures
        pow_by_squaring(12275445934081160404, 858993459) == 1373043270956696022,
{
    lemma_delta_pow_one();
    assert(pow_by_squaring(12275445934081160404, 3) == 1279992132519201448) by {
        lemma_square_step(12275445934081160404, 1, 1, 12275445934081160404);
        assert((12275445934081160404int * 12275445934081160404int) % (P as int) == 4756475762779100925) by (nonlinear_arith);
        assert((4756475762779100925int * 12275445934081160404int) % (P as int) == 1279992132519201448)
            by (nonlinear_arith);
    }
    assert(pow_by_squaring(12275445934081160404, 6) == 11302600489504509467) by {
        lemma_square_step(12275445934081160404, 3, 0, 1279992132519201448);
        assert((1279992132519201448int * 1279992132519201448int) % (P as int) == 11302600489504509467) by (nonlinear_arith);
    }
    assert(pow_by_squaring(12275445934081160404, 12) == 15099809066790865939) by {
        lemma_square_step(12275445934081160404, 6, 0, 11302600489504509467);
        assert((11302600489504509467int * 11302600489504509467int) % (P as int) == 15099809066790865939) by (nonlinear_arith);
    }
    assert(pow_by_squaring(12275445934081160404, 25) == 11395689535312925715) by {
        lemma_square_step(12275445934081160404, 12, 1, 15099809066790865939);
        assert((15099809066790865939int * 15099809066790865939int) % (P as int) == 14878451024585790464) by (nonlinear_arith);
        assert((14878451024585790464int * 12275445934081160404int) % (P as int) == 11395689535312925715) by (nonlinear_arith);
    }
    assert(pow_by_squaring(12275445934081160404, 51) == 3080292546802250491) by {
        lemma_square_step(12275445934081160404, 25, 1, 11395689535312925715);
        assert((11395689535312925715int * 11395689535312925715int) % (P as int) == 1659512918415654813) by (nonlinear_arith);
        assert((1659512918415654813int * 12275445934081160404int) % (P as int) == 3080292546802250491) by (nonlinear_arith);
    }
    assert(pow_by_squaring(12275445934081160404, 102) == 17006525114682413860) by {
        lemma_square_step(12275445934081160404, 51, 0, 3080292546802250491);
        assert((3080292546802250491int * 3080292546802250491int) % (P as int) == 17006525114682413860) by (nonlinear_arith);
    }
    assert(pow_by_squaring(12275445934081160404, 204) == 8083283331813898072) by {
        lemma_square_step(12275445934081160404, 102, 0, 17006525114682413860);
        assert((17006525114682413860int * 17006525114682413860int) % (P as int) == 8083283331813898072) by (nonlinear_arith);
    }
    assert(pow_by_squaring(12275445934081160404, 409) == 7481955408674006565) by {
        lemma_square_step(12275445934081160404, 204, 1, 8083283331813898072);
        assert((8083283331813898072int * 8083283331813898072int) % (P as int) == 16743901597616345696) by (nonlinear_arith);
        assert((16743901597616345696int * 12275445934081160404int) % (P as int) == 7481955408674006565) by (nonlinear_arith);
    }
    assert(pow_by_squaring(12275445934081160404, 819) == 8229424189471531445) by {
        lemma_square_step(12275445934081160404, 409, 1, 7481955408674006565);
        assert((7481955408674006565int * 7481955408674006565int) % (P as int) == 8845957947426692066) by (nonlinear_arith);
        assert((8845957947426692066int * 12275445934081160404int) % (P as int) == 8229424189471531445) by (nonlinear_arith);
    }
    assert(pow_by_squaring(12275445934081160404, 1638) == 11544158429850306753) by {
        lemma_square_step(12275445934081160404, 819, 0, 8229424189471531445);
        assert((8229424189471531445int * 8229424189471531445int) % (P as int) == 11544158429850306753) by (nonlinear_arith);
    }
    assert(pow_by_squaring(12275445934081160404, 3276) == 6575894157890375372) by {
        lemma_square_step(12275445934081160404, 1638, 0, 11544158429850306753);
        assert((11544158429850306753int * 11544158429850306753int) % (P as int) == 6575894157890375372) by (nonlinear_arith);
    }
    assert(pow_by_squaring(12275445934081160404, 6553) == 15468026419318992136) by {
        lemma_square_step(12275445934081160404, 3276, 1, 6575894157890375372);
        assert((6575894157890375372int * 6575894157890375372int) % (P as int) == 14087742727050003168) by (nonlinear_arith);
        assert((14087742727050003168int * 12275445934081160404int) % (P as int) == 15468026419318992136) by (nonlinear_arith);
    }
    assert(pow_by_squaring(12275445934081160404, 13107) == 13117622064007455443) by {
        lemma_square_step(12275445934081160404, 6553, 1, 15468026419318992136);
        assert((15468026419318992136int * 15468026419318992136int) % (P as int) == 14043702205220635206) by (nonlinear_arith);
        assert((14043702205220635206int * 12275445934081160404int) % (P as int) == 13117622064007455443) by (nonlinear_arith);
    }
    assert(pow_by_squaring(12275445934081160404, 26214) == 9907097673348654079) by {
        lemma_square_step(12275445934081160404, 13107, 0, 13117622064007455443);
        assert((13117622064007455443int * 13117622064007455443int) % (P as int) == 9907097673348654079) by (nonlinear_arith);
    }
    assert(pow_by_squaring(12275445934081160404, 52428) == 6822962341432118346) by {
        lemma_square_step(12275445934081160404, 26214, 0, 9907097673348654079);
        assert((9907097673348654079int * 9907097673348654079int) % (P as int) == 6822962341432118346) by (nonlinear_arith);
    }
    assert(pow_by_squaring(12275445934081160404, 104857) == 10170028983955575304) by {
        lemma_square_step(12275445934081160404, 52428, 1, 6822962341432118346);
        assert((6822962341432118346int * 6822962341432118346int) % (P as int) == 8387774438723502474) by (nonlinear_arith);
        assert((8387774438723502474int * 12275445934081160404int) % (P as int) == 10170028983955575304) by (nonlinear_arith);
    }
    assert(pow_by_squaring(12275445934081160404, 209715) == 3714462262458937287) by {
        lemma_square_step(12275445934081160404, 104857, 1, 10170028983955575304);
        assert((10170028983955575304int * 10170028983955575304int) % (P as int) == 11536242063402177297) by (nonlinear_arith);
        assert((11536242063402177297int * 12275445934081160404int) % (P as int) == 3714462262458937287) by (nonlinear_arith);
    }
    assert(pow_by_squaring(12275445934081160404, 419430) == 10207503010611174361) by {
        lemma_square_step(12275445934081160404, 209715, 0, 3714462262458937287);
        assert((3714462262458937287int * 3714462262458937287int) % (P as int) == 10207503010611174361) by (nonlinear_arith);
    }
    assert(pow_by_squaring(12275445934081160404, 838860) == 4650203334667317280) by {
        lemma_square_step(12275445934081160404, 419430, 0, 10207503010611174361);
        assert((10207503010611174361int * 10207503010611174361int) % (P as int) == 4650203334667317280) by (nonlinear_arith);
    }
    assert(pow_by_squaring(12275445934081160404, 1677721) == 7079038093298791840) by {
        lemma_square_step(12275445934081160404, 838860, 1, 4650203334667317280);
        assert((4650203334667317280int * 4650203334667317280int) % (P as int) == 15783591772153663619) by (nonlinear_arith);
        assert((15783591772153663619int * 12275445934081160404int) % (P as int) == 7079038093298791840) by (nonlinear_arith);
    }
    assert(pow_by_squaring(12275445934081160404, 3355443) == 750328663734657815) by {
        lemma_square_step(12275445934081160404, 1677721, 1, 7079038093298791840);
        assert((7079038093298791840int * 7079038093298791840int) % (P as int) == 17472379961143050728) by (nonlinear_arith);
        assert((17472379961143050728int * 12275445934081160404int) % (P as int) == 750328663734657815) by (nonlinear_arith);
    }
    assert(pow_by_squaring(12275445934081160404, 6710886) == 7983852518127489983) by {
        lemma_square_step(12275445934081160404, 3355443, 0, 750328663734657815);
        assert((750328663734657815int * 750328663734657815int) % (P as int) == 7983852518127489983) by (nonlinear_arith);
    }
    assert(pow_by_squaring(12275445934081160404, 13421772) == 3938614147066682552) by {
        lemma_square_step(12275445934081160404, 6710886, 0, 7983852518127489983);
        assert((7983852518127489983int * 7983852518127489983int) % (P as int) == 3938614147066682552) by (nonlinear_arith);
    }
    assert(pow_by_squaring(12275445934081160404, 26843545) == 17105565073236396267) by {
        lemma_square_step(12275445934081160404, 13421772, 1, 3938614147066682552);
        assert((3938614147066682552int * 3938614147066682552int) % (P as int) == 9599392867228085585) by (nonlinear_arith);
        assert((9599392867228085585int * 12275445934081160404int) % (P as int) == 17105565073236396267) by (nonlinear_arith);
    }
    assert(pow_by_squaring(12275445934081160404, 53687091) == 7734626918933084012) by {
        lemma_square_step(12275445934081160404, 26843545, 1, 17105565073236396267);
        assert((17105565073236396267int * 17105565073236396267int) % (P as int) == 6231672803829649819) by (nonlinear_arith);
        assert((6231672803829649819int * 12275445934081160404int) % (P as int) == 7734626918933084012) by (nonlinear_arith);
    }
    assert(pow_by_squaring(12275445934081160404, 107374182) == 4412797120506850337) by {
        lemma_square_step(12275445934081160404, 53687091, 0, 7734626918933084012);
        assert((7734626918933084012int * 7734626918933084012int) % (P as int) == 4412797120506850337) by (nonlinear_arith);
    }
    assert(pow_by_squaring(12275445934081160404, 214748364) == 3875766691360155617) by {
        lemma_square_step(12275445934081160404, 107374182, 0, 4412797120506850337);
        assert((4412797120506850337int * 4412797120506850337int) % (P as int) == 3875766691360155617) by (nonlinear_arith);
    }
    assert(pow_by_squaring(12275445934081160404, 429496729) == 17358023527338233849) by {
        lemma_square_step(12275445934081160404, 214748364, 1, 3875766691360155617);
        assert((3875766691360155617int * 3875766691360155617int) % (P as int) == 6241495314292722355) by (nonlinear_arith);
        assert((6241495314292722355int * 12275445934081160404int) % (P as int) == 17358023527338233849) by (nonlinear_arith);
    }
    assert(pow_by_squaring(12275445934081160404, 858993459) == 1373043270956696022) by {
        lemma_square_step(12275445934081160404, 429496729, 1, 17358023527338233849);
        assert((17358023527338233849int * 17358023527338233849int) % (P as int) == 2893082935152309876) by (nonlinear_arith);
        assert((2893082935152309876int * 12275445934081160404int) % (P as int) == 1373043270956696022) by (nonlinear_arith);
    }
}

/// `DELTA^T/17` by the steps of square-and-multiply.
#[verifier::rlimit(50)]
proof fn lemma_delta_pow_t_over_17()
    ensures
        pow_by_squaring(12275445934081160404, 252645135) == 16301593560560007290,
{
    lemma_delta_pow_one();
    assert(pow_by_squaring(12275445934081160404, 3) == 1279992132519201448) by {
        lemma_square_step(12275445934081160404, 1, 1, 12275445934081160404);
        assert((12275445934081160404int * 12275445934081160404int) % (P as int) == 4756475762779100925) by (nonlinear_arith);
        assert((4756475762779100925int * 12275445934081160404int) % (P as int) == 1279992132519201448)
            by (nonlinear_arith);
    }
    assert(pow_by_squaring(12275445934081160404, 7) == 4549350404001778198) by {
        lemma_square_step(12275445934081160404, 3, 1, 1279992132519201448);
        assert((1279992132519201448int * 1279992132519201448int) % (P as int) == 11302600489504509467) by (nonlinear_arith);
        assert((11302600489504509467int * 12275445934081160404int) % (P as int) == 4549350404001778198) by (nonlinear_arith);
    }
    assert(pow_by_squaring(12275445934081160404, 15) == 11274872323250451096) by {
        lemma_square_step(12275445934081160404, 7, 1, 4549350404001778198);
        assert((4549350404001778198int * 4549350404001778198int) % (P as int) == 11016800570561344835) by (nonlinear_arith);
        assert((11016800570561344835int * 12275445934081160404int) % (P as int) == 11274872323250451096) by (nonlinear_arith);
    }
    assert(pow_by_squaring(12275445934081160404, 30) == 12069298394184580155) by {
        lemma_square_step(12275445934081160404, 15, 0, 11274872323250451096);
        assert((11274872323250451096int * 11274872323250451096int) % (P as int) == 12069298394184580155) by (nonlinear_arith);
    }
    assert(pow_by_squaring(12275445934081160404, 60) == 5428282574489895836) by {
        lemma_square_step(12275445934081160404, 30, 0, 12069298394184580155);
        assert((12069298394184580155int * 12069298394184580155int) % (P as int) == 5428282574489895836) by (nonlinear_arith);
    }
    assert(pow_by_squaring(12275445934081160404, 120) == 15488913980707339956) by {
        lemma_square_step(12275445934081160404, 60, 0, 5428282574489895836);
        assert((5428282574489895836int * 5428282574489895836int) % (P as int) == 15488913980707339956) by (nonlinear_arith);
    }
    assert(pow_by_squaring(12275445934081160404, 240) == 14489374604437787495) by {
        lemma_square_step(12275445934081160404, 120, 0, 15488913980707339956);
        assert((15488913980707339956int * 15488913980707339956int) % (P as int) == 14489374604437787495) by (nonlinear_arith);
    }
    assert(pow_by_squaring(12275445934081160404, 481) == 17837368160142808105) by {
        lemma_square_step(12275445934081160404, 240, 1, 14489374604437787495);
        assert((14489374604437787495int * 14489374604437787495int) % (P as int) == 12206518770029942281) by (nonlinear_arith);
        assert((12206518770029942281int * 12275445934081160404int) % (P as int) == 17837368160142808105) by (nonlinear_arith);
    }
    assert(pow_by_squaring(12275445934081160404, 963) == 12508716582751049819) by {
        lemma_square_step(12275445934081160404, 481, 1, 17837368160142808105);
        assert((17837368160142808105int * 17837368160142808105int) % (P as int) == 5743916551702962506) by (nonlinear_arith);
        assert((5743916551702962506int * 12275445934081160404int) % (P as int) == 12508716582751049819) by (nonlinear_arith);
    }
    assert(pow_by_squaring(12275445934081160404, 1927) == 16600212635661691142) by {
        lemma_square_step(12275445934081160404, 963, 1, 12508716582751049819);
        assert((12508716582751049819int * 12508716582751049819int) % (P as int) == 535259180718935157) by (nonlinear_arith);
        assert((535259180718935157int * 12275445934081160404int) % (P as int) == 16600212635661691142) by (nonlinear_arith);
    }
    assert(pow_by_squaring(12275445934081160404, 3855) == 17081009302073449373) by {
        lemma_square_step(12275445934081160404, 1927, 1, 16600212635661691142);
        assert((16600212635661691142int * 16600212635661691142int) % (P as int) == 10943260163112079055) by (nonlinear_arith);
        assert((10943260163112079055int * 12275445934081160404int) % (P as int) == 17081009302073449373) by (nonlinear_arith);
    }
    assert(pow_by_squaring(12275445934081160404, 7710) == 9712290447447227715) by {
        lemma_square_step(12275445934081160404, 3855, 0, 17081009302073449373);
        assert((17081009302073449373int * 17081009302073449373int) % (P as int) == 9712290447447227715) by (nonlinear_arith);
    }
    assert(pow_by_squaring(12275445934081160404, 15420) == 18353052305479501654) by {
        lemma_square_step(12275445934081160404, 7710, 0, 9712290447447227715);
        assert((9712290447447227715int * 9712290447447227715int) % (P as int) == 18353052305479501654) by (nonlinear_arith);
    }
    assert(pow_by_squaring(12275445934081160404, 30840) == 3495479116764033220) by {
        lemma_square_step(12275445934081160404, 15420, 0, 18353052305479501654);
        assert((18353052305479501654int * 18353052305479501654int) % (P as int) == 3495479116764033220) by (nonlinear_arith);
    }
    assert(pow_by_squaring(12275445934081160404, 61680) == 3168539979805436219) by {
        lemma_square_step(12275445934081160404, 30840, 0, 3495479116764033220);
        assert((3495479116764033220int * 3495479116764033220int) % (P as int) == 3168539979805436219) by (nonlinear_arith);
    }
    assert(pow_by_squaring(12275445934081160404, 123361) == 2173454143271796195) by {
        lemma_square_step(12275445934081160404, 61680, 1, 3168539979805436219);
        assert((3168539979805436219int * 3168539979805436219int) % (P as int) == 3637221273663582256) by (nonlinear_arith);
        assert((3637221273663582256int * 12275445934081160404int) % (P as int) == 2173454143271796195) by (nonlinear_arith);
    }
    assert(pow_by_squaring(12275445934081160404, 246723) == 1214334918687997890) by {
        lemma_square_step(12275445934081160404, 123361, 1, 2173454143271796195);
        assert((2173454143271796195int * 2173454143271796195int) % (P as int) == 10115547794579823426) by (nonlinear_arith);
        assert((10115547794579823426int * 12275445934081160404int) % (P as int) == 1214334918687997890) by (nonlinear_arith);
    }
    assert(pow_by_squaring(12275445934081160404, 493447) == 5013457521129386188) by {
        lemma_square_step(12275445934081160404, 246723, 1, 1214334918687997890);
        assert((1214334918687997890int * 1214334918687997890int) % (P as int) == 2331351119047787362) by (nonlinear_arith);
        assert((2331351119047787362int * 12275445934081160404int) % (P as int) == 5013457521129386188) by (nonlinear_arith);
    }
    assert(pow_by_squaring(12275445934081160404, 986895) == 15021829110735092015) by {
        lemma_square_step(12275445934081160404, 493447, 1, 5013457521129386188);
        assert((5013457521129386188int * 5013457521129386188int) % (P as int) == 12367592634475528824) by (nonlinear_arith);
        assert((12367592634475528824int * 12275445934081160404int) % (P as int) == 15021829110735092015) by (nonlinear_arith);
    }
    assert(pow_by_squaring(12275445934081160404, 1973790) == 12875054229430057774) by {
        lemma_square_step(12275445934081160404, 986895, 0, 15021829110735092015);
        assert((15021829110735092015int * 15021829110735092015int) % (P as int) == 12875054229430057774) by (nonlinear_arith);
    }
    assert(pow_by_squaring(12275445934081160404, 3947580) == 13189085413205303086) by {
        lemma_square_step(12275445934081160404, 1973790, 0, 12875054229430057774);
        assert((12875054229430057774int * 12875054229430057774int) % (P as int) == 13189085413205303086) by (nonlinear_arith);
    }
    assert(pow_by_squaring(12275445934081160404, 7895160) == 7390837058150600142) by {
        lemma_square_step(12275445934081160404, 3947580, 0, 13189085413205303086);
        assert((13189085413205303086int * 13189085413205303086int) % (P as int) == 7390837058150600142) by (nonlinear_arith);
    }
    assert(pow_by_squaring(12275445934081160404, 15790320) == 1279620912662927432) by {
        lemma_square_step(12275445934081160404, 7895160, 0, 7390837058150600142);
        assert((7390837058150600142int * 7390837058150600142int) % (P as int) == 1279620912662927432) by (nonlinear_arith);
    }
    assert(pow_by_squaring(12275445934081160404, 31580641) == 1129246164337980946) by {
        lemma_square_step(12275445934081160404, 15790320, 1, 1279620912662927432);
        assert((1279620912662927432int * 1279620912662927432int) % (P as int) == 296945591247470081) by (nonlinear_arith);
        assert((296945591247470081int * 12275445934081160404int) % (P as int) == 1129246164337980946) by (nonlinear_arith);
    }
    assert(pow_by_squaring(12275445934081160404, 63161283) == 11392130255474453357) by {
        lemma_square_step(12275445934081160404, 31580641, 1, 1129246164337980946);
        assert((1129246164337980946int * 1129246164337980946int) % (P as int) == 17769458208704991266) by (nonlinear_arith);
        assert((17769458208704991266int * 12275445934081160404int) % (P as int) == 11392130255474453357) by (nonlinear_arith);
    }
    assert(pow_by_squaring(12275445934081160404, 126322567) == 13350968192455222727) by {
        lemma_square_step(12275445934081160404, 63161283, 1, 11392130255474453357);
        assert((11392130255474453357int * 11392130255474453357int) % (P as int) == 15766643916822819967) by (nonlinear_arith);
        assert((15766643916822819967int * 12275445934081160404int) % (P as int) == 13350968192455222727) by (nonlinear_arith);
    }
    assert(pow_by_squaring(12275445934081160404, 252645135) == 16301593560560007290) by {
        lemma_square_step(12275445934081160404, 126322567, 1, 13350968192455222727);
        assert((13350968192455222727int * 13350968192455222727int) % (P as int) == 14139047897054251237) by (nonlinear_arith);
        assert((14139047897054251237int * 12275445934081160404int) % (P as int) == 16301593560560007290) by (nonlinear_arith);
    }
}

/// `DELTA^T/257` by the steps of square-and-multiply.
#[verifier::rlimit(50)]
proof fn lemma_delta_pow_t_over_257()
    ensures
        pow_by_squaring(12275445934081160404, 16711935) == 995085315851368103,
{
    lemma_delta_pow_one();
    assert(pow_by_squaring(12275445934081160404, 3) == 1279992132519201448) by {
        lemma_square_step(12275445934081160404, 1, 1, 12275445934081160404);
        assert((12275445934081160404int * 12275445934081160404int) % (P as int) == 4756475762779100925) by (nonlinear_arith);
        assert((4756475762779100925int * 12275445934081160404int) % (P as int) == 1279992132519201448)
            by (nonlinear_arith);
    }
    assert(pow_by_squaring(12275445934081160404, 7) == 4549350404001778198) by {
        lemma_square_step(12275445934081160404, 3, 1, 1279992132519201448);
        assert((1279992132519201448int * 1279992132519201448int) % (P as int) == 11302600489504509467) by (nonlinear_arith);
        assert((11302600489504509467int * 12275445934081160404int) % (P as int) == 4549350404001778198) by (nonlinear_arith);
    }
    assert(pow_by_squaring(12275445934081160404, 15) == 11274872323250451096) by {
        lemma_square_step(12275445934081160404, 7, 1, 4549350404001778198);
        assert((4549350404001778198int * 4549350404001778198int) % (P as int) == 11016800570561344835) by (nonlinear_arith);
        assert((11016800570561344835int * 12275445934081160404int) % (P as int) == 11274872323250451096) by (nonlinear_arith);
    }
    assert(pow_by_squaring(12275445934081160404, 31) == 4304519570518954644) by {
        lemma_square_step(12275445934081160404, 15, 1, 11274872323250451096);
        assert((11274872323250451096int * 11274872323250451096int) % (P as int) == 12069298394184580155) by (nonlinear_arith);
        assert((12069298394184580155int * 12275445934081160404int) % (P as int) == 4304519570518954644) by (nonlinear_arith);
    }
    assert(pow_by_squaring(12275445934081160404, 63) == 16394889243316335910) by {
        lemma_square_step(12275445934081160404, 31, 1, 4304519570518954644);
        assert((4304519570518954644int * 4304519570518954644int) % (P as int) == 12324806857078391184) by (nonlinear_arith);
        assert((12324806857078391184int * 12275445934081160404int) % (P as int) == 16394889243316335910) by (nonlinear_arith);
    }
    assert(pow_by_squaring(12275445934081160404, 127) == 3679734199234472637) by {
        lemma_square_step(12275445934081160404, 63, 1, 16394889243316335910);
        assert((16394889243316335910int * 16394889243316335910int) % (P as int) == 12473340957261074445) by (nonlinear_arith);
        assert((12473340957261074445int * 12275445934081160404int) % (P as int) == 3679734199234472637) by (nonlinear_arith);
    }
    assert(pow_by_squaring(12275445934081160404, 255) == 17588058450869219263) by {
        lemma_square_step(12275445934081160404, 127, 1, 3679734199234472637);
        assert((3679734199234472637int * 3679734199234472637int) % (P as int) == 8578194262823733392) by (nonlinear_arith);
        assert((8578194262823733392int * 12275445934081160404int) % (P as int) == 17588058450869219263) by (nonlinear_arith);
    }
    assert(pow_by_squaring(12275445934081160404, 510) == 683923235602147932) by {
        lemma_square_step(12275445934081160404, 255, 0, 17588058450869219263);
        assert((17588058450869219263int * 17588058450869219263int) % (P as int) == 683923235602147932) by (nonlinear_arith);
    }
    assert(pow_by_squaring(12275445934081160404, 1020) == 8835979233172182436) by {
        lemma_square_step(12275445934081160404, 510, 0, 683923235602147932);
        assert((683923235602147932int * 683923235602147932int) % (P as int) == 8835979233172182436) by (nonlinear_arith);
    }
    assert(pow_by_squaring(12275445934081160404, 2040) == 3355407709622930266) by {
        lemma_square_step(12275445934081160404, 1020, 0, 8835979233172182436);
        assert((8835979233172182436int * 8835979233172182436int) % (P as int) == 3355407709622930266) by (nonlinear_arith);
    }
    assert(pow_by_squaring(12275445934081160404, 4080) == 17799430507262292938) by {
        lemma_square_step(12275445934081160404, 2040, 0, 3355407709622930266);
        assert((3355407709622930266int * 3355407709622930266int) % (P as int) == 17799430507262292938) by (nonlinear_arith);
    }
    assert(pow_by_squaring(12275445934081160404, 8160) == 11182389913569094181) by {
        lemma_square_step(12275445934081160404, 4080, 0, 17799430507262292938);
        assert((17799430507262292938int * 17799430507262292938int) % (P as int) == 11182389913569094181) by (nonlinear_arith);
    }
    assert(pow_by_squaring(12275445934081160404, 16320) == 11350173437670463340) by {
        lemma_square_step(12275445934081160404, 8160, 0, 11182389913569094181);
        assert((11182389913569094181int * 11182389913569094181int) % (P as int) == 11350173437670463340) by (nonlinear_arith);
    }
    assert(pow_by_squaring(12275445934081160404, 32640) == 13348485338936455432) by {
        lemma_square_step(12275445934081160404, 16320, 0, 11350173437670463340);
        assert((11350173437670463340int * 11350173437670463340int) % (P as int) == 13348485338936455432) by (nonlinear_arith);
    }
    assert(pow_by_squaring(12275445934081160404, 65280) == 13464544557546266752) by {
        lemma_square_step(12275445934081160404, 32640, 0, 13348485338936455432);
        assert((13348485338936455432int * 13348485338936455432int) % (P as int) == 13464544557546266752) by (nonlinear_arith);
    }
    assert(pow_by_squaring(12275445934081160404, 130561) == 1513428289589361160) by {
        lemma_square_step(12275445934081160404, 65280, 1, 13464544557546266752);
        assert((13464544557546266752int * 13464544557546266752int) % (P as int) == 2636486945714830121) by (nonlinear_arith);
        assert((2636486945714830121int * 12275445934081160404int) % (P as int) == 1513428289589361160) by (nonlinear_arith);
    }
    assert(pow_by_squaring(12275445934081160404, 261123) == 4375310131417860027) by {
        lemma_square_step(12275445934081160404, 130561, 1, 1513428289589361160);
        assert((1513428289589361160int * 1513428289589361160int) % (P as int) == 9328946377164922880) by (nonlinear_arith);
        assert((9328946377164922880int * 12275445934081160404int) % (P as int) == 4375310131417860027) by (nonlinear_arith);
    }
    assert(pow_by_squaring(12275445934081160404, 522247) == 2157233494186566964) by {
        lemma_square_step(12275445934081160404, 261123, 1, 4375310131417860027);
        assert((4375310131417860027int * 4375310131417860027int) % (P as int) == 2804087297162569030) by (nonlinear_arith);
        assert((2804087297162569030int * 12275445934081160404int) % (P as int) == 2157233494186566964) by (nonlinear_arith);
    }
    assert(pow_by_squaring(12275445934081160404, 1044495) == 18009115704370032030) by {
        lemma_square_step(12275445934081160404, 522247, 1, 2157233494186566964);
        assert((2157233494186566964int * 2157233494186566964int) % (P as int) == 6471035013242133362) by (nonlinear_arith);
        assert((6471035013242133362int * 12275445934081160404int) % (P as int) == 18009115704370032030) by (nonlinear_arith);
    }
    assert(pow_by_squaring(12275445934081160404, 2088991) == 12804583452587087305) by {
        lemma_square_step(12275445934081160404, 1044495, 1, 18009115704370032030);
        assert((18009115704370032030int * 18009115704370032030int) % (P as int) == 3075563262800370696) by (nonlinear_arith);
        assert((3075563262800370696int * 12275445934081160404int) % (P as int) == 12804583452587087305) by (nonlinear_arith);
    }
    assert(pow_by_squaring(12275445934081160404, 4177983) == 16894534560283711836) by {
        lemma_square_step(12275445934081160404, 2088991, 1, 12804583452587087305);
        assert((12804583452587087305int * 12804583452587087305int) % (P as int) == 4733907453246213470) by (nonlinear_arith);
        assert((4733907453246213470int * 12275445934081160404int) % (P as int) == 16894534560283711836) by (nonlinear_arith);
    }
    assert(pow_by_squaring(12275445934081160404, 8355967) == 17537846203270146108) by {
        lemma_square_step(12275445934081160404, 4177983, 1, 16894534560283711836);
        assert((16894534560283711836int * 16894534560283711836int) % (P as int) == 4248078958172097799) by (nonlinear_arith);
        assert((4248078958172097799int * 12275445934081160404int) % (P as int) == 17537846203270146108) by (nonlinear_arith);
    }
    assert(pow_by_squaring(12275445934081160404, 16711935) == 995085315851368103) by {
        lemma_square_step(12275445934081160404, 8355967, 1, 17537846203270146108);
        assert((17537846203270146108int * 17537846203270146108int) % (P as int) == 3324089624542632827) by (nonlinear_arith);
        assert((3324089624542632827int * 12275445934081160404int) % (P as int) == 995085315851368103) by (nonlinear_arith);
    }
}

/// `DELTA^T/65537` by the steps of square-and-multiply.
#[verifier::rlimit(50)]
proof fn lemma_delta_pow_t_over_65537()
    ensures
        pow_by_squaring(12275445934081160404, 65535) == 8478886009461009681,
{
    lemma_delta_pow_one();
    assert(pow_by_squaring(12275445934081160404, 3) == 1279992132519201448) by {
        lemma_square_step(12275445934081160404, 1, 1, 12275445934081160404);
        assert((12275445934081160404int * 12275445934081160404int) % (P as int) == 4756475762779100925) by (nonlinear_arith);
        assert((4756475762779100925int * 12275445934081160404int) % (P as int) == 1279992132519201448)
            by (nonlinear_arith);
    }
    assert(pow_by_squaring(12275445934081160404, 7) == 4549350404001778198) by {
        lemma_square_step(12275445934081160404, 3, 1, 1279992132519201448);
        assert((1279992132519201448int * 1279992132519201448int) % (P as int) == 11302600489504509467) by (nonlinear_arith);
        assert((11302600489504509467int * 12275445934081160404int) % (P as int) == 4549350404001778198) by (nonlinear_arith);
    }
    assert(pow_by_squaring(12275445934081160404, 15) == 11274872323250451096) by {
        lemma_square_step(12275445934081160404, 7, 1, 4549350404001778198);
        assert((4549350404001778198int * 4549350404001778198int) % (P as int) == 11016800570561344835) by (nonlinear_arith);
        assert((11016800570561344835int * 12275445934081160404int) % (P as int) == 11274872323250451096) by (nonlinear_arith);
    }
    assert(pow_by_squaring(12275445934081160404, 31) == 4304519570518954644) by {
        lemma_square_step(12275445934081160404, 15, 1, 11274872323250451096);
        assert((11274872323250451096int * 11274872323250451096int) % (P as int) == 12069298394184580155) by (nonlinear_arith);
        assert((12069298394184580155int * 12275445934081160404int) % (P as int) == 4304519570518954644) by (nonlinear_arith);
    }
    assert(pow_by_squaring(12275445934081160404, 63) == 16394889243316335910) by {
        lemma_square_step(12275445934081160404, 31, 1, 4304519570518954644);
        assert((4304519570518954644int * 4304519570518954644int) % (P as int) == 12324806857078391184) by (nonlinear_arith);
        assert((12324806857078391184int * 12275445934081160404int) % (P as int) == 16394889243316335910) by (nonlinear_arith);
    }
    assert(pow_by_squaring(12275445934081160404, 127) == 3679734199234472637) by {
        lemma_square_step(12275445934081160404, 63, 1, 16394889243316335910);
        assert((16394889243316335910int * 16394889243316335910int) % (P as int) == 12473340957261074445) by (nonlinear_arith);
        assert((12473340957261074445int * 12275445934081160404int) % (P as int) == 3679734199234472637) by (nonlinear_arith);
    }
    assert(pow_by_squaring(12275445934081160404, 255) == 17588058450869219263) by {
        lemma_square_step(12275445934081160404, 127, 1, 3679734199234472637);
        assert((3679734199234472637int * 3679734199234472637int) % (P as int) == 8578194262823733392) by (nonlinear_arith);
        assert((8578194262823733392int * 12275445934081160404int) % (P as int) == 17588058450869219263) by (nonlinear_arith);
    }
    assert(pow_by_squaring(12275445934081160404, 511) == 13474118253388618134) by {
        lemma_square_step(12275445934081160404, 255, 1, 17588058450869219263);
        assert((17588058450869219263int * 17588058450869219263int) % (P as int) == 683923235602147932) by (nonlinear_arith);
        assert((683923235602147932int * 12275445934081160404int) % (P as int) == 13474118253388618134) by (nonlinear_arith);
    }
    assert(pow_by_squaring(12275445934081160404, 1023) == 3424231069583294856) by {
        lemma_square_step(12275445934081160404, 511, 1, 13474118253388618134);
        assert((13474118253388618134int * 13474118253388618134int) % (P as int) == 9597581785288495783) by (nonlinear_arith);
        assert((9597581785288495783int * 12275445934081160404int) % (P as int) == 3424231069583294856) by (nonlinear_arith);
    }
    assert(pow_by_squaring(12275445934081160404, 2047) == 3212278696635431411) by {
        lemma_square_step(12275445934081160404, 1023, 1, 3424231069583294856);
        assert((3424231069583294856int * 3424231069583294856int) % (P as int) == 4346132479700773704) by (nonlinear_arith);
        assert((4346132479700773704int * 12275445934081160404int) % (P as int) == 3212278696635431411) by (nonlinear_arith);
    }
    assert(pow_by_squaring(12275445934081160404, 4095) == 8674491644268464123) by {
        lemma_square_step(12275445934081160404, 2047, 1, 3212278696635431411);
        assert((3212278696635431411int * 3212278696635431411int) % (P as int) == 16719443524623950531) by (nonlinear_arith);
        assert((16719443524623950531int * 12275445934081160404int) % (P as int) == 8674491644268464123) by (nonlinear_arith);
    }
    assert(pow_by_squaring(12275445934081160404, 8191) == 7614671795105477622) by {
        lemma_square_step(12275445934081160404, 4095, 1, 8674491644268464123);
        assert((8674491644268464123int * 8674491644268464123int) % (P as int) == 6277783851271942210) by (nonlinear_arith);
        assert((6277783851271942210int * 12275445934081160404int) % (P as int) == 7614671795105477622) by (nonlinear_arith);
    }
    assert(pow_by_squaring(12275445934081160404, 16383) == 565825823434018290) by {
        lemma_square_step(12275445934081160404, 8191, 1, 7614671795105477622);
        assert((7614671795105477622int * 7614671795105477622int) % (P as int) == 8462854283528089452) by (nonlinear_arith);
        assert((8462854283528089452int * 12275445934081160404int) % (P as int) == 565825823434018290) by (nonlinear_arith);
    }
    assert(pow_by_squaring(12275445934081160404, 32767) == 1614949354278806530) by {
        lemma_square_step(12275445934081160404, 16383, 1, 565825823434018290);
        assert((565825823434018290int * 565825823434018290int) % (P as int) == 4756329067240810750) by (nonlinear_arith);
        assert((4756329067240810750int * 12275445934081160404int) % (P as int) == 1614949354278806530) by (nonlinear_arith);
    }
    assert(pow_by_squaring(12275445934081160404, 65535) == 8478886009461009681) by {
        lemma_square_step(12275445934081160404, 32767, 1, 1614949354278806530);
        assert((1614949354278806530int * 1614949354278806530int) % (P as int) == 2104588347148204427) by (nonlinear_arith);
        assert((2104588347148204427int * 12275445934081160404int) % (P as int) == 8478886009461009681) by (nonlinear_arith);
    }
}

/// `g^1 = g` for the root of unity `g`.
proof fn lemma_root_pow_one()
    ensures
        pow_by_squaring(1753635133440165772, 1) == 1753635133440165772,
{
    assert(pow_by_squaring(1753635133440165772, 0) == 1) by {
        reveal(pow_by_squaring);
    }
    lemma_square_step(1753635133440165772, 0, 1, 1);
    lemma_small_mod(1, P as nat);
    lemma_small_mod(1753635133440165772, P as nat);
}

/// `g^((p - 1) / 2)` by the steps of square-and-multiply.
#[verifier::rlimit(50)]
proof fn lemma_root_pow_half()
    ensures
        pow_by_squaring(1753635133440165772, 9223372034707292160) == 18446744069414584320,
{
    lemma_root_pow_one();
    assert(pow_by_squaring(1753635133440165772, 3) == 3607031617444012685) by {
        lemma_square_step(1753635133440165772, 1, 1, 1753635133440165772);
        assert((1753635133440165772int * 1753635133440165772int) % (P as int) == 4614640910117430873) by (nonlinear_arith);
        assert((4614640910117430873int * 1753635133440165772int) % (P as int) == 3607031617444012685) by (nonlinear_arith);
    }
    assert(pow_by_squaring(1753635133440165772, 7) == 14317201794110273340) by {
        lemma_square_step(1753635133440165772, 3, 1, 3607031617444012685);
        assert((3607031617444012685int * 3607031617444012685int) % (P as int) == 1724681388026931954) by (nonlinear_arith);
        assert((1724681388026931954int * 1753635133440165772int) % (P as int) == 14317201794110273340) by (nonlinear_arith);
    }
    assert(pow_by_squaring(1753635133440165772, 15) == 9692796995074446256) by {
        lemma_square_step(1753635133440165772, 7, 1, 14317201794110273340);
        assert((14317201794110273340int * 14317201794110273340int) % (P as int) == 17566070121962402191) by (nonlinear_arith);
        assert((17566070121962402191int * 1753635133440165772int) % (P as int) == 9692796995074446256) by (nonlinear_arith);
    }
    assert(pow_by_squaring(1753635133440165772, 31) == 5515683268495679085) by {
        lemma_square_step(1753635133440165772, 15, 1, 9692796995074446256);
        assert((9692796995074446256int * 9692796995074446256int) % (P as int) == 8711334676630514577) by (nonlinear_arith);
        assert((8711334676630514577int * 1753635133440165772int) % (P as int) == 5515683268495679085) by (nonlinear_arith);
    }
    assert(pow_by_squaring(1753635133440165772, 63) == 8656037360233883965) by {
        lemma_square_step(1753635133440165772, 31, 1, 5515683268495679085);
        assert((5515683268495679085int * 5515683268495679085int) % (P as int) == 12115657055300743389) by (nonlinear_arith);
        assert((12115657055300743389int * 1753635133440165772int) % (P as int) == 8656037360233883965) by (nonlinear_arith);
    }
    assert(pow_by_squaring(1753635133440165772, 127) == 8424748649948273141) by {
        lemma_square_step(1753635133440165772, 63, 1, 8656037360233883965);
        assert((8656037360233883965int * 8656037360233883965int) % (P as int) == 10214747765813793944) by (nonlinear_arith);
        assert((10214747765813793944int * 1753635133440165772int) % (P as int) == 8424748649948273141) by (nonlinear_arith);
    }
    assert(pow_by_squaring(1753635133440165772, 255) == 2094455849362149195) by {
        lemma_square_step(1753635133440165772, 127, 1, 8424748649948273141);
        assert((8424748649948273141int * 8424748649948273141int) % (P as int) == 15732077205380768077) by (nonlinear_arith);
        assert((15732077205380768077int * 1753635133440165772int) % (P as int) == 2094455849362149195) by (nonlinear_arith);
    }
    assert(pow_by_squaring(1753635133440165772, 511) == 17540496349006741373) by {
        lemma_square_step(1753635133440165772, 255, 1, 2094455849362149195);
        assert((2094455849362149195int * 2094455849362149195int) % (P as int) == 12678112612692958791) by (nonlinear_arith);
        assert((12678112612692958791int * 1753635133440165772int) % (P as int) == 17540496349006741373) by (nonlinear_arith);
    }
    assert(pow_by_squaring(1753635133440165772, 1023) == 9554061216350731150) by {
        lemma_square_step(1753635133440165772, 511, 1, 17540496349006741373);
        assert((17540496349006741373int * 17540496349006741373int) % (P as int) == 212333125219015630) by (nonlinear_arith);
        assert((212333125219015630int * 1753635133440165772int) % (P as int) == 9554061216350731150) by (nonlinear_arith);
    }
    assert(pow_by_squaring(1753635133440165772, 2047) == 11417763610976780076) by {
        lemma_square_step(1753635133440165772, 1023, 1, 9554061216350731150);
        assert((9554061216350731150int * 9554061216350731150int) % (P as int) == 16575760390988404062) by (nonlinear_arith);
        assert((16575760390988404062int * 1753635133440165772int) % (P as int) == 11417763610976780076) by (nonlinear_arith);
    }
    assert(pow_by_squaring(1753635133440165772, 4095) == 803629157164511791) by {
        lemma_square_step(1753635133440165772, 2047, 1, 11417763610976780076);
        assert((11417763610976780076int * 11417763610976780076int) % (P as int) == 3165337240979381730) by (nonlinear_arith);
        assert((3165337240979381730int * 1753635133440165772int) % (P as int) == 803629157164511791) by (nonlinear_arith);
    }
    assert(pow_by_squaring(1753635133440165772, 8191) == 11235060034193425761) by {
        lemma_square_step(1753635133440165772, 4095, 1, 803629157164511791);
        assert((803629157164511791int * 803629157164511791int) % (P as int) == 8980490164084084102) by (nonlinear_arith);
        assert((8980490164084084102int * 1753635133440165772int) % (P as int) == 11235060034193425761) by (nonlinear_arith);
    }
    assert(pow_by_squaring(1753635133440165772, 16383) == 1112354794958319240) by {
        lemma_square_step(1753635133440165772, 8191, 1, 11235060034193425761);
        assert((11235060034193425761int * 11235060034193425761int) % (P as int) == 4893611644431508865) by (nonlinear_arith);
        assert((4893611644431508865int * 1753635133440165772int) % (P as int) == 1112354794958319240) by (nonlinear_arith);
    }
    assert(pow_by_squaring(1753635133440165772, 32767) == 7627140008089870463) by {
        lemma_square_step(1753635133440165772, 16383, 1, 1112354794958319240);
        assert((1112354794958319240int * 1112354794958319240int) % (P as int) == 13411715797375822963) by (nonlinear_arith);
        assert((13411715797375822963int * 1753635133440165772int) % (P as int) == 7627140008089870463) by (nonlinear_arith);
    }
    assert(pow_by_squaring(1753635133440165772, 65535) == 2013889709944146394) by {
        lemma_square_step(1753635133440165772, 32767, 1, 7627140008089870463);
        assert((7627140008089870463int * 7627140008089870463int) % (P as int) == 2482492153716507275) by (nonlinear_arith);
        assert((2482492153716507275int * 1753635133440165772int) % (P as int) == 2013889709944146394) by (nonlinear_arith);
    }
    assert(pow_by_squaring(1753635133440165772, 131071) == 13521420880235083979) by {
        lemma_square_step(1753635133440165772, 65535, 1, 2013889709944146394);
        assert((2013889709944146394int * 2013889709944146394int) % (P as int) == 536447651946770518) by (nonlinear_arith);
        assert((536447651946770518int * 1753635133440165772int) % (P as int) == 13521420880235083979) by (nonlinear_arith);
    }
    assert(pow_by_squaring(1753635133440165772, 262143) == 11291247680811480103) by {
        lemma_square_step(1753635133440165772, 131071, 1, 13521420880235083979);
        assert((13521420880235083979int * 13521420880235083979int) % (P as int) == 3359860856870349578) by (nonlinear_arith);
        assert((3359860856870349578int * 1753635133440165772int) % (P as int) == 11291247680811480103) by (nonlinear_arith);
    }
    assert(pow_by_squaring(1753635133440165772, 524287) == 12628006863146267587) by {
        lemma_square_step(1753635133440165772, 262143, 1, 11291247680811480103);
        assert((11291247680811480103int * 11291247680811480103int) % (P as int) == 11424960945187517976) by (nonlinear_arith);
        assert((11424960945187517976int * 1753635133440165772int) % (P as int) == 12628006863146267587) by (nonlinear_arith);
    }
    assert(pow_by_squaring(1753635133440165772, 1048575) == 12361218918048973352) by {
        lemma_square_step(1753635133440165772, 524287, 1, 12628006863146267587);
        assert((12628006863146267587int * 12628006863146267587int) % (P as int) == 7908034882014002903) by (nonlinear_arith);
        assert((7908034882014002903int * 1753635133440165772int) % (P as int) == 12361218918048973352) by (nonlinear_arith);
    }
    assert(pow_by_squaring(1753635133440165772, 2097151) == 1216240445736867014) by {
        lemma_square_step(1753635133440165772, 1048575, 1, 12361218918048973352);
        assert((12361218918048973352int * 12361218918048973352int) % (P as int) == 17926389081456542759) by (nonlinear_arith);
        assert((17926389081456542759int * 1753635133440165772int) % (P as int) == 1216240445736867014) by (nonlinear_arith);
    }
    assert(pow_by_squaring(1753635133440165772, 4194303) == 4695908644418000988) by {
        lemma_square_step(1753635133440165772, 2097151, 1, 1216240445736867014);
        assert((1216240445736867014int * 1216240445736867014int) % (P as int) == 14367846676366324517) by (nonlinear_arith);
        assert((14367846676366324517int * 1753635133440165772int) % (P as int) == 4695908644418000988) by (nonlinear_arith);
    }
    assert(pow_by_squaring(1753635133440165772, 8388607) == 831574167535158456) by {
        lemma_square_step(1753635133440165772, 4194303, 1, 4695908644418000988);
        assert((4695908644418000988int * 4695908644418000988int) % (P as int) == 4973608039639887378) by (nonlinear_arith);
        assert((4973608039639887378int * 1753635133440165772int) % (P as int) == 831574167535158456) by (nonlinear_arith);
    }
    assert(pow_by_squaring(1753635133440165772, 16777215) == 10247648629519550825) by {
        lemma_square_step(1753635133440165772, 8388607, 1, 831574167535158456);
        assert((831574167535158456int * 831574167535158456int) % (P as int) == 12021989612172041358) by (nonlinear_arith);
        assert((12021989612172041358int * 1753635133440165772int) % (P as int) == 10247648629519550825) by (nonlinear_arith);
    }
    assert(pow_by_squaring(1753635133440165772, 33554431) == 15393351255250580172) by {
        lemma_square_step(1753635133440165772, 16777215, 1, 10247648629519550825);
        assert((10247648629519550825int * 10247648629519550825int) % (P as int) == 12414985160316997557) by (nonlinear_arith);
        assert((12414985160316997557int * 1753635133440165772int) % (P as int) == 15393351255250580172) by (nonlinear_arith);
    }
    assert(pow_by_squaring(1753635133440165772, 67108863) == 15681154960301810922) by {
        lemma_square_step(1753635133440165772, 33554431, 1, 15393351255250580172);
        assert((15393351255250580172int * 15393351255250580172int) % (P as int) == 4249653935562404472) by (nonlinear_arith);
        assert((4249653935562404472int * 1753635133440165772int) % (P as int) == 15681154960301810922) by (nonlinear_arith);
    }
    assert(pow_by_squaring(1753635133440165772, 134217727) == 2433670385039594049) by {
        lemma_square_step(1753635133440165772, 67108863, 1, 15681154960301810922);
        assert((15681154960301810922int * 15681154960301810922int) % (P as int) == 4737816011675869523) by (nonlinear_arith);
        assert((4737816011675869523int * 1753635133440165772int) % (P as int) == 2433670385039594049) by (nonlinear_arith);
    }
    assert(pow_by_squaring(1753635133440165772, 268435455) == 1481745362088309717) by {
        lemma_square_step(1753635133440165772, 134217727, 1, 2433670385039594049);
        assert((2433670385039594049int * 2433670385039594049int) % (P as int) == 5211983700459740986) by (nonlinear_arith);
        assert((5211983700459740986int * 1753635133440165772int) % (P as int) == 1481745362088309717) by (nonlinear_arith);
    }
    assert(pow_by_squaring(1753635133440165772, 536870911) == 14542770542428468919) by {
        lemma_square_step(1753635133440165772, 268435455, 1, 1481745362088309717);
        assert((1481745362088309717int * 1481745362088309717int) % (P as int) == 7273183707363918061) by (nonlinear_arith);
        assert((7273183707363918061int * 1753635133440165772int) % (P as int) == 14542770542428468919) by (nonlinear_arith);
    }
    assert(pow_by_squaring(1753635133440165772, 1073741823) == 4417669479183012429) by {
        lemma_square_step(1753635133440165772, 536870911, 1, 14542770542428468919);
        assert((14542770542428468919int * 14542770542428468919int) % (P as int) == 17553758886444724107) by (nonlinear_arith);
        assert((17553758886444724107int * 1753635133440165772int) % (P as int) == 4417669479183012429) by (nonlinear_arith);
    }
    assert(pow_by_squaring(1753635133440165772, 2147483647) == 9892519185358223592) by {
        lemma_square_step(1753635133440165772, 1073741823, 1, 4417669479183012429);
        assert((4417669479183012429int * 4417669479183012429int) % (P as int) == 7655859214007073024) by (nonlinear_arith);
        assert((7655859214007073024int * 1753635133440165772int) % (P as int) == 9892519185358223592) by (nonlinear_arith);
    }
    assert(pow_by_squaring(1753635133440165772, 4294967295) == 8554224884056360729) by {
        lemma_square_step(1753635133440165772, 2147483647, 1, 9892519185358223592);
        assert((9892519185358223592int * 9892519185358223592int) % (P as int) == 10790884855407511297) by (nonlinear_arith);
        assert((10790884855407511297int * 1753635133440165772int) % (P as int) == 8554224884056360729) by (nonlinear_arith);
    }
    assert(pow_by_squaring(1753635133440165772, 8589934590) == 10790884855407511297) by {
        lemma_square_step(1753635133440165772, 4294967295, 0, 8554224884056360729);
        assert((8554224884056360729int * 8554224884056360729int) % (P as int) == 10790884855407511297) by (nonlinear_arith);
    }
    assert(pow_by_squaring(1753635133440165772, 17179869180) == 16303955383020744715) by {
        lemma_square_step(1753635133440165772, 8589934590, 0, 10790884855407511297);
        assert((10790884855407511297int * 10790884855407511297int) % (P as int) == 16303955383020744715) by (nonlinear_arith);
    }
    assert(pow_by_squaring(1753635133440165772, 34359738360) == 16488041148801377373) by {
        lemma_square_step(1753635133440165772, 17179869180, 0, 16303955383020744715);
        assert((16303955383020744715int * 16303955383020744715int) % (P as int) == 16488041148801377373) by (nonlinear_arith);
    }
    assert(pow_by_squaring(1753635133440165772, 68719476720) == 4514835231089717636) by {
        lemma_square_step(1753635133440165772, 34359738360, 0, 16488041148801377373);
        assert((16488041148801377373int * 16488041148801377373int) % (P as int) == 4514835231089717636) by (nonlinear_arith);
    }
    assert(pow_by_squaring(1753635133440165772, 137438953440) == 10516896061424301529) by {
        lemma_square_step(1753635133440165772, 68719476720, 0, 4514835231089717636);
        assert((4514835231089717636int * 4514835231089717636int) % (P as int) == 10516896061424301529) by (nonlinear_arith);
    }
    assert(pow_by_squaring(1753635133440165772, 274877906880) == 16884827967813875098) by {
        lemma_square_step(1753635133440165772, 137438953440, 0, 10516896061424301529);
        assert((10516896061424301529int * 10516896061424301529int) % (P as int) == 16884827967813875098) by (nonlinear_arith);
    }
    assert(pow_by_squaring(1753635133440165772, 549755813760) == 13843946492009319323) by {
        lemma_square_step(1753635133440165772, 274877906880, 0, 16884827967813875098);
        assert((16884827967813875098int * 16884827967813875098int) % (P as int) == 13843946492009319323) by (nonlinear_arith);
    }
    assert(pow_by_squaring(1753635133440165772, 1099511627520) == 1219213613525454263) by {
        lemma_square_step(1753635133440165772, 549755813760, 0, 13843946492009319323);
        assert((13843946492009319323int * 13843946492009319323int) % (P as int) == 1219213613525454263) by (nonlinear_arith);
    }
    assert(pow_by_squaring(1753635133440165772, 2199023255040) == 5456584715443070302) by {
        lemma_square_step(1753635133440165772, 1099511627520, 0, 1219213613525454263);
        assert((1219213613525454263int * 1219213613525454263int) % (P as int) == 5456584715443070302) by (nonlinear_arith);
    }
    assert(pow_by_squaring(1753635133440165772, 4398046510080) == 15307271466853436433) by {
        lemma_square_step(1753635133440165772, 2199023255040, 0, 5456584715443070302);
        assert((5456584715443070302int * 5456584715443070302int) % (P as int) == 15307271466853436433) by (nonlinear_arith);
    }
    assert(pow_by_squaring(1753635133440165772, 8796093020160) == 11898519751787946856) by {
        lemma_square_step(1753635133440165772, 4398046510080, 0, 15307271466853436433);
        assert((15307271466853436433int * 15307271466853436433int) % (P as int) == 11898519751787946856) by (nonlinear_arith);
    }
    assert(pow_by_squaring(1753635133440165772, 17592186040320) == 17260140776825220475) by {
        lemma_square_step(1753635133440165772, 8796093020160, 0, 11898519751787946856);
        assert((11898519751787946856int * 11898519751787946856int) % (P as int) == 17260140776825220475) by (nonlinear_arith);
    }
    assert(pow_by_squaring(1753635133440165772, 35184372080640) == 5089696809409609209) by {
        lemma_square_step(1753635133440165772, 17592186040320, 0, 17260140776825220475);
        assert((17260140776825220475int * 17260140776825220475int) % (P as int) == 5089696809409609209) by (nonlinear_arith);
    }
    assert(pow_by_squaring(1753635133440165772, 70368744161280) == 2513567076326282710) by {
        lemma_square_step(1753635133440165772, 35184372080640, 0, 5089696809409609209);
        assert((5089696809409609209int * 5089696809409609209int) % (P as int) == 2513567076326282710) by (nonlinear_arith);
    }
    assert(pow_by_squaring(1753635133440165772, 140737488322560) == 14744321562856667967) by {
        lemma_square_step(1753635133440165772, 70368744161280, 0, 2513567076326282710);
        assert((2513567076326282710int * 2513567076326282710int) % (P as int) == 14744321562856667967) by (nonlinear_arith);
    }
    assert(pow_by_squaring(1753635133440165772, 281474976645120) == 7868944258580147481) by {
        lemma_square_step(1753635133440165772, 140737488322560, 0, 14744321562856667967);
        assert((14744321562856667967int * 14744321562856667967int) % (P as int) == 7868944258580147481) by (nonlinear_arith);
    }
    assert(pow_by_squaring(1753635133440165772, 562949953290240) == 1553425662128427817) by {
        lemma_square_step(1753635133440165772, 281474976645120, 0, 7868944258580147481);
        assert((7868944258580147481int * 7868944258580147481int) % (P as int) == 1553425662128427817) by (nonlinear_arith);
    }
    assert(pow_by_squaring(1753635133440165772, 1125899906580480) == 4654242210262998966) by {
        lemma_square_step(1753635133440165772, 562949953290240, 0, 1553425662128427817);
        assert((1553425662128427817int * 1553425662128427817int) % (P as int) == 4654242210262998966) by (nonlinear_arith);
    }
    assert(pow_by_squaring(1753635133440165772, 2251799813160960) == 3968367389790187850) by {
        lemma_square_step(1753635133440165772, 1125899906580480, 0, 4654242210262998966);
        assert((4654242210262998966int * 4654242210262998966int) % (P as int) == 3968367389790187850) by (nonlinear_arith);
    }
    assert(pow_by_squaring(1753635133440165772, 4503599626321920) == 11164456749895610016) by {
        lemma_square_step(1753635133440165772, 2251799813160960, 0, 3968367389790187850);
        assert((3968367389790187850int * 3968367389790187850int) % (P as int) == 11164456749895610016) by (nonlinear_arith);
    }
    assert(pow_by_squaring(1753635133440165772, 9007199252643840) == 8548973421900915981) by {
        lemma_square_step(1753635133440165772, 4503599626321920, 0, 11164456749895610016);
        assert((11164456749895610016int * 11164456749895610016int) % (P as int) == 8548973421900915981) by (nonlinear_arith);
    }
    assert(pow_by_squaring(1753635133440165772, 18014398505287680) == 4295002282146690441) by {
        lemma_square_step(1753635133440165772, 9007199252643840, 0, 8548973421900915981);
        assert((8548973421900915981int * 8548973421900915981int) % (P as int) == 4295002282146690441) by (nonlinear_arith);
    }
    assert(pow_by_squaring(1753635133440165772, 36028797010575360) == 4459017075746761332) by {
        lemma_square_step(1753635133440165772, 18014398505287680, 0, 4295002282146690441);
        assert((4295002282146690441int * 4295002282146690441int) % (P as int) == 4459017075746761332) by (nonlinear_arith);
    }
    assert(pow_by_squaring(1753635133440165772, 72057594021150720) == 2117504431143841456) by {
        lemma_square_step(1753635133440165772, 36028797010575360, 0, 4459017075746761332);
        assert((4459017075746761332int * 4459017075746761332int) % (P as int) == 2117504431143841456) by (nonlinear_arith);
    }
    assert(pow_by_squaring(1753635133440165772, 144115188042301440) == 18442240469787213841) by {
        lemma_square_step(1753635133440165772, 72057594021150720, 0, 2117504431143841456);
        assert((2117504431143841456int * 2117504431143841456int) % (P as int) == 18442240469787213841) by (nonlinear_arith);
    }
    assert(pow_by_squaring(1753635133440165772, 288230376084602880) == 18302628881338728449) by {
        lemma_square_step(1753635133440165772, 144115188042301440, 0, 18442240469787213841);
        assert((18442240469787213841int * 18442240469787213841int) % (P as int) == 18302628881338728449) by (nonlinear_arith);
    }
    assert(pow_by_squaring(1753635133440165772, 576460752169205760) == 18446744069414322177) by {
        lemma_square_step(1753635133440165772, 288230376084602880, 0, 18302628881338728449);
        assert((18302628881338728449int * 18302628881338728449int) % (P as int) == 18446744069414322177) by (nonlinear_arith);
    }
    assert(pow_by_squaring(1753635133440165772, 1152921504338411520) == 68719476736) by {
        lemma_square_step(1753635133440165772, 576460752169205760, 0, 18446744069414322177);
        assert((18446744069414322177int * 18446744069414322177int) % (P as int) == 68719476736) by (nonlinear_arith);
    }
    assert(pow_by_squaring(1753635133440165772, 2305843008676823040) == 1099511627520) by {
        lemma_square_step(1753635133440165772, 1152921504338411520, 0, 68719476736);
        assert((68719476736int * 68719476736int) % (P as int) == 1099511627520) by (nonlinear_arith);
    }
    assert(pow_by_squaring(1753635133440165772, 4611686017353646080) == 18446462594437873665) by {
        lemma_square_step(1753635133440165772, 2305843008676823040, 0, 1099511627520);
        assert((1099511627520int * 1099511627520int) % (P as int) == 18446462594437873665) by (nonlinear_arith);
    }
    assert(pow_by_squaring(1753635133440165772, 9223372034707292160) == 18446744069414584320) by {
        lemma_square_step(1753635133440165772, 4611686017353646080, 0, 18446462594437873665);
        assert((18446462594437873665int * 18446462594437873665int) % (P as int) == 18446744069414584320) by (nonlinear_arith);
    }
}

/// The root of unity `g` is a quadratic non-residue by Euler's criterion:
/// `g^((p - 1) / 2) = -1`.
pub proof fn lemma_root_of_unity_euler()
    ensures
        residue(pow(ROOT_OF_UNITY_VALUE as int, ((P - 1) / 2) as nat)) == P - 1,
{
    lemma_pow_by_squaring(ROOT_OF_UNITY_VALUE as int, ((P - 1) / 2) as nat);
    lemma_root_pow_half();
}

/// `DELTA` has order exactly `T`: `DELTA^T = 1`, and `DELTA^(T/q) != 1` for
/// each prime `q` dividing `T = 3 * 5 * 17 * 257 * 65537`.
pub proof fn lemma_delta_order()
    ensures
        3 * 5 * 17 * 257 * 65537 == T,
        residue(pow(DELTA_VALUE as int, T as nat)) == 1,
        residue(pow(DELTA_VALUE as int, (T / 3) as nat)) != 1,
        residue(pow(DELTA_VALUE as int, (T / 5) as nat)) != 1,
        residue(pow(DELTA_VALUE as int, (T / 17) as nat)) != 1,
        residue(pow(DELTA_VALUE as int, (T / 257) as nat)) != 1,
        residue(pow(DELTA_VALUE as int, (T / 65537) as nat)) != 1,
{
    let d = DELTA_VALUE as int;
    lemma_pow_by_squaring(d, T as nat);
    lemma_pow_by_squaring(d, (T / 3) as nat);
    lemma_pow_by_squaring(d, (T / 5) as nat);
    lemma_pow_by_squaring(d, (T / 17) as nat);
    lemma_pow_by_squaring(d, (T / 257) as nat);
    lemma_pow_by_squaring(d, (T / 65537) as nat);
    lemma_delta_pow_t();
    lemma_delta_pow_t_over_3();
    lemma_delta_pow_t_over_5();
    lemma_delta_pow_t_over_17();
    lemma_delta_pow_t_over_257();
    lemma_delta_pow_t_over_65537();
}

/// `a^1 = a`, `a^0 = 1`, and `a^e * a^f = a^(e + f)` where the limbs of `g`
/// write the sum of the integers that `e` and `f` write.
pub proof fn lemma_pow_laws(a: Fp, e: [u64; 4], f: [u64; 4], g: [u64; 4])
    requires
        a.wf(),
        limbs_value(g@) == limbs_value(e@) + limbs_value(f@),
    ensures
        residue(pow(a.value(), limbs_value(seq![1u64, 0u64, 0u64, 0u64]))) == a.value(),
        residue(pow(a.value(), limbs_value(seq![0u64, 0u64, 0u64, 0u64]))) == 1,
        residue(residue(pow(a.value(), limbs_value(e@))) * residue(pow(a.value(), limbs_value(f@))))
            == residue(pow(a.value(), limbs_value(g@))),
{
    reveal_with_fuel(limbs_from, 5);
    a.lemma_range();
    lemma_pow1(a.value());
    lemma_pow0(a.value());
    lemma_small_mod(a.value() as nat, P as nat);
    lemma_small_mod(1, P as nat);
    lemma_pow_mod_mul(a.value(), limbs_value(e@), limbs_value(f@), modulus());
}

/// Reducing a `u128` below `p` and taking the low 128 bits gives it back.
pub proof fn lemma_lower_128_round_trip(v: u128)
    requires
        (v as int) < modulus(),
    ensures
        residue(v as int) == v,
{
    lemma_small_mod(v as nat, P as nat);
}

/// In any field: addition and multiplication are commutative and
/// associative, multiplication distributes over addition, and 0 and 1 are
/// the identities.
pub proof fn lemma_field_axioms<F: FieldExt>(a: F, b: F, c: F)
    requires
        a.well_formed(),
        b.well_formed(),
        c.well_formed(),
    ensures
        (a.repr() + b.repr()) % F::order() == (b.repr() + a.repr()) % F::order(),
        ((a.repr() + b.repr()) % F::order() + c.repr()) % F::order() == (a.repr() + (b.repr()
            + c.repr()) % F::order()) % F::order(),
        (a.repr() * b.repr()) % F::order() == (b.repr() * a.repr()) % F::order(),
        ((a.repr() * b.repr()) % F::order() * c.repr()) % F::order() == (a.repr() * ((b.repr()
            * c.repr()) % F::order())) % F::order(),
        (a.repr() * ((b.repr() + c.repr()) % F::order())) % F::order() == ((a.repr() * b.repr())
            % F::order() + (a.repr() * c.repr()) % F::order()) % F::order(),
        (a.repr() * 1) % F::order() == a.repr(),
        (a.repr() + 0) % F::order() == a.repr(),
{
    a.lemma_repr_range();
    b.lemma_repr_range();
    c.lemma_repr_range();
    let (x, y, z, m) = (a.repr(), b.repr(), c.repr(), F::order());
    lemma_small_mod(x as nat, m as nat);
    lemma_small_mod(y as nat, m as nat);
    lemma_small_mod(z as nat, m as nat);
    lemma_add_mod_noop(x + y, z, m);
    lemma_add_mod_noop(x, y + z, m);
    lemma_mod_twice(x + y, m);
    lemma_mod_twice(y + z, m);
    assert((x + y) + z == x + (y + z));
    assert(x * y == y * x) by (nonlinear_arith);
    lemma_mul_mod_noop_left(x * y, z, m);
    lemma_mul_mod_noop_right(x, y * z, m);
    assert((x * y) * z == x * (y * z)) by (nonlinear_arith);
    lemma_mul_mod_noop_right(x, y + z, m);
    lemma_add_mod_noop(x * y, x * z, m);
    assert(x * (y + z) == x * y + x * z) by (nonlinear_arith);
}

/// In any field taken as a group over itself: `0 + x = x`, `(x + y) - y = x`,
/// `0 * x = 0`, `1 * x = x`, `k * 0 = 0` and `a * x + b * x = (a + b) * x`,
/// over the models that `group_add`, `group_sub` and `group_scale` update.
pub proof fn lemma_group_laws<F: FieldExt>(x: F, y: F, k: F, a: F, b: F)
    requires
        x.well_formed(),
        y.well_formed(),
        k.well_formed(),
        a.well_formed(),
        b.well_formed(),
    ensures
        (0 + x.log()) % F::order() == x.log(),
        ((x.log() + y.log()) % F::order() - y.log()) % F::order() == x.log(),
        (x.log() * 0) % F::order() == 0,
        (x.log() * 1) % F::order() == x.log(),
        (0 * k.repr()) % F::order() == 0,
        ((x.log() * a.repr()) % F::order() + (x.log() * b.repr()) % F::order()) % F::order() == (
        x.log() * ((a.repr() + b.repr()) % F::order())) % F::order(),
{
    x.lemma_repr_range();
    y.lemma_repr_range();
    x.lemma_group_model();
    y.lemma_group_model();
    let (u, w, s, t, m) = (x.log(), y.log(), a.repr(), b.repr(), F::order());
    lemma_small_mod(u as nat, m as nat);
    lemma_small_mod(0, m as nat);
    lemma_sub_mod_noop(u + w, w, m);
    lemma_mod_twice(w, m);
    lemma_small_mod(w as nat, m as nat);
    assert(u + w - w == u);
    lemma_mul_mod_noop_right(u, s + t, m);
    lemma_add_mod_noop(u * s, u * t, m);
    assert(u * (s + t) == u * s + u * t) by (nonlinear_arith);
}

/// In any field, the order by representatives is total: reflexive,
/// antisymmetric and transitive.
pub proof fn lemma_total_order<F: FieldExt>(a: F, b: F, c: F)
    requires
        a.well_formed(),
        b.well_formed(),
        c.well_formed(),
    ensures
        a.repr() <= a.repr(),
        a.repr() <= b.repr() && b.repr() <= a.repr() ==> a == b,
        a.repr() <= b.repr() && b.repr() <= c.repr() ==> a.repr() <= c.repr(),
        a.repr() <= b.repr() || b.repr() <= a.repr(),
{
    a.lemma_repr_injective(&b);
}

} // verus!
