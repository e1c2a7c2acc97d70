use rvv_codegen::curve::{CurvePoint, add, double};
use rvv_codegen::fp::{modp_add, modp_mul, mont_exp, p_limbs, rinv_limbs};
use rvv_codegen::gfp::{Gfp, gadd, gmul, gneg, gsub, mont_decode, mont_encode, normalize, one, zero};
use rvv_codegen::gfp2::Gfp2;
use rvv_codegen::gfp6::Gfp6;

fn decode_one(a: &Gfp) -> [u64; 4] {
    let mut arr = [*a];
    mont_decode(&mut arr);
    arr[0].0
}

fn nf(x: i64) -> Gfp {
    Gfp::new_from_int64(x)
}

#[test]
fn limb_arithmetic_matches_known_values() {
    let a: [u64; 4] = [7, 0, 0, 0];
    let b: [u64; 4] = [5, 0, 0, 0];
    assert_eq!(modp_add(&a, &b), [12, 0, 0, 0]);
    assert_eq!(modp_mul(&a, &b), [35, 0, 0, 0]);
    // multiplication reduces: p * 1 is 0 mod p
    let p = p_limbs();
    let one_l: [u64; 4] = [1, 0, 0, 0];
    assert_eq!(modp_mul(&one_l, &p), [0, 0, 0, 0]);
}

#[test]
fn montgomery_round_trip() {
    let mut arr = [Gfp([42, 0, 0, 0])];
    mont_encode(&mut arr);
    mont_decode(&mut arr);
    assert_eq!(arr[0].0, [42, 0, 0, 0]);
}

#[test]
fn field_ops_on_small_values() {
    let a = nf(6);
    let b = nf(7);
    assert_eq!(decode_one(&gmul(&a, &b)), [42, 0, 0, 0]);
    assert_eq!(decode_one(&gadd(&a, &b)), [13, 0, 0, 0]);
    assert_eq!(decode_one(&gsub(&b, &a)), [1, 0, 0, 0]);
    // negation cancels
    assert_eq!(decode_one(&gadd(&gneg(&a), &a)), [0, 0, 0, 0]);
    // a negative constructor argument
    let m3 = nf(-3);
    assert_eq!(decode_one(&gadd(&m3, &nf(3))), [0, 0, 0, 0]);
}

#[test]
fn exponentiation_and_inversion() {
    let two = nf(2);
    let e: [u64; 4] = [10, 0, 0, 0];
    let r = two.exp_to(&e);
    assert_eq!(decode_one(&r), [1024, 0, 0, 0]);
    // a * a^-1 = 1
    let a = nf(12345);
    let inv = a.invert_to();
    assert_eq!(decode_one(&gmul(&a, &inv)), [1, 0, 0, 0]);
    // the identities
    assert_eq!(decode_one(&one()), [1, 0, 0, 0]);
    assert_eq!(decode_one(&zero()), [0, 0, 0, 0]);
}

#[test]
fn mont_exp_of_zero_exponent_is_one() {
    let base = nf(9).0;
    let e: [u64; 4] = [0, 0, 0, 0];
    let r = Gfp(mont_exp(&base, &e));
    assert_eq!(decode_one(&r), [1, 0, 0, 0]);
}

#[test]
fn normalize_reduces_lazy_values() {
    let p = p_limbs();
    let mut arr = [Gfp(p)];
    normalize(&mut arr);
    assert!(arr[0].is_zero());
    let mut arr2 = [Gfp([5, 0, 0, 0])];
    normalize(&mut arr2);
    assert_eq!(arr2[0].0, [5, 0, 0, 0]);
}

#[test]
fn batched_ops_work_elementwise() {
    let a = [nf(1), nf(2), nf(3)];
    let b = [nf(10), nf(20), nf(30)];
    let mut c = [zero(), zero(), zero()];
    rvv_codegen::gfp::add(&a, &b, &mut c);
    assert_eq!(decode_one(&c[0]), [11, 0, 0, 0]);
    assert_eq!(decode_one(&c[1]), [22, 0, 0, 0]);
    assert_eq!(decode_one(&c[2]), [33, 0, 0, 0]);
    rvv_codegen::gfp::mul(&a, &b, &mut c);
    assert_eq!(decode_one(&c[1]), [40, 0, 0, 0]);
    let mut d = [nf(9), nf(9), nf(9)];
    rvv_codegen::gfp::sub_mov(&mut d, &a);
    assert_eq!(decode_one(&d[2]), [6, 0, 0, 0]);
}

#[test]
fn indexed_ops_gather_through_byte_offsets() {
    let a = [nf(1), nf(2)];
    let b = [nf(10), nf(20)];
    // 32-byte elements: offset 32 is element 1, offset 0 element 0
    let a_idx: [u16; 2] = [32, 0];
    let b_idx: [u16; 2] = [0, 32];
    let mut c = [zero(), zero()];
    rvv_codegen::gfp::add_by_byte_index(&a, &b, &a_idx, &b_idx, &mut c);
    assert_eq!(decode_one(&c[0]), [12, 0, 0, 0]);
    assert_eq!(decode_one(&c[1]), [21, 0, 0, 0]);
    rvv_codegen::gfp::mul_by_byte_index(&a, &b, &a_idx, &b_idx, &mut c);
    assert_eq!(decode_one(&c[0]), [20, 0, 0, 0]);
    assert_eq!(decode_one(&c[1]), [20, 0, 0, 0]);
}

#[test]
fn rinv_is_the_inverse_of_the_radix() {
    // R * R^-1 = 1 mod p: encode R^-1 (multiplying by R) gives 1
    let mut arr = [Gfp(rinv_limbs())];
    mont_encode(&mut arr);
    mont_decode(&mut arr);
    assert_eq!(arr[0].0, rinv_limbs());
}

#[test]
fn quadratic_extension_arithmetic() {
    // (u + 2)(u + 3) = u^2 + 5u + 6 = 5u + 5 since u^2 = -1
    let a = Gfp2([nf(1), nf(2)]);
    let b = Gfp2([nf(1), nf(3)]);
    let r = Gfp2::mul_to(&a, &b);
    assert_eq!(decode_one(&r.0[0]), [5, 0, 0, 0]);
    assert_eq!(decode_one(&r.0[1]), [5, 0, 0, 0]);
    // conjugation then multiplication gives the norm in the base field
    let mut ac = a;
    ac.conjugate();
    let n = Gfp2::mul_to(&a, &ac);
    assert_eq!(decode_one(&n.0[0]), [0, 0, 0, 0]);
    assert_eq!(decode_one(&n.0[1]), [5, 0, 0, 0]);
    // inversion: a * a^-1 = 1
    let mut ai = a;
    ai.invert();
    let id = Gfp2::mul_to(&a, &ai);
    assert!(id.is_one());
}

#[test]
fn sextic_extension_identities() {
    let mut e = Gfp6([Gfp2([zero(), zero()]), Gfp2([zero(), zero()]), Gfp2([zero(), zero()])]);
    e.set_one();
    assert!(e.is_one());
    let mut a = Gfp6([
        Gfp2([nf(1), nf(2)]),
        Gfp2([nf(3), nf(4)]),
        Gfp2([nf(5), nf(6)]),
    ]);
    let b = a;
    // multiplying by one is the identity
    a.mul_ref(&e);
    for k in 0..3 {
        assert_eq!(decode_one(&a.0[k].0[0]), decode_one(&b.0[k].0[0]));
        assert_eq!(decode_one(&a.0[k].0[1]), decode_one(&b.0[k].0[1]));
    }
    // squaring agrees with self-multiplication
    let sq = a.square_to();
    let mut m = a;
    m.mul_ref(&b);
    for k in 0..3 {
        assert_eq!(decode_one(&sq.0[k].0[0]), decode_one(&m.0[k].0[0]));
        assert_eq!(decode_one(&sq.0[k].0[1]), decode_one(&m.0[k].0[1]));
    }
    // inversion: a * a^-1 = 1
    let mut inv = b;
    inv.invert();
    let mut prod = b;
    prod.mul_ref(&inv);
    assert!(prod.is_one());
}

#[test]
fn generator_is_on_the_curve() {
    let mut g = CurvePoint([nf(1), nf(2), one(), one()]);
    assert!(g.is_on_curve());
    let mut off = CurvePoint([nf(1), nf(3), one(), one()]);
    assert!(!off.is_on_curve());
    // the point at infinity is on the curve
    let mut inf = CurvePoint([zero(), one(), zero(), zero()]);
    assert!(inf.is_on_curve());
}

#[test]
fn doubling_agrees_with_self_addition() {
    let g = CurvePoint([nf(1), nf(2), one(), one()]);
    let mut d = CurvePoint([zero(), zero(), zero(), zero()]);
    double(&g, &mut d);
    let mut s = CurvePoint([zero(), zero(), zero(), zero()]);
    add(&g, &g, &mut s);
    // both give the same affine point, and it lies on the curve
    d.0[3] = one();
    s.0[3] = one();
    d.make_affine();
    s.make_affine();
    assert_eq!(decode_one(&d.0[0]), decode_one(&s.0[0]));
    assert_eq!(decode_one(&d.0[1]), decode_one(&s.0[1]));
    assert!(d.is_on_curve());
}

#[test]
fn adding_the_identity_copies_the_point() {
    let g = CurvePoint([nf(1), nf(2), one(), one()]);
    let inf = CurvePoint([zero(), one(), zero(), zero()]);
    let mut r = CurvePoint([zero(), zero(), zero(), zero()]);
    add(&inf, &g, &mut r);
    assert_eq!(decode_one(&r.0[0]), decode_one(&g.0[0]));
    assert_eq!(decode_one(&r.0[1]), decode_one(&g.0[1]));
    add(&g, &inf, &mut r);
    assert_eq!(decode_one(&r.0[0]), decode_one(&g.0[0]));
}

#[test]
fn negation_flips_the_ordinate() {
    let mut g = CurvePoint([nf(1), nf(2), one(), one()]);
    g.neg_ref();
    assert_eq!(decode_one(&gadd(&g.0[1], &nf(2))), [0, 0, 0, 0]);
    assert!(g.0[3].is_zero());
}

#[test]
fn group_law_associates_on_small_multiples() {
    // (g + g) + g == g + (g + g) via doubling and mixed addition
    let g = CurvePoint([nf(1), nf(2), one(), one()]);
    let mut g2 = CurvePoint([zero(), zero(), zero(), zero()]);
    double(&g, &mut g2);
    g2.0[3] = one();
    let mut g3a = CurvePoint([zero(), zero(), zero(), zero()]);
    add(&g2, &g, &mut g3a);
    let mut g3b = CurvePoint([zero(), zero(), zero(), zero()]);
    add(&g, &g2, &mut g3b);
    g3a.make_affine();
    g3b.make_affine();
    assert_eq!(decode_one(&g3a.0[0]), decode_one(&g3b.0[0]));
    assert_eq!(decode_one(&g3a.0[1]), decode_one(&g3b.0[1]));
}
