//! 256-bit modular arithmetic on four little-endian 64-bit limbs.
//!
//! Every field element is kept reduced below the bn128 prime `P`.  The
//! multiplication routine is a binary double-and-add, so its correctness rests
//! only on the verified modular addition; the Montgomery product is obtained
//! from it with one extra multiplication by `R^-1 mod P`.

use vstd::prelude::*;
use vstd::arithmetic::power::{pow, lemma_pow_adds, lemma_pow0, lemma_pow1};
use vstd::arithmetic::div_mod::{
    lemma_fundamental_div_mod, lemma_fundamental_div_mod_converse_mod, lemma_small_mod,
    lemma_fundamental_div_mod_converse,
    lemma_mul_mod_noop_left, lemma_mul_mod_noop_right, lemma_add_mod_noop, lemma_mod_bound,
    lemma_div_denominator, lemma_mod_add_multiples_vanish, lemma_basic_div, lemma_div_basics,
    lemma_mul_mod_noop_general, lemma_mod_breakdown, lemma_sub_mod_noop, lemma_mod_multiples_vanish,
};
use vstd::arithmetic::power2::{pow2, lemma_pow2_adds, lemma_pow2_pos, lemma2_to64};
use vstd::bits::{lemma_u64_shr_is_div, lemma_u64_low_bits_mask_is_mod, low_bits_mask};

verus! {

/// The bn128 base-field prime.
pub open spec fn p_int() -> int {
    21888242871839275222246405745257275088696311157297823662689037894645226208583int
}

/// `R^-1 mod P` for the Montgomery radix `R = 2^256`.
pub open spec fn rinv_int() -> int {
    20988524275117001072002809824448087578619730785600314334253784976379291040311int
}

/// `R mod P`: the Montgomery form of 1.
pub open spec fn r_mod_p() -> int {
    6350874878119819312338956282401532409788428879151445726012394534686998597021int
}

/// Value of four little-endian 64-bit limbs.
pub open spec fn fp_val(l: [u64; 4]) -> int {
    l[0] + l[1] * 0x10000000000000000 + l[2] * 0x100000000000000000000000000000000int
        + l[3] * 0x1000000000000000000000000000000000000000000000000int
}

/// 2^256, the bound on any four-limb value.
pub open spec fn b256() -> int {
    0x10000000000000000000000000000000000000000000000000000000000000000int
}

pub broadcast proof fn lemma_fp_val_bounds(l: [u64; 4])
    ensures
        0 <= #[trigger] fp_val(l) < b256(),
{
}

/// The limbs of the prime `P`.
pub fn p_limbs() -> (r: [u64; 4])
    ensures
        fp_val(r) == p_int(),
{
    [0x3c208c16d87cfd47, 0x97816a916871ca8d, 0xb85045b68181585d, 0x30644e72e131a029]
}

/// The limbs of `R^-1 mod P`.
pub fn rinv_limbs() -> (r: [u64; 4])
    ensures
        fp_val(r) == rinv_int(),
        fp_val(r) < p_int(),
{
    [0xed84884a014afa37, 0xeb2022850278edf8, 0xcf63e9cfb74492d9, 0x2e67157159e5c639]
}

/// Limb comparison, low limb last; equivalent to comparing the values.
pub fn limbs_lt(a: &[u64; 4], b: &[u64; 4]) -> (r: bool)
    ensures
        r == (fp_val(*a) < fp_val(*b)),
{
    if a[3] != b[3] {
        a[3] < b[3]
    } else if a[2] != b[2] {
        a[2] < b[2]
    } else if a[1] != b[1] {
        a[1] < b[1]
    } else {
        a[0] < b[0]
    }
}

/// 256-bit addition; the boolean is the carry out of the top limb.
pub fn add4(a: &[u64; 4], b: &[u64; 4]) -> (r: ([u64; 4], bool))
    ensures
        fp_val(r.0) + (if r.1 { b256() } else { 0int }) == fp_val(*a) + fp_val(*b),
{
    let s0: u128 = a[0] as u128 + b[0] as u128;
    let l0: u64 = (s0 % 0x10000000000000000) as u64;
    let c0: u64 = (s0 / 0x10000000000000000) as u64;
    let s1: u128 = a[1] as u128 + b[1] as u128 + c0 as u128;
    let l1: u64 = (s1 % 0x10000000000000000) as u64;
    let c1: u64 = (s1 / 0x10000000000000000) as u64;
    let s2: u128 = a[2] as u128 + b[2] as u128 + c1 as u128;
    let l2: u64 = (s2 % 0x10000000000000000) as u64;
    let c2: u64 = (s2 / 0x10000000000000000) as u64;
    let s3: u128 = a[3] as u128 + b[3] as u128 + c2 as u128;
    let l3: u64 = (s3 % 0x10000000000000000) as u64;
    let c3: u64 = (s3 / 0x10000000000000000) as u64;
    proof {
        lemma_fundamental_div_mod(s0 as int, 0x10000000000000000);
        lemma_fundamental_div_mod(s1 as int, 0x10000000000000000);
        lemma_fundamental_div_mod(s2 as int, 0x10000000000000000);
        lemma_fundamental_div_mod(s3 as int, 0x10000000000000000);
    }
    ([l0, l1, l2, l3], c3 == 1)
}

/// 256-bit subtraction; the boolean reports a borrow, i.e. `a < b`.
pub fn sub4(a: &[u64; 4], b: &[u64; 4]) -> (r: ([u64; 4], bool))
    ensures
        fp_val(r.0) == fp_val(*a) - fp_val(*b) + (if r.1 { b256() } else { 0int }),
        r.1 == (fp_val(*a) < fp_val(*b)),
{
    let s0: u128 = 0x10000000000000000u128 + a[0] as u128 - b[0] as u128;
    let l0: u64 = (s0 % 0x10000000000000000) as u64;
    let n0: u64 = (s0 / 0x10000000000000000) as u64;
    let s1: u128 = 0xffffffffffffffffu128 + a[1] as u128 + n0 as u128 - b[1] as u128;
    let l1: u64 = (s1 % 0x10000000000000000) as u64;
    let n1: u64 = (s1 / 0x10000000000000000) as u64;
    let s2: u128 = 0xffffffffffffffffu128 + a[2] as u128 + n1 as u128 - b[2] as u128;
    let l2: u64 = (s2 % 0x10000000000000000) as u64;
    let n2: u64 = (s2 / 0x10000000000000000) as u64;
    let s3: u128 = 0xffffffffffffffffu128 + a[3] as u128 + n2 as u128 - b[3] as u128;
    let l3: u64 = (s3 % 0x10000000000000000) as u64;
    let n3: u64 = (s3 / 0x10000000000000000) as u64;
    proof {
        lemma_fundamental_div_mod(s0 as int, 0x10000000000000000);
        lemma_fundamental_div_mod(s1 as int, 0x10000000000000000);
        lemma_fundamental_div_mod(s2 as int, 0x10000000000000000);
        lemma_fundamental_div_mod(s3 as int, 0x10000000000000000);
    }
    ([l0, l1, l2, l3], n3 == 0)
}

/// One conditional subtraction of `P`, reducing any value below `2P`.
pub fn reduce_once(a: &[u64; 4]) -> (r: [u64; 4])
    requires
        fp_val(*a) < 2 * p_int(),
    ensures
        fp_val(r) == fp_val(*a) % p_int(),
        fp_val(r) < p_int(),
{
    let p = p_limbs();
    if limbs_lt(a, &p) {
        proof {
            lemma_small_mod(fp_val(*a) as nat, p_int() as nat);
        }
        *a
    } else {
        let (d, borrow) = sub4(a, &p);
        proof {
            lemma_fundamental_div_mod_converse_mod(fp_val(*a), p_int(), 1, fp_val(d));
        }
        d
    }
}

/// Addition modulo `P` on reduced operands.
pub fn modp_add(a: &[u64; 4], b: &[u64; 4]) -> (r: [u64; 4])
    requires
        fp_val(*a) < p_int(),
        fp_val(*b) < p_int(),
    ensures
        fp_val(r) == (fp_val(*a) + fp_val(*b)) % p_int(),
        fp_val(r) < p_int(),
{
    let (s, carry) = add4(a, b);
    reduce_once(&s)
}

/// Subtraction modulo `P` on reduced operands.
pub fn modp_sub(a: &[u64; 4], b: &[u64; 4]) -> (r: [u64; 4])
    requires
        fp_val(*a) < p_int(),
        fp_val(*b) < p_int(),
    ensures
        fp_val(r) == (fp_val(*a) - fp_val(*b)) % p_int(),
        fp_val(r) < p_int(),
{
    let (d, borrow) = sub4(a, b);
    if borrow {
        let p = p_limbs();
        let (s, carry) = add4(&d, &p);
        proof {
            lemma_fundamental_div_mod_converse_mod(
                fp_val(*a) - fp_val(*b),
                p_int(),
                -1,
                fp_val(s),
            );
        }
        s
    } else {
        proof {
            lemma_small_mod((fp_val(*a) - fp_val(*b)) as nat, p_int() as nat);
        }
        d
    }
}

/// Negation modulo `P` of a reduced operand.
pub fn modp_neg(a: &[u64; 4]) -> (r: [u64; 4])
    requires
        fp_val(*a) < p_int(),
    ensures
        fp_val(r) == (p_int() - fp_val(*a)) % p_int(),
        fp_val(r) < p_int(),
{
    let zero: [u64; 4] = [0, 0, 0, 0];
    let r = modp_sub(&zero, a);
    proof {
        lemma_mod_add_multiples_vanish(0 - fp_val(*a), p_int());
    }
    r
}

/// Value of the limbs of `b` from index `i` upward, most significant first.
pub open spec fn hi_val(b: [u64; 4], i: int) -> int
    decreases 4 - i,
{
    if i < 0 || i >= 4 {
        0
    } else {
        hi_val(b, i + 1) * 0x10000000000000000 + b[i]
    }
}

proof fn lemma_hi_val_full(b: [u64; 4])
    ensures
        hi_val(b, 0) == fp_val(b),
{
    assert(hi_val(b, 4) == 0);
    assert(hi_val(b, 3) == b[3]);
    assert(hi_val(b, 2) == b[3] * 0x10000000000000000 + b[2]);
    assert(hi_val(b, 1) == hi_val(b, 2) * 0x10000000000000000 + b[1]);
    assert(hi_val(b, 0) == hi_val(b, 1) * 0x10000000000000000 + b[0]);
}

/// Splitting off the bit at position `s`: the bits of `w` above `s` are twice
/// the bits above `s + 1` plus the bit at `s`.
proof fn lemma_bit_step(w: u64, s: u64)
    requires
        s < 64,
    ensures
        w as int / (pow2(s as nat) as int) == 2 * (w as int / (pow2((s + 1) as nat) as int)) + ((
        w >> s) & 1),
        ((w >> s) & 1) < 2,
{
    lemma_u64_shr_is_div(w, s);
    lemma2_to64();
    assert(low_bits_mask(1) == 1);
    lemma_u64_low_bits_mask_is_mod(w >> s, 1);
    lemma_pow2_pos(s as nat);
    lemma_div_denominator(w as int, pow2(s as nat) as int, 2);
    lemma_pow2_adds(s as nat, 1);
    lemma_fundamental_div_mod(w as int / (pow2(s as nat) as int), 2);
}

/// Multiplication modulo `P` by binary double-and-add over the bits of `b`,
/// most significant limb first.  Only the left operand has to be reduced.
pub fn modp_mul(a: &[u64; 4], b: &[u64; 4]) -> (r: [u64; 4])
    requires
        fp_val(*a) < p_int(),
    ensures
        fp_val(r) == (fp_val(*a) * fp_val(*b)) % p_int(),
        fp_val(r) < p_int(),
{
    let mut r: [u64; 4] = [0, 0, 0, 0];
    let mut i: usize = 4;
    while i > 0
        invariant
            i <= 4,
            fp_val(*a) < p_int(),
            fp_val(r) < p_int(),
            fp_val(r) == (fp_val(*a) * hi_val(*b, i as int)) % p_int(),
        decreases i,
    {
        i -= 1;
        let w: u64 = b[i];
        proof {
            lemma2_to64();
            lemma_basic_div(w as int, pow2(64) as int);
        }
        let mut k: usize = 0;
        while k < 64
            invariant
                k <= 64,
                i < 4,
                w == b[i as int],
                fp_val(*a) < p_int(),
                fp_val(r) < p_int(),
                fp_val(r) == (fp_val(*a) * (hi_val(*b, i as int + 1) * pow2(k as nat) + w as int
                    / (pow2((64 - k) as nat) as int))) % p_int(),
            decreases 64 - k,
        {
            let ghost va: int = fp_val(*a);
            let ghost hi: int = hi_val(*b, i as int + 1);
            let ghost e0: int = hi * pow2(k as nat) + w as int / (pow2((64 - k) as nat) as int);
            let r2 = modp_add(&r, &r);
            let bit: u64 = (w >> ((63 - k) as u64)) & 1;
            proof {
                lemma_add_mod_noop(va * e0, va * e0, p_int());
                assert(fp_val(r2) == (2 * (va * e0)) % p_int());
                lemma_bit_step(w, (63 - k) as u64);
                lemma_pow2_adds(k as nat, 1);
                lemma2_to64();
                assert(hi * pow2((k + 1) as nat) == 2 * (hi * pow2(k as nat)))
                    by (nonlinear_arith)
                    requires
                        pow2((k + 1) as nat) == 2 * pow2(k as nat),
                ;
                assert(hi * pow2((k + 1) as nat) + w as int / (pow2((63 - k) as nat) as int) == 2
                    * e0 + bit);
            }
            let r3 = if bit == 1 {
                proof {
                    lemma_add_mod_noop(2 * (va * e0), va, p_int());
                    lemma_small_mod(va as nat, p_int() as nat);
                    assert(va * (2 * e0 + 1) == 2 * (va * e0) + va) by (nonlinear_arith);
                }
                modp_add(&r2, a)
            } else {
                proof {
                    assert(va * (2 * e0) == 2 * (va * e0)) by (nonlinear_arith);
                }
                r2
            };
            r = r3;
            k += 1;
        }
        proof {
            lemma2_to64();
            lemma_div_basics(w as int);
            assert(hi_val(*b, i as int) == hi_val(*b, i as int + 1) * 0x10000000000000000 + w);
        }
    }
    proof {
        lemma_hi_val_full(*b);
    }
    r
}

/// The Montgomery product `a * b * R^-1 mod P` on reduced operands.
pub fn mont_mul(a: &[u64; 4], b: &[u64; 4]) -> (r: [u64; 4])
    requires
        fp_val(*a) < p_int(),
        fp_val(*b) < p_int(),
    ensures
        fp_val(r) == (fp_val(*a) * fp_val(*b) * rinv_int()) % p_int(),
        fp_val(r) < p_int(),
{
    let t = modp_mul(a, b);
    let rinv = rinv_limbs();
    let r = modp_mul(&t, &rinv);
    proof {
        lemma_mul_mod_noop_left(fp_val(*a) * fp_val(*b), rinv_int(), p_int());
    }
    r
}


/// `R^2 mod P`, the factor that carries a value into Montgomery form.
pub open spec fn r2_int() -> int {
    3096616502983703923843567936837374451735540968419076528771170197431451843209int
}

/// `R^3 mod P`.
pub open spec fn r3_int() -> int {
    14921786541159648185948152738563080959093619838510245177710943249661917737183int
}

/// The value a Montgomery residue stands for: its limbs times `R^-1 mod P`.
pub open spec fn rep(l: [u64; 4]) -> int {
    (fp_val(l) * rinv_int()) % p_int()
}

/// `R^-2 mod P`, the residue represented by the limbs of `R^-1`.
pub open spec fn rinv_sq() -> int {
    (rinv_int() * rinv_int()) % p_int()
}

/// The limbs of `R^2 mod P`.
pub fn r2_limbs() -> (r: [u64; 4])
    ensures
        fp_val(r) == r2_int(),
        fp_val(r) < p_int(),
{
    [0xf32cfc5b538afa89, 0xb5e71911d44501fb, 0x47ab1eff0a417ff6, 0x06d89f71cab8351f]
}

/// The limbs of `R^3 mod P`.
pub fn r3_limbs() -> (r: [u64; 4])
    ensures
        fp_val(r) == r3_int(),
        fp_val(r) < p_int(),
{
    [0xb1cd6dafda1530df, 0x62f210e6a7283db6, 0xef7f0b0c0ada0afb, 0x20fd6e902d592544]
}

/// The limbs of `P - 2`, the inversion exponent.
pub fn pm2_limbs() -> (r: [u64; 4])
    ensures
        fp_val(r) == p_int() - 2,
{
    [0x3c208c16d87cfd45, 0x97816a916871ca8d, 0xb85045b68181585d, 0x30644e72e131a029]
}

/// The limbs of `R mod P`, the Montgomery form of 1.
pub fn one_mont_limbs() -> (r: [u64; 4])
    ensures
        fp_val(r) == r_mod_p(),
        fp_val(r) < p_int(),
{
    [0xd35d438dc58f0d9d, 0x0a78eb28f5c70b3d, 0x666ea36f7879462c, 0x0e0a77c19a07df2f]
}

/// Arithmetic facts about the Montgomery constants, established by constant
/// evaluation.
pub proof fn lemma_mont_facts()
    ensures
        (rinv_int() * b256()) % p_int() == 1,
        (r2_int() * rinv_int()) % p_int() == r_mod_p(),
        (r_mod_p() * rinv_int()) % p_int() == 1,
        (r3_int() * rinv_int() * rinv_int() * rinv_int()) % p_int() == 1,
{
}

/// A Montgomery product represents the field product of what its factors
/// represent.
pub proof fn lemma_mont_mul_rep(a: [u64; 4], b: [u64; 4], r: [u64; 4])
    requires
        fp_val(r) == (fp_val(a) * fp_val(b) * rinv_int()) % p_int(),
    ensures
        rep(r) == (rep(a) * rep(b)) % p_int(),
{
    let va = fp_val(a);
    let vb = fp_val(b);
    let ri = rinv_int();
    let m = p_int();
    lemma_mul_mod_noop_left(va * vb * ri, ri, m);
    lemma_mul_mod_noop_general(va * ri, vb * ri, m);
    assert(va * vb * ri * ri == (va * ri) * (vb * ri)) by (nonlinear_arith);
}

/// Value of the limbs of `b` below index `i`, least significant first.
pub open spec fn lo_val(b: [u64; 4], i: int) -> int
    decreases i,
{
    if i <= 0 || i > 4 {
        0
    } else {
        lo_val(b, i - 1) + b[i - 1] * pow2((64 * (i - 1)) as nat)
    }
}

proof fn lemma_lo_val_nonneg(b: [u64; 4], i: int)
    ensures
        lo_val(b, i) >= 0,
    decreases i,
{
    if 0 < i <= 4 {
        lemma_lo_val_nonneg(b, i - 1);
    }
}

proof fn lemma_lo_val_full(b: [u64; 4])
    ensures
        lo_val(b, 4) == fp_val(b),
{
    reveal_with_fuel(lo_val, 6);
    lemma2_to64();
    lemma_pow2_adds(64, 64);
    lemma_pow2_adds(128, 64);
    assert(lo_val(b, 1) == lo_val(b, 0) + b[0] * pow2(0));
    assert(lo_val(b, 2) == lo_val(b, 1) + b[1] * pow2(64));
    assert(lo_val(b, 3) == lo_val(b, 2) + b[2] * pow2(128));
    assert(lo_val(b, 4) == lo_val(b, 3) + b[3] * pow2(192));
}

/// Splitting off bit `k` of `w`: the low `k + 1` bits are the low `k` bits
/// plus the bit at `k`, weighted by `2^k`.
proof fn lemma_low_bit_step(w: u64, k: u64)
    requires
        k < 64,
    ensures
        w as int % (pow2((k + 1) as nat) as int) == w as int % (pow2(k as nat) as int) + ((w >> k)
            & 1) * pow2(k as nat),
        ((w >> k) & 1) < 2,
{
    lemma_u64_shr_is_div(w, k);
    lemma2_to64();
    assert(low_bits_mask(1) == 1);
    lemma_u64_low_bits_mask_is_mod(w >> k, 1);
    lemma_pow2_pos(k as nat);
    lemma_mod_breakdown(w as int, pow2(k as nat) as int, 2);
    lemma_pow2_adds(k as nat, 1);
}

/// Montgomery exponentiation: the represented value of the result is the
/// represented value of `base` raised to the 256-bit exponent `e`, modulo `P`.
#[verifier::rlimit(100)]
#[verifier::spinoff_prover]
pub fn mont_exp(base: &[u64; 4], e: &[u64; 4]) -> (r: [u64; 4])
    requires
        fp_val(*base) < p_int(),
    ensures
        fp_val(r) < p_int(),
        rep(r) == pow(rep(*base), fp_val(*e) as nat) % p_int(),
{
    let ghost m = p_int();
    let ghost v = rep(*base);
    let mut sum = rinv_limbs();
    let mut power = *base;
    proof {
        lemma_pow0(v);
        lemma_pow1(v);
        lemma_mod_bound(fp_val(sum) * rinv_int(), m);
        lemma_mod_bound(fp_val(*base) * rinv_int(), m);
        lemma_small_mod(rinv_sq() as nat, m as nat);
        lemma_small_mod(v as nat, m as nat);
        assert(pow2(0) == 1) by {
            lemma2_to64();
        }
    }
    let mut i: usize = 0;
    while i < 4
        invariant
            i <= 4,
            fp_val(*base) < m,
            m == p_int(),
            v == rep(*base),
            fp_val(sum) < m,
            fp_val(power) < m,
            lo_val(*e, i as int) >= 0,
            rep(sum) == (rinv_sq() * pow(v, lo_val(*e, i as int) as nat)) % m,
            rep(power) == pow(v, pow2((64 * i) as nat)) % m,
        decreases 4 - i,
    {
        let w: u64 = e[i];
        proof {
            lemma_small_mod(0nat, 1nat);
            assert(pow2(0) == 1) by {
                lemma2_to64();
            }
            assert(w as int % (pow2(0) as int) == 0);
        }
        let mut k: usize = 0;
        while k < 64
            invariant
                k <= 64,
                i < 4,
                w == e[i as int],
                fp_val(*base) < m,
                m == p_int(),
                v == rep(*base),
                fp_val(sum) < m,
                fp_val(power) < m,
                lo_val(*e, i as int) >= 0,
                rep(sum) == (rinv_sq() * pow(v, (lo_val(*e, i as int) + (w as int % (pow2(
                    k as nat) as int)) * pow2((64 * i) as nat)) as nat)) % m,
                rep(power) == pow(v, pow2((64 * i + k) as nat)) % m,
            decreases 64 - k,
        {
            let ghost lo = lo_val(*e, i as int);
            let ghost wlow = w as int % (pow2(k as nat) as int);
            let ghost ebits = (lo + wlow * pow2((64 * i) as nat)) as nat;
            let ghost j = pow2((64 * i + k) as nat);
            proof {
                lemma_low_bit_step(w, k as u64);
                lemma_pow2_adds((64 * i) as nat, k as nat);
                lemma_pow2_pos((64 * i) as nat);
                lemma_pow2_pos(k as nat);
                lemma_mod_bound(w as int, pow2(k as nat) as int);
            }
            let bit: u64 = (w >> (k as u64)) & 1;
            if bit == 1 {
                let ghost s_old = sum;
                let s2 = mont_mul(&sum, &power);
                proof {
                    lemma_mont_mul_rep(s_old, power, s2);
                    lemma_mul_mod_noop_general(rinv_sq() * pow(v, ebits), pow(v, j), m);
                    lemma_pow_adds(v, ebits, j);
                    assert((rinv_sq() * pow(v, ebits)) * pow(v, j) == rinv_sq() * (pow(v, ebits)
                        * pow(v, j))) by (nonlinear_arith);
                    assert((wlow + pow2(k as nat)) * pow2((64 * i) as nat) == wlow * pow2((64
                        * i) as nat) + pow2(k as nat) * pow2((64 * i) as nat)) by (nonlinear_arith);
                }
                sum = s2;
            } else {
                proof {
                    assert(w as int % (pow2((k + 1) as nat) as int) == wlow);
                }
            }
            let ghost p_old = power;
            let p2 = mont_mul(&power, &power);
            proof {
                lemma_mont_mul_rep(p_old, p_old, p2);
                lemma_mul_mod_noop_general(pow(v, j), pow(v, j), m);
                lemma_pow_adds(v, j, j);
                lemma_pow2_adds((64 * i + k) as nat, 1);
                lemma2_to64();
            }
            power = p2;
            k += 1;
        }
        proof {
            lemma2_to64();
            lemma_small_mod(w as nat, pow2(64));
            assert(lo_val(*e, i as int + 1) == lo_val(*e, i as int) + w * pow2((64 * i) as nat));
            lemma_lo_val_nonneg(*e, i as int + 1);
        }
        i += 1;
    }
    let r3 = r3_limbs();
    let ghost s_last = sum;
    let out = mont_mul(&sum, &r3);
    proof {
        lemma_lo_val_full(*e);
        lemma_mont_mul_rep(s_last, r3, out);
        lemma_mont_facts();
        let ghost q = rinv_sq();
        let ghost ee = lo_val(*e, 4) as nat;
        let ghost rr3 = rep(r3);
        // rep(out) == ((q * pow(v, ee)) % m * rr3) % m == ((q * rr3) % m) * pow(v, ee) % m
        lemma_mul_mod_noop_left(q * pow(v, ee), rr3, m);
        assert(q * pow(v, ee) * rr3 == (q * rr3) * pow(v, ee)) by (nonlinear_arith);
        lemma_mul_mod_noop_left(q * rr3, pow(v, ee), m);
        // (q * rr3) % m == 1
        lemma_mul_mod_noop_left(r3_int() * rinv_int(), rinv_int() * rinv_int(), m);
        lemma_mul_mod_noop_right(rinv_int() * rinv_int(), r3_int() * rinv_int(), m);
        assert((rinv_int() * rinv_int()) * (r3_int() * rinv_int()) == r3_int() * rinv_int()
            * rinv_int() * rinv_int()) by (nonlinear_arith);
        assert((q * rr3) % m == 1);
        lemma_mod_bound(pow(v, ee), m);
        lemma_small_mod((pow(v, ee) % m) as nat, m as nat);
        lemma_mul_mod_noop_left(pow(v, ee), 1, m);
    }
    out
}


/// A modular sum represents the sum of what its operands represent.
pub proof fn lemma_modp_add_rep(a: [u64; 4], b: [u64; 4], r: [u64; 4])
    requires
        fp_val(r) == (fp_val(a) + fp_val(b)) % p_int(),
    ensures
        rep(r) == (rep(a) + rep(b)) % p_int(),
{
    let va = fp_val(a);
    let vb = fp_val(b);
    let ri = rinv_int();
    let m = p_int();
    lemma_mul_mod_noop_left(va + vb, ri, m);
    assert((va + vb) * ri == va * ri + vb * ri) by (nonlinear_arith);
    lemma_add_mod_noop(va * ri, vb * ri, m);
}

/// A modular difference represents the difference of what its operands
/// represent.
pub proof fn lemma_modp_sub_rep(a: [u64; 4], b: [u64; 4], r: [u64; 4])
    requires
        fp_val(r) == (fp_val(a) - fp_val(b)) % p_int(),
    ensures
        rep(r) == (rep(a) - rep(b)) % p_int(),
{
    let va = fp_val(a);
    let vb = fp_val(b);
    let ri = rinv_int();
    let m = p_int();
    lemma_mul_mod_noop_left(va - vb, ri, m);
    assert((va - vb) * ri == va * ri - vb * ri) by (nonlinear_arith);
    lemma_sub_mod_noop(va * ri, vb * ri, m);
}

/// A modular negation represents the negation of what its operand represents.
pub proof fn lemma_modp_neg_rep(a: [u64; 4], r: [u64; 4])
    requires
        fp_val(r) == (p_int() - fp_val(a)) % p_int(),
    ensures
        rep(r) == (0 - rep(a)) % p_int(),
{
    let va = fp_val(a);
    let ri = rinv_int();
    let m = p_int();
    lemma_mul_mod_noop_left(m - va, ri, m);
    assert((m - va) * ri == m * ri - va * ri) by (nonlinear_arith);
    lemma_mod_multiples_vanish(ri, 0 - va * ri, m);
    lemma_sub_mod_noop(va * ri, va * ri, m);
    assert((0 - (va * ri) % m) % m == (0 - va * ri) % m) by {
        lemma_sub_mod_noop(0, va * ri, m);
        lemma_small_mod(0nat, m as nat);
    }
}


/// Limb values are a positional representation: equal values have equal
/// limbs.
pub proof fn lemma_fp_val_injective(a: [u64; 4], b: [u64; 4])
    requires
        fp_val(a) == fp_val(b),
    ensures
        a == b,
{
    let x = fp_val(a);
    lemma_fundamental_div_mod_converse(
        x,
        0x10000000000000000,
        a[1] + a[2] * 0x10000000000000000 + a[3] * 0x100000000000000000000000000000000int,
        a[0] as int,
    );
    lemma_fundamental_div_mod_converse(
        x,
        0x10000000000000000,
        b[1] + b[2] * 0x10000000000000000 + b[3] * 0x100000000000000000000000000000000int,
        b[0] as int,
    );
    assert(a[0] == b[0]);
    let x1 = a[1] + a[2] * 0x10000000000000000 + a[3] * 0x100000000000000000000000000000000int;
    lemma_fundamental_div_mod_converse(
        x1,
        0x10000000000000000,
        a[2] + a[3] * 0x10000000000000000,
        a[1] as int,
    );
    lemma_fundamental_div_mod_converse(
        x1,
        0x10000000000000000,
        b[2] + b[3] * 0x10000000000000000,
        b[1] as int,
    );
    assert(a[1] == b[1]);
    let x2 = a[2] + a[3] * 0x10000000000000000;
    lemma_fundamental_div_mod_converse(x2, 0x10000000000000000, a[3] as int, a[2] as int);
    lemma_fundamental_div_mod_converse(x2, 0x10000000000000000, b[3] as int, b[2] as int);
    assert(a[2] == b[2]);
    assert(a[3] == b[3]);
    assert(a =~= b);
}


/// A reduced residue is recovered from the value it represents by the
/// radix factor: `val == rep * 2^256 mod P`.  Equal represented values
/// therefore have equal residues.
pub proof fn lemma_val_of_rep(l: [u64; 4])
    requires
        fp_val(l) < p_int(),
    ensures
        fp_val(l) == (rep(l) * b256()) % p_int(),
{
    let v = fp_val(l);
    let ri = rinv_int();
    let m = p_int();
    lemma_mont_facts();
    lemma_mul_mod_noop_left(v * ri, b256(), m);
    assert((v * ri) * b256() == v * (ri * b256())) by (nonlinear_arith);
    lemma_mul_mod_noop_right(v, ri * b256(), m);
    lemma_small_mod(v as nat, m as nat);
}

} // verus!
