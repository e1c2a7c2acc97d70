//! Elements of the bn128 base field, kept in Montgomery form.
//!
//! A `Gfp` holds four little-endian limbs below the prime `P`; the field
//! element it stands for is the limb value times `R^-1 mod P` (its
//! *represented* value).  The slice functions mirror the batched layout of the
//! vector routines they stand in for: every element of the output is computed
//! from the elements of the inputs at the same index.

use vstd::prelude::*;
use crate::fp::{
    fp_val, rep, p_int, rinv_int, r2_int, r_mod_p, modp_add, modp_sub, modp_neg, mont_mul, mont_exp,
    reduce_once, pm2_limbs, r2_limbs, one_mont_limbs, lemma_modp_add_rep, lemma_modp_sub_rep,
    lemma_modp_neg_rep, lemma_mont_mul_rep, lemma_mont_facts,
};
use vstd::arithmetic::power::pow;
use vstd::arithmetic::div_mod::{
    lemma_small_mod, lemma_mul_mod_noop_left, lemma_mul_mod_noop_right,
    lemma_mod_add_multiples_vanish,
};

verus! {

/// A bn128 base-field element: four little-endian limbs in Montgomery form.
#[derive(Clone, Copy, Debug)]
pub struct Gfp(pub [u64; 4]);

impl PartialEq for Gfp {
    fn eq(&self, other: &Gfp) -> (r: bool) {
        let r = self.0[0] == other.0[0] && self.0[1] == other.0[1] && self.0[2] == other.0[2]
            && self.0[3] == other.0[3];
        proof {
            if r {
                assert(self.0 =~= other.0);
            }
        }
        r
    }
}

impl vstd::std_specs::cmp::PartialEqSpecImpl for Gfp {
    open spec fn obeys_eq_spec() -> bool {
        true
    }

    open spec fn eq_spec(&self, other: &Gfp) -> bool {
        self.0 == other.0
    }
}

impl Gfp {
    /// The raw limb value (the Montgomery residue).
    pub open spec fn val(&self) -> int {
        fp_val(self.0)
    }

    /// The field element this residue stands for: `val * R^-1 mod P`.
    pub open spec fn rep_val(&self) -> int {
        rep(self.0)
    }

    /// A field element is well-formed when its limbs are reduced below `P`.
    pub open spec fn wf(&self) -> bool {
        fp_val(self.0) < p_int()
    }
}

impl Default for Gfp {
    fn default() -> (r: Gfp)
        ensures
            r.val() == 0,
            r.wf(),
    {
        Gfp([0, 0, 0, 0])
    }
}

/// The additive identity.
pub fn zero() -> (r: Gfp)
    ensures
        r.val() == 0,
        r.rep_val() == 0,
        r.wf(),
{
    proof {
        lemma_small_mod(0nat, p_int() as nat);
    }
    Gfp([0, 0, 0, 0])
}

/// The multiplicative identity, `R mod P` in Montgomery form.
pub fn one() -> (r: Gfp)
    ensures
        r.val() == r_mod_p(),
        r.rep_val() == 1,
        r.wf(),
{
    let r = Gfp(one_mont_limbs());
    proof {
        lemma_mont_facts();
        lemma_small_mod(1nat, p_int() as nat);
    }
    r
}

impl Gfp {
    /// Whether this is the zero element; zero is the one residue whose
    /// represented value is zero.
    pub fn is_zero(&self) -> (r: bool)
        ensures
            r == (self.val() == 0),
    {
        self.0[0] == 0 && self.0[1] == 0 && self.0[2] == 0 && self.0[3] == 0
    }

    /// Raise to a 256-bit exponent in place.
    pub fn exp(&mut self, bits: &[u64; 4])
        requires
            old(self).wf(),
        ensures
            final(self).wf(),
            final(self).rep_val() == pow(old(self).rep_val(), fp_val(*bits) as nat) % p_int(),
    {
        let r = self.exp_to(bits);
        self.0 = r.0;
    }

    /// Raise to a 256-bit exponent.
    pub fn exp_to(&self, bits: &[u64; 4]) -> (r: Gfp)
        requires
            self.wf(),
        ensures
            r.wf(),
            r.rep_val() == pow(self.rep_val(), fp_val(*bits) as nat) % p_int(),
    {
        Gfp(mont_exp(&self.0, bits))
    }

    /// Invert in place by raising to `P - 2`.
    pub fn invert(&mut self)
        requires
            old(self).wf(),
        ensures
            final(self).wf(),
            final(self).rep_val() == pow(old(self).rep_val(), (p_int() - 2) as nat) % p_int(),
    {
        let pm2 = pm2_limbs();
        self.exp(&pm2);
    }

    /// The inverse, by raising to `P - 2`.
    pub fn invert_to(&self) -> (r: Gfp)
        requires
            self.wf(),
        ensures
            r.wf(),
            r.rep_val() == pow(self.rep_val(), (p_int() - 2) as nat) % p_int(),
    {
        let pm2 = pm2_limbs();
        self.exp_to(&pm2)
    }

    /// The Montgomery form of a small signed integer.
    pub fn new_from_int64(x: i64) -> (r: Gfp)
        requires
            x > i64::MIN,
        ensures
            r.wf(),
            r.rep_val() == (x as int) % p_int(),
    {
        let mag: u64 = if x >= 0 {
            x as u64
        } else {
            (-x) as u64
        };
        let raw: [u64; 4] = [mag, 0, 0, 0];
        let lim: [u64; 4] = if x >= 0 {
            raw
        } else {
            proof {
                lemma_mod_add_multiples_vanish(x as int, p_int());
                lemma_small_mod((p_int() + x) as nat, p_int() as nat);
            }
            modp_neg(&raw)
        };
        proof {
            if x >= 0 {
                lemma_small_mod(x as nat, p_int() as nat);
            }
        }
        let r2 = r2_limbs();
        let out = Gfp(mont_mul(&lim, &r2));
        proof {
            lemma_mont_mul_rep(lim, r2, out.0);
            let vl = fp_val(lim);
            let ri = rinv_int();
            let m = p_int();
            // rep(r2) is a constant: R^2 * R^-1 mod P, which is R mod P.
            assert(rep(r2) == r_mod_p());
            lemma_mul_mod_noop_left(vl * ri, r_mod_p(), m);
            assert((vl * ri) * r_mod_p() == vl * (ri * r_mod_p())) by (nonlinear_arith);
            lemma_mul_mod_noop_right(vl, ri * r_mod_p(), m);
            assert((ri * r_mod_p()) % m == 1);
            lemma_small_mod(vl as nat, m as nat);
        }
        out
    }

    /// Copy the limbs of another element.
    pub fn set(&mut self, a: &Gfp)
        ensures
            *final(self) == *a,
    {
        self.0 = a.0;
    }
}


/// Every element of the slice is well-formed.
pub open spec fn all_wf(s: Seq<Gfp>) -> bool {
    forall|j: int| 0 <= j < s.len() ==> (#[trigger] s[j]).wf()
}

/// Element-wise modular sum: `c[j] = a[j] + b[j] mod P`.
pub fn do_add(a: &[Gfp], b: &[Gfp], c: &mut [Gfp])
    requires
        a@.len() == b@.len(),
        b@.len() == old(c)@.len(),
        all_wf(a@),
        all_wf(b@),
    ensures
        final(c)@.len() == old(c)@.len(),
        all_wf(final(c)@),
        forall|j: int| 0 <= j < a@.len() ==> (#[trigger] final(c)@[j]).val() == (a@[j].val()
            + b@[j].val()) % p_int(),
        forall|j: int| 0 <= j < a@.len() ==> (#[trigger] final(c)@[j]).rep_val() == (a@[j].rep_val()
            + b@[j].rep_val()) % p_int(),
{
    let n = a.len();
    let mut i: usize = 0;
    while i < n
        invariant
            n == a@.len(),
            a@.len() == b@.len(),
            b@.len() == c@.len(),
            i <= n,
            all_wf(a@),
            all_wf(b@),
            forall|j: int| i <= j < n ==> c@[j] == old(c)@[j],
            forall|j: int| 0 <= j < i ==> (#[trigger] c@[j]).wf(),
            forall|j: int| 0 <= j < i ==> (#[trigger] c@[j]).val() == (a@[j].val() + b@[j].val())
                % p_int(),
            forall|j: int| 0 <= j < i ==> (#[trigger] c@[j]).rep_val() == (a@[j].rep_val()
                + b@[j].rep_val()) % p_int(),
        decreases n - i,
    {
        let x = vstd::slice::slice_index_get(a, i);
        let y = vstd::slice::slice_index_get(b, i);
        let z = Gfp(modp_add(&x.0, &y.0));
        proof {
            lemma_modp_add_rep(x.0, y.0, z.0);
        }
        c[i] = z;
        i += 1;
    }
}

/// Element-wise modular difference: `c[j] = a[j] - b[j] mod P`.
pub fn do_sub(a: &[Gfp], b: &[Gfp], c: &mut [Gfp])
    requires
        a@.len() == b@.len(),
        b@.len() == old(c)@.len(),
        all_wf(a@),
        all_wf(b@),
    ensures
        final(c)@.len() == old(c)@.len(),
        all_wf(final(c)@),
        forall|j: int| 0 <= j < a@.len() ==> (#[trigger] final(c)@[j]).val() == (a@[j].val()
            - b@[j].val()) % p_int(),
        forall|j: int| 0 <= j < a@.len() ==> (#[trigger] final(c)@[j]).rep_val() == (a@[j].rep_val()
            - b@[j].rep_val()) % p_int(),
{
    let n = a.len();
    let mut i: usize = 0;
    while i < n
        invariant
            n == a@.len(),
            a@.len() == b@.len(),
            b@.len() == c@.len(),
            i <= n,
            all_wf(a@),
            all_wf(b@),
            forall|j: int| i <= j < n ==> c@[j] == old(c)@[j],
            forall|j: int| 0 <= j < i ==> (#[trigger] c@[j]).wf(),
            forall|j: int| 0 <= j < i ==> (#[trigger] c@[j]).val() == (a@[j].val() - b@[j].val())
                % p_int(),
            forall|j: int| 0 <= j < i ==> (#[trigger] c@[j]).rep_val() == (a@[j].rep_val()
                - b@[j].rep_val()) % p_int(),
        decreases n - i,
    {
        let x = vstd::slice::slice_index_get(a, i);
        let y = vstd::slice::slice_index_get(b, i);
        let z = Gfp(modp_sub(&x.0, &y.0));
        proof {
            lemma_modp_sub_rep(x.0, y.0, z.0);
        }
        c[i] = z;
        i += 1;
    }
}

/// Element-wise Montgomery product: `c[j]` represents `a[j] * b[j]`.
pub fn do_mul(a: &[Gfp], b: &[Gfp], c: &mut [Gfp])
    requires
        a@.len() == b@.len(),
        b@.len() == old(c)@.len(),
        all_wf(a@),
        all_wf(b@),
    ensures
        final(c)@.len() == old(c)@.len(),
        all_wf(final(c)@),
        forall|j: int| 0 <= j < a@.len() ==> (#[trigger] final(c)@[j]).val() == (a@[j].val()
            * b@[j].val() * rinv_int()) % p_int(),
        forall|j: int| 0 <= j < a@.len() ==> (#[trigger] final(c)@[j]).rep_val() == (a@[j].rep_val()
            * b@[j].rep_val()) % p_int(),
{
    let n = a.len();
    let mut i: usize = 0;
    while i < n
        invariant
            n == a@.len(),
            a@.len() == b@.len(),
            b@.len() == c@.len(),
            i <= n,
            all_wf(a@),
            all_wf(b@),
            forall|j: int| i <= j < n ==> c@[j] == old(c)@[j],
            forall|j: int| 0 <= j < i ==> (#[trigger] c@[j]).wf(),
            forall|j: int| 0 <= j < i ==> (#[trigger] c@[j]).val() == (a@[j].val() * b@[j].val()
                * rinv_int()) % p_int(),
            forall|j: int| 0 <= j < i ==> (#[trigger] c@[j]).rep_val() == (a@[j].rep_val()
                * b@[j].rep_val()) % p_int(),
        decreases n - i,
    {
        let x = vstd::slice::slice_index_get(a, i);
        let y = vstd::slice::slice_index_get(b, i);
        let z = Gfp(mont_mul(&x.0, &y.0));
        proof {
            lemma_mont_mul_rep(x.0, y.0, z.0);
        }
        c[i] = z;
        i += 1;
    }
}

/// Element-wise Montgomery product with one shared right factor.
pub fn do_mul_scalar(a: &[Gfp], b: &Gfp, c: &mut [Gfp])
    requires
        a@.len() == old(c)@.len(),
        all_wf(a@),
        b.wf(),
    ensures
        final(c)@.len() == old(c)@.len(),
        all_wf(final(c)@),
        forall|j: int| 0 <= j < a@.len() ==> (#[trigger] final(c)@[j]).val() == (a@[j].val()
            * b.val() * rinv_int()) % p_int(),
        forall|j: int| 0 <= j < a@.len() ==> (#[trigger] final(c)@[j]).rep_val() == (a@[j].rep_val()
            * b.rep_val()) % p_int(),
{
    let n = a.len();
    let mut i: usize = 0;
    while i < n
        invariant
            n == a@.len(),
            a@.len() == c@.len(),
            i <= n,
            all_wf(a@),
            b.wf(),
            forall|j: int| i <= j < n ==> c@[j] == old(c)@[j],
            forall|j: int| 0 <= j < i ==> (#[trigger] c@[j]).wf(),
            forall|j: int| 0 <= j < i ==> (#[trigger] c@[j]).val() == (a@[j].val() * b.val()
                * rinv_int()) % p_int(),
            forall|j: int| 0 <= j < i ==> (#[trigger] c@[j]).rep_val() == (a@[j].rep_val()
                * b.rep_val()) % p_int(),
        decreases n - i,
    {
        let x = vstd::slice::slice_index_get(a, i);
        let z = Gfp(mont_mul(&x.0, &b.0));
        proof {
            lemma_mont_mul_rep(x.0, b.0, z.0);
        }
        c[i] = z;
        i += 1;
    }
}

/// Element-wise Montgomery square.
pub fn do_square(src: &[Gfp], dst: &mut [Gfp])
    requires
        src@.len() == old(dst)@.len(),
        all_wf(src@),
    ensures
        final(dst)@.len() == old(dst)@.len(),
        all_wf(final(dst)@),
        forall|j: int| 0 <= j < src@.len() ==> (#[trigger] final(dst)@[j]).val() == (src@[j].val()
            * src@[j].val() * rinv_int()) % p_int(),
        forall|j: int| 0 <= j < src@.len() ==> (#[trigger] final(dst)@[j]).rep_val() == (
        src@[j].rep_val() * src@[j].rep_val()) % p_int(),
{
    let n = src.len();
    let mut i: usize = 0;
    while i < n
        invariant
            n == src@.len(),
            src@.len() == dst@.len(),
            i <= n,
            all_wf(src@),
            forall|j: int| i <= j < n ==> dst@[j] == old(dst)@[j],
            forall|j: int| 0 <= j < i ==> (#[trigger] dst@[j]).wf(),
            forall|j: int| 0 <= j < i ==> (#[trigger] dst@[j]).val() == (src@[j].val()
                * src@[j].val() * rinv_int()) % p_int(),
            forall|j: int| 0 <= j < i ==> (#[trigger] dst@[j]).rep_val() == (src@[j].rep_val()
                * src@[j].rep_val()) % p_int(),
        decreases n - i,
    {
        let x = vstd::slice::slice_index_get(src, i);
        let z = Gfp(mont_mul(&x.0, &x.0));
        proof {
            lemma_mont_mul_rep(x.0, x.0, z.0);
        }
        dst[i] = z;
        i += 1;
    }
}

/// Element-wise modular doubling.
pub fn do_double(src: &[Gfp], dst: &mut [Gfp])
    requires
        src@.len() == old(dst)@.len(),
        all_wf(src@),
    ensures
        final(dst)@.len() == old(dst)@.len(),
        all_wf(final(dst)@),
        forall|j: int| 0 <= j < src@.len() ==> (#[trigger] final(dst)@[j]).val() == (src@[j].val()
            + src@[j].val()) % p_int(),
        forall|j: int| 0 <= j < src@.len() ==> (#[trigger] final(dst)@[j]).rep_val() == (
        src@[j].rep_val() + src@[j].rep_val()) % p_int(),
{
    let n = src.len();
    let mut i: usize = 0;
    while i < n
        invariant
            n == src@.len(),
            src@.len() == dst@.len(),
            i <= n,
            all_wf(src@),
            forall|j: int| i <= j < n ==> dst@[j] == old(dst)@[j],
            forall|j: int| 0 <= j < i ==> (#[trigger] dst@[j]).wf(),
            forall|j: int| 0 <= j < i ==> (#[trigger] dst@[j]).val() == (src@[j].val()
                + src@[j].val()) % p_int(),
            forall|j: int| 0 <= j < i ==> (#[trigger] dst@[j]).rep_val() == (src@[j].rep_val()
                + src@[j].rep_val()) % p_int(),
        decreases n - i,
    {
        let x = vstd::slice::slice_index_get(src, i);
        let z = Gfp(modp_add(&x.0, &x.0));
        proof {
            lemma_modp_add_rep(x.0, x.0, z.0);
        }
        dst[i] = z;
        i += 1;
    }
}

/// Element-wise modular negation.
pub fn do_neg(src: &[Gfp], dst: &mut [Gfp])
    requires
        src@.len() == old(dst)@.len(),
        all_wf(src@),
    ensures
        final(dst)@.len() == old(dst)@.len(),
        all_wf(final(dst)@),
        forall|j: int| 0 <= j < src@.len() ==> (#[trigger] final(dst)@[j]).val() == (p_int()
            - src@[j].val()) % p_int(),
        forall|j: int| 0 <= j < src@.len() ==> (#[trigger] final(dst)@[j]).rep_val() == (0
            - src@[j].rep_val()) % p_int(),
{
    let n = src.len();
    let mut i: usize = 0;
    while i < n
        invariant
            n == src@.len(),
            src@.len() == dst@.len(),
            i <= n,
            all_wf(src@),
            forall|j: int| i <= j < n ==> dst@[j] == old(dst)@[j],
            forall|j: int| 0 <= j < i ==> (#[trigger] dst@[j]).wf(),
            forall|j: int| 0 <= j < i ==> (#[trigger] dst@[j]).val() == (p_int() - src@[j].val())
                % p_int(),
            forall|j: int| 0 <= j < i ==> (#[trigger] dst@[j]).rep_val() == (0 - src@[j].rep_val())
                % p_int(),
        decreases n - i,
    {
        let x = vstd::slice::slice_index_get(src, i);
        let z = Gfp(modp_neg(&x.0));
        proof {
            lemma_modp_neg_rep(x.0, z.0);
        }
        dst[i] = z;
        i += 1;
    }
}


/// In-place element-wise doubling of `dst`.
pub fn double(dst: &mut [Gfp])
    requires
        all_wf(old(dst)@),
    ensures
        final(dst)@.len() == old(dst)@.len(),
        all_wf(final(dst)@),
        forall|j: int| 0 <= j < old(dst)@.len() ==> (#[trigger] final(dst)@[j]).val() == (
        old(dst)@[j].val() + old(dst)@[j].val()) % p_int(),
        forall|j: int| 0 <= j < old(dst)@.len() ==> (#[trigger] final(dst)@[j]).rep_val() == (
        old(dst)@[j].rep_val() + old(dst)@[j].rep_val()) % p_int(),
{
    let n = dst.len();
    let mut i: usize = 0;
    while i < n
        invariant
            n == dst@.len(),
            dst@.len() == old(dst)@.len(),
            i <= n,
            all_wf(old(dst)@),
            forall|j: int| i <= j < n ==> dst@[j] == old(dst)@[j],
            forall|j: int| 0 <= j < i ==> (#[trigger] dst@[j]).wf(),
            forall|j: int| 0 <= j < i ==> (#[trigger] dst@[j]).val() == (old(dst)@[j].val()
                + old(dst)@[j].val()) % p_int(),
            forall|j: int| 0 <= j < i ==> (#[trigger] dst@[j]).rep_val() == (old(dst)@[j].rep_val()
                + old(dst)@[j].rep_val()) % p_int(),
        decreases n - i,
    {
        let x: Gfp = *vstd::slice::slice_index_get(&*dst, i);
        let z = Gfp(modp_add(&x.0, &x.0));
        proof {
            lemma_modp_add_rep(x.0, x.0, z.0);
        }
        dst[i] = z;
        i += 1;
    }
}

/// Element-wise doubling of `src` into `dst`.
pub fn double_to(src: &[Gfp], dst: &mut [Gfp])
    requires
        src@.len() == old(dst)@.len(),
        all_wf(src@),
    ensures
        final(dst)@.len() == old(dst)@.len(),
        all_wf(final(dst)@),
        forall|j: int| 0 <= j < src@.len() ==> (#[trigger] final(dst)@[j]).val() == (src@[j].val()
            + src@[j].val()) % p_int(),
        forall|j: int| 0 <= j < src@.len() ==> (#[trigger] final(dst)@[j]).rep_val() == (
        src@[j].rep_val() + src@[j].rep_val()) % p_int(),
{
    do_double(src, dst);
}

/// Element-wise product of `a` and `b` into `c`; the result represents the
/// field products.
pub fn mul(a: &[Gfp], b: &[Gfp], c: &mut [Gfp])
    requires
        a@.len() == b@.len(),
        b@.len() == old(c)@.len(),
        all_wf(a@),
        all_wf(b@),
    ensures
        final(c)@.len() == old(c)@.len(),
        all_wf(final(c)@),
        forall|j: int| 0 <= j < a@.len() ==> (#[trigger] final(c)@[j]).val() == (a@[j].val()
            * b@[j].val() * rinv_int()) % p_int(),
        forall|j: int| 0 <= j < a@.len() ==> (#[trigger] final(c)@[j]).rep_val() == (a@[j].rep_val()
            * b@[j].rep_val()) % p_int(),
{
    do_mul(a, b, c);
}

/// In-place element-wise product: `dst[j]` becomes the product of `dst[j]`
/// and `src[j]`.
pub fn mul_mov(dst: &mut [Gfp], src: &[Gfp])
    requires
        old(dst)@.len() == src@.len(),
        all_wf(old(dst)@),
        all_wf(src@),
    ensures
        final(dst)@.len() == old(dst)@.len(),
        all_wf(final(dst)@),
        forall|j: int| 0 <= j < src@.len() ==> (#[trigger] final(dst)@[j]).val() == (
        old(dst)@[j].val() * src@[j].val() * rinv_int()) % p_int(),
        forall|j: int| 0 <= j < src@.len() ==> (#[trigger] final(dst)@[j]).rep_val() == (
        old(dst)@[j].rep_val() * src@[j].rep_val()) % p_int(),
{
    let n = dst.len();
    let mut i: usize = 0;
    while i < n
        invariant
            n == dst@.len(),
            dst@.len() == old(dst)@.len(),
            old(dst)@.len() == src@.len(),
            i <= n,
            all_wf(old(dst)@),
            all_wf(src@),
            forall|j: int| i <= j < n ==> dst@[j] == old(dst)@[j],
            forall|j: int| 0 <= j < i ==> (#[trigger] dst@[j]).wf(),
            forall|j: int| 0 <= j < i ==> (#[trigger] dst@[j]).val() == (old(dst)@[j].val()
                * src@[j].val() * rinv_int()) % p_int(),
            forall|j: int| 0 <= j < i ==> (#[trigger] dst@[j]).rep_val() == (old(dst)@[j].rep_val()
                * src@[j].rep_val()) % p_int(),
        decreases n - i,
    {
        let x: Gfp = *vstd::slice::slice_index_get(&*dst, i);
        let y = vstd::slice::slice_index_get(src, i);
        let z = Gfp(mont_mul(&x.0, &y.0));
        proof {
            lemma_mont_mul_rep(x.0, y.0, z.0);
        }
        dst[i] = z;
        i += 1;
    }
}

/// In-place element-wise Montgomery square.
pub fn square(dst: &mut [Gfp])
    requires
        all_wf(old(dst)@),
    ensures
        final(dst)@.len() == old(dst)@.len(),
        all_wf(final(dst)@),
        forall|j: int| 0 <= j < old(dst)@.len() ==> (#[trigger] final(dst)@[j]).val() == (
        old(dst)@[j].val() * old(dst)@[j].val() * rinv_int()) % p_int(),
        forall|j: int| 0 <= j < old(dst)@.len() ==> (#[trigger] final(dst)@[j]).rep_val() == (
        old(dst)@[j].rep_val() * old(dst)@[j].rep_val()) % p_int(),
{
    let n = dst.len();
    let mut i: usize = 0;
    while i < n
        invariant
            n == dst@.len(),
            dst@.len() == old(dst)@.len(),
            i <= n,
            all_wf(old(dst)@),
            forall|j: int| i <= j < n ==> dst@[j] == old(dst)@[j],
            forall|j: int| 0 <= j < i ==> (#[trigger] dst@[j]).wf(),
            forall|j: int| 0 <= j < i ==> (#[trigger] dst@[j]).val() == (old(dst)@[j].val()
                * old(dst)@[j].val() * rinv_int()) % p_int(),
            forall|j: int| 0 <= j < i ==> (#[trigger] dst@[j]).rep_val() == (old(dst)@[j].rep_val()
                * old(dst)@[j].rep_val()) % p_int(),
        decreases n - i,
    {
        let x: Gfp = *vstd::slice::slice_index_get(&*dst, i);
        let z = Gfp(mont_mul(&x.0, &x.0));
        proof {
            lemma_mont_mul_rep(x.0, x.0, z.0);
        }
        dst[i] = z;
        i += 1;
    }
}

/// Element-wise Montgomery square of `src` into `dst`.
pub fn square_to(src: &[Gfp], dst: &mut [Gfp])
    requires
        src@.len() == old(dst)@.len(),
        all_wf(src@),
    ensures
        final(dst)@.len() == old(dst)@.len(),
        all_wf(final(dst)@),
        forall|j: int| 0 <= j < src@.len() ==> (#[trigger] final(dst)@[j]).val() == (src@[j].val()
            * src@[j].val() * rinv_int()) % p_int(),
        forall|j: int| 0 <= j < src@.len() ==> (#[trigger] final(dst)@[j]).rep_val() == (
        src@[j].rep_val() * src@[j].rep_val()) % p_int(),
{
    do_square(src, dst);
}

/// In-place element-wise product with one shared right factor.
pub fn mul_mov_scalar(dst: &mut [Gfp], src: &Gfp)
    requires
        all_wf(old(dst)@),
        src.wf(),
    ensures
        final(dst)@.len() == old(dst)@.len(),
        all_wf(final(dst)@),
        forall|j: int| 0 <= j < old(dst)@.len() ==> (#[trigger] final(dst)@[j]).val() == (
        old(dst)@[j].val() * src.val() * rinv_int()) % p_int(),
        forall|j: int| 0 <= j < old(dst)@.len() ==> (#[trigger] final(dst)@[j]).rep_val() == (
        old(dst)@[j].rep_val() * src.rep_val()) % p_int(),
{
    let n = dst.len();
    let mut i: usize = 0;
    while i < n
        invariant
            n == dst@.len(),
            dst@.len() == old(dst)@.len(),
            i <= n,
            all_wf(old(dst)@),
            src.wf(),
            forall|j: int| i <= j < n ==> dst@[j] == old(dst)@[j],
            forall|j: int| 0 <= j < i ==> (#[trigger] dst@[j]).wf(),
            forall|j: int| 0 <= j < i ==> (#[trigger] dst@[j]).val() == (old(dst)@[j].val()
                * src.val() * rinv_int()) % p_int(),
            forall|j: int| 0 <= j < i ==> (#[trigger] dst@[j]).rep_val() == (old(dst)@[j].rep_val()
                * src.rep_val()) % p_int(),
        decreases n - i,
    {
        let x: Gfp = *vstd::slice::slice_index_get(&*dst, i);
        let z = Gfp(mont_mul(&x.0, &src.0));
        proof {
            lemma_mont_mul_rep(x.0, src.0, z.0);
        }
        dst[i] = z;
        i += 1;
    }
}

/// Element-wise product of `a` with the shared factor `b`, into `c`.
pub fn mul_scalar(a: &[Gfp], b: &Gfp, c: &mut [Gfp])
    requires
        a@.len() == old(c)@.len(),
        all_wf(a@),
        b.wf(),
    ensures
        final(c)@.len() == old(c)@.len(),
        all_wf(final(c)@),
        forall|j: int| 0 <= j < a@.len() ==> (#[trigger] final(c)@[j]).val() == (a@[j].val()
            * b.val() * rinv_int()) % p_int(),
        forall|j: int| 0 <= j < a@.len() ==> (#[trigger] final(c)@[j]).rep_val() == (a@[j].rep_val()
            * b.rep_val()) % p_int(),
{
    do_mul_scalar(a, b, c);
}

/// In-place element-wise sum: `dst[j]` becomes `dst[j] + src[j] mod P`.
pub fn add_mov(dst: &mut [Gfp], src: &[Gfp])
    requires
        old(dst)@.len() == src@.len(),
        all_wf(old(dst)@),
        all_wf(src@),
    ensures
        final(dst)@.len() == old(dst)@.len(),
        all_wf(final(dst)@),
        forall|j: int| 0 <= j < src@.len() ==> (#[trigger] final(dst)@[j]).val() == (
        old(dst)@[j].val() + src@[j].val()) % p_int(),
        forall|j: int| 0 <= j < src@.len() ==> (#[trigger] final(dst)@[j]).rep_val() == (
        old(dst)@[j].rep_val() + src@[j].rep_val()) % p_int(),
{
    let n = dst.len();
    let mut i: usize = 0;
    while i < n
        invariant
            n == dst@.len(),
            dst@.len() == old(dst)@.len(),
            old(dst)@.len() == src@.len(),
            i <= n,
            all_wf(old(dst)@),
            all_wf(src@),
            forall|j: int| i <= j < n ==> dst@[j] == old(dst)@[j],
            forall|j: int| 0 <= j < i ==> (#[trigger] dst@[j]).wf(),
            forall|j: int| 0 <= j < i ==> (#[trigger] dst@[j]).val() == (old(dst)@[j].val()
                + src@[j].val()) % p_int(),
            forall|j: int| 0 <= j < i ==> (#[trigger] dst@[j]).rep_val() == (old(dst)@[j].rep_val()
                + src@[j].rep_val()) % p_int(),
        decreases n - i,
    {
        let x: Gfp = *vstd::slice::slice_index_get(&*dst, i);
        let y = vstd::slice::slice_index_get(src, i);
        let z = Gfp(modp_add(&x.0, &y.0));
        proof {
            lemma_modp_add_rep(x.0, y.0, z.0);
        }
        dst[i] = z;
        i += 1;
    }
}

/// Element-wise sum of `a` and `b` into `c`.
pub fn add(a: &[Gfp], b: &[Gfp], c: &mut [Gfp])
    requires
        a@.len() == b@.len(),
        b@.len() == old(c)@.len(),
        all_wf(a@),
        all_wf(b@),
    ensures
        final(c)@.len() == old(c)@.len(),
        all_wf(final(c)@),
        forall|j: int| 0 <= j < a@.len() ==> (#[trigger] final(c)@[j]).val() == (a@[j].val()
            + b@[j].val()) % p_int(),
        forall|j: int| 0 <= j < a@.len() ==> (#[trigger] final(c)@[j]).rep_val() == (a@[j].rep_val()
            + b@[j].rep_val()) % p_int(),
{
    do_add(a, b, c);
}

/// In-place element-wise difference: `dst[j]` becomes `dst[j] - src[j] mod P`.
pub fn sub_mov(dst: &mut [Gfp], src: &[Gfp])
    requires
        old(dst)@.len() == src@.len(),
        all_wf(old(dst)@),
        all_wf(src@),
    ensures
        final(dst)@.len() == old(dst)@.len(),
        all_wf(final(dst)@),
        forall|j: int| 0 <= j < src@.len() ==> (#[trigger] final(dst)@[j]).val() == (
        old(dst)@[j].val() - src@[j].val()) % p_int(),
        forall|j: int| 0 <= j < src@.len() ==> (#[trigger] final(dst)@[j]).rep_val() == (
        old(dst)@[j].rep_val() - src@[j].rep_val()) % p_int(),
{
    let n = dst.len();
    let mut i: usize = 0;
    while i < n
        invariant
            n == dst@.len(),
            dst@.len() == old(dst)@.len(),
            old(dst)@.len() == src@.len(),
            i <= n,
            all_wf(old(dst)@),
            all_wf(src@),
            forall|j: int| i <= j < n ==> dst@[j] == old(dst)@[j],
            forall|j: int| 0 <= j < i ==> (#[trigger] dst@[j]).wf(),
            forall|j: int| 0 <= j < i ==> (#[trigger] dst@[j]).val() == (old(dst)@[j].val()
                - src@[j].val()) % p_int(),
            forall|j: int| 0 <= j < i ==> (#[trigger] dst@[j]).rep_val() == (old(dst)@[j].rep_val()
                - src@[j].rep_val()) % p_int(),
        decreases n - i,
    {
        let x: Gfp = *vstd::slice::slice_index_get(&*dst, i);
        let y = vstd::slice::slice_index_get(src, i);
        let z = Gfp(modp_sub(&x.0, &y.0));
        proof {
            lemma_modp_sub_rep(x.0, y.0, z.0);
        }
        dst[i] = z;
        i += 1;
    }
}

/// Element-wise difference of `a` and `b` into `c`.
pub fn sub(a: &[Gfp], b: &[Gfp], c: &mut [Gfp])
    requires
        a@.len() == b@.len(),
        b@.len() == old(c)@.len(),
        all_wf(a@),
        all_wf(b@),
    ensures
        final(c)@.len() == old(c)@.len(),
        all_wf(final(c)@),
        forall|j: int| 0 <= j < a@.len() ==> (#[trigger] final(c)@[j]).val() == (a@[j].val()
            - b@[j].val()) % p_int(),
        forall|j: int| 0 <= j < a@.len() ==> (#[trigger] final(c)@[j]).rep_val() == (a@[j].rep_val()
            - b@[j].rep_val()) % p_int(),
{
    do_sub(a, b, c);
}

/// In-place element-wise negation.
pub fn neg(dst: &mut [Gfp])
    requires
        all_wf(old(dst)@),
    ensures
        final(dst)@.len() == old(dst)@.len(),
        all_wf(final(dst)@),
        forall|j: int| 0 <= j < old(dst)@.len() ==> (#[trigger] final(dst)@[j]).val() == (p_int()
            - old(dst)@[j].val()) % p_int(),
        forall|j: int| 0 <= j < old(dst)@.len() ==> (#[trigger] final(dst)@[j]).rep_val() == (0
            - old(dst)@[j].rep_val()) % p_int(),
{
    let n = dst.len();
    let mut i: usize = 0;
    while i < n
        invariant
            n == dst@.len(),
            dst@.len() == old(dst)@.len(),
            i <= n,
            all_wf(old(dst)@),
            forall|j: int| i <= j < n ==> dst@[j] == old(dst)@[j],
            forall|j: int| 0 <= j < i ==> (#[trigger] dst@[j]).wf(),
            forall|j: int| 0 <= j < i ==> (#[trigger] dst@[j]).val() == (p_int()
                - old(dst)@[j].val()) % p_int(),
            forall|j: int| 0 <= j < i ==> (#[trigger] dst@[j]).rep_val() == (0
                - old(dst)@[j].rep_val()) % p_int(),
        decreases n - i,
    {
        let x: Gfp = *vstd::slice::slice_index_get(&*dst, i);
        let z = Gfp(modp_neg(&x.0));
        proof {
            lemma_modp_neg_rep(x.0, z.0);
        }
        dst[i] = z;
        i += 1;
    }
}

/// Element-wise negation of `src` into `dst`.
pub fn neg_to(src: &[Gfp], dst: &mut [Gfp])
    requires
        src@.len() == old(dst)@.len(),
        all_wf(src@),
    ensures
        final(dst)@.len() == old(dst)@.len(),
        all_wf(final(dst)@),
        forall|j: int| 0 <= j < src@.len() ==> (#[trigger] final(dst)@[j]).val() == (p_int()
            - src@[j].val()) % p_int(),
        forall|j: int| 0 <= j < src@.len() ==> (#[trigger] final(dst)@[j]).rep_val() == (0
            - src@[j].rep_val()) % p_int(),
{
    do_neg(src, dst);
}

/// Carry every element into Montgomery form: the represented value picks up a
/// factor of `R mod P`, so a slice of plain residues comes to represent
/// itself.
pub fn mont_encode(dst: &mut [Gfp])
    requires
        all_wf(old(dst)@),
    ensures
        final(dst)@.len() == old(dst)@.len(),
        all_wf(final(dst)@),
        forall|j: int| 0 <= j < old(dst)@.len() ==> (#[trigger] final(dst)@[j]).val() == (
        old(dst)@[j].val() * r2_int() * rinv_int()) % p_int(),
        forall|j: int| 0 <= j < old(dst)@.len() ==> (#[trigger] final(dst)@[j]).rep_val() == (
        old(dst)@[j].rep_val() * r_mod_p()) % p_int(),
{
    let r2 = Gfp(r2_limbs());
    proof {
        assert(r2.rep_val() == r_mod_p());
    }
    mul_mov_scalar(dst, &r2);
}

/// Leave Montgomery form: each element's limb value becomes the field element
/// it represented.
pub fn mont_decode(dst: &mut [Gfp])
    requires
        all_wf(old(dst)@),
    ensures
        final(dst)@.len() == old(dst)@.len(),
        all_wf(final(dst)@),
        forall|j: int| 0 <= j < old(dst)@.len() ==> (#[trigger] final(dst)@[j]).val() == old(
            dst,
        )@[j].rep_val(),
{
    let one_plain = Gfp([1, 0, 0, 0]);
    proof {
        lemma_small_mod(1nat, p_int() as nat);
    }
    mul_mov_scalar(dst, &one_plain);
    proof {
        assert forall|j: int| 0 <= j < old(dst)@.len() implies (#[trigger] final(dst)@[j]).val()
            == old(dst)@[j].rep_val() by {
            assert(final(dst)@[j].val() == (old(dst)@[j].val() * 1 * rinv_int()) % p_int());
            assert(old(dst)@[j].val() * 1 == old(dst)@[j].val());
        }
    }
}

/// Reduce elements that a lazy computation left in `[0, 2P)` back below `P`.
pub fn normalize(dst: &mut [Gfp])
    requires
        forall|j: int| 0 <= j < old(dst)@.len() ==> (#[trigger] old(dst)@[j]).val() < 2 * p_int(),
    ensures
        final(dst)@.len() == old(dst)@.len(),
        all_wf(final(dst)@),
        forall|j: int| 0 <= j < old(dst)@.len() ==> (#[trigger] final(dst)@[j]).val() == old(
            dst,
        )@[j].val() % p_int(),
{
    let n = dst.len();
    let mut i: usize = 0;
    while i < n
        invariant
            n == dst@.len(),
            dst@.len() == old(dst)@.len(),
            i <= n,
            forall|j: int| 0 <= j < n ==> (#[trigger] old(dst)@[j]).val() < 2 * p_int(),
            forall|j: int| i <= j < n ==> dst@[j] == old(dst)@[j],
            forall|j: int| 0 <= j < i ==> (#[trigger] dst@[j]).wf(),
            forall|j: int| 0 <= j < i ==> (#[trigger] dst@[j]).val() == old(dst)@[j].val()
                % p_int(),
        decreases n - i,
    {
        let x: Gfp = *vstd::slice::slice_index_get(&*dst, i);
        let z = Gfp(reduce_once(&x.0));
        dst[i] = z;
        i += 1;
    }
}

/// Element-wise sum gathered through byte offsets: entry `k` of the output is
/// the sum of the elements of `a` and `b` found 32-byte-aligned at
/// `a_index[k]` and `b_index[k]`.
pub fn add_by_byte_index(a: &[Gfp], b: &[Gfp], a_index: &[u16], b_index: &[u16], c: &mut [Gfp])
    requires
        a_index@.len() == b_index@.len(),
        old(c)@.len() == a_index@.len(),
        forall|k: int|
            0 <= k < a_index@.len() ==> (#[trigger] a_index@[k]) % 32 == 0 && a_index@[k] as int / 32
                < a@.len(),
        forall|k: int|
            0 <= k < b_index@.len() ==> (#[trigger] b_index@[k]) % 32 == 0 && b_index@[k] as int / 32
                < b@.len(),
        all_wf(a@),
        all_wf(b@),
    ensures
        final(c)@.len() == old(c)@.len(),
        all_wf(final(c)@),
        forall|k: int|
            0 <= k < a_index@.len() ==> (#[trigger] final(c)@[k]).val() == (a@[
            a_index@[k] as int / 32].val() + b@[b_index@[k] as int / 32].val()) % p_int(),
{
    let n = a_index.len();
    let mut i: usize = 0;
    while i < n
        invariant
            n == a_index@.len(),
            a_index@.len() == b_index@.len(),
            c@.len() == a_index@.len(),
            i <= n,
            forall|k: int|
                0 <= k < n ==> (#[trigger] a_index@[k]) % 32 == 0 && a_index@[k] as int / 32 < a@.len(),
            forall|k: int|
                0 <= k < n ==> (#[trigger] b_index@[k]) % 32 == 0 && b_index@[k] as int / 32 < b@.len(),
            all_wf(a@),
            all_wf(b@),
            forall|k: int| i <= k < n ==> c@[k] == old(c)@[k],
            forall|k: int| 0 <= k < i ==> (#[trigger] c@[k]).wf(),
            forall|k: int|
                0 <= k < i ==> (#[trigger] c@[k]).val() == (a@[a_index@[k] as int / 32].val() + b@[
                b_index@[k] as int / 32].val()) % p_int(),
        decreases n - i,
    {
        let ia: usize = (*vstd::slice::slice_index_get(a_index, i) / 32) as usize;
        let ib: usize = (*vstd::slice::slice_index_get(b_index, i) / 32) as usize;
        let x = vstd::slice::slice_index_get(a, ia);
        let y = vstd::slice::slice_index_get(b, ib);
        let z = Gfp(modp_add(&x.0, &y.0));
        c[i] = z;
        i += 1;
    }
}

/// Element-wise Montgomery product gathered through byte offsets, as in
/// `add_by_byte_index`.
pub fn mul_by_byte_index(a: &[Gfp], b: &[Gfp], a_index: &[u16], b_index: &[u16], c: &mut [Gfp])
    requires
        a_index@.len() == b_index@.len(),
        old(c)@.len() == a_index@.len(),
        forall|k: int|
            0 <= k < a_index@.len() ==> (#[trigger] a_index@[k]) % 32 == 0 && a_index@[k] as int / 32
                < a@.len(),
        forall|k: int|
            0 <= k < b_index@.len() ==> (#[trigger] b_index@[k]) % 32 == 0 && b_index@[k] as int / 32
                < b@.len(),
        all_wf(a@),
        all_wf(b@),
    ensures
        final(c)@.len() == old(c)@.len(),
        all_wf(final(c)@),
        forall|k: int|
            0 <= k < a_index@.len() ==> (#[trigger] final(c)@[k]).val() == (a@[
            a_index@[k] as int / 32].val() * b@[b_index@[k] as int / 32].val() * rinv_int()) % p_int(),
{
    let n = a_index.len();
    let mut i: usize = 0;
    while i < n
        invariant
            n == a_index@.len(),
            a_index@.len() == b_index@.len(),
            c@.len() == a_index@.len(),
            i <= n,
            forall|k: int|
                0 <= k < n ==> (#[trigger] a_index@[k]) % 32 == 0 && a_index@[k] as int / 32 < a@.len(),
            forall|k: int|
                0 <= k < n ==> (#[trigger] b_index@[k]) % 32 == 0 && b_index@[k] as int / 32 < b@.len(),
            all_wf(a@),
            all_wf(b@),
            forall|k: int| i <= k < n ==> c@[k] == old(c)@[k],
            forall|k: int| 0 <= k < i ==> (#[trigger] c@[k]).wf(),
            forall|k: int|
                0 <= k < i ==> (#[trigger] c@[k]).val() == (a@[a_index@[k] as int / 32].val() * b@[
                b_index@[k] as int / 32].val() * rinv_int()) % p_int(),
        decreases n - i,
    {
        let ia: usize = (*vstd::slice::slice_index_get(a_index, i) / 32) as usize;
        let ib: usize = (*vstd::slice::slice_index_get(b_index, i) / 32) as usize;
        let x = vstd::slice::slice_index_get(a, ia);
        let y = vstd::slice::slice_index_get(b, ib);
        let z = Gfp(mont_mul(&x.0, &y.0));
        c[i] = z;
        i += 1;
    }
}


/// The field sum of two represented values.
pub open spec fn fadd(x: int, y: int) -> int {
    (x + y) % p_int()
}

/// The field difference of two represented values.
pub open spec fn fsub(x: int, y: int) -> int {
    (x - y) % p_int()
}

/// The field negation of a represented value.
pub open spec fn fneg(x: int) -> int {
    (0 - x) % p_int()
}

/// The field product of two represented values.
pub open spec fn fmul(x: int, y: int) -> int {
    (x * y) % p_int()
}

/// Scalar field addition on single elements.
pub fn gadd(a: &Gfp, b: &Gfp) -> (r: Gfp)
    requires
        a.wf(),
        b.wf(),
    ensures
        r.wf(),
        r.rep_val() == fadd(a.rep_val(), b.rep_val()),
{
    let r = Gfp(modp_add(&a.0, &b.0));
    proof {
        lemma_modp_add_rep(a.0, b.0, r.0);
    }
    r
}

/// Scalar field subtraction on single elements.
pub fn gsub(a: &Gfp, b: &Gfp) -> (r: Gfp)
    requires
        a.wf(),
        b.wf(),
    ensures
        r.wf(),
        r.rep_val() == fsub(a.rep_val(), b.rep_val()),
{
    let r = Gfp(modp_sub(&a.0, &b.0));
    proof {
        lemma_modp_sub_rep(a.0, b.0, r.0);
    }
    r
}

/// Scalar field negation on single elements.
pub fn gneg(a: &Gfp) -> (r: Gfp)
    requires
        a.wf(),
    ensures
        r.wf(),
        r.rep_val() == fneg(a.rep_val()),
{
    let r = Gfp(modp_neg(&a.0));
    proof {
        lemma_modp_neg_rep(a.0, r.0);
    }
    r
}

/// Scalar field multiplication (a Montgomery product) on single elements.
pub fn gmul(a: &Gfp, b: &Gfp) -> (r: Gfp)
    requires
        a.wf(),
        b.wf(),
    ensures
        r.wf(),
        r.rep_val() == fmul(a.rep_val(), b.rep_val()),
{
    let r = Gfp(mont_mul(&a.0, &b.0));
    proof {
        lemma_mont_mul_rep(a.0, b.0, r.0);
    }
    r
}

} // verus!
