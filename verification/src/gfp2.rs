//! The quadratic extension of the base field: elements `x·u + y` with
//! `u^2 = -1`, each coordinate a Montgomery-form base-field element.
//!
//! The non-residue used by the next tower level is `xi = 9 + u`.

use vstd::prelude::*;
use crate::gfp::{Gfp, fadd, fsub, fneg, fmul, gadd, gsub, gneg, gmul, zero, one};
use crate::fp::p_int;
use vstd::arithmetic::power::pow;

verus! {

/// An element `x·u + y` of the quadratic extension, stored as `[x, y]`.
#[derive(Clone, Copy, Debug)]
pub struct Gfp2(pub [Gfp; 2]);

/// The represented coordinate pair of a quadratic-extension element.
pub open spec fn g2rep(a: Gfp2) -> (int, int) {
    (a.0[0].rep_val(), a.0[1].rep_val())
}

/// The pairwise field sum.
pub open spec fn g2add(a: (int, int), b: (int, int)) -> (int, int) {
    (fadd(a.0, b.0), fadd(a.1, b.1))
}

/// The pairwise field difference.
pub open spec fn g2sub(a: (int, int), b: (int, int)) -> (int, int) {
    (fsub(a.0, b.0), fsub(a.1, b.1))
}

/// The pairwise field negation.
pub open spec fn g2neg(a: (int, int)) -> (int, int) {
    (fneg(a.0), fneg(a.1))
}

/// The product in `Fp[u]/(u^2 + 1)`:
/// `(ax·u + ay)(bx·u + by) = (ax·by + ay·bx)·u + (ay·by - ax·bx)`.
pub open spec fn g2mul(a: (int, int), b: (int, int)) -> (int, int) {
    (fadd(fmul(a.0, b.1), fmul(a.1, b.0)), fsub(fmul(a.1, b.1), fmul(a.0, b.0)))
}

/// Scaling both coordinates by a base-field element.
pub open spec fn g2scale(a: (int, int), s: int) -> (int, int) {
    (fmul(a.0, s), fmul(a.1, s))
}

/// Multiplication by the non-residue `xi = 9 + u`:
/// `(x·u + y)(u + 9) = (9x + y)·u + (9y - x)`.
pub open spec fn g2mul_xi(a: (int, int)) -> (int, int) {
    (fadd(fmul(9, a.0), a.1), fsub(fmul(9, a.1), a.0))
}

impl Gfp2 {
    /// Both coordinates are reduced.
    pub open spec fn wf(&self) -> bool {
        self.0[0].wf() && self.0[1].wf()
    }

    /// The coefficient of `u`.
    pub fn x(&self) -> (r: &Gfp)
        ensures
            *r == self.0[0],
    {
        &self.0[0]
    }

    /// The constant coordinate.
    pub fn y(&self) -> (r: &Gfp)
        ensures
            *r == self.0[1],
    {
        &self.0[1]
    }

    /// Copy another element.
    pub fn set(&mut self, a: &Gfp2)
        ensures
            *final(self) == *a,
    {
        self.0[0] = a.0[0];
        self.0[1] = a.0[1];
        proof {
            assert(final(self).0 =~= a.0);
        }
    }

    /// Become the additive identity.
    pub fn set_zero(&mut self)
        ensures
            final(self).wf(),
            g2rep(*final(self)) == (0int, 0int),
    {
        self.0[0] = zero();
        self.0[1] = zero();
    }

    /// Become the multiplicative identity.
    pub fn set_one(&mut self)
        ensures
            final(self).wf(),
            g2rep(*final(self)) == (0int, 1int),
    {
        self.0[0] = zero();
        self.0[1] = one();
    }

    /// Whether both residues are zero, which is the zero element.
    pub fn is_zero(&self) -> (r: bool)
        ensures
            r == (self.0[0].val() == 0 && self.0[1].val() == 0),
    {
        let zx = self.0[0].is_zero();
        let zy = self.0[1].is_zero();
        zx && zy
    }

    /// Whether the element is the multiplicative identity: a zero `u`
    /// coordinate and the Montgomery residue of one.
    pub fn is_one(&self) -> (r: bool)
        ensures
            r == (self.0[0].val() == 0 && self.0[1].val() == crate::fp::r_mod_p()),
    {
        let zx = self.0[0].is_zero();
        let o = one();
        let oy = self.0[1] == o;
        proof {
            if self.0[1].val() == crate::fp::r_mod_p() {
                crate::fp::lemma_fp_val_injective(self.0[1].0, o.0);
            }
        }
        zx && oy
    }

    /// Negate in place.
    pub fn neg_ref(&mut self)
        requires
            old(self).wf(),
        ensures
            final(self).wf(),
            g2rep(*final(self)) == g2neg(g2rep(*old(self))),
    {
        self.0[0] = gneg(&self.0[0]);
        self.0[1] = gneg(&self.0[1]);
    }

    /// The negation.
    pub fn neg_to(&self) -> (r: Gfp2)
        requires
            self.wf(),
        ensures
            r.wf(),
            g2rep(r) == g2neg(g2rep(*self)),
    {
        Gfp2([gneg(&self.0[0]), gneg(&self.0[1])])
    }

    /// The conjugate: the `u` coordinate is negated.
    pub fn conjugate(&mut self)
        requires
            old(self).wf(),
        ensures
            final(self).wf(),
            g2rep(*final(self)) == (fneg(g2rep(*old(self)).0), g2rep(*old(self)).1),
    {
        self.0[0] = gneg(&self.0[0]);
    }

    /// Add another element in place.
    pub fn add_ref(&mut self, b: &Gfp2)
        requires
            old(self).wf(),
            b.wf(),
        ensures
            final(self).wf(),
            g2rep(*final(self)) == g2add(g2rep(*old(self)), g2rep(*b)),
    {
        self.0[0] = gadd(&self.0[0], &b.0[0]);
        self.0[1] = gadd(&self.0[1], &b.0[1]);
    }

    /// The sum of two elements.
    pub fn add_to(a: &Gfp2, b: &Gfp2) -> (r: Gfp2)
        requires
            a.wf(),
            b.wf(),
        ensures
            r.wf(),
            g2rep(r) == g2add(g2rep(*a), g2rep(*b)),
    {
        Gfp2([gadd(&a.0[0], &b.0[0]), gadd(&a.0[1], &b.0[1])])
    }

    /// Subtract another element in place.
    pub fn sub_ref(&mut self, b: &Gfp2)
        requires
            old(self).wf(),
            b.wf(),
        ensures
            final(self).wf(),
            g2rep(*final(self)) == g2sub(g2rep(*old(self)), g2rep(*b)),
    {
        self.0[0] = gsub(&self.0[0], &b.0[0]);
        self.0[1] = gsub(&self.0[1], &b.0[1]);
    }

    /// The difference of two elements.
    pub fn sub_to(a: &Gfp2, b: &Gfp2) -> (r: Gfp2)
        requires
            a.wf(),
            b.wf(),
        ensures
            r.wf(),
            g2rep(r) == g2sub(g2rep(*a), g2rep(*b)),
    {
        Gfp2([gsub(&a.0[0], &b.0[0]), gsub(&a.0[1], &b.0[1])])
    }

    /// The product of two elements.
    pub fn mul_to(a: &Gfp2, b: &Gfp2) -> (r: Gfp2)
        requires
            a.wf(),
            b.wf(),
        ensures
            r.wf(),
            g2rep(r) == g2mul(g2rep(*a), g2rep(*b)),
    {
        let tx = gadd(&gmul(&a.0[0], &b.0[1]), &gmul(&a.0[1], &b.0[0]));
        let ty = gsub(&gmul(&a.0[1], &b.0[1]), &gmul(&a.0[0], &b.0[0]));
        Gfp2([tx, ty])
    }

    /// Multiply by another element in place.
    pub fn mul_ref(&mut self, b: &Gfp2)
        requires
            old(self).wf(),
            b.wf(),
        ensures
            final(self).wf(),
            g2rep(*final(self)) == g2mul(g2rep(*old(self)), g2rep(*b)),
    {
        let r = Gfp2::mul_to(self, b);
        self.0[0] = r.0[0];
        self.0[1] = r.0[1];
        proof {
            assert(final(self).0 =~= r.0);
        }
    }

    /// Scale both coordinates by a base-field element.
    pub fn mul_scalar(&mut self, b: &Gfp)
        requires
            old(self).wf(),
            b.wf(),
        ensures
            final(self).wf(),
            g2rep(*final(self)) == g2scale(g2rep(*old(self)), b.rep_val()),
    {
        self.0[0] = gmul(&self.0[0], b);
        self.0[1] = gmul(&self.0[1], b);
    }

    /// Multiply by the non-residue `xi = 9 + u` in place.
    pub fn mul_xi(&mut self)
        requires
            old(self).wf(),
        ensures
            final(self).wf(),
            g2rep(*final(self)) == g2mul_xi(g2rep(*old(self))),
    {
        let r = self.mul_xi_to();
        self.0[0] = r.0[0];
        self.0[1] = r.0[1];
        proof {
            assert(final(self).0 =~= r.0);
        }
    }

    /// The product with the non-residue `xi = 9 + u`.
    pub fn mul_xi_to(&self) -> (r: Gfp2)
        requires
            self.wf(),
        ensures
            r.wf(),
            g2rep(r) == g2mul_xi(g2rep(*self)),
    {
        let nine = Gfp::new_from_int64(9);
        proof {
            vstd::arithmetic::div_mod::lemma_small_mod(9nat, p_int() as nat);
        }
        let tx = gadd(&gmul(&nine, &self.0[0]), &self.0[1]);
        let ty = gsub(&gmul(&nine, &self.0[1]), &self.0[0]);
        Gfp2([tx, ty])
    }

    /// Square in place.
    pub fn square(&mut self)
        requires
            old(self).wf(),
        ensures
            final(self).wf(),
            g2rep(*final(self)) == g2mul(g2rep(*old(self)), g2rep(*old(self))),
    {
        let r = self.square_to();
        self.0[0] = r.0[0];
        self.0[1] = r.0[1];
        proof {
            assert(final(self).0 =~= r.0);
        }
    }

    /// The square.
    pub fn square_to(&self) -> (r: Gfp2)
        requires
            self.wf(),
        ensures
            r.wf(),
            g2rep(r) == g2mul(g2rep(*self), g2rep(*self)),
    {
        Gfp2::mul_to(self, self)
    }

    /// Invert in place: `(x·u + y)^-1 = (-x·u + y) / (x^2 + y^2)`, where the
    /// norm is inverted by raising to `P - 2`.
    pub fn invert(&mut self)
        requires
            old(self).wf(),
        ensures
            final(self).wf(),
            ({
                let x = g2rep(*old(self)).0;
                let y = g2rep(*old(self)).1;
                let dinv = pow(fadd(fmul(x, x), fmul(y, y)), (p_int() - 2) as nat) % p_int();
                g2rep(*final(self)) == (fmul(fneg(x), dinv), fmul(y, dinv))
            }),
    {
        let norm = gadd(&gmul(&self.0[0], &self.0[0]), &gmul(&self.0[1], &self.0[1]));
        let dinv = norm.invert_to();
        self.0[0] = gmul(&gneg(&self.0[0]), &dinv);
        self.0[1] = gmul(&self.0[1], &dinv);
    }
}

} // verus!
