//! Points of the bn128 curve `y^2 = x^3 + 3` in Jacobian coordinates
//! `[x, y, z, t]`, each coordinate a Montgomery-form base-field element.
//!
//! A point with a zero `z` is the point at infinity.  The doubling and
//! addition functions are the standard Jacobian formulas, stated coordinate
//! by coordinate over the represented field values.

use vstd::prelude::*;
use crate::gfp::{Gfp, fadd, fsub, fneg, fmul, gadd, gsub, gneg, gmul, zero, one};
use crate::fp::{p_int, r_mod_p, lemma_fp_val_injective, lemma_val_of_rep};
use vstd::arithmetic::power::pow;

verus! {

/// A Jacobian curve point `[x, y, z, t]`.
#[derive(Clone, Copy, Debug)]
pub struct CurvePoint(pub [Gfp; 4]);

/// The represented coordinate quadruple of a point.
pub open spec fn ptrep(p: CurvePoint) -> (int, int, int, int) {
    (p.0[0].rep_val(), p.0[1].rep_val(), p.0[2].rep_val(), p.0[3].rep_val())
}

/// The Jacobian doubling formula, on represented `x, y, z`.
pub open spec fn sp_double(x: int, y: int, z: int) -> (int, int, int) {
    let aa = fmul(x, x);
    let bb = fmul(y, y);
    let cc = fmul(bb, bb);
    let t2 = fsub(fsub(fmul(fadd(x, bb), fadd(x, bb)), aa), cc);
    let d = fadd(t2, t2);
    let e = fadd(fadd(aa, aa), aa);
    let f = fmul(e, e);
    let cx = fsub(f, fadd(d, d));
    let yz = fmul(y, z);
    let cz = fadd(yz, yz);
    let c2 = fadd(cc, cc);
    let c4 = fadd(c2, c2);
    let c8 = fadd(c4, c4);
    let cy = fsub(fmul(e, fsub(d, cx)), c8);
    (cx, cy, cz)
}

/// The `h` value of the addition formula: the difference of the two
/// cross-scaled abscissae; zero exactly when the points share an `x`.
pub open spec fn sp_add_h(xa: int, za: int, xb: int, zb: int) -> int {
    fsub(fmul(xb, fmul(za, za)), fmul(xa, fmul(zb, zb)))
}

/// The `s` difference of the addition formula: the difference of the two
/// cross-scaled ordinates; zero exactly when the points share a `y`.
pub open spec fn sp_add_s(ya: int, za: int, yb: int, zb: int) -> int {
    fsub(fmul(yb, fmul(za, fmul(za, za))), fmul(ya, fmul(zb, fmul(zb, zb))))
}

/// The general Jacobian addition formula, on represented coordinates.
pub open spec fn sp_add_general(xa: int, ya: int, za: int, xb: int, yb: int, zb: int) -> (
    int,
    int,
    int,
) {
    let z12 = fmul(za, za);
    let z22 = fmul(zb, zb);
    let u1 = fmul(xa, z22);
    let u2 = fmul(xb, z12);
    let s1 = fmul(ya, fmul(zb, z22));
    let s2 = fmul(yb, fmul(za, z12));
    let h = fsub(u2, u1);
    let h2 = fadd(h, h);
    let i = fmul(h2, h2);
    let j = fmul(h, i);
    let s = fsub(s2, s1);
    let r = fadd(s, s);
    let v = fmul(u1, i);
    let cx = fsub(fsub(fmul(r, r), j), fadd(v, v));
    let cy = fsub(fmul(r, fsub(v, cx)), fadd(fmul(s1, j), fmul(s1, j)));
    let cz = fmul(fsub(fsub(fmul(fadd(za, zb), fadd(za, zb)), z12), z22), h);
    (cx, cy, cz)
}

/// The affine normalization: a point already at `z = 1` is unchanged, the
/// point at infinity is canonicalized, and otherwise the coordinates are
/// scaled by powers of the inverse of `z`.
pub open spec fn sp_affine(p: CurvePoint) -> (int, int, int, int) {
    let x = p.0[0].rep_val();
    let y = p.0[1].rep_val();
    let z = p.0[2].rep_val();
    let t = p.0[3].rep_val();
    if p.0[2].val() == r_mod_p() {
        (x, y, z, t)
    } else if p.0[2].val() == 0 {
        (0, 1, z, 0)
    } else {
        let zi = pow(z, (p_int() - 2) as nat) % p_int();
        let zi2 = fmul(zi, zi);
        (fmul(x, zi2), fmul(fmul(y, zi), zi2), 1, 1)
    }
}

/// The curve constant `b = 3`, in Montgomery form.
pub fn curve_b() -> (r: Gfp)
    ensures
        r.wf(),
        r.rep_val() == 3,
{
    let r = Gfp::new_from_int64(3);
    proof {
        vstd::arithmetic::div_mod::lemma_small_mod(3nat, p_int() as nat);
    }
    r
}

impl CurvePoint {
    /// All four coordinates are reduced.
    pub open spec fn wf(&self) -> bool {
        self.0[0].wf() && self.0[1].wf() && self.0[2].wf() && self.0[3].wf()
    }

    /// The `x` coordinate.
    pub fn x(&self) -> (r: &Gfp)
        ensures
            *r == self.0[0],
    {
        &self.0[0]
    }

    /// The `y` coordinate.
    pub fn y(&self) -> (r: &Gfp)
        ensures
            *r == self.0[1],
    {
        &self.0[1]
    }

    /// The `z` coordinate.
    pub fn z(&self) -> (r: &Gfp)
        ensures
            *r == self.0[2],
    {
        &self.0[2]
    }

    /// The cached `t` coordinate.
    pub fn t(&self) -> (r: &Gfp)
        ensures
            *r == self.0[3],
    {
        &self.0[3]
    }

    /// The `x` coordinate as a one-element slice.
    pub fn x_slice(&self) -> (r: &[Gfp])
        ensures
            r@ == self.0@.subrange(0, 1),
    {
        vstd::slice::slice_subrange(self.0.as_slice(), 0, 1)
    }

    /// The `y` coordinate as a one-element slice.
    pub fn y_slice(&self) -> (r: &[Gfp])
        ensures
            r@ == self.0@.subrange(1, 2),
    {
        vstd::slice::slice_subrange(self.0.as_slice(), 1, 2)
    }

    /// The `z` coordinate as a one-element slice.
    pub fn z_slice(&self) -> (r: &[Gfp])
        ensures
            r@ == self.0@.subrange(2, 3),
    {
        vstd::slice::slice_subrange(self.0.as_slice(), 2, 3)
    }

    /// The `t` coordinate as a one-element slice.
    pub fn t_slice(&self) -> (r: &[Gfp])
        ensures
            r@ == self.0@.subrange(3, 4),
    {
        vstd::slice::slice_subrange(self.0.as_slice(), 3, 4)
    }

    /// The `x` and `y` coordinates as a two-element slice.
    pub fn xy_slice(&self) -> (r: &[Gfp])
        ensures
            r@ == self.0@.subrange(0, 2),
    {
        vstd::slice::slice_subrange(self.0.as_slice(), 0, 2)
    }

    /// Mutable access to the `x` coordinate.
    pub fn x_mut(&mut self) -> (r: &mut Gfp)
        ensures
            *r == old(self).0[0],
            final(self).0[0] == *final(r),
            final(self).0[1] == old(self).0[1],
            final(self).0[2] == old(self).0[2],
            final(self).0[3] == old(self).0[3],
    {
        &mut self.0[0]
    }

    /// Mutable access to the `y` coordinate.
    pub fn y_mut(&mut self) -> (r: &mut Gfp)
        ensures
            *r == old(self).0[1],
            final(self).0[1] == *final(r),
            final(self).0[0] == old(self).0[0],
            final(self).0[2] == old(self).0[2],
            final(self).0[3] == old(self).0[3],
    {
        &mut self.0[1]
    }

    /// Mutable access to the `z` coordinate.
    pub fn z_mut(&mut self) -> (r: &mut Gfp)
        ensures
            *r == old(self).0[2],
            final(self).0[2] == *final(r),
            final(self).0[0] == old(self).0[0],
            final(self).0[1] == old(self).0[1],
            final(self).0[3] == old(self).0[3],
    {
        &mut self.0[2]
    }

    /// Mutable access to the `t` coordinate.
    pub fn t_mut(&mut self) -> (r: &mut Gfp)
        ensures
            *r == old(self).0[3],
            final(self).0[3] == *final(r),
            final(self).0[0] == old(self).0[0],
            final(self).0[1] == old(self).0[1],
            final(self).0[2] == old(self).0[2],
    {
        &mut self.0[3]
    }

    /// Replace the `x` coordinate.
    pub fn set_x(&mut self, x: &Gfp)
        ensures
            final(self).0[0] == *x,
            final(self).0[1] == old(self).0[1],
            final(self).0[2] == old(self).0[2],
            final(self).0[3] == old(self).0[3],
    {
        self.0[0] = *x;
    }

    /// Replace the `y` coordinate.
    pub fn set_y(&mut self, y: &Gfp)
        ensures
            final(self).0[1] == *y,
            final(self).0[0] == old(self).0[0],
            final(self).0[2] == old(self).0[2],
            final(self).0[3] == old(self).0[3],
    {
        self.0[1] = *y;
    }

    /// Replace the `z` coordinate.
    pub fn set_z(&mut self, z: &Gfp)
        ensures
            final(self).0[2] == *z,
            final(self).0[0] == old(self).0[0],
            final(self).0[1] == old(self).0[1],
            final(self).0[3] == old(self).0[3],
    {
        self.0[2] = *z;
    }

    /// Replace the cached `t` coordinate.
    pub fn set_t(&mut self, t: &Gfp)
        ensures
            final(self).0[3] == *t,
            final(self).0[0] == old(self).0[0],
            final(self).0[1] == old(self).0[1],
            final(self).0[2] == old(self).0[2],
    {
        self.0[3] = *t;
    }

    /// Copy another point.
    pub fn set(&mut self, other: &CurvePoint)
        ensures
            *final(self) == *other,
    {
        self.0[0] = other.0[0];
        self.0[1] = other.0[1];
        self.0[2] = other.0[2];
        self.0[3] = other.0[3];
        proof {
            assert(final(self).0 =~= other.0);
        }
    }

    /// Become the point at infinity.
    pub fn set_infinity(&mut self)
        ensures
            final(self).wf(),
            ptrep(*final(self)) == (0int, 1int, 0int, 0int),
            final(self).0[2].val() == 0,
    {
        self.0[0] = zero();
        self.0[1] = one();
        self.0[2] = zero();
        self.0[3] = zero();
    }

    /// A point is at infinity exactly when its `z` residue is zero.
    pub fn is_infinity(&self) -> (r: bool)
        ensures
            r == (self.0[2].val() == 0),
    {
        self.0[2].is_zero()
    }

    /// Negate the point: the ordinate flips, the cached coordinate clears.
    pub fn neg_ref(&mut self)
        requires
            old(self).wf(),
        ensures
            final(self).wf(),
            ptrep(*final(self)) == (
                old(self).0[0].rep_val(),
                fneg(old(self).0[1].rep_val()),
                old(self).0[2].rep_val(),
                0int,
            ),
    {
        self.0[1] = gneg(&self.0[1]);
        self.0[3] = zero();
    }

    /// Normalize to affine coordinates, as `sp_affine` describes.
    #[verifier::rlimit(100)]
    pub fn make_affine(&mut self)
        requires
            old(self).wf(),
        ensures
            final(self).wf(),
            ptrep(*final(self)) == sp_affine(*old(self)),
    {
        let o = one();
        let ghost sa = sp_affine(*old(self));
        if self.0[2] == o {
            proof {
                lemma_fp_val_injective(old(self).0[2].0, o.0);
                assert(old(self).0[2].val() == r_mod_p());
                assert(sa == ptrep(*old(self)));
            }
            return ;
        }
        proof {
            assert(old(self).0[2].val() != r_mod_p()) by {
                if old(self).0[2].val() == r_mod_p() {
                    lemma_fp_val_injective(old(self).0[2].0, o.0);
                }
            }
        }
        if self.0[2].is_zero() {
            self.0[0] = zero();
            self.0[1] = one();
            self.0[3] = zero();
            proof {
                assert(sa == (0int, 1int, old(self).0[2].rep_val(), 0int));
                assert(ptrep(*final(self)) == sa);
            }
            return ;
        }
        let z_inv = self.0[2].invert_to();
        let t = gmul(&self.0[1], &z_inv);
        let z_inv2 = gmul(&z_inv, &z_inv);
        proof {
            let zi = pow(old(self).0[2].rep_val(), (p_int() - 2) as nat) % p_int();
            assert(z_inv.rep_val() == zi);
            assert(z_inv2.rep_val() == fmul(zi, zi));
            assert(t.rep_val() == fmul(old(self).0[1].rep_val(), zi));
            assert(sa == (
                fmul(old(self).0[0].rep_val(), fmul(zi, zi)),
                fmul(fmul(old(self).0[1].rep_val(), zi), fmul(zi, zi)),
                1int,
                1int,
            ));
        }
        self.0[0] = gmul(&self.0[0], &z_inv2);
        self.0[1] = gmul(&t, &z_inv2);
        self.0[2] = o;
        self.0[3] = o;
        proof {
            assert(ptrep(*final(self)) == sa);
        }
    }

    /// Normalize, then test the affine equation `y^2 = x^3 + 3`; the point
    /// at infinity is on the curve.
    pub fn is_on_curve(&mut self) -> (r: bool)
        requires
            old(self).wf(),
        ensures
            final(self).wf(),
            ptrep(*final(self)) == sp_affine(*old(self)),
            ({
                let x = sp_affine(*old(self)).0;
                let y = sp_affine(*old(self)).1;
                r == (final(self).0[2].val() == 0 || fmul(y, y) == fadd(
                    fmul(fmul(x, x), x),
                    3,
                ))
            }),
    {
        self.make_affine();
        if self.is_infinity() {
            return true;
        }
        let y2 = gmul(&self.0[1], &self.0[1]);
        let x3 = gadd(&gmul(&gmul(&self.0[0], &self.0[0]), &self.0[0]), &curve_b());
        let r = y2 == x3;
        proof {
            if y2.0 == x3.0 {
                assert(y2.rep_val() == x3.rep_val());
            } else {
                lemma_val_of_rep(y2.0);
                lemma_val_of_rep(x3.0);
                if y2.rep_val() == x3.rep_val() {
                    lemma_fp_val_injective(y2.0, x3.0);
                    assert(false);
                }
            }
        }
        r
    }
}

/// Double the point `a` into `c`.  The cached coordinate of `c` is left as
/// it was, matching the callers that fill it themselves.
#[verifier::rlimit(100)]
pub fn double(a: &CurvePoint, c: &mut CurvePoint)
    requires
        a.wf(),
        old(c).wf(),
    ensures
        final(c).wf(),
        ({
            let d = sp_double(a.0[0].rep_val(), a.0[1].rep_val(), a.0[2].rep_val());
            &&& final(c).0[0].rep_val() == d.0
            &&& final(c).0[1].rep_val() == d.1
            &&& final(c).0[2].rep_val() == d.2
            &&& final(c).0[3] == old(c).0[3]
        }),
{
    let aa = gmul(&a.0[0], &a.0[0]);
    let bb = gmul(&a.0[1], &a.0[1]);
    let cc = gmul(&bb, &bb);

    let t = gadd(&a.0[0], &bb);
    let t2 = gmul(&t, &t);
    let t = gsub(&t2, &aa);
    let t2 = gsub(&t, &cc);

    let d = gadd(&t2, &t2);
    let t = gadd(&aa, &aa);
    let e = gadd(&t, &aa);
    let f = gmul(&e, &e);

    let t = gadd(&d, &d);
    let cx = gsub(&f, &t);

    let yz = gmul(&a.0[1], &a.0[2]);
    let cz = gadd(&yz, &yz);

    let t = gadd(&cc, &cc);
    let t2 = gadd(&t, &t);
    let t = gadd(&t2, &t2);
    let cy0 = gsub(&d, &cx);
    let t2 = gmul(&e, &cy0);
    let cy = gsub(&t2, &t);

    c.0[0] = cx;
    c.0[1] = cy;
    c.0[2] = cz;
}

/// Add the points `a` and `b` into `c`: the identity cases copy the other
/// operand, two equal points fall back to doubling, and otherwise the
/// general formula applies.
#[verifier::rlimit(100)]
pub fn add(a: &CurvePoint, b: &CurvePoint, c: &mut CurvePoint)
    requires
        a.wf(),
        b.wf(),
        old(c).wf(),
    ensures
        final(c).wf(),
        ({
            let xa = a.0[0].rep_val();
            let ya = a.0[1].rep_val();
            let za = a.0[2].rep_val();
            let xb = b.0[0].rep_val();
            let yb = b.0[1].rep_val();
            let zb = b.0[2].rep_val();
            if a.0[2].val() == 0 {
                *final(c) == *b
            } else if b.0[2].val() == 0 {
                *final(c) == *a
            } else if sp_add_h(xa, za, xb, zb) == 0 && sp_add_s(ya, za, yb, zb) == 0 {
                let d = sp_double(xa, ya, za);
                &&& final(c).0[0].rep_val() == d.0
                &&& final(c).0[1].rep_val() == d.1
                &&& final(c).0[2].rep_val() == d.2
                &&& final(c).0[3] == old(c).0[3]
            } else {
                let g = sp_add_general(xa, ya, za, xb, yb, zb);
                &&& final(c).0[0].rep_val() == g.0
                &&& final(c).0[1].rep_val() == g.1
                &&& final(c).0[2].rep_val() == g.2
                &&& final(c).0[3] == old(c).0[3]
            }
        }),
{
    if a.is_infinity() {
        c.set(b);
        return ;
    }
    if b.is_infinity() {
        c.set(a);
        return ;
    }

    let z12 = gmul(&a.0[2], &a.0[2]);
    let z22 = gmul(&b.0[2], &b.0[2]);

    let u1 = gmul(&a.0[0], &z22);
    let u2 = gmul(&b.0[0], &z12);

    let t = gmul(&b.0[2], &z22);
    let s1 = gmul(&a.0[1], &t);

    let t = gmul(&a.0[2], &z12);
    let s2 = gmul(&b.0[1], &t);

    let h = gsub(&u2, &u1);
    let x_equal = h.is_zero();
    proof {
        lemma_val_of_rep(h.0);
    }

    let t = gadd(&h, &h);
    let i = gmul(&t, &t);
    let j = gmul(&h, &i);

    let s = gsub(&s2, &s1);
    let y_equal = s.is_zero();
    proof {
        lemma_val_of_rep(s.0);
    }
    if x_equal && y_equal {
        double(a, c);
        return ;
    }

    let r = gadd(&s, &s);
    let v = gmul(&u1, &i);

    let t4 = gmul(&r, &r);
    let t = gadd(&v, &v);
    let t6 = gsub(&t4, &j);
    let cx = gsub(&t6, &t);

    let t = gsub(&v, &cx);
    let t4 = gmul(&s1, &j);
    let t6 = gadd(&t4, &t4);
    let t4 = gmul(&r, &t);
    let cy = gsub(&t4, &t6);

    let t = gadd(&a.0[2], &b.0[2]);
    let t4 = gmul(&t, &t);
    let t = gsub(&t4, &z12);
    let t4 = gsub(&t, &z22);
    let cz = gmul(&t4, &h);

    c.0[0] = cx;
    c.0[1] = cy;
    c.0[2] = cz;
}

} // verus!
