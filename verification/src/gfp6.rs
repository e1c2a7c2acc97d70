//! The sextic extension, built as a cubic tower over the quadratic one:
//! elements `x·tau^2 + y·tau + z` with `tau^3 = xi`, each coordinate in the
//! quadratic extension.

use vstd::prelude::*;
use crate::gfp::Gfp;
use crate::gfp2::{
    Gfp2, g2rep, g2add, g2sub, g2neg, g2mul, g2scale, g2mul_xi,
};

verus! {

/// An element `x·tau^2 + y·tau + z`, stored as `[x, y, z]`.
#[derive(Clone, Copy, Debug)]
pub struct Gfp6(pub [Gfp2; 3]);

/// The represented coordinate triple.
pub open spec fn g6rep(a: Gfp6) -> ((int, int), (int, int), (int, int)) {
    (g2rep(a.0[0]), g2rep(a.0[1]), g2rep(a.0[2]))
}

/// The product formula used by `mul_ref`: the interpolation form of the
/// schoolbook product in `Fp2[tau]/(tau^3 - xi)`.
pub open spec fn g6mul(a: ((int, int), (int, int), (int, int)), b: (
    (int, int),
    (int, int),
    (int, int),
)) -> ((int, int), (int, int), (int, int)) {
    let v0 = g2mul(a.2, b.2);
    let v1 = g2mul(a.1, b.1);
    let v2 = g2mul(a.0, b.0);
    let tz = g2add(g2mul_xi(g2sub(g2sub(g2mul(g2add(a.0, a.1), g2add(b.0, b.1)), v1), v2)), v0);
    let ty = g2add(g2sub(g2sub(g2mul(g2add(a.1, a.2), g2add(b.1, b.2)), v0), v1), g2mul_xi(v2));
    let tx = g2sub(g2add(g2sub(g2mul(g2add(a.0, a.2), g2add(b.0, b.2)), v0), v1), v2);
    (tx, ty, tz)
}

/// The squaring formula used by `square_to`.
pub open spec fn g6square(a: ((int, int), (int, int), (int, int))) -> (
    (int, int),
    (int, int),
    (int, int),
) {
    let v0 = g2mul(a.2, a.2);
    let v1 = g2mul(a.1, a.1);
    let v2 = g2mul(a.0, a.0);
    let c0 = g2add(g2mul_xi(g2sub(g2sub(g2mul(g2add(a.0, a.1), g2add(a.0, a.1)), v1), v2)), v0);
    let c1 = g2add(g2sub(g2sub(g2mul(g2add(a.1, a.2), g2add(a.1, a.2)), v0), v1), g2mul_xi(v2));
    let c2 = g2sub(g2add(g2sub(g2mul(g2add(a.0, a.2), g2add(a.0, a.2)), v0), v1), v2);
    (c2, c1, c0)
}


/// The represented value of `xi^((2P-2)/3)`, the scaling of the `tau^2`
/// coordinate under the Frobenius map.
pub open spec fn xi_2pm2_3_rep() -> (int, int) {
    (
        19937756971775647987995932169929341994314640652964949448313374472400716661030int,
        2581911344467009335267311115468803099551665605076196740867805258568234346338int,
    )
}

/// The represented value of `xi^((P-1)/3)`, the scaling of the `tau`
/// coordinate under the Frobenius map.
pub open spec fn xi_pm1_3_rep() -> (int, int) {
    (
        10307601595873709700152284273816112264069230130616436755625194854815875713954int,
        21575463638280843010398324269430826099269044274347216827212613867836435027261int,
    )
}

/// The represented value of `xi^((2P^2-2)/3)`, a base-field element.
pub open spec fn xi_2psqm2_3_rep() -> int {
    2203960485148121921418603742825762020974279258880205651966int
}

/// The represented value of `xi^((P^2-1)/3)`, a base-field element.
pub open spec fn xi_psqm1_3_rep() -> int {
    21888242871839275220042445260109153167277707414472061641714758635765020556616int
}

/// The Montgomery form of `xi^((2P-2)/3)`.
pub fn xi_2pm2_3() -> (r: Gfp2)
    ensures
        r.wf(),
        g2rep(r) == xi_2pm2_3_rep(),
{
    Gfp2(
        [
            Gfp([0x5dddfd154bd8c949, 0x62cb29a5a4445b60, 0x37bc870a0c7dd2b9, 0x24830a9d3171f0fd]),
            Gfp([0x7361d77f843abe92, 0xa5bb2bd3273411fb, 0x9c941f314b3e2399, 0x15df9cddbb9fd3ec]),
        ],
    )
}

/// The Montgomery form of `xi^((P-1)/3)`.
pub fn xi_pm1_3() -> (r: Gfp2)
    ensures
        r.wf(),
        g2rep(r) == xi_pm1_3_rep(),
{
    Gfp2(
        [
            Gfp([0x6e849f1ea0aa4757, 0xaa1c7b6d89f89141, 0xb6e713cdfae0ca3a, 0x26694fbb4e82ebc3]),
            Gfp([0xb5773b104563ab30, 0x347f91c8a9aa6454, 0x7a007127242e0991, 0x1956bcd8118214ec]),
        ],
    )
}

/// The Montgomery form of `xi^((2P^2-2)/3)`.
pub fn xi_2psqm2_3() -> (r: Gfp)
    ensures
        r.wf(),
        r.rep_val() == xi_2psqm2_3_rep(),
{
    Gfp([0x71930c11d782e155, 0xa6bb947cffbe3323, 0xaa303344d4741444, 0x2c3b3f0d26594943])
}

/// The Montgomery form of `xi^((P^2-1)/3)`.
pub fn xi_psqm1_3() -> (r: Gfp)
    ensures
        r.wf(),
        r.rep_val() == xi_psqm1_3_rep(),
{
    Gfp([0x3350c88e13e80b9c, 0x7dce557cdb5e56b9, 0x6001b4b8b615564a, 0x2682e617020217e0])
}

impl Gfp6 {

    /// All three coordinates are reduced.
    pub open spec fn wf(&self) -> bool {
        self.0[0].wf() && self.0[1].wf() && self.0[2].wf()
    }

    /// The `tau^2` coordinate.
    pub fn x(&self) -> (r: &Gfp2)
        ensures
            *r == self.0[0],
    {
        &self.0[0]
    }

    /// The `tau` coordinate.
    pub fn y(&self) -> (r: &Gfp2)
        ensures
            *r == self.0[1],
    {
        &self.0[1]
    }

    /// The constant coordinate.
    pub fn z(&self) -> (r: &Gfp2)
        ensures
            *r == self.0[2],
    {
        &self.0[2]
    }

    /// Mutable access to the `tau^2` coordinate.
    pub fn x_mut(&mut self) -> (r: &mut Gfp2)
        ensures
            *r == old(self).0[0],
            final(self).0[0] == *final(r),
            final(self).0[1] == old(self).0[1],
            final(self).0[2] == old(self).0[2],
    {
        &mut self.0[0]
    }

    /// Mutable access to the `tau` coordinate.
    pub fn y_mut(&mut self) -> (r: &mut Gfp2)
        ensures
            *r == old(self).0[1],
            final(self).0[1] == *final(r),
            final(self).0[0] == old(self).0[0],
            final(self).0[2] == old(self).0[2],
    {
        &mut self.0[1]
    }

    /// Mutable access to the constant coordinate.
    pub fn z_mut(&mut self) -> (r: &mut Gfp2)
        ensures
            *r == old(self).0[2],
            final(self).0[2] == *final(r),
            final(self).0[0] == old(self).0[0],
            final(self).0[1] == old(self).0[1],
    {
        &mut self.0[2]
    }

    /// Replace the `tau^2` coordinate.
    pub fn set_x(&mut self, x: &Gfp2)
        ensures
            final(self).0[0] == *x,
            final(self).0[1] == old(self).0[1],
            final(self).0[2] == old(self).0[2],
    {
        self.0[0] = *x;
    }

    /// Replace the `tau` coordinate.
    pub fn set_y(&mut self, y: &Gfp2)
        ensures
            final(self).0[1] == *y,
            final(self).0[0] == old(self).0[0],
            final(self).0[2] == old(self).0[2],
    {
        self.0[1] = *y;
    }

    /// Replace the constant coordinate.
    pub fn set_z(&mut self, z: &Gfp2)
        ensures
            final(self).0[2] == *z,
            final(self).0[0] == old(self).0[0],
            final(self).0[1] == old(self).0[1],
    {
        self.0[2] = *z;
    }

    /// Copy another element.
    pub fn set(&mut self, other: &Gfp6)
        ensures
            *final(self) == *other,
    {
        self.0[0] = other.0[0];
        self.0[1] = other.0[1];
        self.0[2] = other.0[2];
        proof {
            assert(final(self).0 =~= other.0);
        }
    }

    /// Become the additive identity.
    pub fn set_zero(&mut self)
        ensures
            final(self).wf(),
            g6rep(*final(self)) == (((0int, 0int)), (0int, 0int), (0int, 0int)),
    {
        self.0[0].set_zero();
        self.0[1].set_zero();
        self.0[2].set_zero();
    }

    /// Become the multiplicative identity.
    pub fn set_one(&mut self)
        ensures
            final(self).wf(),
            g6rep(*final(self)) == (((0int, 0int)), (0int, 0int), (0int, 1int)),
    {
        self.0[0].set_zero();
        self.0[1].set_zero();
        self.0[2].set_one();
    }

    /// Whether all six residues are zero.
    pub fn is_zero(&self) -> (r: bool)
        ensures
            r == (self.0[0].0[0].val() == 0 && self.0[0].0[1].val() == 0 && self.0[1].0[0].val()
                == 0 && self.0[1].0[1].val() == 0 && self.0[2].0[0].val() == 0
                && self.0[2].0[1].val() == 0),
    {
        let a = self.0[0].is_zero();
        let b = self.0[1].is_zero();
        let c = self.0[2].is_zero();
        a && b && c
    }

    /// Whether the element is the multiplicative identity.
    pub fn is_one(&self) -> (r: bool)
        ensures
            r == (self.0[0].0[0].val() == 0 && self.0[0].0[1].val() == 0 && self.0[1].0[0].val()
                == 0 && self.0[1].0[1].val() == 0 && self.0[2].0[0].val() == 0
                && self.0[2].0[1].val() == crate::fp::r_mod_p()),
    {
        let a = self.0[0].is_zero();
        let b = self.0[1].is_zero();
        let c = self.0[2].is_one();
        a && b && c
    }

    /// Negate in place.
    pub fn neg_ref(&mut self)
        requires
            old(self).wf(),
        ensures
            final(self).wf(),
            g6rep(*final(self)) == (
                g2neg(g2rep(old(self).0[0])),
                g2neg(g2rep(old(self).0[1])),
                g2neg(g2rep(old(self).0[2])),
            ),
    {
        self.0[0].neg_ref();
        self.0[1].neg_ref();
        self.0[2].neg_ref();
    }

    /// The negation.
    pub fn neg_to(&self) -> (r: Gfp6)
        requires
            self.wf(),
        ensures
            r.wf(),
            g6rep(r) == (
                g2neg(g2rep(self.0[0])),
                g2neg(g2rep(self.0[1])),
                g2neg(g2rep(self.0[2])),
            ),
    {
        Gfp6([self.0[0].neg_to(), self.0[1].neg_to(), self.0[2].neg_to()])
    }

    /// Add another element in place.
    pub fn add_ref(&mut self, b: &Gfp6)
        requires
            old(self).wf(),
            b.wf(),
        ensures
            final(self).wf(),
            g6rep(*final(self)) == (
                g2add(g2rep(old(self).0[0]), g2rep(b.0[0])),
                g2add(g2rep(old(self).0[1]), g2rep(b.0[1])),
                g2add(g2rep(old(self).0[2]), g2rep(b.0[2])),
            ),
    {
        self.0[0].add_ref(&b.0[0]);
        self.0[1].add_ref(&b.0[1]);
        self.0[2].add_ref(&b.0[2]);
    }

    /// The sum of two elements.
    pub fn add_to(a: &Gfp6, b: &Gfp6) -> (r: Gfp6)
        requires
            a.wf(),
            b.wf(),
        ensures
            r.wf(),
            g6rep(r) == (
                g2add(g2rep(a.0[0]), g2rep(b.0[0])),
                g2add(g2rep(a.0[1]), g2rep(b.0[1])),
                g2add(g2rep(a.0[2]), g2rep(b.0[2])),
            ),
    {
        Gfp6(
            [
                Gfp2::add_to(&a.0[0], &b.0[0]),
                Gfp2::add_to(&a.0[1], &b.0[1]),
                Gfp2::add_to(&a.0[2], &b.0[2]),
            ],
        )
    }

    /// Subtract another element in place.
    pub fn sub_ref(&mut self, b: &Gfp6)
        requires
            old(self).wf(),
            b.wf(),
        ensures
            final(self).wf(),
            g6rep(*final(self)) == (
                g2sub(g2rep(old(self).0[0]), g2rep(b.0[0])),
                g2sub(g2rep(old(self).0[1]), g2rep(b.0[1])),
                g2sub(g2rep(old(self).0[2]), g2rep(b.0[2])),
            ),
    {
        self.0[0].sub_ref(&b.0[0]);
        self.0[1].sub_ref(&b.0[1]);
        self.0[2].sub_ref(&b.0[2]);
    }

    /// The difference of two elements.
    pub fn sub_to(a: &Gfp6, b: &Gfp6) -> (r: Gfp6)
        requires
            a.wf(),
            b.wf(),
        ensures
            r.wf(),
            g6rep(r) == (
                g2sub(g2rep(a.0[0]), g2rep(b.0[0])),
                g2sub(g2rep(a.0[1]), g2rep(b.0[1])),
                g2sub(g2rep(a.0[2]), g2rep(b.0[2])),
            ),
    {
        Gfp6(
            [
                Gfp2::sub_to(&a.0[0], &b.0[0]),
                Gfp2::sub_to(&a.0[1], &b.0[1]),
                Gfp2::sub_to(&a.0[2], &b.0[2]),
            ],
        )
    }

    /// The product of two elements, by the interpolation formula.
    #[verifier::rlimit(100)]
    pub fn mul_to(a: &Gfp6, b: &Gfp6) -> (r: Gfp6)
        requires
            a.wf(),
            b.wf(),
        ensures
            r.wf(),
            g6rep(r) == g6mul(g6rep(*a), g6rep(*b)),
    {
        let v0 = Gfp2::mul_to(&a.0[2], &b.0[2]);
        let v1 = Gfp2::mul_to(&a.0[1], &b.0[1]);
        let v2 = Gfp2::mul_to(&a.0[0], &b.0[0]);

        let mut t0 = Gfp2::add_to(&a.0[0], &a.0[1]);
        let mut t1 = Gfp2::add_to(&b.0[0], &b.0[1]);
        let mut tz = Gfp2::mul_to(&t0, &t1);
        tz.sub_ref(&v1);
        tz.sub_ref(&v2);
        tz.mul_xi();
        tz.add_ref(&v0);

        t0 = Gfp2::add_to(&a.0[1], &a.0[2]);
        t1 = Gfp2::add_to(&b.0[1], &b.0[2]);
        let mut ty = Gfp2::mul_to(&t0, &t1);
        let xi_v2 = v2.mul_xi_to();
        ty.sub_ref(&v0);
        ty.sub_ref(&v1);
        ty.add_ref(&xi_v2);

        t0 = Gfp2::add_to(&a.0[0], &a.0[2]);
        t1 = Gfp2::add_to(&b.0[0], &b.0[2]);
        let mut tx = Gfp2::mul_to(&t0, &t1);
        tx.sub_ref(&v0);
        tx.add_ref(&v1);
        tx.sub_ref(&v2);

        Gfp6([tx, ty, tz])
    }

    /// Multiply by another element in place.
    pub fn mul_ref(&mut self, b: &Gfp6)
        requires
            old(self).wf(),
            b.wf(),
        ensures
            final(self).wf(),
            g6rep(*final(self)) == g6mul(g6rep(*old(self)), g6rep(*b)),
    {
        let r = Gfp6::mul_to(self, b);
        self.0[0] = r.0[0];
        self.0[1] = r.0[1];
        self.0[2] = r.0[2];
        proof {
            assert(final(self).0 =~= r.0);
        }
    }

    /// Scale every coordinate by a quadratic-extension element.
    pub fn mul_scalar(&mut self, b: &Gfp2)
        requires
            old(self).wf(),
            b.wf(),
        ensures
            final(self).wf(),
            g6rep(*final(self)) == (
                g2mul(g2rep(old(self).0[0]), g2rep(*b)),
                g2mul(g2rep(old(self).0[1]), g2rep(*b)),
                g2mul(g2rep(old(self).0[2]), g2rep(*b)),
            ),
    {
        self.0[0].mul_ref(b);
        self.0[1].mul_ref(b);
        self.0[2].mul_ref(b);
    }

    /// Scale every coordinate by a base-field element.
    pub fn mul_gfp(&mut self, b: &Gfp)
        requires
            old(self).wf(),
            b.wf(),
        ensures
            final(self).wf(),
            g6rep(*final(self)) == (
                g2scale(g2rep(old(self).0[0]), b.rep_val()),
                g2scale(g2rep(old(self).0[1]), b.rep_val()),
                g2scale(g2rep(old(self).0[2]), b.rep_val()),
            ),
    {
        self.0[0].mul_scalar(b);
        self.0[1].mul_scalar(b);
        self.0[2].mul_scalar(b);
    }

    /// Multiply by `tau`: the coordinates rotate and the top one picks up a
    /// factor of `xi`.
    pub fn mul_tau(&mut self)
        requires
            old(self).wf(),
        ensures
            final(self).wf(),
            g6rep(*final(self)) == (
                g2rep(old(self).0[1]),
                g2rep(old(self).0[2]),
                g2mul_xi(g2rep(old(self).0[0])),
            ),
    {
        let tz = self.0[0].mul_xi_to();
        self.0[0] = self.0[1];
        self.0[1] = self.0[2];
        self.0[2] = tz;
    }

    /// Square in place.
    pub fn square(&mut self)
        requires
            old(self).wf(),
        ensures
            final(self).wf(),
            g6rep(*final(self)) == g6square(g6rep(*old(self))),
    {
        let r = self.square_to();
        self.0[0] = r.0[0];
        self.0[1] = r.0[1];
        self.0[2] = r.0[2];
        proof {
            assert(final(self).0 =~= r.0);
        }
    }

    /// The square, by the interpolation formula.
    #[verifier::rlimit(100)]
    pub fn square_to(&self) -> (r: Gfp6)
        requires
            self.wf(),
        ensures
            r.wf(),
            g6rep(r) == g6square(g6rep(*self)),
    {
        let v0 = self.0[2].square_to();
        let v1 = self.0[1].square_to();
        let v2 = self.0[0].square_to();

        let mut c0 = Gfp2::add_to(&self.0[0], &self.0[1]);
        c0.square();
        c0.sub_ref(&v1);
        c0.sub_ref(&v2);
        c0.mul_xi();
        c0.add_ref(&v0);

        let mut c1 = Gfp2::add_to(&self.0[1], &self.0[2]);
        c1.square();
        c1.sub_ref(&v0);
        c1.sub_ref(&v1);
        let xi_v2 = v2.mul_xi_to();
        c1.add_ref(&xi_v2);

        let mut c2 = Gfp2::add_to(&self.0[0], &self.0[2]);
        c2.square();
        c2.sub_ref(&v0);
        c2.add_ref(&v1);
        c2.sub_ref(&v2);

        Gfp6([c2, c1, c0])
    }
}


impl Gfp6 {
    /// The Frobenius map: conjugate every coordinate and scale the `tau^2`
    /// and `tau` ones by the fixed powers of the non-residue.
    pub fn frobenius(&mut self)
        requires
            old(self).wf(),
        ensures
            final(self).wf(),
            ({
                let o = g6rep(*old(self));
                g6rep(*final(self)) == (
                    g2mul((crate::gfp::fneg(o.0.0), o.0.1), xi_2pm2_3_rep()),
                    g2mul((crate::gfp::fneg(o.1.0), o.1.1), xi_pm1_3_rep()),
                    (crate::gfp::fneg(o.2.0), o.2.1),
                )
            }),
    {
        self.0[0].conjugate();
        self.0[1].conjugate();
        self.0[2].conjugate();
        let c1 = xi_2pm2_3();
        let c2 = xi_pm1_3();
        self.0[0].mul_ref(&c1);
        self.0[1].mul_ref(&c2);
    }

    /// The square of the Frobenius map: scale the `tau^2` and `tau`
    /// coordinates by base-field constants.
    pub fn frobenius_p2(&mut self)
        requires
            old(self).wf(),
        ensures
            final(self).wf(),
            g6rep(*final(self)) == (
                g2scale(g2rep(old(self).0[0]), xi_2psqm2_3_rep()),
                g2scale(g2rep(old(self).0[1]), xi_psqm1_3_rep()),
                g2rep(old(self).0[2]),
            ),
    {
        let c1 = xi_2psqm2_3();
        let c2 = xi_psqm1_3();
        self.0[0].mul_scalar(&c1);
        self.0[1].mul_scalar(&c2);
    }

    /// The fourth power of the Frobenius map: the same scalings with the
    /// constants exchanged.
    pub fn frobenius_p4(&mut self)
        requires
            old(self).wf(),
        ensures
            final(self).wf(),
            g6rep(*final(self)) == (
                g2scale(g2rep(old(self).0[0]), xi_psqm1_3_rep()),
                g2scale(g2rep(old(self).0[1]), xi_2psqm2_3_rep()),
                g2rep(old(self).0[2]),
            ),
    {
        let c1 = xi_psqm1_3();
        let c2 = xi_2psqm2_3();
        self.0[0].mul_scalar(&c1);
        self.0[1].mul_scalar(&c2);
    }

    /// Invert in place, by the adjugate formula over the quadratic
    /// extension: `A = z^2 - xi·x·y`, `B = xi·x^2 - y·z`, `C = y^2 - x·z`,
    /// `F = xi·C·y + A·z + xi·B·x`, and the coordinates become `C/F`, `B/F`,
    /// `A/F`.
    #[verifier::rlimit(100)]
    pub fn invert(&mut self)
        requires
            old(self).wf(),
        ensures
            final(self).wf(),
            ({
                let o = g6rep(*old(self));
                let a = g2sub(g2mul(o.2, o.2), g2mul_xi(g2mul(o.0, o.1)));
                let b = g2sub(g2mul_xi(g2mul(o.0, o.0)), g2mul(o.1, o.2));
                let c = g2sub(g2mul(o.1, o.1), g2mul(o.0, o.2));
                let f = g2add(
                    g2add(g2mul_xi(g2mul(c, o.1)), g2mul(a, o.2)),
                    g2mul_xi(g2mul(b, o.0)),
                );
                let fx = f.0;
                let fy = f.1;
                let dinv = vstd::arithmetic::power::pow(
                    crate::gfp::fadd(crate::gfp::fmul(fx, fx), crate::gfp::fmul(fy, fy)),
                    (crate::fp::p_int() - 2) as nat,
                ) % crate::fp::p_int();
                let finv = (
                    crate::gfp::fmul(crate::gfp::fneg(fx), dinv),
                    crate::gfp::fmul(fy, dinv),
                );
                g6rep(*final(self)) == (g2mul(c, finv), g2mul(b, finv), g2mul(a, finv))
            }),
    {
        let mut t1 = Gfp2::mul_to(&self.0[0], &self.0[1]);
        t1.mul_xi();

        let mut a = self.0[2].square_to();
        a.sub_ref(&t1);

        let mut b = self.0[0].square_to();
        b.mul_xi();
        t1 = Gfp2::mul_to(&self.0[1], &self.0[2]);
        b.sub_ref(&t1);

        let mut c = self.0[1].square_to();
        t1 = Gfp2::mul_to(&self.0[0], &self.0[2]);
        c.sub_ref(&t1);

        let mut f = Gfp2::mul_to(&c, &self.0[1]);
        f.mul_xi();
        t1 = Gfp2::mul_to(&a, &self.0[2]);
        f.add_ref(&t1);
        t1 = Gfp2::mul_to(&b, &self.0[0]);
        t1.mul_xi();
        f.add_ref(&t1);

        f.invert();

        self.0[0] = Gfp2::mul_to(&c, &f);
        self.0[1] = Gfp2::mul_to(&b, &f);
        self.0[2] = Gfp2::mul_to(&a, &f);
    }
}

} // verus!
