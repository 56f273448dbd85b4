//! Physical laws of the kernel, proved over its exact model.
use vstd::prelude::*;
use crate::model::{
    approach, collides, contact2, discriminant, gap, is_collision_of, is_contact_time, is_sqrt, sep2,
    speed2, Collision, GridParticle, QuadSurd,
};

verus! {

/// Casting to the reals keeps products.
pub(crate) proof fn lemma_real_mul(x: int, y: int)
    ensures
        (x * y) as real == x as real * y as real,
{
    assert((x * y) as real == x as real * y as real) by (nonlinear_arith);
}

/// A pair whose centres are moving apart (`dot(dx, dv) > 0`) never
/// collides, whatever the radius.
pub proof fn lemma_separating_never_collides(a: GridParticle, b: GridParticle, radius: int)
    requires
        approach(a, b) > 0,
    ensures
        !collides(a, b, radius),
{
}

/// The time-only operation and the full one report the same contact time.
pub proof fn lemma_time_consistent(a: GridParticle, b: GridParticle, radius: int, t: QuadSurd, c: Collision)
    requires
        is_contact_time(t, a, b, radius),
        is_collision_of(c, a, b, radius),
    ensures
        t == c.time,
{
}

/// A tangential contact (zero discriminant) of an approaching pair is a
/// collision, at the double root `-dot(dx, dv) / dot(dv, dv)`.
pub proof fn lemma_grazing_contact(a: GridParticle, b: GridParticle, radius: int, t: QuadSurd, s: real)
    requires
        approach(a, b) <= 0,
        speed2(a, b) != 0,
        discriminant(a, b, radius) == 0,
        is_contact_time(t, a, b, radius),
        is_sqrt(s, 0),
    ensures
        collides(a, b, radius),
        t.value(s) == (-approach(a, b)) as real / speed2(a, b) as real,
{
    assert(s == 0real) by (nonlinear_arith)
        requires
            s >= 0real,
            s * s == 0real,
    ;
}

/// For pairs that do not already overlap, the contact time is never negative.
pub proof fn lemma_time_nonnegative(a: GridParticle, b: GridParticle, radius: int, t: QuadSurd, s: real)
    requires
        collides(a, b, radius),
        sep2(a, b) >= contact2(radius),
        is_contact_time(t, a, b, radius),
        is_sqrt(s, discriminant(a, b, radius)),
    ensures
        t.value(s) >= 0real,
{
    let ap = approach(a, b) as real;
    let sp = speed2(a, b) as real;
    let g = gap(a, b, radius) as real;
    assert(speed2(a, b) >= 0) by (nonlinear_arith);
    assert(speed2(a, b) * gap(a, b, radius) >= 0) by (nonlinear_arith)
        requires
            speed2(a, b) >= 0,
            gap(a, b, radius) >= 0,
    ;
    lemma_real_mul(approach(a, b), approach(a, b));
    assert(s * s <= ap * ap);
    assert(s <= -ap) by (nonlinear_arith)
        requires
            s >= 0real,
            ap <= 0real,
            s * s <= ap * ap,
    ;
    assert((-ap - s) / sp >= 0real) by (nonlinear_arith)
        requires
            -ap - s >= 0real,
            sp > 0real,
    ;
    assert(t.rational as real == -ap);
    assert(t.coefficient as real * s == -s);
    assert(t.denom as real == sp);
}

/// Momentum is conserved: after a collision the two velocities, component
/// by component, share one denominator, their square-root parts cancel, and
/// their rational parts sum to that denominator times the velocities' sum
/// before it. So for every value of the square root,
/// `velocity_a' + velocity_b' == velocity_a + velocity_b`.
pub proof fn lemma_momentum_conserved(a: GridParticle, b: GridParticle, radius: int, c: Collision)
    requires
        is_collision_of(c, a, b, radius),
    ensures
        c.particle_a.velocity.x.denom == c.particle_b.velocity.x.denom,
        c.particle_a.velocity.y.denom == c.particle_b.velocity.y.denom,
        c.particle_a.velocity.x.coefficient + c.particle_b.velocity.x.coefficient == 0,
        c.particle_a.velocity.y.coefficient + c.particle_b.velocity.y.coefficient == 0,
        c.particle_a.velocity.x.rational + c.particle_b.velocity.x.rational == c.particle_a.velocity.x.denom * (
        a.velocity.x + b.velocity.x),
        c.particle_a.velocity.y.rational + c.particle_b.velocity.y.rational == c.particle_a.velocity.y.denom * (
        a.velocity.y + b.velocity.y),
{
    let d = contact2(radius) * speed2(a, b);
    let (ax, ay, bx, by) = (a.velocity.x as int, a.velocity.y as int, b.velocity.x as int, b.velocity.y as int);
    let dd = discriminant(a, b, radius);
    let (vx, vy) = (crate::model::dvx(a, b), crate::model::dvy(a, b));
    assert(1 * dd * vx + (-1) * dd * vx == 0) by (nonlinear_arith);
    assert(1 * dd * vy + (-1) * dd * vy == 0) by (nonlinear_arith);
    assert(d * ax + d * bx == d * (ax + bx)) by (nonlinear_arith);
    assert(d * ay + d * by == d * (ay + by)) by (nonlinear_arith);
}

} // verus!
