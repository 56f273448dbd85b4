//! The executable kernel: contact time and elastic response.
use vstd::prelude::*;
use crate::model::{
    approach, collides, contact2, discriminant, dpx, dpy, dvx, dvy, gap, is_collision_of,
    is_contact_time, speed2, Collision, GridParticle,
    QuadSurd, SurdParticle, SurdVec2,
};

verus! {

/// `|x * y| <= bx * by` when `|x| <= bx` and `|y| <= by`.
proof fn lemma_mul_bound(x: int, y: int, bx: int, by: int)
    requires
        -bx <= x <= bx,
        -by <= y <= by,
    ensures
        -(bx * by) <= x * y <= bx * by,
{
    assert(-(bx * by) <= x * y <= bx * by) by (nonlinear_arith)
        requires
            -bx <= x <= bx,
            -by <= y <= by,
    ;
}

/// The quantities of the contact quadratic of a pair that is not separating.
struct Quadratic {
    dpx: i128,
    dpy: i128,
    dvx: i128,
    dvy: i128,
    approach: i128,
    speed2: i128,
    disc: i128,
}

impl Quadratic {
    spec fn of(self, a: GridParticle, b: GridParticle, radius: int) -> bool {
        &&& self.dpx == dpx(a, b)
        &&& self.dpy == dpy(a, b)
        &&& self.dvx == dvx(a, b)
        &&& self.dvy == dvy(a, b)
        &&& self.approach == approach(a, b)
        &&& self.speed2 == speed2(a, b)
        &&& self.disc == discriminant(a, b, radius)
    }
}

/// Steps shared by both public operations: the approach test, the
/// relative-motion guard and the discriminant test.
fn contact_quadratic(a: &GridParticle, b: &GridParticle, radius: u16) -> (r: Option<Quadratic>)
    ensures
        r.is_some() == collides(*a, *b, radius as int),
        r matches Some(q) ==> q.of(*a, *b, radius as int),
{
    let dpx: i128 = a.position.x as i128 - b.position.x as i128;
    let dpy: i128 = a.position.y as i128 - b.position.y as i128;
    let dvx: i128 = a.velocity.x as i128 - b.velocity.x as i128;
    let dvy: i128 = a.velocity.y as i128 - b.velocity.y as i128;
    proof {
        lemma_mul_bound(dpx as int, dvx as int, 65535, 65535);
        lemma_mul_bound(dpy as int, dvy as int, 65535, 65535);
        lemma_mul_bound(dvx as int, dvx as int, 65535, 65535);
        lemma_mul_bound(dvy as int, dvy as int, 65535, 65535);
    }
    let approach: i128 = dpx * dvx + dpy * dvy;
    if approach > 0 {
        return None;
    }
    let speed2: i128 = dvx * dvx + dvy * dvy;
    if speed2 == 0 {
        return None;
    }
    proof {
        lemma_mul_bound(dpx as int, dpx as int, 65535, 65535);
        lemma_mul_bound(dpy as int, dpy as int, 65535, 65535);
        lemma_mul_bound(radius as int, radius as int, 65535, 65535);
    }
    let sep2: i128 = dpx * dpx + dpy * dpy;
    let touch2: i128 = 4 * (radius as i128 * radius as i128);
    let gap: i128 = sep2 - touch2;
    proof {
        lemma_mul_bound(approach as int, approach as int, 0x2_0000_0000, 0x2_0000_0000);
        lemma_mul_bound(speed2 as int, gap as int, 0x2_0000_0000, 0x8_0000_0000);
        assert(touch2 == contact2(radius as int));
    }
    let disc: i128 = approach * approach - speed2 * gap;
    if disc < 0 {
        return None;
    }
    Some(Quadratic { dpx, dpy, dvx, dvy, approach, speed2, disc })
}

/// Magnitude bounds of the quadratic's quantities on the lattice.
proof fn lemma_quadratic_bounds(a: GridParticle, b: GridParticle, radius: int)
    requires
        0 <= radius <= 65535,
    ensures
        -0x2_0000_0000 <= approach(a, b) <= 0x2_0000_0000,
        0 <= speed2(a, b) <= 0x2_0000_0000,
        0 <= contact2(radius) <= 0x4_0000_0000,
        discriminant(a, b, radius) <= 0x20_0000_0000_0000_0000,
{
    let (px, py, vx, vy) = (dpx(a, b), dpy(a, b), dvx(a, b), dvy(a, b));
    lemma_mul_bound(px, vx, 65535, 65535);
    lemma_mul_bound(py, vy, 65535, 65535);
    lemma_mul_bound(vx, vx, 65535, 65535);
    lemma_mul_bound(vy, vy, 65535, 65535);
    lemma_mul_bound(px, px, 65535, 65535);
    lemma_mul_bound(py, py, 65535, 65535);
    lemma_mul_bound(radius, radius, 65535, 65535);
    assert(vx * vx >= 0 && vy * vy >= 0 && px * px >= 0 && py * py >= 0 && radius * radius >= 0)
        by (nonlinear_arith);
    let (ap, sp, g) = (approach(a, b), speed2(a, b), gap(a, b, radius));
    lemma_mul_bound(ap, ap, 0x2_0000_0000, 0x2_0000_0000);
    lemma_mul_bound(sp, g, 0x2_0000_0000, 0x8_0000_0000);
}

/// The coordinate `p + t v` at the contact time `t` of `q`.
fn position_at_contact(q: &Quadratic, p: i16, v: i16) -> (r: QuadSurd)
    requires
        -0x2_0000_0000 <= q.approach <= 0x2_0000_0000,
        0 <= q.speed2 <= 0x2_0000_0000,
    ensures
        r.is(q.speed2 * p - q.approach * v, -v, q.disc as int, q.speed2 as int),
{
    proof {
        lemma_mul_bound(q.speed2 as int, p as int, 0x2_0000_0000, 0x8000);
        lemma_mul_bound(q.approach as int, v as int, 0x2_0000_0000, 0x8000);
    }
    QuadSurd {
        rational: q.speed2 * p as i128 - q.approach * v as i128,
        coefficient: -(v as i128),
        radicand: q.disc,
        denom: q.speed2,
    }
}

/// The velocity component `v + sign * dvel` after contact, where `dvel` is the
/// impulse on particle A along the line of centres (`dp`, `dv`: relative
/// position and velocity components).
fn velocity_after(q: &Quadratic, touch2: i128, v: i16, dp: i128, dv: i128, sign: i128) -> (r: QuadSurd)
    requires
        -0x2_0000_0000 <= q.approach <= 0x2_0000_0000,
        0 <= q.speed2 <= 0x2_0000_0000,
        0 <= q.disc <= 0x20_0000_0000_0000_0000,
        0 <= touch2 <= 0x4_0000_0000,
        -65535 <= dp <= 65535,
        -65535 <= dv <= 65535,
        sign == 1 || sign == -1,
    ensures
        r.is(
            touch2 * q.speed2 * v - sign * q.disc * dv,
            sign * (q.speed2 * dp - q.approach * dv),
            q.disc as int,
            touch2 * q.speed2,
        ),
{
    proof {
        lemma_mul_bound(touch2 as int, q.speed2 as int, 0x4_0000_0000, 0x2_0000_0000);
        lemma_mul_bound(touch2 * q.speed2, v as int, 0x8_0000_0000_0000_0000, 0x8000);
        lemma_mul_bound(sign as int, q.disc as int, 1, 0x20_0000_0000_0000_0000);
        lemma_mul_bound(sign * q.disc, dv as int, 0x20_0000_0000_0000_0000, 65535);
        lemma_mul_bound(q.speed2 as int, dp as int, 0x2_0000_0000, 65535);
        lemma_mul_bound(q.approach as int, dv as int, 0x2_0000_0000, 65535);
        lemma_mul_bound(sign as int, q.speed2 * dp - q.approach * dv, 1, 0x4_0000_0000_0000);
    }
    let denom: i128 = touch2 * q.speed2;
    QuadSurd {
        rational: denom * v as i128 - sign * q.disc * dv,
        coefficient: sign * (q.speed2 * dp - q.approach * dv),
        radicand: q.disc,
        denom,
    }
}

/// The earliest future contact time of two disks of the given radius, or
/// `None` when they never touch: when they separate (`dot(dx, dv) > 0`),
/// move together (`dv == 0`), or pass each other (negative discriminant).
pub fn collision_time(a: &GridParticle, b: &GridParticle, radius: u16) -> (r: Option<QuadSurd>)
    ensures
        r.is_some() == collides(*a, *b, radius as int),
        r matches Some(t) ==> is_contact_time(t, *a, *b, radius as int),
{
    proof {
        lemma_quadratic_bounds(*a, *b, radius as int);
    }
    match contact_quadratic(a, b, radius) {
        None => None,
        Some(q) => Some(QuadSurd { rational: -q.approach, coefficient: -1, radicand: q.disc, denom: q.speed2 }),
    }
}

/// The earliest future contact of two disks of the given radius and the
/// state of both at that instant, after the elastic impulse along the line
/// of centres; `None` exactly when `collision_time` gives `None`.
pub fn predict_collision(a: &GridParticle, b: &GridParticle, radius: u16) -> (r: Option<Collision>)
    requires
        radius > 0,
    ensures
        r.is_some() == collides(*a, *b, radius as int),
        r matches Some(c) ==> is_collision_of(c, *a, *b, radius as int),
{
    let q = match contact_quadratic(a, b, radius) {
        None => return None,
        Some(q) => q,
    };
    proof {
        lemma_quadratic_bounds(*a, *b, radius as int);
        lemma_mul_bound(radius as int, radius as int, 65535, 65535);
    }
    let touch2: i128 = 4 * (radius as i128 * radius as i128);
    let time = QuadSurd { rational: -q.approach, coefficient: -1, radicand: q.disc, denom: q.speed2 };
    let position_a = SurdVec2 {
        x: position_at_contact(&q, a.position.x, a.velocity.x),
        y: position_at_contact(&q, a.position.y, a.velocity.y),
    };
    let position_b = SurdVec2 {
        x: position_at_contact(&q, b.position.x, b.velocity.x),
        y: position_at_contact(&q, b.position.y, b.velocity.y),
    };
    let velocity_a = SurdVec2 {
        x: velocity_after(&q, touch2, a.velocity.x, q.dpx, q.dvx, 1),
        y: velocity_after(&q, touch2, a.velocity.y, q.dpy, q.dvy, 1),
    };
    let velocity_b = SurdVec2 {
        x: velocity_after(&q, touch2, b.velocity.x, q.dpx, q.dvx, -1),
        y: velocity_after(&q, touch2, b.velocity.y, q.dpy, q.dvy, -1),
    };
    Some(Collision {
        time,
        particle_a: SurdParticle { position: position_a, velocity: velocity_a },
        particle_b: SurdParticle { position: position_b, velocity: velocity_b },
    })
}

} // verus!
