//! The mathematical model of the kernel: lattice particles, the quadratic
//! whose smaller root is the contact time, and the exact values it yields.
use vstd::prelude::*;

verus! {

/// A lattice vector.
#[derive(Clone, Copy, Debug, PartialEq, Eq)]
pub struct IVec2 {
    pub x: i16,
    pub y: i16,
}

/// A disk centre and its constant velocity.
#[derive(Clone, Copy, Debug, PartialEq, Eq)]
pub struct GridParticle {
    pub position: IVec2,
    pub velocity: IVec2,
}

/// The exact number `(rational + coefficient * sqrt(radicand)) / denom`,
/// with `radicand >= 0` and `denom > 0`.
#[derive(Clone, Copy, Debug, PartialEq, Eq)]
pub struct QuadSurd {
    pub rational: i128,
    pub coefficient: i128,
    pub radicand: i128,
    pub denom: i128,
}

/// A vector whose components are quadratic surds.
#[derive(Clone, Copy, Debug, PartialEq, Eq)]
pub struct SurdVec2 {
    pub x: QuadSurd,
    pub y: QuadSurd,
}

/// The state of a particle at the instant of contact.
#[derive(Clone, Copy, Debug, PartialEq, Eq)]
pub struct SurdParticle {
    pub position: SurdVec2,
    pub velocity: SurdVec2,
}

/// A predicted contact: when it happens and both particles right after it.
#[derive(Clone, Copy, Debug, PartialEq, Eq)]
pub struct Collision {
    pub time: QuadSurd,
    pub particle_a: SurdParticle,
    pub particle_b: SurdParticle,
}

impl QuadSurd {
    /// The surd is `(p + c * sqrt(d)) / q`, written with unbounded integers.
    pub open spec fn is(self, p: int, c: int, d: int, q: int) -> bool {
        self.rational == p && self.coefficient == c && self.radicand == d && self.denom == q
    }

    /// The real number the surd denotes, given `s`, the square root of its radicand.
    pub open spec fn value(self, s: real) -> real {
        (self.rational as real + self.coefficient as real * s) / self.denom as real
    }
}

/// `s` is the non-negative square root of `d`.
pub open spec fn is_sqrt(s: real, d: int) -> bool {
    s >= 0real && s * s == d as real
}

/// Relative position `pos_a - pos_b`, x component.
pub open spec fn dpx(a: GridParticle, b: GridParticle) -> int {
    a.position.x - b.position.x
}

/// Relative position `pos_a - pos_b`, y component.
pub open spec fn dpy(a: GridParticle, b: GridParticle) -> int {
    a.position.y - b.position.y
}

/// Relative velocity `vel_a - vel_b`, x component.
pub open spec fn dvx(a: GridParticle, b: GridParticle) -> int {
    a.velocity.x - b.velocity.x
}

/// Relative velocity `vel_a - vel_b`, y component.
pub open spec fn dvy(a: GridParticle, b: GridParticle) -> int {
    a.velocity.y - b.velocity.y
}

/// `dot(dx, dv)`: negative while the centres approach each other.
pub open spec fn approach(a: GridParticle, b: GridParticle) -> int {
    dpx(a, b) * dvx(a, b) + dpy(a, b) * dvy(a, b)
}

/// `dot(dx, dx)`: squared distance between the centres.
pub open spec fn sep2(a: GridParticle, b: GridParticle) -> int {
    dpx(a, b) * dpx(a, b) + dpy(a, b) * dpy(a, b)
}

/// `dot(dv, dv)`: squared relative speed.
pub open spec fn speed2(a: GridParticle, b: GridParticle) -> int {
    dvx(a, b) * dvx(a, b) + dvy(a, b) * dvy(a, b)
}

/// Squared distance between the centres at contact, `(2 r)^2`.
pub open spec fn contact2(radius: int) -> int {
    4 * (radius * radius)
}

/// Constant term of the contact quadratic `speed2 t^2 + 2 approach t + gap = 0`.
pub open spec fn gap(a: GridParticle, b: GridParticle, radius: int) -> int {
    sep2(a, b) - contact2(radius)
}

/// The (quarter) discriminant of the contact quadratic.
pub open spec fn discriminant(a: GridParticle, b: GridParticle, radius: int) -> int {
    approach(a, b) * approach(a, b) - speed2(a, b) * gap(a, b, radius)
}

/// The pair makes contact in the future: it is not separating, it moves
/// relative to itself, and the quadratic has a real root.
pub open spec fn collides(a: GridParticle, b: GridParticle, radius: int) -> bool {
    approach(a, b) <= 0 && speed2(a, b) != 0 && discriminant(a, b, radius) >= 0
}

/// `t` is the smaller root `(-approach - sqrt(discriminant)) / speed2`.
pub open spec fn is_contact_time(t: QuadSurd, a: GridParticle, b: GridParticle, radius: int) -> bool {
    t.is(-approach(a, b), -1, discriminant(a, b, radius), speed2(a, b))
}

/// Rational part numerator of the impulse direction scaled by `speed2`:
/// `speed2 * dx + (-approach) * dv`, for one component.
pub open spec fn impulse_dir(a: GridParticle, b: GridParticle, dp: int, dv: int) -> int {
    speed2(a, b) * dp - approach(a, b) * dv
}

/// The position `p + t v` at contact time, for one component.
pub open spec fn is_contact_position(q: QuadSurd, a: GridParticle, b: GridParticle, radius: int, p: int, v: int) -> bool {
    q.is(speed2(a, b) * p - approach(a, b) * v, -v, discriminant(a, b, radius), speed2(a, b))
}

/// The velocity `v + sign * dvel` after contact, for one component, where
/// `dvel = sqrt(D) / (4 r^2) * (dx + t dv)` is the impulse on particle A.
pub open spec fn is_velocity_after(
    q: QuadSurd,
    a: GridParticle,
    b: GridParticle,
    radius: int,
    v: int,
    dp: int,
    dv: int,
    sign: int,
) -> bool {
    q.is(
        contact2(radius) * speed2(a, b) * v - sign * discriminant(a, b, radius) * dv,
        sign * impulse_dir(a, b, dp, dv),
        discriminant(a, b, radius),
        contact2(radius) * speed2(a, b),
    )
}

/// `c` is the exact outcome of a contact between `a` and `b`.
pub open spec fn is_collision_of(c: Collision, a: GridParticle, b: GridParticle, radius: int) -> bool {
    &&& is_contact_time(c.time, a, b, radius)
    &&& is_contact_position(c.particle_a.position.x, a, b, radius, a.position.x as int, a.velocity.x as int)
    &&& is_contact_position(c.particle_a.position.y, a, b, radius, a.position.y as int, a.velocity.y as int)
    &&& is_contact_position(c.particle_b.position.x, a, b, radius, b.position.x as int, b.velocity.x as int)
    &&& is_contact_position(c.particle_b.position.y, a, b, radius, b.position.y as int, b.velocity.y as int)
    &&& is_velocity_after(c.particle_a.velocity.x, a, b, radius, a.velocity.x as int, dpx(a, b), dvx(a, b), 1)
    &&& is_velocity_after(c.particle_a.velocity.y, a, b, radius, a.velocity.y as int, dpy(a, b), dvy(a, b), 1)
    &&& is_velocity_after(c.particle_b.velocity.x, a, b, radius, b.velocity.x as int, dpx(a, b), dvx(a, b), -1)
    &&& is_velocity_after(c.particle_b.velocity.y, a, b, radius, b.velocity.y as int, dpy(a, b), dvy(a, b), -1)
}

} // verus!
