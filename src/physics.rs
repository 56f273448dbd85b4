//! Proofs over the reals: the geometry of the contact and conservation of
//! kinetic energy across it.
use vstd::prelude::*;
use crate::laws::lemma_real_mul;
use crate::model::{
    approach, collides, contact2, discriminant, dpx, dpy, dvx, dvy, gap, impulse_dir, is_collision_of,
    is_contact_position, is_sqrt, sep2, speed2, Collision, GridParticle, QuadSurd,
};

verus! {

/// Division by a positive real is undone by multiplication.
proof fn lemma_div_times(x: real, y: real)
    requires
        y > 0real,
    ensures
        x == y * (x / y),
{
    assert(x == y * (x / y)) by (nonlinear_arith)
        requires
            y > 0real,
    ;
}

/// `x / y == z` when `x == y * z` and `y > 0`.
proof fn lemma_div_exact(x: real, y: real, z: real)
    requires
        y > 0real,
        x == y * z,
    ensures
        x / y == z,
{
    assert(x / y == z) by (nonlinear_arith)
        requires
            y > 0real,
            x == y * z,
    ;
}

/// `(x u - y v)^2` expanded.
proof fn lemma_square_of_difference(x: int, u: int, y: int, v: int)
    ensures
        (x * u - y * v) * (x * u - y * v) == x * x * (u * u) - 2 * (x * y * (u * v)) + y * y * (v * v),
{
    let (p, q) = (x * u, y * v);
    assert((p - q) * (p - q) == p * p - 2 * (p * q) + q * q) by (nonlinear_arith);
    assert(p * p == x * x * (u * u)) by (nonlinear_arith)
        requires
            p == x * u,
    ;
    assert(q * q == y * y * (v * v)) by (nonlinear_arith)
        requires
            q == y * v,
    ;
    assert(p * q == x * y * (u * v)) by (nonlinear_arith)
        requires
            p == x * u,
            q == y * v,
    ;
}

/// The impulse direction `w = speed2 * dx - approach * dv` is orthogonal to
/// `dv`, and `|w|^2 = speed2 * (contact2 * speed2 - discriminant)`.
proof fn lemma_impulse_direction(a: GridParticle, b: GridParticle, radius: int)
    ensures
        impulse_dir(a, b, dpx(a, b), dvx(a, b)) * dvx(a, b) + impulse_dir(a, b, dpy(a, b), dvy(a, b)) * dvy(a, b)
            == 0,
        impulse_dir(a, b, dpx(a, b), dvx(a, b)) * impulse_dir(a, b, dpx(a, b), dvx(a, b))
            + impulse_dir(a, b, dpy(a, b), dvy(a, b)) * impulse_dir(a, b, dpy(a, b), dvy(a, b))
            == speed2(a, b) * (contact2(radius) * speed2(a, b) - discriminant(a, b, radius)),
{
    let (px, py, vx, vy) = (dpx(a, b), dpy(a, b), dvx(a, b), dvy(a, b));
    let (ap, sp, c) = (approach(a, b), speed2(a, b), contact2(radius));
    let (wx, wy) = (sp * px - ap * vx, sp * py - ap * vy);
    assert(wx * vx + wy * vy == sp * ap - ap * sp) by (nonlinear_arith)
        requires
            wx == sp * px - ap * vx,
            wy == sp * py - ap * vy,
            ap == px * vx + py * vy,
            sp == vx * vx + vy * vy,
    ;
    lemma_square_of_difference(sp, px, ap, vx);
    lemma_square_of_difference(sp, py, ap, vy);
    let (ss, sa, aa) = (sp * sp, sp * ap, ap * ap);
    assert(ss * (px * px) + ss * (py * py) == ss * (px * px + py * py)) by (nonlinear_arith);
    assert(sa * (px * vx) + sa * (py * vy) == sa * ap) by (nonlinear_arith)
        requires
            ap == px * vx + py * vy,
    ;
    assert(aa * (vx * vx) + aa * (vy * vy) == aa * sp) by (nonlinear_arith)
        requires
            sp == vx * vx + vy * vy,
    ;
    assert(sa * ap == sp * aa) by (nonlinear_arith)
        requires
            sa == sp * ap,
            aa == ap * ap,
    ;
    assert(aa * sp == sp * aa) by (nonlinear_arith);
    assert(wx * wx + wy * wy == ss * (px * px + py * py) - sp * aa);
    assert(sp * (c * sp - discriminant(a, b, radius)) == ss * (px * px + py * py) - sp * aa)
        by (nonlinear_arith)
        requires
            discriminant(a, b, radius) == aa - sp * (px * px + py * py - c),
            ss == sp * sp,
    ;
}

/// The value of a post-collision velocity component: `v + sign * e / d` with
/// `e = w * s - discriminant * dv` and `d = contact2 * speed2`.
proof fn lemma_velocity_value(
    q: QuadSurd,
    a: GridParticle,
    b: GridParticle,
    radius: int,
    v: int,
    dp: int,
    dv: int,
    sign: int,
    s: real,
)
    requires
        radius > 0,
        speed2(a, b) > 0,
        sign == 1 || sign == -1,
        crate::model::is_velocity_after(q, a, b, radius, v, dp, dv, sign),
    ensures
        contact2(radius) * speed2(a, b) > 0,
        q.value(s) == v as real + sign as real * ((impulse_dir(a, b, dp, dv) as real * s
            - discriminant(a, b, radius) as real * dv as real) / (contact2(radius) * speed2(a, b)) as real),
{
    let d = contact2(radius) * speed2(a, b);
    let dd = discriminant(a, b, radius);
    let w = impulse_dir(a, b, dp, dv);
    vstd::arithmetic::mul::lemma_mul_strictly_positive(radius, radius);
    vstd::arithmetic::mul::lemma_mul_strictly_positive(4 * (radius * radius), speed2(a, b));
    lemma_real_mul(d, v);
    lemma_real_mul(sign * dd, dv);
    lemma_real_mul(sign, dd);
    lemma_real_mul(sign, w);
    let (dr, vr, e) = (d as real, v as real, w as real * s - dd as real * dv as real);
    let (sg, wr, ddr, dvr) = (sign as real, w as real, dd as real, dv as real);
    assert(q.rational as real == dr * vr - sg * ddr * dvr);
    assert(q.coefficient as real == sg * wr);
    assert(sg * ddr * dvr == sg * (ddr * dvr)) by (nonlinear_arith);
    assert(sg * wr * s == sg * (wr * s)) by (nonlinear_arith);
    let h = e / dr;
    lemma_div_times(e, dr);
    assert(dr * vr + sg * e == dr * (vr + sg * h)) by (nonlinear_arith)
        requires
            e == dr * h,
    ;
    assert(sg * e == sg * (wr * s) - sg * (ddr * dvr)) by (nonlinear_arith)
        requires
            e == wr * s - ddr * dvr,
    ;
    assert(q.rational as real + q.coefficient as real * s == dr * vr + sg * e);
    assert(q.denom as real == dr);
    lemma_div_exact(dr * vr + sg * e, dr, vr + sg * h);
}

/// `(x + h)^2` and `(x - h)^2` expanded over the reals.
proof fn lemma_real_square_shift(x: real, h: real)
    ensures
        (x + h) * (x + h) == x * x + 2real * (x * h) + h * h,
        (x - h) * (x - h) == x * x - 2real * (x * h) + h * h,
{
    assert((x + h) * (x + h) == x * x + 2real * (x * h) + h * h) by (nonlinear_arith);
    assert((x - h) * (x - h) == x * x - 2real * (x * h) + h * h) by (nonlinear_arith);
}

/// Pure real algebra behind energy conservation: if the impulse `e / d`
/// satisfies `d * dot(e, va - vb) + |e|^2 == 0`, adding it to `va` and taking
/// it from `vb` keeps `|va|^2 + |vb|^2`.
proof fn lemma_elastic_exchange(ax: real, ay: real, bx: real, by: real, ex: real, ey: real, d: real)
    requires
        d > 0real,
        d * (ex * (ax - bx) + ey * (ay - by)) + ex * ex + ey * ey == 0real,
    ensures
        (ax + ex / d) * (ax + ex / d) + (ay + ey / d) * (ay + ey / d) + (bx - ex / d) * (bx - ex / d) + (by - ey
            / d) * (by - ey / d) == ax * ax + ay * ay + bx * bx + by * by,
{
    let (hx, hy, u, w, dd) = (ex / d, ey / d, ax - bx, ay - by, d * d);
    lemma_div_times(ex, d);
    lemma_div_times(ey, d);
    assert(ex * u == d * (hx * u)) by (nonlinear_arith)
        requires
            ex == d * hx,
    ;
    assert(ey * w == d * (hy * w)) by (nonlinear_arith)
        requires
            ey == d * hy,
    ;
    assert(ex * ex == dd * (hx * hx)) by (nonlinear_arith)
        requires
            ex == d * hx,
            dd == d * d,
    ;
    assert(ey * ey == dd * (hy * hy)) by (nonlinear_arith)
        requires
            ey == d * hy,
            dd == d * d,
    ;
    assert(d * (d * (hx * u) + d * (hy * w)) == dd * (hx * u + hy * w)) by (nonlinear_arith)
        requires
            dd == d * d,
    ;
    let k = hx * u + hy * w + hx * hx + hy * hy;
    let (m, n) = (hx * u + hy * w, hx * hx + hy * hy);
    assert(dd * (m + n) == dd * m + dd * n) by (nonlinear_arith);
    assert(dd * n == dd * (hx * hx) + dd * (hy * hy)) by (nonlinear_arith)
        requires
            n == hx * hx + hy * hy,
    ;
    assert(k == m + n);
    assert(dd > 0real) by (nonlinear_arith)
        requires
            d > 0real,
            dd == d * d,
    ;
    assert(k == 0real) by (nonlinear_arith)
        requires
            dd > 0real,
            dd * k == 0real,
    ;
    lemma_real_square_shift(ax, hx);
    lemma_real_square_shift(ay, hy);
    lemma_real_square_shift(bx, hx);
    lemma_real_square_shift(by, hy);
    assert(hx * u == ax * hx - bx * hx) by (nonlinear_arith)
        requires
            u == ax - bx,
    ;
    assert(hy * w == ay * hy - by * hy) by (nonlinear_arith)
        requires
            w == ay - by,
    ;
}

/// For `e = w s - D v`: `dot(e, v) == -D |v|^2` when `w` is orthogonal to `v`.
proof fn lemma_impulse_along(wx: real, wy: real, vx: real, vy: real, s: real, dd: real)
    requires
        wx * vx + wy * vy == 0real,
    ensures
        (wx * s - dd * vx) * vx + (wy * s - dd * vy) * vy == -(dd * (vx * vx + vy * vy)),
{
    assert((wx * s - dd * vx) * vx == s * (wx * vx) - dd * (vx * vx)) by (nonlinear_arith);
    assert((wy * s - dd * vy) * vy == s * (wy * vy) - dd * (vy * vy)) by (nonlinear_arith);
    assert(s * (wx * vx) + s * (wy * vy) == s * (wx * vx + wy * vy)) by (nonlinear_arith);
    assert(dd * (vx * vx) + dd * (vy * vy) == dd * (vx * vx + vy * vy)) by (nonlinear_arith);
}

/// `(x u - y v)^2 == (u u)(x x) - 2 (u y)(x v) + (y y)(v v)` over the reals.
proof fn lemma_real_square_of_difference(x: real, u: real, y: real, v: real)
    ensures
        (x * u - y * v) * (x * u - y * v) == (u * u) * (x * x) - 2real * ((u * y) * (x * v)) + (y * y) * (v * v),
{
    let (p, q) = (x * u, y * v);
    assert((p - q) * (p - q) == p * p - 2real * (p * q) + q * q) by (nonlinear_arith);
    assert(p * p == (u * u) * (x * x)) by (nonlinear_arith)
        requires
            p == x * u,
    ;
    assert(q * q == (y * y) * (v * v)) by (nonlinear_arith)
        requires
            q == y * v,
    ;
    assert(p * q == (u * y) * (x * v)) by (nonlinear_arith)
        requires
            p == x * u,
            q == y * v,
    ;
}

/// For `e = w s - D v`: `|e|^2 == s^2 |w|^2 + D^2 |v|^2` when `w` is orthogonal to `v`.
proof fn lemma_impulse_norm(wx: real, wy: real, vx: real, vy: real, s: real, dd: real)
    requires
        wx * vx + wy * vy == 0real,
    ensures
        (wx * s - dd * vx) * (wx * s - dd * vx) + (wy * s - dd * vy) * (wy * s - dd * vy) == (s * s) * (wx * wx
            + wy * wy) + (dd * dd) * (vx * vx + vy * vy),
{
    let (sd, ss, d2) = (s * dd, s * s, dd * dd);
    lemma_real_square_of_difference(wx, s, dd, vx);
    lemma_real_square_of_difference(wy, s, dd, vy);
    assert(sd * (wx * vx) + sd * (wy * vy) == sd * (wx * vx + wy * vy)) by (nonlinear_arith);
    assert(ss * (wx * wx) + ss * (wy * wy) == ss * (wx * wx + wy * wy)) by (nonlinear_arith);
    assert(d2 * (vx * vx) + d2 * (vy * vy) == d2 * (vx * vx + vy * vy)) by (nonlinear_arith);
}

/// `d p + q == 0` for `p == -D A` and `q == D A (d - D) + D^2 A`.
proof fn lemma_energy_balance(d: real, dd: real, a: real, p: real, q: real)
    requires
        p == -(dd * a),
        q == dd * (a * (d - dd)) + (dd * dd) * a,
    ensures
        d * p + q == 0real,
{
    assert(d * p + q == 0real) by (nonlinear_arith)
        requires
            p == -(dd * a),
            q == dd * (a * (d - dd)) + (dd * dd) * a,
    ;
}

/// Kinetic energy is conserved: `|va|^2 + |vb|^2` after a collision equals
/// its value before.
pub proof fn lemma_energy_conserved(a: GridParticle, b: GridParticle, radius: int, c: Collision, s: real)
    requires
        radius > 0,
        collides(a, b, radius),
        is_collision_of(c, a, b, radius),
        is_sqrt(s, discriminant(a, b, radius)),
    ensures
        ({
            let (ax, ay) = (c.particle_a.velocity.x.value(s), c.particle_a.velocity.y.value(s));
            let (bx, by) = (c.particle_b.velocity.x.value(s), c.particle_b.velocity.y.value(s));
            ax * ax + ay * ay + bx * bx + by * by == ((a.velocity.x * a.velocity.x + a.velocity.y * a.velocity.y
                + b.velocity.x * b.velocity.x + b.velocity.y * b.velocity.y) as int) as real
        }),
{
    assert(speed2(a, b) >= 0) by (nonlinear_arith);
    let (ax, ay, bx, by) = (a.velocity.x as int, a.velocity.y as int, b.velocity.x as int, b.velocity.y as int);
    let (px, py, vx, vy) = (dpx(a, b), dpy(a, b), dvx(a, b), dvy(a, b));
    lemma_velocity_value(c.particle_a.velocity.x, a, b, radius, ax, px, vx, 1, s);
    lemma_velocity_value(c.particle_b.velocity.x, a, b, radius, bx, px, vx, -1, s);
    lemma_velocity_value(c.particle_a.velocity.y, a, b, radius, ay, py, vy, 1, s);
    lemma_velocity_value(c.particle_b.velocity.y, a, b, radius, by, py, vy, -1, s);
    lemma_impulse_direction(a, b, radius);
    let (wx, wy) = (impulse_dir(a, b, px, vx), impulse_dir(a, b, py, vy));
    let (sp, dd, d) = (speed2(a, b), discriminant(a, b, radius), contact2(radius) * speed2(a, b));
    lemma_real_mul(wx, vx);
    lemma_real_mul(wy, vy);
    lemma_real_mul(wx, wx);
    lemma_real_mul(wy, wy);
    lemma_real_mul(vx, vx);
    lemma_real_mul(vy, vy);
    lemma_real_mul(sp, d - dd);
    let (wxr, wyr, vxr, vyr) = (wx as real, wy as real, vx as real, vy as real);
    let (spr, ddr, dr) = (sp as real, dd as real, d as real);
    let ex = wxr * s - ddr * vxr;
    let ey = wyr * s - ddr * vyr;
    lemma_impulse_along(wxr, wyr, vxr, vyr, s, ddr);
    lemma_impulse_norm(wxr, wyr, vxr, vyr, s, ddr);
    assert(vxr * vxr + vyr * vyr == spr);
    assert(wxr * wxr + wyr * wyr == spr * (dr - ddr));
    lemma_energy_balance(dr, ddr, spr, ex * vxr + ey * vyr, ex * ex + ey * ey);
    assert(vxr == ax as real - bx as real && vyr == ay as real - by as real);
    lemma_elastic_exchange(ax as real, ay as real, bx as real, by as real, ex, ey, dr);
    lemma_real_mul(ax, ax);
    lemma_real_mul(ay, ay);
    lemma_real_mul(bx, bx);
    lemma_real_mul(by, by);
}

/// A contact-time coordinate: `(S p - ap v - v s) / S == p + v t` for `t == (-ap - s) / S`.
proof fn lemma_position_algebra(sp: real, ap: real, p: real, v: real, s: real, t: real)
    requires
        sp > 0real,
        sp * t == -ap - s,
    ensures
        (sp * p - ap * v - v * s) / sp == p + v * t,
{
    assert(sp * p - ap * v - v * s == sp * (p + v * t)) by (nonlinear_arith)
        requires
            sp * t == -ap - s,
    ;
    lemma_div_exact(sp * p - ap * v - v * s, sp, p + v * t);
}

/// The value of a contact-position component: `p + v t`.
proof fn lemma_position_value(q: QuadSurd, a: GridParticle, b: GridParticle, radius: int, p: int, v: int, s: real)
    requires
        speed2(a, b) > 0,
        is_contact_position(q, a, b, radius, p, v),
    ensures
        q.value(s) == p as real + v as real * ((-approach(a, b) as real - s) / speed2(a, b) as real),
{
    let (spr, apr) = (speed2(a, b) as real, approach(a, b) as real);
    lemma_real_mul(speed2(a, b), p);
    lemma_real_mul(approach(a, b), v);
    let t = (-apr - s) / spr;
    lemma_div_times(-apr - s, spr);
    assert(q.coefficient as real == -(v as real));
    assert(-(v as real) * s == -(v as real * s)) by (nonlinear_arith);
    assert(q.rational as real + q.coefficient as real * s == spr * p as real - apr * v as real - v as real * s);
    lemma_position_algebra(spr, apr, p as real, v as real, s, t);
}

/// `|x + t u|^2 + |y + t w|^2` expanded.
proof fn lemma_moving_distance(x: real, y: real, u: real, w: real, t: real)
    ensures
        (x + t * u) * (x + t * u) + (y + t * w) * (y + t * w) == (x * x + y * y) + 2real * (t * (x * u + y * w))
            + t * (t * (u * u + w * w)),
{
    lemma_shifted_square(x, u, t);
    lemma_shifted_square(y, w, t);
    let (xu, yw, uu, ww) = (x * u, y * w, u * u, w * w);
    assert(t * xu + t * yw == t * (xu + yw)) by (nonlinear_arith);
    assert(t * uu + t * ww == t * (uu + ww)) by (nonlinear_arith);
    assert(t * (t * uu) + t * (t * ww) == t * (t * (uu + ww))) by (nonlinear_arith)
        requires
            t * uu + t * ww == t * (uu + ww),
    ;
}

/// `(x + t u)^2` expanded.
proof fn lemma_shifted_square(x: real, u: real, t: real)
    ensures
        (x + t * u) * (x + t * u) == x * x + 2real * (t * (x * u)) + t * (t * (u * u)),
{
    let m = t * u;
    assert((x + m) * (x + m) == x * x + 2real * (x * m) + m * m) by (nonlinear_arith);
    assert(x * m == t * (x * u)) by (nonlinear_arith)
        requires
            m == t * u,
    ;
    assert(m * m == t * (t * (u * u))) by (nonlinear_arith)
        requires
            m == t * u,
    ;
}

/// At the smaller root `t` of `S t^2 + 2 ap t + g == 0`, written through
/// `S t == -ap - s` with `s^2 == ap^2 - S g`, the quadratic vanishes.
proof fn lemma_root_value(sp: real, ap: real, g: real, s: real, t: real)
    requires
        sp > 0real,
        sp * t == -ap - s,
        s * s == ap * ap - sp * g,
    ensures
        2real * (t * ap) + t * (t * sp) == -g,
{
    assert(t * (t * sp) == t * (-ap - s)) by (nonlinear_arith)
        requires
            sp * t == -ap - s,
    ;
    assert(sp * (t * (ap - s)) == (ap - s) * (-ap - s)) by (nonlinear_arith)
        requires
            sp * t == -ap - s,
    ;
    assert((ap - s) * (-ap - s) == -(sp * g)) by (nonlinear_arith)
        requires
            s * s == ap * ap - sp * g,
    ;
    assert(t * (ap - s) == -g) by (nonlinear_arith)
        requires
            sp > 0real,
            sp * (t * (ap - s)) == -(sp * g),
    ;
    assert(2real * (t * ap) + t * (-ap - s) == t * (ap - s)) by (nonlinear_arith);
}

/// At the reported contact time the two centres are exactly two radii apart.
pub proof fn lemma_contact_separation(a: GridParticle, b: GridParticle, radius: int, c: Collision, s: real)
    requires
        collides(a, b, radius),
        is_collision_of(c, a, b, radius),
        is_sqrt(s, discriminant(a, b, radius)),
    ensures
        ({
            let dx = c.particle_a.position.x.value(s) - c.particle_b.position.x.value(s);
            let dy = c.particle_a.position.y.value(s) - c.particle_b.position.y.value(s);
            dx * dx + dy * dy == contact2(radius) as real
        }),
{
    assert(speed2(a, b) >= 0) by (nonlinear_arith);
    let (spr, apr) = (speed2(a, b) as real, approach(a, b) as real);
    let t = (-apr - s) / spr;
    lemma_div_times(-apr - s, spr);
    lemma_position_value(c.particle_a.position.x, a, b, radius, a.position.x as int, a.velocity.x as int, s);
    lemma_position_value(c.particle_a.position.y, a, b, radius, a.position.y as int, a.velocity.y as int, s);
    lemma_position_value(c.particle_b.position.x, a, b, radius, b.position.x as int, b.velocity.x as int, s);
    lemma_position_value(c.particle_b.position.y, a, b, radius, b.position.y as int, b.velocity.y as int, s);
    let (px, py, vx, vy) = (dpx(a, b) as real, dpy(a, b) as real, dvx(a, b) as real, dvy(a, b) as real);
    assert(a.velocity.x as real * t - b.velocity.x as real * t == t * vx) by (nonlinear_arith)
        requires
            vx == a.velocity.x as real - b.velocity.x as real,
    ;
    assert(a.velocity.y as real * t - b.velocity.y as real * t == t * vy) by (nonlinear_arith)
        requires
            vy == a.velocity.y as real - b.velocity.y as real,
    ;
    lemma_moving_distance(px, py, vx, vy, t);
    lemma_real_mul(dpx(a, b), dpx(a, b));
    lemma_real_mul(dpy(a, b), dpy(a, b));
    lemma_real_mul(dpx(a, b), dvx(a, b));
    lemma_real_mul(dpy(a, b), dvy(a, b));
    lemma_real_mul(dvx(a, b), dvx(a, b));
    lemma_real_mul(dvy(a, b), dvy(a, b));
    lemma_real_mul(approach(a, b), approach(a, b));
    lemma_real_mul(speed2(a, b), gap(a, b, radius));
    lemma_root_value(spr, apr, gap(a, b, radius) as real, s, t);
    assert(sep2(a, b) - gap(a, b, radius) == contact2(radius));
}

} // verus!
