use disk_collision::kernel::{collision_time, predict_collision};
use disk_collision::model::{Collision, GridParticle, IVec2, QuadSurd};

fn particle(px: i16, py: i16, vx: i16, vy: i16) -> GridParticle {
    GridParticle { position: IVec2 { x: px, y: py }, velocity: IVec2 { x: vx, y: vy } }
}

fn value(q: &QuadSurd) -> f64 {
    (q.rational as f64 + q.coefficient as f64 * (q.radicand as f64).sqrt()) / q.denom as f64
}

fn momentum_and_energy_kept(a: &GridParticle, b: &GridParticle, c: &Collision) {
    let (ax, ay) = (value(&c.particle_a.velocity.x), value(&c.particle_a.velocity.y));
    let (bx, by) = (value(&c.particle_b.velocity.x), value(&c.particle_b.velocity.y));
    let epsilon = 1.0e-6;
    assert!((ax + bx - (a.velocity.x + b.velocity.x) as f64).abs() < epsilon);
    assert!((ay + by - (a.velocity.y + b.velocity.y) as f64).abs() < epsilon);
    let before = (a.velocity.x as f64).powi(2)
        + (a.velocity.y as f64).powi(2)
        + (b.velocity.x as f64).powi(2)
        + (b.velocity.y as f64).powi(2);
    let after = ax * ax + ay * ay + bx * bx + by * by;
    assert!(((after - before) / before).abs() < epsilon);
}

#[test]
fn simple_head_on_collision() {
    let particle1 = particle(-10, 0, 1, 0);
    let particle2 = particle(10, 0, -1, 0);
    let result = predict_collision(&particle1, &particle2, 1);
    assert!(result.is_some());
    let c = result.unwrap();
    let epsilon = 1.0e-6;
    assert!((value(&c.time) - 9.0).abs() < epsilon);
    assert!((value(&c.particle_a.velocity.x) + 1.0).abs() < epsilon);
    assert!(value(&c.particle_a.velocity.y).abs() < epsilon);
    assert!((value(&c.particle_b.velocity.x) - 1.0).abs() < epsilon);
    assert!(value(&c.particle_b.velocity.y).abs() < epsilon);
    momentum_and_energy_kept(&particle1, &particle2, &c);
}

#[test]
fn head_on_exact_time() {
    let a = particle(-10, 0, 1, 0);
    let b = particle(10, 0, -1, 0);
    let t = collision_time(&a, &b, 1).unwrap();
    assert_eq!(t, QuadSurd { rational: 40, coefficient: -1, radicand: 16, denom: 4 });
    let c = predict_collision(&a, &b, 1).unwrap();
    assert_eq!(c.time, t);
    assert!((value(&c.particle_a.position.x) + 1.0).abs() < 1.0e-9);
    assert!((value(&c.particle_b.position.x) - 1.0).abs() < 1.0e-9);
}

#[test]
fn no_collision() {
    // the lattice scenario at ten times the scale: offset 1.1 against radius 1
    let particle1 = particle(-100, -11, 10, 0);
    let particle2 = particle(100, 11, -10, 0);
    assert!(predict_collision(&particle1, &particle2, 10).is_none());
    assert!(collision_time(&particle1, &particle2, 10).is_none());
}

#[test]
fn separating_pair_never_collides() {
    let a = particle(-10, 0, -1, 0);
    let b = particle(10, 0, 1, 0);
    for radius in [1u16, 10, 100, 1000] {
        assert!(collision_time(&a, &b, radius).is_none());
        assert!(predict_collision(&a, &b, radius).is_none());
    }
}

#[test]
fn equal_velocities_never_collide() {
    let a = particle(-3, 0, 5, 5);
    let b = particle(3, 0, 5, 5);
    assert!(collision_time(&a, &b, 1).is_none());
    assert!(predict_collision(&a, &b, 1).is_none());
}

#[test]
fn grazing_contact_is_a_collision() {
    let a = particle(-10, 2, 1, 0);
    let b = particle(10, 0, -1, 0);
    let t = collision_time(&a, &b, 1).unwrap();
    assert_eq!(t.radicand, 0);
    assert!((value(&t) - 10.0).abs() < 1.0e-9);
    let c = predict_collision(&a, &b, 1).unwrap();
    assert!((value(&c.particle_a.velocity.x) - 1.0).abs() < 1.0e-9);
    assert!((value(&c.particle_b.velocity.x) + 1.0).abs() < 1.0e-9);
    momentum_and_energy_kept(&a, &b, &c);
}

#[test]
fn oblique_collision_conserves_momentum_and_energy() {
    let a = particle(0, 0, 3, 1);
    let b = particle(10, 3, -2, 0);
    let c = predict_collision(&a, &b, 2).unwrap();
    let t = collision_time(&a, &b, 2).unwrap();
    assert_eq!(c.time, t);
    assert!(value(&t) >= 0.0);
    momentum_and_energy_kept(&a, &b, &c);
    // the centres are two radii apart at the contact time
    let dx = value(&c.particle_a.position.x) - value(&c.particle_b.position.x);
    let dy = value(&c.particle_a.position.y) - value(&c.particle_b.position.y);
    assert!((dx * dx + dy * dy - 16.0).abs() < 1.0e-6);
}

#[test]
fn extreme_lattice_values_do_not_overflow() {
    let a = particle(i16::MIN, i16::MIN, i16::MAX, i16::MAX);
    let b = particle(i16::MAX, i16::MAX, i16::MIN, i16::MIN);
    let c = predict_collision(&a, &b, u16::MAX).unwrap();
    assert_eq!(Some(c.time), collision_time(&a, &b, u16::MAX));
    momentum_and_energy_kept(&a, &b, &c);
}
