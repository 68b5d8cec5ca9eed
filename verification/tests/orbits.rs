use nbody::body::BodyId;
use nbody::driver::Simulation;
use nbody::fixed::{Fixed, SCALE};
use nbody::vector::Vector3;

fn fixed(value: f64) -> Fixed {
    Fixed::from_raw((value * SCALE as f64).round() as i64)
}

fn vector(x: f64, y: f64, z: f64) -> Vector3 {
    Vector3::new(fixed(x), fixed(y), fixed(z))
}

fn to_f64(value: Fixed) -> f64 {
    value.raw() as f64 / SCALE as f64
}

fn position(sim: &Simulation, index: usize) -> (f64, f64, f64) {
    let p = sim.get_position(BodyId { index }).unwrap();
    (to_f64(p.x), to_f64(p.y), to_f64(p.z))
}

fn two_bodies(g: f64, speed: f64) -> Simulation {
    let mut sim = Simulation::new();
    sim.set_gravity_constant(fixed(g), fixed(1.0));
    sim.create_body(fixed(1.0), vector(0.0, 0.0, 0.0), vector(0.0, 0.0, 0.0)).unwrap();
    sim.create_body(fixed(0.000001), vector(1.0, 0.0, 0.0), vector(0.0, speed, 0.0)).unwrap();
    sim
}

fn steps_per_revolution(g: f64) -> u32 {
    let mut sim = two_bodies(g, g.sqrt());
    let dt = fixed(0.001);
    let one = fixed(1.0);
    let mut steps = 0;
    let mut below = false;
    loop {
        sim.tick(dt, one).unwrap();
        steps += 1;
        let (x, y, _) = position(&sim, 1);
        if y < 0.0 {
            below = true;
        }
        if below && y >= 0.0 && x > 0.0 {
            return steps;
        }
        assert!(steps < 100_000);
    }
}

#[test]
fn circular_orbit_closes_after_one_period() {
    let mut sim = two_bodies(1.0, 1.0);
    let dt = fixed(0.001);
    let one = fixed(1.0);
    let mut steps = 0;
    while steps < 6_283 {
        sim.tick(dt, one).unwrap();
        steps += 1;
    }
    let p = sim.get_position(BodyId { index: 1 }).unwrap();
    assert_eq!(p, Vector3::new(Fixed::from_raw(1_000_000_072_991), Fixed::from_raw(-189_801_492), Fixed::zero()));
    let (x, y, z) = position(&sim, 1);
    let miss = ((x - 1.0).powi(2) + y.powi(2) + z.powi(2)).sqrt();
    assert!(miss < 0.01);
}

#[test]
fn circular_orbit_keeps_its_radius() {
    let mut sim = two_bodies(1.0, 1.0);
    let dt = fixed(0.001);
    let one = fixed(1.0);
    let mut steps = 0;
    while steps < 6_283 {
        sim.tick(dt, one).unwrap();
        steps += 1;
        if steps % 100 == 0 {
            let (x, y, z) = position(&sim, 1);
            let radius = (x * x + y * y + z * z).sqrt();
            assert!((radius - 1.0).abs() < 0.01);
        }
    }
}

#[test]
fn doubling_gravity_speeds_the_orbit_by_root_two() {
    let slow = steps_per_revolution(1.0);
    let fast = steps_per_revolution(2.0);
    assert_eq!(slow, 6_284);
    assert_eq!(fast, 4_443);
    let ratio = slow as f64 / fast as f64;
    assert!((ratio - 2.0_f64.sqrt()).abs() < 0.01);
}

#[test]
fn figure_eight_returns_after_one_period() {
    let (x, y) = (0.97000436, -0.24308753);
    let (vx, vy) = (-0.93240737, -0.86473146);
    let mut sim = Simulation::new();
    sim.set_gravity_constant(fixed(1.0), fixed(1.0));
    sim.create_body(fixed(1.0), vector(x, y, 0.0), vector(-vx / 2.0, -vy / 2.0, 0.0)).unwrap();
    sim.create_body(fixed(1.0), vector(-x, -y, 0.0), vector(-vx / 2.0, -vy / 2.0, 0.0)).unwrap();
    sim.create_body(fixed(1.0), vector(0.0, 0.0, 0.0), vector(vx, vy, 0.0)).unwrap();
    let start = [position(&sim, 0), position(&sim, 1), position(&sim, 2)];
    let dt = fixed(0.001);
    let one = fixed(1.0);
    let mut steps = 0;
    while steps < 6_326 {
        sim.tick(dt, one).unwrap();
        steps += 1;
    }
    let mut index = 0;
    while index < 3 {
        let (px, py, pz) = position(&sim, index);
        let (sx, sy, sz) = start[index];
        let miss = ((px - sx).powi(2) + (py - sy).powi(2) + (pz - sz).powi(2)).sqrt();
        assert!(miss < 0.01);
        index += 1;
    }
}

#[test]
fn figure_eight_bodies_swap_places_after_a_third_of_the_period() {
    let (x, y) = (0.97000436, -0.24308753);
    let (vx, vy) = (-0.93240737, -0.86473146);
    let mut sim = Simulation::new();
    sim.set_gravity_constant(fixed(1.0), fixed(1.0));
    sim.create_body(fixed(1.0), vector(x, y, 0.0), vector(-vx / 2.0, -vy / 2.0, 0.0)).unwrap();
    sim.create_body(fixed(1.0), vector(-x, -y, 0.0), vector(-vx / 2.0, -vy / 2.0, 0.0)).unwrap();
    sim.create_body(fixed(1.0), vector(0.0, 0.0, 0.0), vector(vx, vy, 0.0)).unwrap();
    let start = [position(&sim, 0), position(&sim, 1), position(&sim, 2)];
    let dt = fixed(0.0005);
    let one = fixed(1.0);
    let mut steps = 0;
    while steps < 4_217 {
        sim.tick(dt, one).unwrap();
        steps += 1;
    }
    let now = [position(&sim, 0), position(&sim, 1), position(&sim, 2)];
    let mut matched = [false, false, false];
    for (px, py, _) in now {
        let mut index = 0;
        while index < 3 {
            let (sx, sy, _) = start[index];
            if ((px - sx).powi(2) + (py - sy).powi(2)).sqrt() < 0.02 {
                matched[index] = true;
            }
            index += 1;
        }
    }
    assert_eq!(matched, [true, true, true]);
}
