use nbody::arith::LIMIT;
use nbody::fixed::Fixed;
use nbody::force::{compute_accelerations, compute_softened_distance, pair_acceleration, SOFTENING};
use nbody::store::BodyStore;
use nbody::vector::Vector3;

fn raw(x: i64, y: i64, z: i64) -> Vector3 {
    Vector3::new(Fixed::from_raw(x), Fixed::from_raw(y), Fixed::from_raw(z))
}

fn whole(x: i64, y: i64, z: i64) -> Vector3 {
    Vector3::new(Fixed::from_int(x), Fixed::from_int(y), Fixed::from_int(z))
}

#[test]
fn softened_distance_of_nothing_is_the_softening_length() {
    assert_eq!(SOFTENING, 1_000_000_000);
    assert_eq!(compute_softened_distance(Vector3::zero()), 1_000_000_000);
}

#[test]
fn softened_distance_adds_the_softening_in_quadrature() {
    assert_eq!(compute_softened_distance(whole(1, 0, 0)), 1_000_000_499_999);
    assert_eq!(compute_softened_distance(whole(3, 4, 0)), 5_000_000_099_999);
    assert_eq!(compute_softened_distance(whole(-3, 0, -4)), 5_000_000_099_999);
}

#[test]
fn softened_distance_takes_the_widest_displacement() {
    let d = compute_softened_distance(raw(i64::MIN, i64::MIN, i64::MIN));
    assert_eq!(d, 15_975_348_984_942_515_101);
}

#[test]
fn pair_acceleration_at_unit_distance() {
    let a = pair_acceleration(Fixed::from_int(1), Fixed::from_int(1), whole(1, 0, 0));
    assert_eq!(a, raw(999_998_500_003, 0, 0));
}

#[test]
fn pair_acceleration_follows_the_inverse_square_law() {
    let a = pair_acceleration(Fixed::from_int(2), Fixed::from_int(5), whole(3, 4, 0));
    assert_eq!(a, raw(239_999_985_600, 319_999_980_800, 0));
}

#[test]
fn pair_acceleration_is_odd_in_the_displacement() {
    let g = Fixed::from_millis(1_500);
    let m = Fixed::from_int(3);
    let r = Vector3::new(Fixed::from_millis(300), Fixed::from_millis(-400), Fixed::from_millis(1_200));
    let back = Vector3::new(Fixed::from_millis(-300), Fixed::from_millis(400), Fixed::from_millis(-1_200));
    assert_eq!(pair_acceleration(g, m, r), raw(614_473_737_721, -819_298_316_963, 2_457_894_950_890));
    assert_eq!(pair_acceleration(g, m, back), raw(-614_473_737_721, 819_298_316_963, -2_457_894_950_890));
}

#[test]
fn coincident_bodies_do_not_pull() {
    let a = pair_acceleration(Fixed::from_int(1_000), Fixed::from_int(1_000), Vector3::zero());
    assert_eq!(a, Vector3::zero());
}

#[test]
fn nearly_coincident_bodies_pull_boundedly() {
    let a = pair_acceleration(Fixed::from_int(1), Fixed::from_int(1), raw(1_000_000, 0, 0));
    assert_eq!(a, raw(999_998_503_000_747, 0, 0));
    let bound: i64 = 1_000_000 * 1_000_000_000_000;
    let mut k: i64 = 1;
    while k < 4_000 {
        let pull = pair_acceleration(Fixed::from_int(1), Fixed::from_int(1), raw(k * 1_000_000, 0, 0));
        assert!(pull.x.raw() >= 0 && pull.x.raw() <= bound);
        k += 1;
    }
}

#[test]
fn pair_acceleration_saturates() {
    let a = pair_acceleration(Fixed::from_int(3_000), Fixed::from_int(3_000), raw(1_000_000_000, 0, 0));
    assert_eq!(a.x.raw(), LIMIT);
    let b = pair_acceleration(Fixed::from_int(3_000), Fixed::from_int(3_000), raw(-1_000_000_000, 0, 0));
    assert_eq!(b.x.raw(), -LIMIT);
}

#[test]
fn no_accelerations_without_bodies() {
    let store = BodyStore::new();
    assert_eq!(compute_accelerations(&store, Fixed::from_int(1)), Vec::<Vector3>::new());
}

#[test]
fn a_lone_body_is_not_accelerated() {
    let mut store = BodyStore::new();
    store.create_body(Fixed::from_int(5), whole(1, 2, 3), whole(4, 5, 6)).unwrap();
    assert_eq!(compute_accelerations(&store, Fixed::from_int(1)), vec![Vector3::zero()]);
}

#[test]
fn two_bodies_attract_each_other() {
    let mut store = BodyStore::new();
    store.create_body(Fixed::from_int(1), whole(0, 0, 0), whole(0, 0, 0)).unwrap();
    store.create_body(Fixed::from_int(2), whole(1, 0, 0), whole(0, 0, 0)).unwrap();
    let acc = compute_accelerations(&store, Fixed::from_int(1));
    assert_eq!(acc, vec![raw(1_999_997_000_007, 0, 0), raw(-999_998_500_003, 0, 0)]);
}

#[test]
fn three_bodies_sum_their_pulls() {
    let mut store = BodyStore::new();
    store.create_body(Fixed::from_int(1), whole(0, 0, 0), whole(0, 0, 0)).unwrap();
    store.create_body(Fixed::from_int(2), whole(1, 0, 0), whole(0, 0, 0)).unwrap();
    store.create_body(Fixed::from_int(3), whole(0, 2, 0), whole(0, 0, 0)).unwrap();
    let acc = compute_accelerations(&store, Fixed::from_int(1));
    assert_eq!(
        acc,
        vec![
            raw(1_999_997_000_007, 749_999_718_750, 0),
            raw(-1_268_326_576_804, 536_656_153_603, 0),
            raw(178_885_384_534, -607_770_675_318, 0),
        ]
    );
}

#[test]
fn accelerations_do_not_depend_on_velocities() {
    let mut still = BodyStore::new();
    still.create_body(Fixed::from_int(1), whole(0, 0, 0), whole(0, 0, 0)).unwrap();
    still.create_body(Fixed::from_int(2), whole(1, 0, 0), whole(0, 0, 0)).unwrap();
    let mut moving = BodyStore::new();
    moving.create_body(Fixed::from_int(1), whole(0, 0, 0), whole(9, 9, 9)).unwrap();
    moving.create_body(Fixed::from_int(2), whole(1, 0, 0), whole(-7, 0, 3)).unwrap();
    let g = Fixed::from_int(1);
    assert_eq!(compute_accelerations(&still, g), compute_accelerations(&moving, g));
}

#[test]
fn momentum_changes_cancel_up_to_rounding() {
    let g = Fixed::from_millis(1_500);
    let mass_i = Fixed::from_int(3);
    let mass_j = Fixed::from_millis(700);
    let mut store = BodyStore::new();
    store
        .create_body(
            mass_i,
            Vector3::new(Fixed::from_millis(100), Fixed::from_millis(200), Fixed::from_millis(-300)),
            Vector3::zero(),
        )
        .unwrap();
    store
        .create_body(
            mass_j,
            Vector3::new(Fixed::from_millis(400), Fixed::from_millis(-200), Fixed::from_millis(900)),
            Vector3::zero(),
        )
        .unwrap();
    let acc = compute_accelerations(&store, g);
    assert_eq!(acc[0], raw(143_377_205_468, -191_169_607_291, 573_508_821_873));
    assert_eq!(acc[1], raw(-614_473_737_721, 819_298_316_963, -2_457_894_950_890));
    let allowance: i128 = 10_924_848_638_007;
    let pairs = [
        (acc[0].x.raw(), acc[1].x.raw()),
        (acc[0].y.raw(), acc[1].y.raw()),
        (acc[0].z.raw(), acc[1].z.raw()),
    ];
    for (on_i, on_j) in pairs {
        let gap = (mass_i.raw() as i128) * (on_i as i128) + (mass_j.raw() as i128) * (on_j as i128);
        assert!(gap.abs() <= allowance);
    }
}

#[test]
fn equal_masses_accelerate_oppositely() {
    let mut store = BodyStore::new();
    store.create_body(Fixed::from_int(3), whole(1, -2, 3), Vector3::zero()).unwrap();
    store.create_body(Fixed::from_int(3), whole(-4, 5, 7), Vector3::zero()).unwrap();
    let acc = compute_accelerations(&store, Fixed::from_millis(1_234));
    assert_eq!(acc[0].x.raw(), -acc[1].x.raw());
    assert_eq!(acc[0].y.raw(), -acc[1].y.raw());
    assert_eq!(acc[0].z.raw(), -acc[1].z.raw());
    assert!(acc[0].x.raw() < 0 && acc[0].y.raw() > 0 && acc[0].z.raw() > 0);
}
