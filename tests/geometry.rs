use fluid_sim::fixed::isqrt;
use fluid_sim::forces::{falloff_function, pair_impulse, particle_distance};
use fluid_sim::params::Params;
use fluid_sim::sectors::{sector_of, update_sectors, Bounds, Grid};
use fluid_sim::vec2::{Deflection, Vec2, TRIG_ONE};

#[test]
fn falloff_actually_works() {
    let p = Params::standard();
    assert!(falloff_function(&p, 10) < falloff_function(&p, 1));
    assert!(falloff_function(&p, 1) == falloff_function(&p, 1));
    let near = pair_impulse(Vec2::new(1, 1), &p, 1_000_000);
    let mirrored = pair_impulse(Vec2::new(-1, -1), &p, 1_000_000);
    assert!(mirrored == Vec2::new(-near.x, -near.y));
    let far = pair_impulse(Vec2::new(-10, -10), &p, 1_000_000);
    assert!(far.x.abs() < near.x.abs());
}

#[test]
fn falloff_at_radius_and_half_radius() {
    let p = Params::standard();
    let r = p.interaction_radius;
    assert_eq!(falloff_function(&p, r), 0);
    assert_eq!(falloff_function(&p, r / 2), p.repulsion_strength / 2);
    assert_eq!(falloff_function(&p, 0), p.repulsion_strength);
    // a pair exactly one radius apart exerts nothing
    assert_eq!(pair_impulse(Vec2::new(r, 0), &p, 1_000_000), Vec2::new(0, 0));
    // at half the radius: half the strength, over one second
    assert_eq!(
        pair_impulse(Vec2::new(r / 2, 0), &p, 1_000_000),
        Vec2::new(p.repulsion_strength / 2, 0)
    );
    assert_eq!(pair_impulse(Vec2::new(0, 0), &p, 1_000_000), Vec2::new(0, 0));
}

#[test]
fn four_particle_bucket_test() {
    let bounds = Bounds::new(400, 400);
    let grid = Grid { rows: 20, cols: 20 };
    let at = |x: i64, y: i64| Vec2::new(x * 1000, y * 1000);
    assert_eq!(sector_of(at(20, 20), bounds, grid), 1 * 20 + 1);
    assert_eq!(sector_of(at(400, 400), bounds, grid), 19 * 20 + 19);
    assert_eq!(sector_of(at(200, 200), bounds, grid), 10 * 20 + 10);
    assert_eq!(sector_of(at(133, 133), bounds, grid), 6 * 20 + 6);
    assert_eq!(sector_of(Vec2::new(-5, 1_000_000), bounds, grid), 19 * 20);

    let ps = vec![at(20, 20), at(400, 400), at(200, 200), at(133, 133)];
    let buckets = update_sectors(&ps, bounds, grid);
    assert_eq!(buckets.len(), 400);
    assert_eq!(buckets[21], vec![0]);
    assert_eq!(buckets[399], vec![1]);
    assert_eq!(buckets[210], vec![2]);
    assert_eq!(buckets[126], vec![3]);
    assert_eq!(buckets.iter().map(|b| b.len()).sum::<usize>(), 4);
}

#[test]
fn cell_width_is_not_rounded() {
    // 7 units split in 3 columns: cells of 7/3 units, so x = 4.666 units is in column 1
    let bounds = Bounds::new(7, 7);
    let grid = Grid { rows: 3, cols: 3 };
    assert_eq!(sector_of(Vec2::new(4_666, 0), bounds, grid), 1);
    assert_eq!(sector_of(Vec2::new(4_667, 0), bounds, grid), 2);
    assert_eq!(sector_of(Vec2::new(2_333, 2_334), bounds, grid), 3);
    assert_eq!(sector_of(Vec2::new(2_334, 2_334), bounds, grid), 3 + 1);
    assert_eq!(sector_of(Vec2::new(7_000, 7_000), bounds, grid), 8);
}

#[test]
fn integer_square_roots() {
    assert_eq!(isqrt(0), 0);
    assert_eq!(isqrt(1), 1);
    assert_eq!(isqrt(15), 3);
    assert_eq!(isqrt(16), 4);
    assert_eq!(isqrt(17), 4);
    assert_eq!(isqrt(u64::MAX), 4_294_967_295);
}

#[test]
fn deflection_from_angle_values() {
    assert_eq!(Deflection::from_angle(0), Deflection { cos: TRIG_ONE, sin: 0 });
    assert_eq!(Deflection::from_angle(196_350), Deflection { cos: 980_785, sin: 195_091 });
    assert_eq!(Deflection::from_angle(-100_000), Deflection { cos: 995_004, sin: -99_834 });
}

#[test]
fn rotation_by_quarter_turn_and_small_angle() {
    let mut v = Vec2::new(1_000, 0);
    v.rotate_degrees(Deflection { cos: 0, sin: TRIG_ONE });
    assert_eq!(v, Vec2::new(0, 1_000));
    let mut w = Vec2::new(100_000, 0);
    w.rotate_degrees(Deflection::from_angle(196_350));
    assert_eq!(w, Vec2::new(98_078, 19_509));
    let mut z = Vec2::new(0, 0);
    z.rotate_degrees(Deflection::from_angle(-196_350));
    assert_eq!(z, Vec2::new(0, 0));
}

#[test]
fn vector_arithmetic() {
    let a = Vec2::new(3, -4);
    let b = Vec2::new(-7, 10);
    assert_eq!(a.add(b), Vec2::new(-4, 6));
    assert_eq!(a.sub(b), Vec2::new(10, -14));
    assert_eq!(a.mul(b), Vec2::new(-21, -40));
    assert_eq!(a.scale(3), Vec2::new(9, -12));
    assert_eq!(Vec2::new(7, -7).div(2), Vec2::new(3, -3));
    assert_eq!(Vec2::new(7, -7).div(-2), Vec2::new(-3, 3));
    assert_eq!(Vec2::new(i64::MIN, 9).div(-2), Vec2::new(4_611_686_018_427_387_904, -4));
    assert_eq!(Vec2::new(i64::MIN, 5).div(1), Vec2::new(i64::MIN, 5));
    let mut c = a;
    c.add_assign(b);
    assert_eq!(c, Vec2::new(-4, 6));
    c.sub_assign(b);
    assert_eq!(c, a);
    c.mul_assign(Vec2::new(2, 3));
    assert_eq!(c, Vec2::new(6, -12));
    assert_eq!(particle_distance(a, b), Vec2::new(-10, 14));
}
