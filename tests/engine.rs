use fluid_sim::params::{Params, MAX_DELTA, MAX_SPEED, PARTICLE_NUMBER};
use fluid_sim::sectors::{update_sectors, Bounds, Grid};
use fluid_sim::sim::{FluidSim, SimError};
use fluid_sim::vec2::Vec2;
use rand::rngs::StdRng;
use rand::SeedableRng;

fn arena() -> Bounds {
    Bounds::new(400, 400)
}

fn no_gravity() -> Params {
    let mut p = Params::standard();
    p.gravity = 0;
    p
}

fn sim_of(points: &[(i64, i64, i64, i64)], params: Params) -> FluidSim {
    let positions: Vec<Vec2> = points.iter().map(|q| Vec2::new(q.0, q.1)).collect();
    let velocities: Vec<Vec2> = points.iter().map(|q| Vec2::new(q.2, q.3)).collect();
    FluidSim::from_parts(positions, velocities, params).unwrap()
}

#[test]
fn rand_init_works() {
    let mut rng = StdRng::seed_from_u64(1);
    let sim = FluidSim::new_rand(arena(), PARTICLE_NUMBER, Params::standard(), &mut rng).unwrap();

    assert_eq!(sim.velocities().len(), PARTICLE_NUMBER);
    assert_eq!(sim.get_particles_vertexes().len(), PARTICLE_NUMBER);
}

#[test]
fn random_start_lies_in_ranges_and_varies() {
    let mut rng = StdRng::seed_from_u64(2);
    let params = Params::standard();
    let sim = FluidSim::new_rand(arena(), 200, params, &mut rng).unwrap();
    let ps = sim.get_particles_vertexes();
    let vs = sim.velocities();
    for p in &ps {
        assert!(0 <= p.x && p.x < 400_000);
        assert!(0 <= p.y && p.y < 400_000);
    }
    for v in &vs {
        assert!(-params.max_start_speed <= v.x && v.x < params.max_start_speed);
        assert!(-params.max_start_speed <= v.y && v.y < params.max_start_speed);
    }
    assert!(ps.iter().any(|p| p.x != ps[0].x));
    assert!(ps.iter().any(|p| p.x > 200_000));
    assert!(vs.iter().any(|v| v.x < 0) && vs.iter().any(|v| v.x > 0));
}

#[test]
fn random_start_rejects_bad_inputs() {
    let mut rng = StdRng::seed_from_u64(3);
    let mut bad = Params::standard();
    bad.decay_num = bad.decay_den;
    assert_eq!(
        FluidSim::new_rand(arena(), 10, bad, &mut rng).err(),
        Some(SimError::InvalidParams)
    );
    assert_eq!(
        FluidSim::new_rand(Bounds::new(0, 10), 10, Params::standard(), &mut rng).err(),
        Some(SimError::InvalidBounds)
    );
    assert_eq!(
        FluidSim::new_rand(arena(), 0, Params::standard(), &mut rng).err(),
        Some(SimError::InvalidParticleCount)
    );
}

#[test]
fn from_parts_rejects_bad_inputs() {
    let p = Params::standard();
    assert_eq!(
        FluidSim::from_parts(vec![], vec![], p).err(),
        Some(SimError::InvalidParticleCount)
    );
    assert_eq!(
        FluidSim::from_parts(vec![Vec2::new(0, 0)], vec![], p).err(),
        Some(SimError::LengthMismatch)
    );
    assert_eq!(
        FluidSim::from_parts(vec![Vec2::new(i64::MAX, 0)], vec![Vec2::new(0, 0)], p).err(),
        Some(SimError::PositionOutOfRange)
    );
    let mut bad = p;
    bad.grid = Grid { rows: 0, cols: 5 };
    assert_eq!(
        FluidSim::from_parts(vec![Vec2::new(0, 0)], vec![Vec2::new(0, 0)], bad).err(),
        Some(SimError::InvalidParams)
    );
}

#[test]
fn gravity_only_single_particle() {
    let params = Params::standard();
    let g = params.gravity;
    let mut sim = sim_of(&[(0, 0, 0, 0)], params);
    sim.update_with_deflections(1_000_000, arena(), &vec![0, 0]).unwrap();
    assert_eq!(sim.velocities(), vec![Vec2::new(0, g)]);
    assert_eq!(sim.get_particles_vertexes(), vec![Vec2::new(0, g)]);
}

#[test]
fn same_bucket_pair_pushed_apart_equally() {
    let mut sim = sim_of(&[(100_000, 100_000, 0, 0), (130_000, 100_000, 0, 0)], no_gravity());
    sim.update_with_deflections(10_000, arena(), &vec![0; 4]).unwrap();
    let vs = sim.velocities();
    assert_eq!(vs[0], Vec2::new(-3_400, 0));
    assert_eq!(vs[1], Vec2::new(3_400, 0));
    assert_eq!(vs[0].x, -vs[1].x);
    assert_eq!(vs[0].y, -vs[1].y);
    assert_eq!(
        sim.get_particles_vertexes(),
        vec![Vec2::new(99_966, 100_000), Vec2::new(130_034, 100_000)]
    );
}

#[test]
fn pair_in_different_buckets_does_not_interact() {
    // cells are 80 units wide: x = 79 and x = 81 units fall in neighbouring buckets
    let mut sim = sim_of(&[(79_000, 100_000, 0, 0), (81_000, 100_000, 0, 0)], no_gravity());
    sim.update_with_deflections(10_000, arena(), &vec![0; 4]).unwrap();
    assert_eq!(sim.velocities(), vec![Vec2::new(0, 0), Vec2::new(0, 0)]);
}

#[test]
fn coincident_particles_exert_no_force() {
    let mut sim = sim_of(&[(100_000, 100_000, 5, 7), (100_000, 100_000, -5, 9)], no_gravity());
    sim.update_with_deflections(10_000, arena(), &vec![0; 4]).unwrap();
    assert_eq!(sim.velocities(), vec![Vec2::new(5, 7), Vec2::new(-5, 9)]);
}

#[test]
fn lone_particle_feels_no_repulsion() {
    let mut sim = sim_of(&[(100_000, 100_000, 1_000, -2_000)], no_gravity());
    sim.update_with_deflections(10_000, arena(), &vec![0; 2]).unwrap();
    assert_eq!(sim.velocities(), vec![Vec2::new(1_000, -2_000)]);
    assert_eq!(sim.get_particles_vertexes(), vec![Vec2::new(100_010, 99_980)]);
}

#[test]
fn bounce_clamps_and_loses_energy() {
    let mut sim = sim_of(&[(399_000, 200_000, 200_000, 0)], no_gravity());
    sim.update_with_deflections(10_000, arena(), &vec![0; 2]).unwrap();
    assert_eq!(sim.get_particles_vertexes(), vec![Vec2::new(400_000, 200_000)]);
    assert_eq!(sim.velocities(), vec![Vec2::new(-180_000, 0)]);
    assert!(sim.velocities()[0].x.abs() < 200_000);
}

#[test]
fn bounce_at_lower_walls_with_deflection() {
    let mut sim = sim_of(&[(1_000, 1_000, -200_000, -200_000)], no_gravity());
    sim.update_with_deflections(10_000, arena(), &vec![196_350, 196_350]).unwrap();
    assert_eq!(sim.get_particles_vertexes(), vec![Vec2::new(0, 0)]);
    // x wall: rotate (-200000, -200000), then x bounces
    let rx = (-200_000i64 * 980_785 + 200_000 * 195_091) / 1_000_000;
    let ry = (-200_000i64 * 195_091 - 200_000 * 980_785) / 1_000_000;
    let bx = -(rx * 9 / 10);
    // y wall: rotate again, then y bounces
    let sx = (bx * 980_785 - ry * 195_091) / 1_000_000;
    let sy = (bx * 195_091 + ry * 980_785) / 1_000_000;
    let by = -(sy * 9 / 10);
    assert_eq!(sim.velocities(), vec![Vec2::new(sx, by)]);
}

#[test]
fn bounce_with_deflection_exact() {
    let mut sim = sim_of(&[(399_000, 200_000, 200_000, 0)], no_gravity());
    sim.update_with_deflections(10_000, arena(), &vec![196_350, 0]).unwrap();
    assert_eq!(sim.velocities(), vec![Vec2::new(-176_541, 39_018)]);
}

#[test]
fn step_rejects_bad_inputs_and_keeps_state() {
    let mut sim = sim_of(&[(100_000, 100_000, 0, 0)], Params::standard());
    let before = sim.get_particles_vertexes();
    let two = vec![0, 0];
    assert_eq!(sim.update_with_deflections(0, arena(), &two), Err(SimError::InvalidDelta));
    assert_eq!(
        sim.update_with_deflections(MAX_DELTA + 1, arena(), &two),
        Err(SimError::InvalidDelta)
    );
    assert_eq!(
        sim.update_with_deflections(10, Bounds::new(400, 0), &two),
        Err(SimError::InvalidBounds)
    );
    assert_eq!(
        sim.update_with_deflections(10, arena(), &vec![0]),
        Err(SimError::DeflectionCount)
    );
    assert_eq!(
        sim.update_with_deflections(10, arena(), &vec![0, 196_351]),
        Err(SimError::InvalidDeflection)
    );
    assert_eq!(sim.get_particles_vertexes(), before);
    assert_eq!(sim.velocities(), vec![Vec2::new(0, 0)]);

    let mut fast = sim_of(&[(0, 0, MAX_SPEED + 1, 0)], Params::standard());
    assert_eq!(
        fast.update_with_deflections(10, arena(), &two),
        Err(SimError::SpeedOutOfRange)
    );
    let mut rng = StdRng::seed_from_u64(4);
    assert_eq!(fast.update(10, arena(), &mut rng), Err(SimError::SpeedOutOfRange));
    assert_eq!(fast.update(0, arena(), &mut rng), Err(SimError::InvalidDelta));
    assert_eq!(fast.update(10, Bounds::new(0, 1), &mut rng), Err(SimError::InvalidBounds));
}

#[test]
fn random_steps_keep_count_and_containment() {
    let mut rng = StdRng::seed_from_u64(5);
    let mut sim = FluidSim::new_rand(arena(), 300, Params::standard(), &mut rng).unwrap();
    for _ in 0..30 {
        sim.update(16_667, arena(), &mut rng).unwrap();
        assert_eq!(sim.particle_count(), 300);
        assert_eq!(sim.velocities().len(), 300);
        for p in sim.get_particles_vertexes() {
            assert!(0 <= p.x && p.x <= 400_000);
            assert!(0 <= p.y && p.y <= 400_000);
        }
    }
    // a smaller arena after a resize still contains every particle
    sim.update(16_667, Bounds::new(100, 50), &mut rng).unwrap();
    for p in sim.get_particles_vertexes() {
        assert!(0 <= p.x && p.x <= 100_000);
        assert!(0 <= p.y && p.y <= 50_000);
    }
}

#[test]
fn steps_with_fixed_draws_are_deterministic() {
    let mut rng = StdRng::seed_from_u64(6);
    let start = FluidSim::new_rand(arena(), 100, Params::standard(), &mut rng).unwrap();
    let draws: Vec<i64> = (0..200).map(|k| (k as i64 * 1_963) % 196_350 - 98_000).collect();
    let mut a = start.clone();
    let mut b = start.clone();
    for _ in 0..10 {
        a.update_with_deflections(20_000, arena(), &draws).unwrap();
        b.update_with_deflections(20_000, arena(), &draws).unwrap();
    }
    assert_eq!(a.get_particles_vertexes(), b.get_particles_vertexes());
    assert_eq!(a.velocities(), b.velocities());

    let mut r1 = StdRng::seed_from_u64(9);
    let mut r2 = StdRng::seed_from_u64(9);
    let mut c = FluidSim::new_rand(arena(), 50, Params::standard(), &mut r1).unwrap();
    let mut d = FluidSim::new_rand(arena(), 50, Params::standard(), &mut r2).unwrap();
    c.update(20_000, arena(), &mut r1).unwrap();
    d.update(20_000, arena(), &mut r2).unwrap();
    assert_eq!(c.get_particles_vertexes(), d.get_particles_vertexes());
    assert_eq!(c.velocities(), d.velocities());
}

#[test]
fn partition_places_each_particle_once() {
    let mut rng = StdRng::seed_from_u64(7);
    let sim = FluidSim::new_rand(arena(), 500, Params::standard(), &mut rng).unwrap();
    let ps = sim.get_particles_vertexes();
    let grid = Grid { rows: 7, cols: 3 };
    let buckets = update_sectors(&ps, arena(), grid);
    assert_eq!(buckets.len(), 21);
    let mut seen = vec![0usize; ps.len()];
    for b in &buckets {
        for w in b.windows(2) {
            assert!(w[0] < w[1]);
        }
        for &i in b {
            seen[i] += 1;
        }
    }
    assert!(seen.iter().all(|&c| c == 1));
}
