use flow_field::fixed::{isqrt, wrap_periodic, ONE};
use flow_field::grid::FlowGrid;
use flow_field::particle::Particle;
use flow_field::real_vector::RealVector;
use flow_field::trig::{cos_fx, sin_fx, HALF_PI_FX};
use flow_field::world::{SimulationConfig, SimulationWorld};

fn fx(units: i64) -> i64 {
    units * ONE
}

#[test]
fn wrap_periodic_negative_reenters_from_far_edge() {
    // -5.0 wrapped into [0, 1280) lands on 1275.0.
    assert_eq!(wrap_periodic(fx(-5), 0, fx(1280)), fx(1275));
}

#[test]
fn wrap_periodic_is_total_and_periodic() {
    let period = fx(1280);
    for &value in &[fx(-5000), fx(-1280), -1, 0, 1, fx(640), fx(1280), fx(99999)] {
        let r = wrap_periodic(value, 0, period);
        assert!(0 <= r && r < period);
        for k in -3i64..4 {
            assert_eq!(wrap_periodic(value + k * period, 0, period), r);
        }
    }
    assert_eq!(wrap_periodic(fx(-3), fx(-10), fx(10)), fx(-3));
    assert_eq!(wrap_periodic(fx(17), fx(-10), fx(10)), fx(-3));
}

#[test]
fn isqrt_is_the_floor_root() {
    assert_eq!(isqrt(0), 0);
    assert_eq!(isqrt(1), 1);
    assert_eq!(isqrt(2), 1);
    assert_eq!(isqrt(3), 1);
    assert_eq!(isqrt(4), 2);
    assert_eq!(isqrt(25_000_000_000_000), 5_000_000);
    assert_eq!(isqrt(25_000_000_000_001), 5_000_000);
    assert_eq!(isqrt(24_999_999_999_999), 4_999_999);
}

#[test]
fn magnitude_of_three_four_is_five() {
    let v = RealVector { x: fx(3), y: fx(4) };
    assert_eq!(v.get_magnitude(), fx(5));
}

#[test]
fn add_subtract_multiply_componentwise() {
    let a = RealVector { x: fx(2), y: fx(-3) };
    let b = RealVector { x: fx(5), y: fx(7) };
    assert_eq!(a.add(&b), RealVector { x: fx(7), y: fx(4) });
    assert_eq!(a.subtract(&b), RealVector { x: fx(-3), y: fx(-10) });
    // scaling by the fixed-point 0.5
    assert_eq!(
        a.multiply(ONE / 2),
        RealVector { x: fx(1), y: -1_500_000 }
    );
}

#[test]
fn limit_scales_long_vectors_down_to_the_ceiling() {
    // |(3, 4)| = 5, clamped into [1, 2] -> (1.2, 1.6), magnitude exactly 2.
    let v = RealVector { x: fx(3), y: fx(4) };
    let r = v.limit(fx(1), fx(2));
    assert_eq!(r, RealVector { x: 1_200_000, y: 1_600_000 });
    assert_eq!(r.get_magnitude(), fx(2));
}

#[test]
fn limit_scales_short_vectors_up_to_the_floor() {
    // |(0, 0.5)| = 0.5, clamped into [1, 2] -> (0, 1).
    let v = RealVector { x: 0, y: ONE / 2 };
    let r = v.limit(fx(1), fx(2));
    assert_eq!(r, RealVector { x: 0, y: fx(1) });
}

#[test]
fn limit_keeps_vectors_already_in_the_band() {
    let v = RealVector { x: 0, y: 1_500_000 };
    assert_eq!(v.limit(fx(1), fx(2)), v);
}

#[test]
fn limit_passes_degenerate_vectors_through() {
    // magnitude below 0.0001 never gets rescaled
    let v = RealVector { x: 50, y: -30 };
    assert_eq!(v.limit(fx(1), fx(2)), v);
    // while a vector at the threshold does
    let w = RealVector { x: 100, y: 0 };
    assert_eq!(w.limit(fx(1), fx(2)), RealVector { x: fx(1), y: 0 });
}

#[test]
fn limit_keeps_direction_signs() {
    let v = RealVector { x: fx(-3), y: fx(4) };
    let r = v.limit(fx(1), fx(2));
    assert!(r.x < 0 && r.y > 0);
    assert_eq!(r, RealVector { x: -1_200_000, y: 1_600_000 });
}

#[test]
fn bring_to_box_wraps_both_axes() {
    let v = RealVector { x: fx(-5), y: fx(725) };
    let r = v.bring_to_box(1280, 720);
    assert_eq!(r, RealVector { x: fx(1275), y: fx(5) });
}

#[test]
fn sine_and_cosine_stay_within_one_unit() {
    assert_eq!(sin_fx(0), 0);
    assert_eq!(sin_fx(HALF_PI_FX), 999_999);
    assert_eq!(cos_fx(0), 999_999);
    let mut x = -10 * ONE;
    while x <= 10 * ONE {
        assert!(sin_fx(x).abs() <= ONE);
        assert!(cos_fx(x).abs() <= ONE);
        x += 123_457;
    }
}

#[test]
fn grid_has_sixty_four_columns_and_thirty_six_rows() {
    // cell size 20: width 1280 -> 64 columns, height 720 -> 36 rows
    let g = FlowGrid::new(1280, 720, 20, fx(12));
    assert_eq!(g.columns, 64);
    assert_eq!(g.rows, 36);
    // (25.0, 45.0) resolves to column 1, row 2
    let p = RealVector { x: fx(25), y: fx(45) };
    assert_eq!(g.cell_coords(&p), (1, 2));
    let cell = g.cell_at(&p);
    // that cell's anchor is the cell centre (30.0, 50.0)
    assert_eq!(cell.anchor, RealVector { x: fx(30), y: fx(50) });
}

#[test]
fn regenerate_keeps_anchors_and_rescales_field_vectors() {
    let mut g = FlowGrid::new(1280, 720, 20, fx(12));
    let anchor_before = g.cell_at(&RealVector { x: fx(25), y: fx(45) }).anchor;
    g.regenerate(20_000, 200_000, fx(12));
    let cell = g.cell_at(&RealVector { x: fx(25), y: fx(45) });
    assert_eq!(cell.anchor, anchor_before);
    // the sampled arrow is brought up to roughly the cell length
    let len = cell.field_vector.get_magnitude();
    assert!(len >= fx(12));
    assert!(len <= fx(12) + fx(12) / 100 + 4);
}

#[test]
fn particle_step_matches_the_worked_scenario() {
    // position (0,0), velocity (0, 0.3), force (0, 0.05), speeds [0.3, 2.0]:
    // the new velocity is (0, 0.35) -- inside the band, so unchanged --
    // and the new position is (0, 0.35).
    let mut p = Particle::new(
        RealVector { x: 0, y: 0 },
        RealVector { x: 0, y: 300_000 },
        300_000,
        2_000_000,
    );
    p.apply_force(&RealVector { x: 0, y: 50_000 });
    assert_eq!(p.velocity, RealVector { x: 0, y: 350_000 });
    assert!(p.velocity.get_magnitude() >= 300_000);
    p.update(1280, 720);
    assert_eq!(p.position, RealVector { x: 0, y: 350_000 });
}

#[test]
fn default_config_matches_the_stock_parameters() {
    let c = SimulationConfig::default();
    assert_eq!(c.width, 1280);
    assert_eq!(c.height, 720);
    assert_eq!(c.cell_size, 20);
    assert_eq!(c.particle_count, 5000);
    assert_eq!(c.min_speed, 300_000);
    assert_eq!(c.max_speed, 2_000_000);
    assert_eq!(c.force_min, 10_000);
    assert_eq!(c.force_max, 100_000);
    assert_eq!(c.angle_scale, 200_000);
    assert_eq!(c.phase_step, 20_000);
}

#[test]
fn world_seeds_particles_along_the_wrapped_diagonal() {
    let w = SimulationWorld::new(SimulationConfig::default());
    assert_eq!(w.particle_count(), 5000);
    assert_eq!(w.particle_position(0), RealVector { x: 0, y: 0 });
    assert_eq!(w.particle_velocity(0), RealVector { x: 0, y: 300_000 });
    assert_eq!(
        w.particle_position(1),
        RealVector { x: fx(10), y: fx(10) }
    );
    // particle 130 starts at (1300, 1300) and wraps to (20, 580)
    assert_eq!(
        w.particle_position(130),
        RealVector { x: fx(20), y: fx(580) }
    );
}

#[test]
fn ticks_keep_every_position_inside_the_box() {
    let mut w = SimulationWorld::new(SimulationConfig::default());
    for _ in 0..5 {
        w.tick(20_000);
    }
    for k in 0..w.particle_count() {
        let p = w.particle_position(k);
        assert!(0 <= p.x && p.x < fx(1280));
        assert!(0 <= p.y && p.y < fx(720));
    }
}

#[test]
fn ticks_keep_every_speed_inside_the_band() {
    let mut w = SimulationWorld::new(SimulationConfig::default());
    for _ in 0..5 {
        w.tick(20_000);
    }
    for k in 0..w.particle_count() {
        let v = w.particle_velocity(k);
        let speed = v.get_magnitude();
        assert!(300_000 <= speed && speed <= 2_000_000);
    }
}

#[test]
fn identical_worlds_stay_in_lockstep() {
    let mut a = SimulationWorld::new(SimulationConfig::default());
    let mut b = SimulationWorld::new(SimulationConfig::default());
    for _ in 0..3 {
        a.tick(20_000);
        b.tick(20_000);
    }
    assert_eq!(a.phase, b.phase);
    assert_eq!(a.particles, b.particles);
    for k in 0..a.particle_count() {
        assert_eq!(a.particle_position(k), b.particle_position(k));
        assert_eq!(a.particle_velocity(k), b.particle_velocity(k));
    }
}
