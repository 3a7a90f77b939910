use eulerian_fluid::fixed::{Fixed, SCALE};
use eulerian_fluid::flow::Cell;
use eulerian_fluid::grid::Array2D;
use eulerian_fluid::params::{
    cell_size, density, gravity, half, half_cell, overrelaxation, quarter, timestep, windspeed,
};
use eulerian_fluid::scalar::{clamp, is_zero, one, zero, Scalar};
use eulerian_fluid::sim::{sample_field, Simulation};

fn fx(units: i64, millionths: i64) -> Fixed {
    Fixed { raw: units * SCALE + millionths * 1_000_000 }
}

#[test]
fn ratio_holds_decimal_fractions_exactly() {
    assert_eq!(Fixed::ratio(194, 100).raw, 1_940_000_000_000);
    assert_eq!(Fixed::ratio(-1, 100_000_000_000).raw, -10);
    assert_eq!(Fixed::ratio(7, 1).raw, 7 * SCALE);
    assert_eq!(Fixed::ratio(0, 5).raw, 0);
}

#[test]
fn ratio_rounds_down() {
    assert_eq!(Fixed::ratio(1, 3).raw, 333_333_333_333);
    assert_eq!(Fixed::ratio(-1, 3).raw, -333_333_333_334);
    assert_eq!(Fixed::ratio(2, 3).raw, 666_666_666_666);
}

#[test]
fn ratio_by_zero_is_the_end_of_the_range() {
    assert_eq!(Fixed::ratio(5, 0).raw, i64::MAX);
    assert_eq!(Fixed::ratio(-5, 0).raw, i64::MIN);
    assert_eq!(Fixed::ratio(0, 0).raw, 0);
}

#[test]
fn ratio_cuts_at_the_ends_of_the_range() {
    assert_eq!(Fixed::ratio(i64::MAX, 1).raw, i64::MAX);
    assert_eq!(Fixed::ratio(i64::MIN, 1).raw, i64::MIN);
    assert_eq!(Fixed::ratio(9_223_372, 1).raw, 9_223_372 * SCALE);
    assert_eq!(Fixed::ratio(9_223_373, 1).raw, i64::MAX);
}

#[test]
fn index_counts_in_units() {
    assert_eq!(Fixed::index(0).raw, 0);
    assert_eq!(Fixed::index(12).raw, 12 * SCALE);
    assert_eq!(Fixed::index(usize::MAX).raw, i64::MAX);
}

#[test]
fn sums_and_differences_saturate() {
    assert_eq!(fx(1, 500_000).plus(&fx(2, 250_000)), fx(3, 750_000));
    assert_eq!(fx(1, 0).minus(&fx(3, 0)), fx(-2, 0));
    let top = Fixed { raw: i64::MAX };
    let bottom = Fixed { raw: i64::MIN };
    assert_eq!(top.plus(&fx(1, 0)), top);
    assert_eq!(bottom.minus(&fx(1, 0)), bottom);
    assert_eq!(bottom.minus(&top), bottom);
    assert_eq!(top.minus(&bottom), top);
}

#[test]
fn products_round_down_and_saturate() {
    assert_eq!(fx(1, 940_000).times(&fx(0, 400_000)), fx(0, 776_000));
    assert_eq!(Fixed { raw: 1 }.times(&Fixed { raw: 1 }).raw, 0);
    assert_eq!(Fixed { raw: -1 }.times(&Fixed { raw: 1 }).raw, -1);
    assert_eq!(fx(-3, 0).times(&fx(-2, 0)), fx(6, 0));
    assert_eq!(fx(4_000_000, 0).times(&fx(4_000_000, 0)).raw, i64::MAX);
    assert_eq!(fx(4_000_000, 0).times(&fx(-4_000_000, 0)).raw, i64::MIN);
    assert_eq!(Fixed { raw: i64::MIN }.times(&Fixed { raw: i64::MIN }).raw, i64::MAX);
}

#[test]
fn quotients_round_down_and_saturate() {
    assert_eq!(fx(1, 940_000).over(&fx(0, 400_000)), fx(4, 850_000));
    assert_eq!(fx(1, 0).over(&fx(3, 0)).raw, 333_333_333_333);
    assert_eq!(fx(-1, 0).over(&fx(3, 0)).raw, -333_333_333_334);
    assert_eq!(fx(1, 0).over(&fx(-3, 0)).raw, -333_333_333_334);
    assert_eq!(fx(-1, 0).over(&fx(-3, 0)).raw, 333_333_333_333);
    assert_eq!(fx(5, 0).over(&Fixed { raw: 1 }).raw, i64::MAX);
    assert_eq!(fx(5, 0).over(&fx(0, 0)).raw, i64::MAX);
    assert_eq!(fx(-5, 0).over(&fx(0, 0)).raw, i64::MIN);
    assert_eq!(fx(0, 0).over(&fx(0, 0)).raw, 0);
}

#[test]
fn order_and_floor() {
    assert!(fx(1, 0).le(&fx(1, 0)));
    assert!(fx(-1, 0).le(&fx(0, 0)));
    assert!(!fx(1, 1).le(&fx(1, 0)));
    assert_eq!(fx(3, 999_999).floor_index(), 3);
    assert_eq!(fx(4, 0).floor_index(), 4);
    assert_eq!(fx(-1, 500_000).floor_index(), 0);
    assert_eq!(Fixed { raw: i64::MAX }.floor_index(), 9_223_372);
}

#[test]
fn square_roots_round_down() {
    assert_eq!(fx(25, 0).sqrt(), fx(5, 0));
    assert_eq!(fx(2, 0).sqrt().raw, 1_414_213_562_373);
    assert_eq!(fx(0, 250_000).sqrt(), fx(0, 500_000));
    assert_eq!(fx(0, 0).sqrt().raw, 0);
    assert_eq!(fx(-4, 0).sqrt().raw, 0);
    assert_eq!(Fixed { raw: 1 }.sqrt().raw, 1_000_000);
    assert_eq!(Fixed { raw: i64::MAX }.sqrt().raw, 3_037_000_499_976_049);
}

#[test]
fn helpers_of_the_scalar() {
    assert_eq!(zero::<Fixed>().raw, 0);
    assert_eq!(one::<Fixed>().raw, SCALE);
    assert!(is_zero(fx(0, 0)));
    assert!(!is_zero(Fixed { raw: -10 }));
    assert_eq!(clamp(fx(5, 0), fx(1, 0), fx(3, 0)), fx(3, 0));
    assert_eq!(clamp(fx(-5, 0), fx(1, 0), fx(3, 0)), fx(1, 0));
    assert_eq!(clamp(fx(2, 0), fx(1, 0), fx(3, 0)), fx(2, 0));
    assert_eq!(clamp(fx(2, 0), fx(3, 0), fx(1, 0)), fx(3, 0));
}

#[test]
fn parameters_have_their_decimal_values() {
    assert_eq!(overrelaxation::<Fixed>(), fx(1, 940_000));
    assert_eq!(gravity::<Fixed>(), fx(7, 200_000));
    assert_eq!(density::<Fixed>(), fx(10, 0));
    assert_eq!(windspeed::<Fixed>(), fx(10, 0));
    assert_eq!(timestep::<Fixed>(), fx(0, 220_000));
    assert_eq!(cell_size::<Fixed>(), fx(0, 400_000));
    assert_eq!(half_cell::<Fixed>(), fx(0, 200_000));
    assert_eq!(half::<Fixed>(), fx(0, 500_000));
    assert_eq!(quarter::<Fixed>(), fx(0, 250_000));
    assert_eq!(Cell::Fluid.weight::<Fixed>(), fx(1, 0));
    assert_eq!(Cell::Solid.weight::<Fixed>().raw, -10);
}

#[test]
fn fresh_flow_has_pinned_columns_and_bands() {
    let sim = Simulation::<Fixed>::new(12, 90);
    assert_eq!(sim.width(), 12);
    assert_eq!(sim.height(), 90);
    assert_eq!(sim.get_u().len(), 13 * 90);
    assert_eq!(sim.get_v().len(), 12 * 91);
    assert_eq!(sim.get_s().len(), 12 * 90);
    for y in 0..90 {
        for x in 0..13 {
            let expected = if x == 0 || x == 12 { fx(10, 0) } else { fx(0, 0) };
            assert_eq!(sim.get_u()[y * 13 + x], expected);
        }
    }
    assert!(sim.get_v().iter().all(|v| v.raw == 0));
    assert!(sim.get_pressure().iter().all(|p| p.raw == 0));
    assert!(sim.get_s().iter().all(|c| *c == Cell::Fluid));
    for y in 0..90usize {
        let in_band = (0..9).any(|b| {
            let center = 10 * b + 5;
            y + 5 > center && y < center + 5
        });
        for x in 0..12 {
            let expected = if x == 0 && in_band { fx(1, 0) } else { fx(0, 0) };
            assert_eq!(sim.get_smoke()[y * 12 + x], expected);
        }
    }
    assert_eq!(sim.get_smoke()[0].raw, 0);
    assert_eq!(sim.get_smoke()[12].raw, SCALE);
    assert_eq!(sim.get_smoke()[9 * 12].raw, SCALE);
    assert_eq!(sim.get_smoke()[10 * 12].raw, 0);
}

#[test]
fn bands_that_reach_past_the_box_are_cut() {
    let sim = Simulation::<Fixed>::new(3, 10);
    for y in 0..10 {
        assert_eq!(sim.get_smoke()[y * 3].raw, SCALE);
        assert_eq!(sim.get_smoke()[y * 3 + 1].raw, 0);
    }
    let low = Simulation::<Fixed>::new(2, 3);
    assert_eq!(low.get_smoke().len(), 6);
    assert_eq!(low.get_smoke()[0].raw, SCALE);
    assert_eq!(low.get_smoke()[4].raw, SCALE);
    let one = Simulation::<Fixed>::new(1, 1);
    assert_eq!(one.get_u().to_vec(), vec![fx(10, 0), fx(10, 0)]);
    assert_eq!(one.get_v().to_vec(), vec![fx(0, 0), fx(0, 0)]);
    assert_eq!(one.get_smoke().to_vec(), vec![fx(1, 0)]);
}

#[test]
fn classification_has_a_solid_margin() {
    let mut sim = Simulation::<Fixed>::new(6, 4);
    sim.draw_obstacle(2, 1, fx(0, 500_000));
    assert_eq!(sim.classify(2, 1), Cell::Solid);
    assert_eq!(sim.classify(3, 1), Cell::Fluid);
    assert_eq!(sim.classify(0, 0), Cell::Fluid);
    assert_eq!(sim.classify(-1, 0), Cell::Solid);
    assert_eq!(sim.classify(0, -1), Cell::Solid);
    assert_eq!(sim.classify(6, 3), Cell::Solid);
    assert_eq!(sim.classify(5, 4), Cell::Solid);
    assert_eq!(sim.classify(-1, -1), Cell::Solid);
    assert_eq!(sim.classify(6, 4), Cell::Solid);
}

#[test]
fn faces_are_open_between_two_fluid_cells() {
    let mut sim = Simulation::<Fixed>::new(6, 4);
    sim.draw_obstacle(2, 1, fx(0, 500_000));
    assert!(sim.open_u(1, 1));
    assert!(!sim.open_u(2, 1));
    assert!(!sim.open_u(3, 1));
    assert!(sim.open_u(4, 1));
    assert!(!sim.open_u(0, 1));
    assert!(!sim.open_u(6, 1));
    assert!(!sim.open_u(3, 4));
    assert!(sim.open_v(2, 3));
    assert!(!sim.open_v(2, 2));
    assert!(!sim.open_v(2, 1));
    assert!(!sim.open_v(1, 0));
    assert!(!sim.open_v(1, 4));
    assert!(!sim.open_v(6, 2));
}

#[test]
fn step_in_fixed_point_keeps_cells_and_nearly_the_inflow() {
    let mut sim = Simulation::<Fixed>::new(10, 10);
    sim.step();
    assert_eq!(sim.get_s().len(), 100);
    assert!(sim.get_s().iter().all(|c| *c == Cell::Fluid));
    for y in 0..10 {
        let left = sim.get_u()[y * 11].raw - 10 * SCALE;
        let right = sim.get_u()[y * 11 + 10].raw - 10 * SCALE;
        assert!(left.abs() < 1_000_000);
        assert!(right.abs() < 1_000_000);
    }
}

#[test]
fn obstacle_in_fixed_point_makes_its_centre_solid() {
    let mut sim = Simulation::<Fixed>::new(20, 20);
    sim.draw_obstacle(10, 10, fx(3, 0));
    assert_eq!(sim.get_s()[10 * 20 + 10], Cell::Solid);
    let solid = sim.get_s().iter().filter(|c| **c == Cell::Solid).count();
    assert_eq!(solid, 29);
    assert_eq!(sim.get_s()[10 * 20 + 13], Cell::Solid);
    assert_eq!(sim.get_s()[10 * 20 + 14], Cell::Fluid);
    assert_eq!(sim.get_s()[12 * 20 + 12], Cell::Solid);
    assert_eq!(sim.get_s()[12 * 20 + 13], Cell::Fluid);
}

#[test]
fn bilinear_blend_of_a_plane_is_the_plane() {
    let mut grid = Array2D::<Fixed>::new(5, 4);
    for y in 0..4 {
        for x in 0..5 {
            grid.set(x, y, fx(x as i64 + 10 * y as i64, 0));
        }
    }
    let at = sample_field(
        &grid,
        5,
        4,
        fx(0, 200_000),
        fx(0, 200_000),
        fx(1, 100_000),
        fx(0, 900_000),
    );
    assert_eq!(at, fx(19, 750_000));
    let no_shift = sample_field(&grid, 5, 4, fx(0, 0), fx(0, 0), fx(0, 600_000), fx(1, 0));
    assert_eq!(no_shift, fx(26, 500_000));
}

#[test]
fn sampling_in_fixed_point_returns_stored_samples() {
    let mut grid = Array2D::<Fixed>::new(7, 6);
    for y in 0..6 {
        for x in 0..7 {
            grid.set(x, y, Fixed { raw: (x * x * 1000 + y * 7 + 1) as i64 * 123_456_789 });
        }
    }
    let h = cell_size::<Fixed>();
    for (dx, dy) in [
        (fx(0, 0), half_cell::<Fixed>()),
        (half_cell::<Fixed>(), fx(0, 0)),
        (half_cell::<Fixed>(), half_cell::<Fixed>()),
    ] {
        for y in 1..6 {
            for x in 1..7 {
                let px = Fixed::index(x).times(&h).plus(&dx);
                let py = Fixed::index(y).times(&h).plus(&dy);
                assert_eq!(sample_field(&grid, 7, 6, dx, dy, px, py), grid.get(x, y));
            }
        }
    }
}

#[test]
fn sampling_before_the_first_sample_is_moved_inside() {
    let mut grid = Array2D::<Fixed>::new(4, 4);
    for y in 0..4 {
        for x in 0..4 {
            grid.set(x, y, fx(x as i64 + 10 * y as i64, 0));
        }
    }
    let hc = half_cell::<Fixed>();
    let first = sample_field(&grid, 4, 4, hc, hc, fx(0, 200_000), fx(0, 200_000));
    let moved = sample_field(&grid, 4, 4, hc, hc, fx(0, 400_000), fx(0, 400_000));
    assert_eq!(first, moved);
    assert_eq!(first, fx(5, 500_000));
    let far = sample_field(&grid, 4, 4, hc, hc, fx(1000, 0), fx(-1000, 0));
    let edge = sample_field(&grid, 4, 4, hc, hc, fx(1, 600_000), fx(0, 400_000));
    assert_eq!(far, edge);
    assert_eq!(far, fx(8, 0));
}

#[test]
fn relaxation_in_fixed_point_follows_the_formula() {
    let mut sim = Simulation::<Fixed>::new(4, 4);
    sim.relax(1, 1, fx(0, 220_000));
    assert!(sim.get_u().iter().enumerate().all(|(k, u)| {
        let x = k % 5;
        u.raw == if x == 0 || x == 4 { 10 * SCALE } else { 0 }
    }));
    sim.relax(0, 1, fx(0, 220_000));
    let d = fx(-19, -400_000);
    let s = Fixed { raw: 3 * SCALE - 10 };
    let solid = Fixed { raw: -10 };
    assert_eq!(sim.get_u()[5], fx(10, 0).plus(&d.times(&solid).over(&s)));
    assert_eq!(sim.get_u()[6], fx(0, 0).minus(&d.times(&fx(1, 0)).over(&s)));
    assert_eq!(sim.get_u()[6].raw, 6_466_666_666_689);
    assert_eq!(sim.get_v()[4], fx(0, 0).plus(&d.over(&s)));
    assert_eq!(sim.get_v()[8], fx(0, 0).minus(&d.over(&s)));
    assert_eq!(
        sim.get_pressure()[4],
        fx(0, 0).minus(&d.over(&s).times(&fx(10, 0)).times(&fx(0, 400_000)).over(&fx(0, 220_000)))
    );
}

#[test]
fn speed_in_fixed_point() {
    let sim = Simulation::<Fixed>::new(3, 2);
    let speed = sim.get_speed();
    assert_eq!(speed, vec![fx(5, 0), fx(0, 0), fx(5, 0), fx(5, 0), fx(0, 0), fx(5, 0)]);
}

#[test]
fn steps_make_no_tracer() {
    let mut sim = Simulation::<Fixed>::new(16, 90);
    sim.draw_obstacle(6, 45, fx(2, 500_000));
    for _ in 0..6 {
        sim.step();
        assert!(sim.get_smoke().iter().all(|s| 0 <= s.raw && s.raw <= SCALE));
    }
    assert!(sim.get_smoke().iter().enumerate().any(|(k, s)| k % 16 != 0 && s.raw > 0));
}

#[test]
fn projection_in_fixed_point_reduces_divergence() {
    let mut sim = Simulation::<Fixed>::new(10, 10);
    sim.projection(fx(0, 220_000));
    let u = sim.get_u();
    let v = sim.get_v();
    let mut total: i64 = 0;
    for y in 0..10 {
        for x in 0..10 {
            let d = u[y * 11 + x + 1].raw - u[y * 11 + x].raw + v[(y + 1) * 10 + x].raw
                - v[y * 10 + x].raw;
            total += d.abs();
        }
    }
    assert!(total / 100 < 2 * SCALE / 100);
}

#[test]
fn projection_is_a_hundred_sweeps_from_zero_pressure() {
    let dt = fx(0, 220_000);
    let mut swept = Simulation::<Fixed>::new(7, 5);
    swept.draw_obstacle(3, 2, fx(1, 0));
    for _ in 0..100 {
        for y in 0..5 {
            for x in 0..7 {
                swept.relax(x, y, dt);
            }
        }
    }
    let mut projected = Simulation::<Fixed>::new(7, 5);
    projected.draw_obstacle(3, 2, fx(1, 0));
    projected.projection(dt);
    assert_eq!(projected.get_u().to_vec(), swept.get_u().to_vec());
    assert_eq!(projected.get_v().to_vec(), swept.get_v().to_vec());
    assert_eq!(projected.get_pressure().to_vec(), swept.get_pressure().to_vec());
    assert!(projected.get_pressure().iter().any(|p| p.raw != 0));

    let first: Vec<Fixed> = projected.get_pressure().to_vec();
    projected.projection(dt);
    for _ in 0..100 {
        for y in 0..5 {
            for x in 0..7 {
                swept.relax(x, y, dt);
            }
        }
    }
    assert_eq!(projected.get_u().to_vec(), swept.get_u().to_vec());
    for k in 0..35 {
        assert_eq!(projected.get_pressure()[k].raw, swept.get_pressure()[k].raw - first[k].raw);
    }
}
