use wavefield::wave_estimator::{CenterPulse, WaveEstimator, ZeroHeight, MAX_GRANULARITY, SCALE};

/// The fixed-point continuous coordinate of lattice index `i` on a grid of
/// granularity `n`: `i / n`, truncated toward zero.
fn coord(i: i64, n: i64) -> i64 {
    if i >= 0 {
        i * SCALE / n
    } else {
        -((-i) * SCALE / n)
    }
}

/// The height sample at lattice point `(i, j)`, read through `get_val`.
fn height(w: &WaveEstimator, i: i64, j: i64, n: i64) -> i64 {
    w.get_val(coord(i, n), coord(j, n))
}

#[test]
fn concrete_scenario_construction() {
    let n: i64 = 2;
    let w = WaveEstimator::new(2, SCALE, CenterPulse { value: SCALE });
    assert_eq!(height(&w, 0, 0, n), SCALE);
    for i in -n..=n {
        for j in -n..=n {
            if i != 0 || j != 0 {
                assert_eq!(height(&w, i, j, n), 0);
            }
        }
    }
}

#[test]
fn concrete_scenario_one_step() {
    let n: i64 = 2;
    let mut w = WaveEstimator::new(2, SCALE, CenterPulse { value: SCALE });
    w.update(SCALE / 10);

    let center: i64 = height(&w, 0, 0, n);
    assert!(center < SCALE);
    assert_eq!(center, 840_000);

    for &(i, j) in &[(1i64, 0i64), (-1, 0), (0, 1), (0, -1)] {
        let neighbor: i64 = height(&w, i, j, n);
        assert!(neighbor > 0);
        assert_eq!(neighbor, 40_000);
    }

    for &(i, j) in &[(1i64, 1i64), (1, -1), (-1, 1), (-1, -1)] {
        assert_eq!(height(&w, i, j, n), 0);
    }
}

#[test]
fn boundary_stays_zero() {
    let n: i64 = 3;
    let mut w = WaveEstimator::new(3, SCALE, CenterPulse { value: SCALE });
    for _ in 0..5 {
        for i in -n..=n {
            for j in -n..=n {
                if i == -n || i == n || j == -n || j == n {
                    assert_eq!(height(&w, i, j, n), 0);
                }
            }
        }
        w.update(SCALE / 10);
    }
}

#[test]
fn out_of_range_samples_are_zero() {
    let w = WaveEstimator::new(2, SCALE, CenterPulse { value: SCALE });
    assert_eq!(w.get_val(2 * SCALE, 0), 0);
    assert_eq!(w.get_val(-2 * SCALE, 0), 0);
    assert_eq!(w.get_val(0, i64::MAX), 0);
    assert_eq!(w.get_val(i64::MIN, i64::MIN), 0);
}

#[test]
fn zero_input_stability() {
    let n: i64 = 3;
    let mut w = WaveEstimator::new(3, 2 * SCALE, ZeroHeight {});
    for _ in 0..50 {
        w.update(SCALE / 10);
        for i in -n..=n {
            for j in -n..=n {
                assert_eq!(height(&w, i, j, n), 0);
            }
        }
    }
}

#[test]
fn determinism() {
    let n: i64 = 3;
    let mut a = WaveEstimator::new(3, 1_500_000, CenterPulse { value: 750_000 });
    let mut b = WaveEstimator::new(3, 1_500_000, CenterPulse { value: 750_000 });
    let steps: [i64; 5] = [100_000, 50_000, 25_000, 12_500, 100_000];
    for &dt in &steps {
        a.update(dt);
        b.update(dt);
        for i in -n..=n {
            for j in -n..=n {
                assert_eq!(height(&a, i, j, n), height(&b, i, j, n));
            }
        }
    }
}

#[test]
fn sampling_rounds_to_nearest_cell() {
    let mut w = WaveEstimator::new(2, SCALE, CenterPulse { value: SCALE });
    w.update(SCALE / 10);

    // Half a cell on a grid of granularity 2 is 250_000 in fixed point.
    let exact: i64 = coord(1, 2);
    let at_cell: i64 = w.get_val(exact, 0);
    assert_eq!(at_cell, 40_000);
    assert_eq!(w.get_val(exact + 249_999, 0), at_cell);
    assert_eq!(w.get_val(exact - 249_999, 0), at_cell);
    // A full half cell further rounds onto the boundary ring.
    assert_eq!(w.get_val(exact + 250_000, 0), 0);

    let center: i64 = w.get_val(0, 0);
    assert_eq!(w.get_val(249_999, -249_999), center);

    let neg: i64 = w.get_val(coord(-1, 2), 0);
    assert_eq!(w.get_val(coord(-1, 2) - 249_999, 0), neg);
    assert_eq!(w.get_val(coord(-1, 2) - 250_000, 0), 0);
}

#[test]
fn energy_stays_bounded_under_stable_parameters() {
    // alpha * dt^2 / h^2 = 1.0 * 0.01 / 0.0625 = 0.16 < 1: a stable choice.
    let n: i64 = 4;
    let mut w = WaveEstimator::new(4, SCALE, CenterPulse { value: SCALE });
    for _ in 0..1000 {
        w.update(SCALE / 10);
    }
    let mut max_abs: i64 = 0;
    for i in -n..=n {
        for j in -n..=n {
            let v: i64 = height(&w, i, j, n).abs();
            if v > max_abs {
                max_abs = v;
            }
        }
    }
    assert!(max_abs <= 10 * SCALE);
}

#[test]
fn smallest_lattice_single_interior_point() {
    let mut w = WaveEstimator::new(1, SCALE, CenterPulse { value: SCALE });
    assert_eq!(height(&w, 0, 0, 1), SCALE);
    for &(i, j) in &[(1i64, 0i64), (-1, 0), (0, 1), (0, -1), (1, 1), (-1, -1)] {
        assert_eq!(height(&w, i, j, 1), 0);
    }
    w.update(SCALE / 10);
    // Laplacian at the centre is -4.0, so the height drops to 0.96.
    assert_eq!(height(&w, 0, 0, 1), 960_000);
}

#[test]
fn zero_stiffness_freezes_the_field() {
    let n: i64 = 2;
    let mut w = WaveEstimator::new(2, 0, CenterPulse { value: SCALE });
    w.update(SCALE / 10);
    w.update(SCALE / 10);
    assert_eq!(height(&w, 0, 0, n), SCALE);
    assert_eq!(height(&w, 1, 0, n), 0);
}

#[test]
fn negative_pulse_mirrors_positive() {
    let n: i64 = 2;
    let mut pos = WaveEstimator::new(2, SCALE, CenterPulse { value: SCALE });
    let mut neg = WaveEstimator::new(2, SCALE, CenterPulse { value: -SCALE });
    pos.update(SCALE / 10);
    neg.update(SCALE / 10);
    for i in -n..=n {
        for j in -n..=n {
            assert_eq!(height(&pos, i, j, n), -height(&neg, i, j, n));
        }
    }
    assert_eq!(height(&neg, 0, 0, n), -840_000);
    assert_eq!(height(&neg, 1, 0, n), -40_000);
}

#[test]
fn finer_lattice_holds_its_pulse() {
    assert!(MAX_GRANULARITY >= 100);
    let n: i64 = 100;
    let w = WaveEstimator::new(100, 5 * SCALE, CenterPulse { value: SCALE });
    assert_eq!(height(&w, 0, 0, n), SCALE);
    assert_eq!(height(&w, 37, -81, n), 0);
    assert_eq!(height(&w, -100, 55, n), 0);
}
