use nwp_regime_analyzer::RegimeType;
use nwp_regime_analyzer::dist_sq_scaled;
use nwp_regime_analyzer::lat_label_degrees;
use nwp_regime_analyzer::lat_numer;
use nwp_regime_analyzer::lon_label_degrees;
use nwp_regime_analyzer::lon_numer;
use nwp_regime_analyzer::nearest_center_cell;
use nwp_regime_analyzer::zonal_wind_u;
use nwp_regime_analyzer::zonal_wind_u_grid;

#[test]
fn coordinate_endpoints_grid_50() {
    let n = 50;
    // numerators have denominator n: row 0 at 35N, row n at 75N
    assert_eq!(lat_numer(0, n), 35 * 50);
    assert_eq!(lat_numer(n, n), 75 * 50);
    // column 0 at 24W, column n at 30E
    assert_eq!(lon_numer(0, n), -24 * 50);
    assert_eq!(lon_numer(n, n), 30 * 50);
    // the same endpoints in degrees
    assert_eq!(lat_numer(0, n) as f64 / n as f64, 35.0);
    assert_eq!(lat_numer(n, n) as f64 / n as f64, 75.0);
    assert_eq!(lon_numer(0, n) as f64 / n as f64, -24.0);
    assert_eq!(lon_numer(n, n) as f64 / n as f64, 30.0);
}

#[test]
fn axis_labels_grid_50() {
    // whole-degree labels, truncated toward zero as the axis formatter
    // prints them
    assert_eq!(lat_label_degrees(0, 50), 35);
    assert_eq!(lat_label_degrees(1, 50), 35); // 35.8
    assert_eq!(lat_label_degrees(50, 50), 75);
    assert_eq!(lon_label_degrees(0, 50), -24);
    assert_eq!(lon_label_degrees(1, 50), -22); // -22.92 truncates toward zero
    assert_eq!(lon_label_degrees(22, 50), 0); // -0.24 truncates to 0, not -1
    assert_eq!(lon_label_degrees(50, 50), 30);
}

#[test]
fn zonal_step_function_grid_50() {
    // on a 50-row grid, latitude 35 + 0.8*y: the core band [47,53) is
    // rows 15..=22, the wide band [43,57) is rows 10..=27
    assert_eq!(zonal_wind_u(0, 50), 15);
    assert_eq!(zonal_wind_u(9, 50), 15);
    assert_eq!(zonal_wind_u(10, 50), 30); // latitude 43 exactly: wide band is closed below
    assert_eq!(zonal_wind_u(14, 50), 30);
    assert_eq!(zonal_wind_u(15, 50), 50); // latitude 47 exactly: core band is closed below
    assert_eq!(zonal_wind_u(22, 50), 50);
    assert_eq!(zonal_wind_u(23, 50), 30); // latitude 53.4: core band is open above
    assert_eq!(zonal_wind_u(27, 50), 30);
    assert_eq!(zonal_wind_u(28, 50), 15); // latitude 57.4: wide band is open above
    assert_eq!(zonal_wind_u(49, 50), 15);
}

#[test]
fn zonal_grid_rows_are_constant() {
    let n = 50;
    let g = zonal_wind_u_grid(n);
    assert_eq!(g.len(), n);
    for (i, row) in g.iter().enumerate() {
        assert_eq!(row.len(), n);
        let expected = zonal_wind_u(i, n);
        for &cell in row.iter() {
            assert_eq!(cell, expected);
            // every zonal cell holds one of the three step values
            assert!(cell == 15 || cell == 30 || cell == 50);
        }
    }
}

#[test]
fn zonal_grid_small_sizes() {
    // one single cell: latitude 35, outside both bands
    let g1 = zonal_wind_u_grid(1);
    assert_eq!(g1, vec![vec![15]]);
    // seven rows: latitudes 35, 40.7, 46.4, 52.1, 57.9, 63.6, 69.3
    let g7 = zonal_wind_u_grid(7);
    let col0: Vec<u64> = g7.iter().map(|r| r[0]).collect();
    assert_eq!(col0, vec![15, 15, 30, 50, 15, 15, 15]);
}

#[test]
fn blocage_center_cell_is_nearest() {
    let n = 50;
    let (by, bx) = nearest_center_cell(RegimeType::Blocage, n);
    // center (50, 0): row 19 at latitude 50.2, column 22 at longitude -0.24
    assert_eq!((by, bx), (19, 22));
    let best = dist_sq_scaled(RegimeType::Blocage, by, bx, n);
    assert_eq!(best, 10 * 10 + 12 * 12);
    for y in 0..n {
        for x in 0..n {
            assert!(best <= dist_sq_scaled(RegimeType::Blocage, y, x, n));
        }
    }
}

#[test]
fn greenland_center_cell_is_nearest() {
    let n = 50;
    let (by, bx) = nearest_center_cell(RegimeType::AnticycloneGroenlandais, n);
    assert!(by < n && bx < n);
    let best = dist_sq_scaled(RegimeType::AnticycloneGroenlandais, by, bx, n);
    // center (65, -20): rows 37 and 38 tie at 0.4 degrees, column 4 at -19.68
    assert_eq!(best, 20 * 20 + 16 * 16);
    for y in 0..n {
        for x in 0..n {
            assert!(best <= dist_sq_scaled(RegimeType::AnticycloneGroenlandais, y, x, n));
        }
    }
}

#[test]
fn dist_sq_exact_value() {
    // Blocage center (50, 0) seen from cell (0, 0) of a 50-grid:
    // dlat*n = -750 (15 degrees), dlon*n = -1200 (24 degrees)
    assert_eq!(
        dist_sq_scaled(RegimeType::Blocage, 0, 0, 50),
        750 * 750 + 1200 * 1200
    );
    // in degrees squared
    let d2 = dist_sq_scaled(RegimeType::Blocage, 0, 0, 50) as f64 / (50.0 * 50.0);
    assert_eq!(d2, 15.0 * 15.0 + 24.0 * 24.0);
}
