//! The exact integer part of the field generator.
//!
//! The zonal regime's eastward wind is a step function of latitude alone,
//! with whole-degree band bounds and whole-number wind values, so the full
//! zonal field is computed and specified here exactly. The two vortex
//! regimes place a radially decreasing bump around a center; the squared
//! distance from a grid cell to that center is a rational with denominator
//! `n^2`, and its numerator is computed here exactly, together with the
//! grid cell that minimizes it (the cell nearest the center).

use vstd::prelude::*;

use crate::coords::MAX_GRID;
use crate::coords::lat_times_n;
use crate::coords::lon_times_n;
use crate::types::RegimeType;

verus! {

/// Row `y` lies in the jet-core latitude band [47, 53).
pub open spec fn in_core_band(y: int, n: int) -> bool {
    47 * n <= lat_times_n(y, n) && lat_times_n(y, n) < 53 * n
}

/// Row `y` lies in the wider jet latitude band [43, 57).
pub open spec fn in_wide_band(y: int, n: int) -> bool {
    43 * n <= lat_times_n(y, n) && lat_times_n(y, n) < 57 * n
}

/// Zonal eastward wind at row `y`: 50 in the core band, 30 in the rest of
/// the wide band, 15 elsewhere. The northward wind of this regime is
/// identically zero.
pub open spec fn zonal_wind_u_spec(y: int, n: int) -> int {
    if in_core_band(y, n) {
        50
    } else if in_wide_band(y, n) {
        30
    } else {
        15
    }
}

/// Zonal eastward wind of the row at latitude `35 + 40*y/n`.
pub fn zonal_wind_u(y: usize, n: usize) -> (r: u64)
    requires
        1 <= n <= MAX_GRID,
        y < n,
    ensures
        r == zonal_wind_u_spec(y as int, n as int),
{
    let forty_y: i64 = 40 * (y as i64);
    let ni: i64 = n as i64;
    if 12 * ni <= forty_y && forty_y < 18 * ni {
        50
    } else if 8 * ni <= forty_y && forty_y < 22 * ni {
        30
    } else {
        15
    }
}

/// The whole zonal eastward wind field on an `n` x `n` grid: every cell of
/// row `y` holds `zonal_wind_u_spec(y, n)`, independent of the column.
pub fn zonal_wind_u_grid(n: usize) -> (g: Vec<Vec<u64>>)
    requires
        1 <= n <= MAX_GRID,
    ensures
        g@.len() == n,
        forall|i: int| 0 <= i < n ==> #[trigger] g@[i]@.len() == n,
        forall|i: int, j: int|
            0 <= i < n && 0 <= j < n ==> #[trigger] g@[i]@[j] == zonal_wind_u_spec(
                i,
                n as int,
            ),
{
    let mut g: Vec<Vec<u64>> = Vec::new();
    let mut i: usize = 0;
    while i < n
        invariant
            1 <= n <= MAX_GRID,
            i <= n,
            g@.len() == i,
            forall|r: int| 0 <= r < i ==> #[trigger] g@[r]@.len() == n,
            forall|r: int, c: int|
                0 <= r < i && 0 <= c < n ==> #[trigger] g@[r]@[c] == zonal_wind_u_spec(
                    r,
                    n as int,
                ),
        decreases n - i,
    {
        let wind: u64 = zonal_wind_u(i, n);
        let mut row: Vec<u64> = Vec::new();
        let mut j: usize = 0;
        while j < n
            invariant
                j <= n,
                row@.len() == j,
                forall|c: int| 0 <= c < j ==> #[trigger] row@[c] == wind,
            decreases n - j,
        {
            row.push(wind);
            j = j + 1;
        }
        g.push(row);
        i = i + 1;
    }
    g
}

/// Zonal northward wind: the straight jet has none, at any cell.
pub open spec fn zonal_wind_v_spec(y: int, n: int) -> int {
    0
}

/// The band policy of the zonal step function: the core band takes
/// priority over the wide band (which contains it), the rest of the wide
/// band gives 30, everything outside gives 15, and the northward
/// component vanishes everywhere.
pub proof fn lemma_zonal_bands(y: int, n: int)
    requires
        n >= 1,
    ensures
        in_core_band(y, n) ==> in_wide_band(y, n),
        in_core_band(y, n) ==> zonal_wind_u_spec(y, n) == 50,
        !in_core_band(y, n) && in_wide_band(y, n) ==> zonal_wind_u_spec(y, n) == 30,
        !in_wide_band(y, n) ==> zonal_wind_u_spec(y, n) == 15,
        zonal_wind_v_spec(y, n) == 0,
{
}

/// Every zonal wind cell holds one of the three finite step values.
pub proof fn lemma_zonal_wind_values(y: int, n: int)
    ensures
        zonal_wind_u_spec(y, n) == 50 || zonal_wind_u_spec(y, n) == 30 || zonal_wind_u_spec(
            y,
            n,
        ) == 15,
{
}

/// The regime is one of the two rotating-flow patterns built around a
/// fixed center.
pub open spec fn is_vortex(regime: RegimeType) -> bool {
    regime is Blocage || regime is AnticycloneGroenlandais
}

/// Latitude of a vortex regime's center, in whole degrees.
pub open spec fn center_lat(regime: RegimeType) -> int {
    if regime is Blocage {
        50
    } else {
        65
    }
}

/// Longitude of a vortex regime's center, in whole degrees.
pub open spec fn center_lon(regime: RegimeType) -> int {
    if regime is Blocage {
        0
    } else {
        -20
    }
}

/// Numerator of the squared latitude offset of row `y` from the center:
/// `(lat(y) - center_lat)^2 * n^2`.
pub open spec fn dlat_sq_times_n2(regime: RegimeType, y: int, n: int) -> int {
    let d = lat_times_n(y, n) - center_lat(regime) * n;
    d * d
}

/// Numerator of the squared longitude offset of column `x` from the
/// center: `(lon(x) - center_lon)^2 * n^2`.
pub open spec fn dlon_sq_times_n2(regime: RegimeType, x: int, n: int) -> int {
    let d = lon_times_n(x, n) - center_lon(regime) * n;
    d * d
}

/// Numerator of the squared Euclidean distance, in (lat, lon) units, from
/// cell `(y, x)` to the regime's center: `dist^2 * n^2`.
pub open spec fn dist_sq_times_n2(regime: RegimeType, y: int, x: int, n: int) -> int {
    dlat_sq_times_n2(regime, y, n) + dlon_sq_times_n2(regime, x, n)
}

/// Squared latitude offset numerator of row `y`, exactly.
fn row_dlat_sq(regime: RegimeType, y: usize, n: usize) -> (r: i64)
    requires
        is_vortex(regime),
        1 <= n <= MAX_GRID,
        y <= n,
    ensures
        r == dlat_sq_times_n2(regime, y as int, n as int),
        0 <= r <= 900_000_000_000_000,
{
    let clat: i64 = if matches!(regime, RegimeType::Blocage) {
        50
    } else {
        65
    };
    let base: i64 = 35 * (n as i64) + 40 * (y as i64);
    let d: i64 = base - clat * (n as i64);
    proof {
        assert(-30 * (n as int) <= d <= 25 * (n as int));
        assert(d * d <= 900 * (n as int) * (n as int)) by (nonlinear_arith)
            requires
                -30 * (n as int) <= d <= 25 * (n as int),
        ;
        assert(900 * (n as int) * (n as int) <= 900_000_000_000_000) by (nonlinear_arith)
            requires
                0 < n <= 1_000_000,
        ;
        assert(d * d >= 0) by (nonlinear_arith);
    }
    d * d
}

/// Squared longitude offset numerator of column `x`, exactly.
fn col_dlon_sq(regime: RegimeType, x: usize, n: usize) -> (r: i64)
    requires
        is_vortex(regime),
        1 <= n <= MAX_GRID,
        x <= n,
    ensures
        r == dlon_sq_times_n2(regime, x as int, n as int),
        0 <= r <= 2_500_000_000_000_000,
{
    let clon: i64 = if matches!(regime, RegimeType::Blocage) {
        0
    } else {
        -20
    };
    let base: i64 = 54 * (x as i64) - 24 * (n as i64);
    let d: i64 = base - clon * (n as i64);
    proof {
        assert(-24 * (n as int) <= d <= 50 * (n as int));
        assert(d * d <= 2500 * (n as int) * (n as int)) by (nonlinear_arith)
            requires
                -24 * (n as int) <= d <= 50 * (n as int),
        ;
        assert(2500 * (n as int) * (n as int) <= 2_500_000_000_000_000) by (nonlinear_arith)
            requires
                0 < n <= 1_000_000,
        ;
        assert(d * d >= 0) by (nonlinear_arith);
    }
    d * d
}

/// Squared distance numerator from cell `(y, x)` to the regime's center.
pub fn dist_sq_scaled(regime: RegimeType, y: usize, x: usize, n: usize) -> (r: i64)
    requires
        is_vortex(regime),
        1 <= n <= MAX_GRID,
        y < n,
        x < n,
    ensures
        r == dist_sq_times_n2(regime, y as int, x as int, n as int),
        r >= 0,
{
    let a = row_dlat_sq(regime, y, n);
    let b = col_dlon_sq(regime, x, n);
    a + b
}

/// Row minimizing the squared latitude offset from the center.
fn nearest_row(regime: RegimeType, n: usize) -> (best: usize)
    requires
        is_vortex(regime),
        1 <= n <= MAX_GRID,
    ensures
        best < n,
        forall|i: int|
            0 <= i < n ==> dlat_sq_times_n2(regime, best as int, n as int)
                <= #[trigger] dlat_sq_times_n2(regime, i, n as int),
{
    let mut best: usize = 0;
    let mut best_val: i64 = row_dlat_sq(regime, 0, n);
    let mut y: usize = 1;
    while y < n
        invariant
            is_vortex(regime),
            1 <= n <= MAX_GRID,
            1 <= y <= n,
            best < y,
            best_val == dlat_sq_times_n2(regime, best as int, n as int),
            forall|i: int|
                0 <= i < y ==> best_val <= #[trigger] dlat_sq_times_n2(regime, i, n as int),
        decreases n - y,
    {
        let v = row_dlat_sq(regime, y, n);
        if v < best_val {
            best = y;
            best_val = v;
        }
        y = y + 1;
    }
    best
}

/// Column minimizing the squared longitude offset from the center.
fn nearest_col(regime: RegimeType, n: usize) -> (best: usize)
    requires
        is_vortex(regime),
        1 <= n <= MAX_GRID,
    ensures
        best < n,
        forall|j: int|
            0 <= j < n ==> dlon_sq_times_n2(regime, best as int, n as int)
                <= #[trigger] dlon_sq_times_n2(regime, j, n as int),
{
    let mut best: usize = 0;
    let mut best_val: i64 = col_dlon_sq(regime, 0, n);
    let mut x: usize = 1;
    while x < n
        invariant
            is_vortex(regime),
            1 <= n <= MAX_GRID,
            1 <= x <= n,
            best < x,
            best_val == dlon_sq_times_n2(regime, best as int, n as int),
            forall|j: int|
                0 <= j < x ==> best_val <= #[trigger] dlon_sq_times_n2(regime, j, n as int),
        decreases n - x,
    {
        let v = col_dlon_sq(regime, x, n);
        if v < best_val {
            best = x;
            best_val = v;
        }
        x = x + 1;
    }
    best
}

/// The grid cell nearest a vortex regime's center: no cell of the grid is
/// strictly closer. The regime's geopotential bump decreases with the
/// distance from the center, so this is the cell where the bump peaks.
pub fn nearest_center_cell(regime: RegimeType, n: usize) -> (best: (usize, usize))
    requires
        is_vortex(regime),
        1 <= n <= MAX_GRID,
    ensures
        best.0 < n,
        best.1 < n,
        forall|i: int, j: int|
            0 <= i < n && 0 <= j < n ==> dist_sq_times_n2(
                regime,
                best.0 as int,
                best.1 as int,
                n as int,
            ) <= #[trigger] dist_sq_times_n2(regime, i, j, n as int),
{
    let by = nearest_row(regime, n);
    let bx = nearest_col(regime, n);
    (by, bx)
}

} // verus!
