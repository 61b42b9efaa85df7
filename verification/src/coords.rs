//! Grid index <-> latitude/longitude mapping, in exact arithmetic.
//!
//! On an `n` x `n` grid, row `y` sits at latitude `35 + 40*y/n` (35N..75N)
//! and column `x` at longitude `-24 + 54*x/n` (24W..30E). Both are rationals
//! with denominator `n`, so this module works with the numerators
//! `lat * n = 35*n + 40*y` and `lon * n = -24*n + 54*x`: every comparison
//! against a whole-degree bound is then an exact integer comparison.

use vstd::prelude::*;

verus! {

/// Largest grid size the exact arithmetic is stated for; keeps every
/// scaled coordinate product comfortably inside `i64`.
pub const MAX_GRID: usize = 1_000_000;

/// Numerator of the latitude of row `y`: `lat(y) * n`.
pub open spec fn lat_times_n(y: int, n: int) -> int {
    35 * n + 40 * y
}

/// Numerator of the longitude of column `x`: `lon(x) * n`.
pub open spec fn lon_times_n(x: int, n: int) -> int {
    -24 * n + 54 * x
}

/// Latitude numerator of row `y` on an `n`-row grid.
pub fn lat_numer(y: usize, n: usize) -> (r: i64)
    requires
        1 <= n <= MAX_GRID,
        y <= n,
    ensures
        r == lat_times_n(y as int, n as int),
{
    35 * (n as i64) + 40 * (y as i64)
}

/// Longitude numerator of column `x` on an `n`-column grid.
pub fn lon_numer(x: usize, n: usize) -> (r: i64)
    requires
        1 <= n <= MAX_GRID,
        x <= n,
    ensures
        r == lon_times_n(x as int, n as int),
{
    -24 * (n as i64) + 54 * (x as i64)
}

/// Integer division truncated toward zero, the rounding the axis labels
/// use.
pub open spec fn trunc_div(a: int, b: int) -> int {
    if a >= 0 {
        a / b
    } else {
        -((-a) / b)
    }
}

/// Whole-degree axis label of row `y`: the latitude truncated toward
/// zero. Latitudes here are nonnegative, so this is plain flooring.
pub fn lat_label_degrees(y: usize, n: usize) -> (r: i64)
    requires
        1 <= n <= MAX_GRID,
        y <= n,
    ensures
        r == trunc_div(lat_times_n(y as int, n as int), n as int),
{
    let d: i64 = lat_numer(y, n);
    d / (n as i64)
}

/// Whole-degree axis label of column `x`: the longitude truncated toward
/// zero (western longitudes are negative).
pub fn lon_label_degrees(x: usize, n: usize) -> (r: i64)
    requires
        1 <= n <= MAX_GRID,
        x <= n,
    ensures
        r == trunc_div(lon_times_n(x as int, n as int), n as int),
{
    let d: i64 = lon_numer(x, n);
    if d >= 0 {
        d / (n as i64)
    } else {
        -((-d) / (n as i64))
    }
}

/// The mapping spans exactly 35N..75N and 24W..30E: row 0 sits at
/// latitude 35, row `n` at 75, column 0 at longitude -24, column `n` at 30
/// (all stated on the numerators, whose denominator is `n`).
pub proof fn lemma_coordinate_endpoints(n: int)
    requires
        n >= 1,
    ensures
        lat_times_n(0, n) == 35 * n,
        lat_times_n(n, n) == 75 * n,
        lon_times_n(0, n) == -24 * n,
        lon_times_n(n, n) == 30 * n,
{
}

} // verus!
