//! Synthetic atmospheric regime fields on a square latitude/longitude grid,
//! together with the exact integer core of the rendering pipeline.
//!
//! Latitudes and longitudes are rationals with the grid size as denominator,
//! so every coordinate and band decision is carried out in exact integer
//! arithmetic. Floating-point field evaluation and the drawing backend live
//! outside this library.

mod coords;
mod render;
mod types;
mod weathers;

pub use coords::MAX_GRID;
pub use coords::lat_label_degrees;
pub use coords::lat_numer;
pub use coords::lat_times_n;
pub use coords::lemma_coordinate_endpoints;
pub use coords::lon_label_degrees;
pub use coords::lon_numer;
pub use coords::lon_times_n;
pub use coords::trunc_div;
pub use render::PaintOp;
pub use render::Rgba;
pub use render::arrow_head_hundredths;
pub use render::composite_pixel;
pub use render::composite_pixel_spec;
pub use render::composite_plan;
pub use render::effective_scale_hundredths;
pub use render::lemma_composite_plan_unique;
pub use render::op_matches;
pub use render::plan_complete;
pub use render::plan_sorted;
pub use render::plan_sound;
pub use render::raster_wf;
pub use render::sample_indices;
pub use render::src_index;
pub use render::src_row_index;
pub use render::whole_speed_drawn;
pub use render::whole_speed_high;
pub use types::RegimeType;
pub use types::label_spec;
pub use types::scale_hundredths_spec;
pub use types::step_size_spec;
pub use weathers::center_lat;
pub use weathers::center_lon;
pub use weathers::dist_sq_scaled;
pub use weathers::dist_sq_times_n2;
pub use weathers::dlat_sq_times_n2;
pub use weathers::dlon_sq_times_n2;
pub use weathers::in_core_band;
pub use weathers::in_wide_band;
pub use weathers::is_vortex;
pub use weathers::lemma_zonal_bands;
pub use weathers::lemma_zonal_wind_values;
pub use weathers::nearest_center_cell;
pub use weathers::zonal_wind_u;
pub use weathers::zonal_wind_u_grid;
pub use weathers::zonal_wind_u_spec;
pub use weathers::zonal_wind_v_spec;
