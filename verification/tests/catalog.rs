use nwp_regime_analyzer::RegimeType;
use nwp_regime_analyzer::arrow_head_hundredths;
use nwp_regime_analyzer::effective_scale_hundredths;
use nwp_regime_analyzer::whole_speed_drawn;
use nwp_regime_analyzer::whole_speed_high;

#[test]
fn regime_labels() {
    assert_eq!(RegimeType::Zonal.to_string(), "Zonal");
    assert_eq!(RegimeType::Blocage.to_string(), "Blocage");
    assert_eq!(
        RegimeType::AnticycloneGroenlandais.to_string(),
        "Anticyclone Groenlandais"
    );
    assert_eq!(RegimeType::ZonalMou.to_string(), "Zonal Mou");
}

#[test]
fn regime_strides() {
    assert_eq!(RegimeType::Zonal.step_size(), 4);
    assert_eq!(RegimeType::Blocage.step_size(), 2);
    assert_eq!(RegimeType::AnticycloneGroenlandais.step_size(), 2);
    assert_eq!(RegimeType::ZonalMou.step_size(), 3);
}

#[test]
fn regime_scales() {
    assert_eq!(RegimeType::Zonal.scale_hundredths(), 500);
    assert_eq!(RegimeType::Blocage.scale_hundredths(), 300);
    assert_eq!(RegimeType::AnticycloneGroenlandais.scale_hundredths(), 300);
    assert_eq!(RegimeType::ZonalMou.scale_hundredths(), 250);
    // the scales in plot units, as the drawing code computes them
    assert_eq!(RegimeType::Zonal.scale_hundredths() as f64 / 100.0, 5.0);
    assert_eq!(RegimeType::Blocage.scale_hundredths() as f64 / 100.0, 3.0);
    assert_eq!(RegimeType::ZonalMou.scale_hundredths() as f64 / 100.0, 2.5);
}

#[test]
fn arrowhead_policy() {
    assert!(RegimeType::Zonal.draws_arrowheads());
    assert!(!RegimeType::Blocage.draws_arrowheads());
    assert!(!RegimeType::AnticycloneGroenlandais.draws_arrowheads());
    assert!(!RegimeType::ZonalMou.draws_arrowheads());
    // 15% of the zonal base scale of 5.0 plot units
    assert_eq!(arrow_head_hundredths(RegimeType::Zonal), 75);
    assert_eq!(arrow_head_hundredths(RegimeType::Zonal) as f64 / 100.0, 0.75);
    assert_eq!(arrow_head_hundredths(RegimeType::Blocage), 45);
}

#[test]
fn high_speed_boundary_is_exclusive() {
    // a whole-number speed of exactly 40 is not high-speed
    assert!(!whole_speed_high(40));
    assert!(whole_speed_high(41));
    assert!(!whole_speed_high(0));
}

#[test]
fn draw_threshold_boundary() {
    // a calm cell (whole-number speed 0 <= 0.1) is skipped, speed 1 is drawn
    assert!(!whole_speed_drawn(0));
    assert!(whole_speed_drawn(1));
}

#[test]
fn boost_applies_only_to_high_speed_zonal() {
    assert_eq!(effective_scale_hundredths(RegimeType::Zonal, true), 600);
    assert_eq!(effective_scale_hundredths(RegimeType::Zonal, false), 500);
    assert_eq!(effective_scale_hundredths(RegimeType::Blocage, true), 300);
    assert_eq!(effective_scale_hundredths(RegimeType::ZonalMou, true), 250);
    // the boost is exactly the factor 1.2
    assert_eq!(effective_scale_hundredths(RegimeType::Zonal, true) as f64 / 100.0, 5.0 * 1.2);
}
