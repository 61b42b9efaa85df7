//! The regime catalog: the four idealized flow patterns and the fixed
//! per-regime drawing constants (label, vector-sampling stride, vector
//! length scale).
//!
//! Length scales are stored in hundredths of a plot unit so that the
//! catalog stays in integer arithmetic; every scale the renderer uses
//! (base scale, the high-speed boost, the arrowhead size) is an exact
//! multiple of one hundredth.

use vstd::prelude::*;

verus! {

/// One of the four idealized atmospheric flow patterns.
#[derive(Debug, Copy, Clone, PartialEq, Eq, Structural)]
pub enum RegimeType {
    /// Straight strong jet: a step function of latitude.
    Zonal,
    /// Blocking high centered at latitude 50, longitude 0.
    Blocage,
    /// Greenland anticyclone centered at latitude 65, longitude -20.
    AnticycloneGroenlandais,
    /// Weak meridionally-wavy jet.
    ZonalMou,
}

/// The display label of a regime.
pub open spec fn label_spec(regime: RegimeType) -> Seq<char> {
    match regime {
        RegimeType::Zonal => "Zonal"@,
        RegimeType::Blocage => "Blocage"@,
        RegimeType::AnticycloneGroenlandais => "Anticyclone Groenlandais"@,
        RegimeType::ZonalMou => "Zonal Mou"@,
    }
}

/// Cells skipped between two consecutive drawn vector samples.
pub open spec fn step_size_spec(regime: RegimeType) -> int {
    match regime {
        RegimeType::Zonal => 4,
        RegimeType::Blocage => 2,
        RegimeType::AnticycloneGroenlandais => 2,
        RegimeType::ZonalMou => 3,
    }
}

/// Vector length scale, in hundredths of a plot unit per unit wind speed.
pub open spec fn scale_hundredths_spec(regime: RegimeType) -> int {
    match regime {
        RegimeType::Zonal => 500,
        RegimeType::Blocage => 300,
        RegimeType::AnticycloneGroenlandais => 300,
        RegimeType::ZonalMou => 250,
    }
}

impl RegimeType {
    /// The display label of the regime.
    pub fn to_string(&self) -> (r: String)
        ensures
            r@ == label_spec(*self),
    {
        match self {
            RegimeType::Zonal => "Zonal",
            RegimeType::Blocage => "Blocage",
            RegimeType::AnticycloneGroenlandais => "Anticyclone Groenlandais",
            RegimeType::ZonalMou => "Zonal Mou",
        }.to_owned()
    }

    /// Cells skipped between two consecutive drawn vector samples.
    pub fn step_size(&self) -> (r: usize)
        ensures
            r == step_size_spec(*self),
            1 <= r,
    {
        match self {
            RegimeType::Zonal => 4,
            RegimeType::Blocage | RegimeType::AnticycloneGroenlandais => 2,
            RegimeType::ZonalMou => 3,
        }
    }

    /// Vector length scale in hundredths of a plot unit per unit wind speed.
    pub fn scale_hundredths(&self) -> (r: u32)
        ensures
            r == scale_hundredths_spec(*self),
    {
        match self {
            RegimeType::Zonal => 500,
            RegimeType::Blocage | RegimeType::AnticycloneGroenlandais => 300,
            RegimeType::ZonalMou => 250,
        }
    }

    /// Only the zonal regime draws arrowheads, and only on high-speed vectors.
    pub fn draws_arrowheads(&self) -> (r: bool)
        ensures
            r == (*self is Zonal),
    {
        matches!(self, RegimeType::Zonal)
    }
}

} // verus!
