//! Model settings and their validation.
use crate::gas::{MAX_SURFACE_MBAR, MIN_SURFACE_MBAR};
use vstd::prelude::*;

verus! {

/// How the model reports its ceiling.
#[derive(Clone, Copy, Debug, PartialEq, Eq, Structural)]
pub enum CeilingType {
    /// The leading tissue's ceiling now.
    Actual,
    /// The ceiling left after ascending toward it at the deco ascent rate.
    Adaptive,
}

#[derive(Clone, Copy, Debug, PartialEq, Eq, Structural)]
pub enum NDLType {
    /// Counts off-gassing during the ascent.
    Actual,
    /// Ends the no-decompression time when the ceiling leaves the surface.
    ByCeiling,
}

/// A rejected configuration field and the reason.
#[derive(Debug, PartialEq, Eq)]
pub struct ConfigValidationErr {
    pub field: String,
    pub reason: String,
}

impl ConfigValidationErr {
    pub fn new(field: &str, reason: &str) -> (r: ConfigValidationErr)
        ensures
            r.field@ == field@,
            r.reason@ == reason@,
    {
        ConfigValidationErr { field: field.to_owned(), reason: reason.to_owned() }
    }
}

/// Settings of a Bühlmann model.
#[derive(Clone, Copy, Debug, PartialEq, Eq)]
pub struct BuhlmannConfig {
    /// Gradient factors (low, high) in percent.
    pub gf: (u8, u8),
    /// Surface pressure in millibar.
    pub surface_pressure: u64,
    /// Ascent rate of the deco schedule in metres per minute.
    pub deco_ascent_rate: u64,
    pub ceiling_type: CeilingType,
    /// Round ceilings up to whole metres.
    pub round_ceiling: bool,
    /// Apply the sloped gradient factor to every tissue, not only the leading one.
    pub recalc_all_tissues_m_values: bool,
}

pub open spec fn gf_valid(gf: (u8, u8)) -> bool {
    1 <= gf.0 <= 100 && 1 <= gf.1 <= 100 && gf.0 <= gf.1
}

/// Both gradient factors lie in 1..=100.
pub open spec fn gf_in_range(gf: (u8, u8)) -> bool {
    1 <= gf.0 <= 100 && 1 <= gf.1 <= 100
}

/// The error that validation reports for `c`: the first field out of range, and why.
pub open spec fn config_error(c: BuhlmannConfig, e: ConfigValidationErr) -> bool {
    if !gf_in_range(c.gf) {
        e.field@ == "gf"@ && e.reason@ == "GF values have to be in 1-100 range"@
    } else if !gf_valid(c.gf) {
        e.field@ == "gf"@ && e.reason@ == "GFLow can't be higher than GFHigh"@
    } else if !surface_pressure_valid(c.surface_pressure) {
        e.field@ == "surface_pressure"@ && e.reason@
            == "Surface pressure must be in milibars in 500-1500 range"@
    } else {
        e.field@ == "deco_ascent_rate"@ && e.reason@ == "Ascent rate must in 1-30 m/min range"@
    }
}

pub open spec fn surface_pressure_valid(p: u64) -> bool {
    MIN_SURFACE_MBAR <= p <= MAX_SURFACE_MBAR
}

pub open spec fn ascent_rate_valid(r: u64) -> bool {
    1 <= r <= 30
}

impl BuhlmannConfig {
    pub open spec fn valid(&self) -> bool {
        &&& gf_valid(self.gf)
        &&& surface_pressure_valid(self.surface_pressure)
        &&& ascent_rate_valid(self.deco_ascent_rate)
    }

    pub open spec fn spec_default() -> BuhlmannConfig {
        BuhlmannConfig {
            gf: (100, 100),
            surface_pressure: 1013,
            deco_ascent_rate: 10,
            ceiling_type: CeilingType::Actual,
            round_ceiling: false,
            recalc_all_tissues_m_values: true,
        }
    }

    /// GF 100/100, 1013 mbar, 10 m/min, actual ceiling, not rounded.
    pub fn new() -> (r: BuhlmannConfig)
        ensures
            r == BuhlmannConfig::spec_default(),
            r.valid(),
    {
        BuhlmannConfig {
            gf: (100, 100),
            surface_pressure: 1013,
            deco_ascent_rate: 10,
            ceiling_type: CeilingType::Actual,
            round_ceiling: false,
            recalc_all_tissues_m_values: true,
        }
    }

    pub fn with_gradient_factors(self, gf_low: u8, gf_high: u8) -> (r: BuhlmannConfig)
        ensures
            r == (BuhlmannConfig { gf: (gf_low, gf_high), ..self }),
    {
        BuhlmannConfig { gf: (gf_low, gf_high), ..self }
    }

    pub fn with_surface_pressure(self, surface_pressure: u64) -> (r: BuhlmannConfig)
        ensures
            r == (BuhlmannConfig { surface_pressure, ..self }),
    {
        BuhlmannConfig { surface_pressure, ..self }
    }

    pub fn with_deco_ascent_rate(self, deco_ascent_rate: u64) -> (r: BuhlmannConfig)
        ensures
            r == (BuhlmannConfig { deco_ascent_rate, ..self }),
    {
        BuhlmannConfig { deco_ascent_rate, ..self }
    }

    pub fn with_ceiling_type(self, ceiling_type: CeilingType) -> (r: BuhlmannConfig)
        ensures
            r == (BuhlmannConfig { ceiling_type, ..self }),
    {
        BuhlmannConfig { ceiling_type, ..self }
    }

    pub fn with_round_ceiling(self, round_ceiling: bool) -> (r: BuhlmannConfig)
        ensures
            r == (BuhlmannConfig { round_ceiling, ..self }),
    {
        BuhlmannConfig { round_ceiling, ..self }
    }

    pub fn with_all_m_values_recalculated(self, recalc_all_tissues_m_values: bool) -> (r:
        BuhlmannConfig)
        ensures
            r == (BuhlmannConfig { recalc_all_tissues_m_values, ..self }),
    {
        BuhlmannConfig { recalc_all_tissues_m_values, ..self }
    }

    pub fn gradient_factors(&self) -> (r: (u8, u8))
        ensures
            r == self.gf,
    {
        self.gf
    }

    pub fn surface_pressure(&self) -> (r: u64)
        ensures
            r == self.surface_pressure,
    {
        self.surface_pressure
    }

    pub fn deco_ascent_rate(&self) -> (r: u64)
        ensures
            r == self.deco_ascent_rate,
    {
        self.deco_ascent_rate
    }

    pub fn ceiling_type(&self) -> (r: CeilingType)
        ensures
            r == self.ceiling_type,
    {
        self.ceiling_type
    }

    pub fn round_ceiling(&self) -> (r: bool)
        ensures
            r == self.round_ceiling,
    {
        self.round_ceiling
    }

    /// Checks the gradient factors, then the surface pressure, then the ascent rate,
    /// and names the first field out of range.
    pub fn validate(&self) -> (r: Result<(), ConfigValidationErr>)
        ensures
            r is Ok <==> self.valid(),
            r matches Err(e) ==> config_error(*self, e),
    {
        match self.validate_gradient_factors() {
            Err(e) => return Err(e),
            Ok(()) => {},
        }
        match self.validate_surface_pressure() {
            Err(e) => return Err(e),
            Ok(()) => {},
        }
        self.validate_deco_ascent_rate()
    }

    fn validate_gradient_factors(&self) -> (r: Result<(), ConfigValidationErr>)
        ensures
            r is Ok <==> gf_valid(self.gf),
            r matches Err(e) ==> e.field@ == "gf"@,
            r matches Err(e) ==> (if !gf_in_range(self.gf) {
                e.reason@ == "GF values have to be in 1-100 range"@
            } else {
                e.reason@ == "GFLow can't be higher than GFHigh"@
            }),
    {
        let (gf_low, gf_high) = self.gf;
        if gf_low < 1 || gf_low > 100 || gf_high < 1 || gf_high > 100 {
            return Err(ConfigValidationErr::new("gf", "GF values have to be in 1-100 range"));
        }
        if gf_low > gf_high {
            return Err(ConfigValidationErr::new("gf", "GFLow can't be higher than GFHigh"));
        }
        Ok(())
    }

    fn validate_surface_pressure(&self) -> (r: Result<(), ConfigValidationErr>)
        ensures
            r is Ok <==> surface_pressure_valid(self.surface_pressure),
            r matches Err(e) ==> e.field@ == "surface_pressure"@ && e.reason@
                == "Surface pressure must be in milibars in 500-1500 range"@,
    {
        if self.surface_pressure < MIN_SURFACE_MBAR || self.surface_pressure > MAX_SURFACE_MBAR {
            return Err(
                ConfigValidationErr::new(
                    "surface_pressure",
                    "Surface pressure must be in milibars in 500-1500 range",
                ),
            );
        }
        Ok(())
    }

    fn validate_deco_ascent_rate(&self) -> (r: Result<(), ConfigValidationErr>)
        ensures
            r is Ok <==> ascent_rate_valid(self.deco_ascent_rate),
            r matches Err(e) ==> e.field@ == "deco_ascent_rate"@ && e.reason@
                == "Ascent rate must in 1-30 m/min range"@,
    {
        if self.deco_ascent_rate < 1 || self.deco_ascent_rate > 30 {
            return Err(
                ConfigValidationErr::new("deco_ascent_rate", "Ascent rate must in 1-30 m/min range"),
            );
        }
        Ok(())
    }
}

impl Default for BuhlmannConfig {
    fn default() -> (r: BuhlmannConfig)
        ensures
            r == BuhlmannConfig::spec_default(),
    {
        BuhlmannConfig::new()
    }
}

} // verus!
