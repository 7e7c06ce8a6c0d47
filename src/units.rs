//! Depth in millimetres and time in whole seconds.
use vstd::prelude::*;

verus! {

/// Deepest depth, in millimetres, that the model accepts (2 km).
pub const MAX_DEPTH_MM: u64 = 2_000_000;

/// Largest value accepted by the unit constructors.
pub const MAX_UNIT_VALUE: u64 = 1_000_000_000_000;

/// Millimetres in one foot, times ten.
pub const MM_PER_FOOT_X10: u64 = 3048;

pub enum Units {
    Metric,
    Imperial,
}

/// Millimetres for a value in whole metres or whole feet.
pub open spec fn mm_of_units(val: int, units: Units) -> int {
    match units {
        Units::Metric => val * 1000,
        Units::Imperial => (val * MM_PER_FOOT_X10 as int + 5) / 10,
    }
}

/// Whole metres or whole feet (rounded down) for a length in millimetres.
pub open spec fn units_of_mm(mm: int, units: Units) -> int {
    match units {
        Units::Metric => mm / 1000,
        Units::Imperial => mm * 10 / MM_PER_FOOT_X10 as int,
    }
}

/// A quantity with a base unit and a metric / imperial presentation.
pub trait Unit: Sized {
    spec fn spec_base(&self) -> int;

    fn from_units(val: u64, units: Units) -> (r: Self)
        requires
            val <= MAX_UNIT_VALUE,
        ensures
            r.spec_base() == mm_of_units(val as int, units),
    ;

    fn to_units(&self, units: Units) -> (r: u64)
        ensures
            r == units_of_mm(self.spec_base(), units),
    ;

    fn base_unit(&self) -> (r: u64)
        ensures
            r == self.spec_base(),
    ;
}

/// A depth below the surface, in millimetres.
#[derive(Clone, Copy, Debug, PartialEq, Eq, Structural)]
pub struct Depth {
    pub mm: u64,
}

impl Depth {
    pub fn zero() -> (r: Depth)
        ensures
            r.mm == 0,
    {
        Depth { mm: 0 }
    }

    pub fn from_millimeters(mm: u64) -> (r: Depth)
        ensures
            r.mm == mm,
    {
        Depth { mm }
    }

    pub fn from_meters(m: u64) -> (r: Depth)
        requires
            m <= MAX_UNIT_VALUE,
        ensures
            r.mm == m * 1000,
    {
        Depth { mm: m * 1000 }
    }

    /// Feet to millimetres, rounded to the nearest millimetre.
    pub fn from_feet(ft: u64) -> (r: Depth)
        requires
            ft <= MAX_UNIT_VALUE,
        ensures
            r.mm == (ft * MM_PER_FOOT_X10 + 5) / 10,
    {
        Depth { mm: (ft * MM_PER_FOOT_X10 + 5) / 10 }
    }

    pub fn as_millimeters(&self) -> (r: u64)
        ensures
            r == self.mm,
    {
        self.mm
    }

    /// Whole metres, rounded down.
    pub fn as_meters(&self) -> (r: u64)
        ensures
            r == self.mm / 1000,
    {
        self.mm / 1000
    }

    /// Whole feet, rounded down.
    pub fn as_feet(&self) -> (r: u64)
        ensures
            r == self.mm as int * 10 / MM_PER_FOOT_X10 as int,
    {
        (self.mm as u128 * 10 / MM_PER_FOOT_X10 as u128) as u64
    }
}

impl Unit for Depth {
    open spec fn spec_base(&self) -> int {
        self.mm as int
    }

    fn from_units(val: u64, units: Units) -> (r: Depth) {
        match units {
            Units::Metric => Depth::from_meters(val),
            Units::Imperial => Depth::from_feet(val),
        }
    }

    fn to_units(&self, units: Units) -> (r: u64) {
        match units {
            Units::Metric => self.as_meters(),
            Units::Imperial => self.as_feet(),
        }
    }

    fn base_unit(&self) -> (r: u64) {
        self.mm
    }
}

/// A duration in whole seconds.
#[derive(Clone, Copy, Debug, PartialEq, Eq, Structural)]
pub struct Time {
    pub s: u64,
}

impl Time {
    pub fn zero() -> (r: Time)
        ensures
            r.s == 0,
    {
        Time { s: 0 }
    }

    pub fn from_seconds(s: u64) -> (r: Time)
        ensures
            r.s == s,
    {
        Time { s }
    }

    pub fn from_minutes(min: u64) -> (r: Time)
        requires
            min <= MAX_UNIT_VALUE,
        ensures
            r.s == min * 60,
    {
        Time { s: min * 60 }
    }

    pub fn as_seconds(&self) -> (r: u64)
        ensures
            r == self.s,
    {
        self.s
    }

    /// Whole minutes, rounded down.
    pub fn as_minutes(&self) -> (r: u64)
        ensures
            r == self.s / 60,
    {
        self.s / 60
    }
}

} // verus!
