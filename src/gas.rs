//! Breathing mixes: fractions in percent, partial pressures, MOD and END.
use crate::arith::{lemma_mul_le, lemma_scaled_le};
use vstd::arithmetic::mul::lemma_mul_is_commutative;
use crate::units::{Depth, MAX_DEPTH_MM};
use vstd::prelude::*;
use vstd::string::StringExecFns;

verus! {

/// Nanobar in one bar.
pub const NBAR_PER_BAR: u64 = 1_000_000_000;

/// Alveolar water vapour pressure in nanobar (0.0627 bar).
pub const WATER_VAPOR_NBAR: u64 = 62_700_000;

/// Lowest and highest surface pressure in millibar that a model accepts.
pub const MIN_SURFACE_MBAR: u64 = 500;
pub const MAX_SURFACE_MBAR: u64 = 1500;

/// Lowest surface pressure in millibar at which the gas computations hold: the
/// ambient pressure stays above the water vapour pressure.
pub const MIN_AMBIENT_MBAR: u64 = 63;

/// Highest ambient pressure in nanobar that a valid depth and surface pressure give.
pub const MAX_AMBIENT_NBAR: u64 = 201_500_000_000;

/// Ambient pressure in nanobar at a depth in millimetres.
pub open spec fn ambient_nbar(surface_mbar: int, depth_mm: int) -> int {
    surface_mbar * 1_000_000 + depth_mm * 100_000
}

/// A surface pressure the gas and tissue computations accept.
pub open spec fn valid_surface(surface_mbar: int) -> bool {
    MIN_AMBIENT_MBAR <= surface_mbar <= MAX_SURFACE_MBAR
}

/// A breathing mix given by its oxygen, helium and nitrogen content in percent.
#[derive(Clone, Copy, Debug, PartialEq, Eq, Structural)]
pub struct Gas {
    pub o2: u64,
    pub he: u64,
    pub n2: u64,
}

/// Partial pressures of the three components, in nanobar.
#[derive(Clone, Copy, Debug, PartialEq, Eq, Structural)]
pub struct PartialPressures {
    pub o2: u64,
    pub n2: u64,
    pub he: u64,
}

#[derive(Clone, Copy, Debug, PartialEq, Eq, Structural)]
pub enum InertGas {
    Helium,
    Nitrogen,
}

pub open spec fn digit_char(d: int) -> char {
    if d == 0 {
        '0'
    } else if d == 1 {
        '1'
    } else if d == 2 {
        '2'
    } else if d == 3 {
        '3'
    } else if d == 4 {
        '4'
    } else if d == 5 {
        '5'
    } else if d == 6 {
        '6'
    } else if d == 7 {
        '7'
    } else if d == 8 {
        '8'
    } else {
        '9'
    }
}

/// Decimal digits of `n`, without leading zeros.
pub open spec fn decimal(n: nat) -> Seq<char>
    decreases n,
{
    if n < 10 {
        seq![digit_char(n as int)]
    } else {
        decimal(n / 10) + seq![digit_char((n % 10) as int)]
    }
}

fn digit_str(d: u64) -> (r: &'static str)
    requires
        d < 10,
    ensures
        r@ == seq![digit_char(d as int)],
{
    match d {
        0 => {
            proof {
                reveal_strlit("0");
            }
            "0"
        },
        1 => {
            proof {
                reveal_strlit("1");
            }
            "1"
        },
        2 => {
            proof {
                reveal_strlit("2");
            }
            "2"
        },
        3 => {
            proof {
                reveal_strlit("3");
            }
            "3"
        },
        4 => {
            proof {
                reveal_strlit("4");
            }
            "4"
        },
        5 => {
            proof {
                reveal_strlit("5");
            }
            "5"
        },
        6 => {
            proof {
                reveal_strlit("6");
            }
            "6"
        },
        7 => {
            proof {
                reveal_strlit("7");
            }
            "7"
        },
        8 => {
            proof {
                reveal_strlit("8");
            }
            "8"
        },
        _ => {
            proof {
                reveal_strlit("9");
            }
            "9"
        },
    }
}

/// Appends the decimal digits of `n`.
fn append_decimal(s: &mut String, n: u64)
    ensures
        final(s)@ == old(s)@ + decimal(n as nat),
    decreases n,
{
    if n >= 10 {
        append_decimal(s, n / 10);
    }
    s.append(digit_str(n % 10));
}

/// Share `pct` percent of a pressure, rounded down.
pub open spec fn share(pct: int, p: int) -> int {
    pct * p / 100
}

impl Gas {
    pub open spec fn wf(&self) -> bool {
        &&& self.o2 + self.he <= 100
        &&& self.n2 == 100 - self.o2 - self.he
    }

    /// Partial pressures of the mix at a total pressure in nanobar.
    pub open spec fn pressures_at(&self, p: int) -> PartialPressures {
        PartialPressures {
            o2: share(self.o2 as int, p) as u64,
            n2: share(self.n2 as int, p) as u64,
            he: share(self.he as int, p) as u64,
        }
    }

    /// Maximum operating depth in millimetres for an oxygen limit in millibar.
    pub open spec fn mod_mm(&self, limit_mbar: int) -> int {
        if self.o2 == 0 {
            MAX_DEPTH_MM as int
        } else if limit_mbar * 1000 / (self.o2 as int) <= 10_000 {
            0
        } else {
            limit_mbar * 1000 / (self.o2 as int) - 10_000
        }
    }

    /// Equivalent narcotic depth in millimetres.
    pub open spec fn end_mm(&self, depth_mm: int) -> int {
        let e = (depth_mm + 10_000) * (100 - self.he) / 100;
        if e <= 10_000 {
            0
        } else {
            e - 10_000
        }
    }

    /// A mix of `o2` percent oxygen and `he` percent helium, the rest nitrogen.
    pub fn new(o2: u64, he: u64) -> (r: Gas)
        requires
            o2 <= 100,
            he <= 100,
            o2 + he <= 100,
        ensures
            r.wf(),
            r.o2 == o2,
            r.he == he,
    {
        Gas { o2, he, n2: 100 - o2 - he }
    }

    pub open spec fn spec_air() -> Gas {
        Gas { o2: 21, he: 0, n2: 79 }
    }

    pub fn air() -> (r: Gas)
        ensures
            r.wf(),
            r == Gas::spec_air(),
    {
        Gas::new(21, 0)
    }

    /// "O2/He" in percent, as in "21/35".
    pub fn id(&self) -> (r: String)
        ensures
            r@ == decimal(self.o2 as nat) + seq!['/'] + decimal(self.he as nat),
    {
        let mut s = String::new();
        append_decimal(&mut s, self.o2);
        proof {
            reveal_strlit("/");
        }
        s.append("/");
        append_decimal(&mut s, self.he);
        proof {
            assert(s@ =~= decimal(self.o2 as nat) + seq!['/'] + decimal(self.he as nat));
        }
        s
    }

    /// Partial pressures at a total pressure in nanobar.
    pub fn gas_pressures_compound(&self, p: u64) -> (r: PartialPressures)
        requires
            self.wf(),
            p <= MAX_AMBIENT_NBAR,
        ensures
            r == self.pressures_at(p as int),
            r.o2 <= p,
            r.n2 <= p,
            r.he <= p,
    {
        proof {
            lemma_mul_le(self.o2 as int, p as int, 100, MAX_AMBIENT_NBAR as int);
            lemma_mul_le(self.n2 as int, p as int, 100, MAX_AMBIENT_NBAR as int);
            lemma_mul_le(self.he as int, p as int, 100, MAX_AMBIENT_NBAR as int);
            lemma_scaled_le(p as int, self.o2 as int, 100);
            lemma_scaled_le(p as int, self.n2 as int, 100);
            lemma_scaled_le(p as int, self.he as int, 100);
            lemma_mul_is_commutative(p as int, self.o2 as int);
            lemma_mul_is_commutative(p as int, self.n2 as int);
            lemma_mul_is_commutative(p as int, self.he as int);
        }
        PartialPressures {
            o2: self.o2 * p / 100,
            n2: self.n2 * p / 100,
            he: self.he * p / 100,
        }
    }

    /// Partial pressures at a depth, for a surface pressure in millibar.
    pub fn partial_pressures(&self, depth: Depth, surface_mbar: u64) -> (r: PartialPressures)
        requires
            self.wf(),
            depth.mm <= MAX_DEPTH_MM,
            valid_surface(surface_mbar as int),
        ensures
            r == self.pressures_at(ambient_nbar(surface_mbar as int, depth.mm as int)),
            r.o2 <= MAX_AMBIENT_NBAR,
            r.n2 <= MAX_AMBIENT_NBAR,
            r.he <= MAX_AMBIENT_NBAR,
    {
        let p = surface_mbar * 1_000_000 + depth.mm * 100_000;
        self.gas_pressures_compound(p)
    }

    /// Partial pressures in the alveoli, after water vapour.
    pub fn inspired_partial_pressures(&self, depth: Depth, surface_mbar: u64) -> (r:
        PartialPressures)
        requires
            self.wf(),
            depth.mm <= MAX_DEPTH_MM,
            valid_surface(surface_mbar as int),
        ensures
            r == self.pressures_at(
                ambient_nbar(surface_mbar as int, depth.mm as int) - WATER_VAPOR_NBAR,
            ),
            r.o2 <= MAX_AMBIENT_NBAR,
            r.n2 <= MAX_AMBIENT_NBAR,
            r.he <= MAX_AMBIENT_NBAR,
    {
        let p = surface_mbar * 1_000_000 + depth.mm * 100_000 - WATER_VAPOR_NBAR;
        self.gas_pressures_compound(p)
    }

    /// Maximum operating depth for an oxygen partial pressure limit in millibar.
    pub fn max_operating_depth(&self, limit_mbar: u64) -> (r: Depth)
        requires
            self.wf(),
            limit_mbar <= 10_000,
        ensures
            r.mm == self.mod_mm(limit_mbar as int),
    {
        if self.o2 == 0 {
            Depth { mm: MAX_DEPTH_MM }
        } else {
            let q = limit_mbar * 1000 / self.o2;
            if q <= 10_000 {
                Depth { mm: 0 }
            } else {
                Depth { mm: q - 10_000 }
            }
        }
    }

    /// Equivalent narcotic depth at a depth: the air depth of equal nitrogen and oxygen load.
    pub fn equivalent_narcotic_depth(&self, depth: Depth) -> (r: Depth)
        requires
            self.wf(),
            depth.mm <= MAX_DEPTH_MM,
        ensures
            r.mm == self.end_mm(depth.mm as int),
    {
        proof {
            lemma_mul_le(
                depth.mm + 10_000,
                100 - self.he,
                MAX_DEPTH_MM + 10_000,
                100,
            );
        }
        let e = (depth.mm + 10_000) * (100 - self.he) / 100;
        if e <= 10_000 {
            Depth { mm: 0 }
        } else {
            Depth { mm: e - 10_000 }
        }
    }
}

} // verus!
