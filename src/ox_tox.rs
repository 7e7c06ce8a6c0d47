//! Oxygen toxicity: CNS percentage and pulmonary OTU.
use crate::arith::{lemma_div_le_self, lemma_mul_le, lemma_scaled_le, mul_div};
use crate::compartment::{decay_factor, decay_pow, inspired};
use crate::gas::{valid_surface, Gas, MAX_AMBIENT_NBAR};
use crate::units::{Depth, Time, MAX_DEPTH_MM};
use crate::zhl::DECAY_SCALE;
use vstd::prelude::*;

verus! {

/// Longest single record in seconds.
pub const MAX_RECORD_SECONDS: u64 = 1_000_000_000;

/// 2^(-1 s / 90 min) scaled by `DECAY_SCALE`: the CNS elimination half-time.
pub const CNS_DECAY_PER_SECOND: u128 = 999871647648875344;

/// Oxygen pressure in nanobar below which no CNS or OTU dose accrues (0.5 bar).
pub const PP_O2_LOW_NBAR: u64 = 500_000_000;

/// Oxygen pressure in nanobar above which CNS rises at a fixed rate (1.6 bar).
pub const PP_O2_HIGH_NBAR: u64 = 1_600_000_000;

/// Seconds to a full CNS dose above the table's range.
pub const CNS_LIMIT_OVER_MAX_PP_O2_SECONDS: u64 = 400;

/// Oxygen toxicity dose: CNS in billionths of a percent, OTU in billionths of a unit.
#[derive(Clone, Copy, Debug, PartialEq, Eq, Structural)]
pub struct OxTox {
    pub cns: u64,
    pub otu: u64,
}

/// Coefficients (|slope|, intercept) of the CNS time limit, t_lim = intercept - |slope| ppO2,
/// for an oxygen pressure in nanobar; ranges exclude their start and include their end.
pub open spec fn cns_row(pp: int) -> Option<(u64, u64)> {
    if 500_000_000 < pp <= 600_000_000 {
        Some((1800u64, 1800u64))
    } else if 600_000_000 < pp <= 700_000_000 {
        Some((1500u64, 1620u64))
    } else if 700_000_000 < pp <= 800_000_000 {
        Some((1200u64, 1410u64))
    } else if 800_000_000 < pp <= 900_000_000 {
        Some((900u64, 1170u64))
    } else if 900_000_000 < pp <= 1_100_000_000 {
        Some((600u64, 900u64))
    } else if 1_100_000_000 < pp <= 1_500_000_000 {
        Some((300u64, 570u64))
    } else if 1_500_000_000 < pp <= 1_600_000_000 {
        Some((750u64, 1245u64))
    } else {
        None
    }
}

/// CNS limit in billionths of a minute for an oxygen pressure in nanobar.
pub open spec fn t_lim(slope: int, intercept: int, pp: int) -> int {
    intercept * 1_000_000_000 - slope * pp
}

pub open spec fn add_sat(a: int, b: int) -> int {
    if a + b > u64::MAX {
        u64::MAX as int
    } else {
        a + b
    }
}

/// CNS after `t` seconds at oxygen pressure `pp`; `at_surface` when the depth is zero.
pub open spec fn cns_after(cns: int, pp: int, at_surface: bool, t: int) -> int {
    match cns_row(pp) {
        Some(row) => add_sat(
            cns,
            t * 100_000_000_000_000_000_000 / (60 * t_lim(row.0 as int, row.1 as int, pp)),
        ),
        None => if at_surface && pp <= PP_O2_LOW_NBAR {
            cns * decay_pow(CNS_DECAY_PER_SECOND as int, t as nat) / (DECAY_SCALE as int)
        } else if pp > PP_O2_HIGH_NBAR {
            add_sat(cns, t * 250_000_000)
        } else {
            cns
        },
    }
}

pub open spec fn pow6(r: int) -> int {
    r * r * r * r * r * r
}

/// The integer sixth root: the largest `r` with r^6 <= v.
pub open spec fn is_root6(r: int, v: int) -> bool {
    0 <= r && pow6(r) <= v < pow6(r + 1)
}

pub open spec fn root6(v: int) -> int {
    choose|r: int| is_root6(r, v)
}

/// ((ppO2 - 0.5) / 0.5)^(5/6) in ten-thousandths, for an oxygen pressure in nanobar.
pub open spec fn otu_rate(pp: int) -> int {
    let x = (2 * pp - 1_000_000_000) / 100_000;
    root6(x * x * x * x * x * 10_000)
}

/// OTU after `t` seconds at oxygen pressure `pp`: t/60 ((ppO2 - 0.5) / 0.5)^0.8333,
/// the exponent taken as 5/6.
pub open spec fn otu_after(otu: int, pp: int, t: int) -> int {
    if pp >= PP_O2_LOW_NBAR {
        add_sat(otu, t * otu_rate(pp) * 100_000 / 60)
    } else {
        otu
    }
}

proof fn lemma_cns_row(pp: int)
    requires
        cns_row(pp) is Some,
    ensures
        ({
            let (s, i) = cns_row(pp)->0;
            &&& s <= 1800
            &&& i <= 1800
            &&& s * pp <= 1800 * 1_600_000_000int
            &&& t_lim(s as int, i as int, pp) >= 45_000_000_000
        }),
{
    let (s, i) = cns_row(pp)->0;
    assert(s * pp <= 1800 * 1_600_000_000int && t_lim(s as int, i as int, pp) >= 45_000_000_000) by (nonlinear_arith)
        requires
            cns_row(pp) == Some((s, i)),
            cns_row(pp) is Some,
    {
    }
}

proof fn lemma_pow6_mono(a: int, b: int)
    requires
        0 <= a <= b,
    ensures
        0 <= pow6(a) <= pow6(b),
{
    lemma_mul_le(a, a, b, b);
    lemma_mul_le(a * a, a, b * b, b);
    lemma_mul_le(a * a * a, a, b * b * b, b);
    lemma_mul_le(a * a * a * a, a, b * b * b * b, b);
    lemma_mul_le(a * a * a * a * a, a, b * b * b * b * b, b);
}

proof fn lemma_root6_unique(r: int, v: int)
    requires
        is_root6(r, v),
    ensures
        root6(v) == r,
{
    let c = root6(v);
    assert(is_root6(c, v));
    if c < r {
        lemma_pow6_mono(c + 1, r);
    } else if r < c {
        lemma_pow6_mono(r + 1, c);
    }
}

/// Largest `r` with r^6 <= v, by bisection.
fn sixth_root(v: u128) -> (r: u128)
    requires
        v < 64_000_000_000_000_000_000_000_000_000_000_000_000,
    ensures
        r == root6(v as int),
        is_root6(r as int, v as int),
{
    let mut lo: u128 = 0;
    let mut hi: u128 = 2_000_000;
    assert(pow6(2_000_000) == 64_000_000_000_000_000_000_000_000_000_000_000_000);
    while lo + 1 < hi
        invariant
            lo < hi <= 2_000_000,
            pow6(lo as int) <= v,
            v < pow6(hi as int),
        decreases hi - lo,
    {
        let mid = lo + (hi - lo) / 2;
        proof {
            let b: int = 2_000_000;
            let mi = mid as int;
            lemma_mul_le(mi, mi, b, b);
            lemma_mul_le(mi * mi, mi, b * b, b);
            lemma_mul_le(mi * mi * mi, mi, b * b * b, b);
            lemma_mul_le(mi * mi * mi * mi, mi, b * b * b * b, b);
            lemma_mul_le(mi * mi * mi * mi * mi, mi, b * b * b * b * b, b);
        }
        let m6 = mid * mid * mid * mid * mid * mid;
        if m6 <= v {
            lo = mid;
        } else {
            hi = mid;
        }
    }
    proof {
        lemma_root6_unique(lo as int, v as int);
    }
    lo
}

impl OxTox {
    pub fn new() -> (r: OxTox)
        ensures
            r.cns == 0,
            r.otu == 0,
    {
        OxTox { cns: 0, otu: 0 }
    }

    pub fn cns(&self) -> (r: u64)
        ensures
            r == self.cns,
    {
        self.cns
    }

    pub fn otu(&self) -> (r: u64)
        ensures
            r == self.otu,
    {
        self.otu
    }

    /// CNS table coefficients for an oxygen pressure in nanobar.
    pub fn assign_cns_coeffs(pp: u64) -> (r: Option<(u64, u64)>)
        ensures
            r == cns_row(pp as int),
    {
        if 500_000_000 < pp && pp <= 600_000_000 {
            Some((1800, 1800))
        } else if 600_000_000 < pp && pp <= 700_000_000 {
            Some((1500, 1620))
        } else if 700_000_000 < pp && pp <= 800_000_000 {
            Some((1200, 1410))
        } else if 800_000_000 < pp && pp <= 900_000_000 {
            Some((900, 1170))
        } else if 900_000_000 < pp && pp <= 1_100_000_000 {
            Some((600, 900))
        } else if 1_100_000_000 < pp && pp <= 1_500_000_000 {
            Some((300, 570))
        } else if 1_500_000_000 < pp && pp <= 1_600_000_000 {
            Some((750, 1245))
        } else {
            None
        }
    }

    /// Adds the dose of `time` at `depth` on `gas`, and eliminates CNS at the surface.
    pub fn recalculate(&mut self, depth: Depth, time: Time, gas: &Gas, surface_mbar: u64)
        requires
            depth.mm <= MAX_DEPTH_MM,
            time.s <= MAX_RECORD_SECONDS,
            gas.wf(),
            valid_surface(surface_mbar as int),
        ensures
            final(self).cns == cns_after(
                old(self).cns as int,
                inspired(*gas, depth.mm as int, surface_mbar as int).o2 as int,
                depth.mm == 0,
                time.s as int,
            ),
            final(self).otu == otu_after(
                old(self).otu as int,
                inspired(*gas, depth.mm as int, surface_mbar as int).o2 as int,
                time.s as int,
            ),
    {
        let pp = gas.inspired_partial_pressures(depth, surface_mbar).o2;
        self.recalculate_cns(pp, depth.mm == 0, time.s);
        self.recalculate_otu(pp, time.s);
    }

    fn recalculate_cns(&mut self, pp: u64, at_surface: bool, t: u64)
        requires
            pp <= MAX_AMBIENT_NBAR,
            t <= MAX_RECORD_SECONDS,
        ensures
            final(self).cns == cns_after(old(self).cns as int, pp as int, at_surface, t as int),
            final(self).otu == old(self).otu,
    {
        match OxTox::assign_cns_coeffs(pp) {
            Some((slope, intercept)) => {
                proof {
                    lemma_cns_row(pp as int);
                }
                let lim: u128 = intercept as u128 * 1_000_000_000 - slope as u128 * pp as u128;
                assert(lim >= 45_000_000_000);
                let delta: u128 = t as u128 * 100_000_000_000_000_000_000 / (60 * lim);
                proof {
                    lemma_div_le_self(t as int * 100_000_000_000_000_000_000, 60 * lim as int);
                    vstd::arithmetic::div_mod::lemma_div_is_ordered_by_denominator(
                        t as int * 100_000_000_000_000_000_000,
                        60 * 45_000_000_000int,
                        60 * lim as int,
                    );
                }
                self.cns = add_sat_exec(self.cns, delta);
            },
            None => {
                if at_surface && pp <= PP_O2_LOW_NBAR {
                    let d = decay_factor(CNS_DECAY_PER_SECOND, t);
                    proof {
                        lemma_mul_le(self.cns as int, d as int, u64::MAX as int, DECAY_SCALE as int);
                        lemma_scaled_le(self.cns as int, d as int, DECAY_SCALE as int);
                    }
                    self.cns = mul_div(self.cns as u128, d, DECAY_SCALE) as u64;
                } else if pp > PP_O2_HIGH_NBAR {
                    self.cns = add_sat_exec(self.cns, t as u128 * 250_000_000);
                }
            },
        }
    }

    fn recalculate_otu(&mut self, pp: u64, t: u64)
        requires
            pp <= MAX_AMBIENT_NBAR,
            t <= MAX_RECORD_SECONDS,
        ensures
            final(self).otu == otu_after(old(self).otu as int, pp as int, t as int),
            final(self).cns == old(self).cns,
    {
        if pp >= PP_O2_LOW_NBAR {
            let x: u128 = (2 * pp as u128 - 1_000_000_000) / 100_000;
            assert(x <= 4_030_000);
            proof {
                lemma_pow6_mono(x as int, 4_030_000);
                let b: int = 4_030_000;
                let xi = x as int;
                lemma_mul_le(xi, xi, b, b);
                lemma_mul_le(xi * xi, xi, b * b, b);
                lemma_mul_le(xi * xi * xi, xi, b * b * b, b);
                lemma_mul_le(xi * xi * xi * xi, xi, b * b * b * b, b);
            }
            let v = x * x * x * x * x * 10_000;
            let y = sixth_root(v);
            proof {
                assert(pow6(y as int) <= v);
                if y > 2_000_000 {
                    lemma_pow6_mono(2_000_000, y as int);
                    assert(pow6(2_000_000) == 64_000_000_000_000_000_000_000_000_000_000_000_000);
                }
                lemma_mul_le(t as int, y as int, MAX_RECORD_SECONDS as int, 2_000_000);
            }
            let delta: u128 = t as u128 * y * 100_000 / 60;
            self.otu = add_sat_exec(self.otu, delta);
        }
    }
}

impl Default for OxTox {
    fn default() -> (r: OxTox)
        ensures
            r.cns == 0,
            r.otu == 0,
    {
        OxTox::new()
    }
}

fn add_sat_exec(a: u64, b: u128) -> (r: u64)
    requires
        b <= u64::MAX as u128 * 1000,
    ensures
        r == add_sat(a as int, b as int),
{
    if a as u128 + b > u64::MAX as u128 {
        u64::MAX
    } else {
        (a as u128 + b) as u64
    }
}

} // verus!
