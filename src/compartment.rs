//! One tissue: Haldane saturation, gradient-factor tolerance, ceiling and supersaturation.
use crate::arith::{lemma_div_le, lemma_div_le_self, lemma_mul_le, lemma_scaled_le, mul_div};
use crate::gas::{
    ambient_nbar, valid_surface, Gas, PartialPressures, MAX_AMBIENT_NBAR, NBAR_PER_BAR,
    WATER_VAPOR_NBAR,
};
use crate::units::{Depth, Time, MAX_DEPTH_MM};
use crate::zhl::{ZhlParams, DECAY_SCALE, MIN_DECAY_LOSS};
use vstd::arithmetic::power2::{lemma2_to64, lemma2_to64_rest, lemma_pow2_pos, lemma_pow2_unfold, pow2};
use vstd::arithmetic::div_mod::*;
use vstd::arithmetic::mul::*;
use vstd::prelude::*;

verus! {

/// Lowest tolerable ambient pressure a valid compartment can hold (-10 bar).
pub const MIN_TOLERABLE_NBAR: i64 = -10_000_000_000;

/// `k^t` in fixed point, each product rounded down.
pub open spec fn decay_pow(k: int, t: nat) -> int
    decreases t,
{
    if t == 0 {
        DECAY_SCALE as int
    } else {
        decay_pow(k, (t - 1) as nat) * k / (DECAY_SCALE as int)
    }
}

/// Haldane's equation: the load `p` after `t` seconds of breathing `pi`, with a
/// per-second decay factor `k`.
pub open spec fn haldane(p: int, pi: int, k: int, t: nat) -> int {
    let f = DECAY_SCALE as int - decay_pow(k, t);
    if pi >= p {
        p + (pi - p) * f / (DECAY_SCALE as int)
    } else {
        p - (p - pi) * f / (DECAY_SCALE as int)
    }
}

/// A coefficient weighted by the helium and nitrogen loads, scaled from
/// ten-thousandths to nano-units. Nitrogen's alone when both loads are zero.
pub open spec fn weighted(he_c: int, he_p: int, n2_c: int, n2_p: int) -> int {
    if he_p + n2_p == 0 {
        n2_c * 100_000
    } else {
        (he_c * he_p + n2_c * n2_p) * 100_000 / (he_p + n2_p)
    }
}

/// `a` adjusted by a gradient factor in percent.
pub open spec fn gf_a(a: int, gf: int) -> int {
    a * gf / 100
}

/// `b` adjusted by a gradient factor in percent: b / (G - G b + b).
pub open spec fn gf_b(b: int, gf: int) -> int {
    let g = gf * 10_000_000;
    b * (NBAR_PER_BAR as int) / (g + b - g * b / (NBAR_PER_BAR as int))
}

/// Tolerable ambient pressure (P - a) b, rounded toward zero.
pub open spec fn tolerable(total: int, a: int, b: int) -> int {
    if total >= a {
        (total - a) * b / (NBAR_PER_BAR as int)
    } else {
        -((a - total) * b / (NBAR_PER_BAR as int))
    }
}

/// Depth in millimetres, rounded up, at which a tolerable pressure is reached.
pub open spec fn ceiling_mm(tol: int, surface_mbar: int) -> int {
    let s = surface_mbar * 1_000_000;
    if tol > s {
        (tol - s + 99_999) / 100_000
    } else {
        0
    }
}

/// Division rounded toward zero.
pub open spec fn trunc_div(n: int, d: int) -> int {
    if n >= 0 {
        n / d
    } else {
        -((-n) / d)
    }
}

/// Share of the M-value gradient used at ambient pressure `p`, in hundredths of a percent.
pub open spec fn gradient_used(total: int, a: int, b: int, p: int) -> int {
    let m = a + p * (NBAR_PER_BAR as int) / b;
    trunc_div((total - p) * 10_000, m - p)
}

/// Gradient factors in use, in hundredths of a percent: at the current
/// ambient pressure and at the surface.
#[derive(Clone, Copy, Debug, PartialEq, Eq, Structural)]
pub struct Supersaturation {
    pub gf_99: i64,
    pub gf_surf: i64,
}

/// One theoretical tissue.
#[derive(Clone, Copy, Debug, PartialEq, Eq, Structural)]
pub struct Compartment {
    /// Tissue number, 1 to 16.
    pub no: u64,
    /// Tolerable ambient pressure in nanobar.
    pub min_tolerable_amb_pressure: i64,
    /// Helium load in nanobar.
    pub he_ip: u64,
    /// Nitrogen load in nanobar.
    pub n2_ip: u64,
    /// Helium and nitrogen load together.
    pub total_ip: u64,
    pub params: ZhlParams,
}

proof fn lemma_decay_bounds(k: int, t: nat)
    requires
        0 <= k <= DECAY_SCALE,
    ensures
        0 <= decay_pow(k, t) <= DECAY_SCALE,
    decreases t,
{
    if t > 0 {
        lemma_decay_bounds(k, (t - 1) as nat);
        lemma_scaled_le(decay_pow(k, (t - 1) as nat), k, DECAY_SCALE as int);
    }
}

/// Seconds in one halving block of the decay factors of the table.
pub const HALVING_SECONDS: u64 = 111_112;

/// Seconds after which every decay factor of the table has run down to zero (about 80 days).
pub const DECAY_RUNOUT_SECONDS: u64 = 62 * 111_112 + 2;

/// `t` more decay steps from a fixed-point value `x`.
pub open spec fn decay_from(x: int, k: int, t: nat) -> int
    decreases t,
{
    if t == 0 {
        x
    } else {
        decay_from(x, k, (t - 1) as nat) * k / (DECAY_SCALE as int)
    }
}

proof fn lemma_decay_pow_from(k: int, t: nat)
    ensures
        decay_pow(k, t) == decay_from(DECAY_SCALE as int, k, t),
    decreases t,
{
    if t > 0 {
        lemma_decay_pow_from(k, (t - 1) as nat);
    }
}

/// One decay step loses at least `x (1 - k)` rounded down, and at least one unit.
proof fn lemma_decay_step(x: int, k: int)
    requires
        0 <= x,
        0 <= k < DECAY_SCALE,
    ensures
        0 <= x * k / (DECAY_SCALE as int) <= x - x * (DECAY_SCALE as int - k) / (DECAY_SCALE as int),
        x > 0 ==> x * k / (DECAY_SCALE as int) <= x - 1,
{
    let f = DECAY_SCALE as int;
    let c = f - k;
    let q = x * c / f;
    let r = x * c % f;
    lemma_mul_nonnegative(x, c);
    lemma_fundamental_div_mod(x * c, f);
    lemma_div_pos_is_pos(x * c, f);
    lemma_mod_bound(x * c, f);
    assert(x * k == (x - q) * f - r) by (nonlinear_arith)
        requires
            x * c == f * q + r,
            c == f - k,
    ;
    if r == 0 {
        lemma_fundamental_div_mod_converse(x * k, f, x - q, 0);
    } else {
        assert(x * k == (x - q - 1) * f + (f - r)) by (nonlinear_arith)
            requires
                x * k == (x - q) * f - r,
        ;
        lemma_fundamental_div_mod_converse(x * k, f, x - q - 1, f - r);
    }
    lemma_mul_nonnegative(x, k);
    lemma_div_pos_is_pos(x * k, f);
    if x > 0 {
        lemma_mul_strictly_positive(x, c);
    }
}

proof fn lemma_decay_from_mono(x: int, y: int, k: int, t: nat)
    requires
        0 <= x <= y,
        0 <= k < DECAY_SCALE,
    ensures
        0 <= decay_from(x, k, t) <= decay_from(y, k, t),
    decreases t,
{
    if t > 0 {
        let t1 = (t - 1) as nat;
        lemma_decay_from_mono(x, y, k, t1);
        let a = decay_from(x, k, t1);
        let b = decay_from(y, k, t1);
        lemma_mul_inequality(a, b, k);
        lemma_div_is_ordered(a * k, b * k, DECAY_SCALE as int);
        lemma_decay_step(a, k);
    }
}

proof fn lemma_decay_from_le(x: int, k: int, t: nat)
    requires
        0 <= x,
        0 <= k < DECAY_SCALE,
    ensures
        0 <= decay_from(x, k, t) <= x,
    decreases t,
{
    if t > 0 {
        lemma_decay_from_le(x, k, (t - 1) as nat);
        lemma_decay_step(decay_from(x, k, (t - 1) as nat), k);
    }
}

proof fn lemma_decay_from_split(x: int, k: int, a: nat, b: nat)
    ensures
        decay_from(x, k, a + b) == decay_from(decay_from(x, k, a), k, b),
    decreases b,
{
    if b > 0 {
        lemma_decay_from_split(x, k, a, (b - 1) as nat);
        assert((a + b - 1) as nat == a + (b - 1) as nat);
    }
}

/// While above `x / 2`, every step of a block loses at least `delta`.
proof fn lemma_decay_block(x: int, k: int, j: nat)
    requires
        0 <= x,
        0 <= k < DECAY_SCALE,
    ensures
        decay_from(x, k, j) < x / 2 || decay_from(x, k, j) <= x - j * ((x / 2) * (
        DECAY_SCALE as int - k) / (DECAY_SCALE as int)),
    decreases j,
{
    let dd = (x / 2) * (DECAY_SCALE as int - k) / (DECAY_SCALE as int);
    if j == 0 {
        assert(j * dd == 0) by (nonlinear_arith)
            requires
                j == 0,
        ;
    } else {
        let j1 = (j - 1) as nat;
        lemma_decay_block(x, k, j1);
        let v = decay_from(x, k, j1);
        let y = x / 2;
        let c = DECAY_SCALE as int - k;
        let delta = y * c / (DECAY_SCALE as int);
        lemma_decay_from_le(x, k, j1);
        lemma_decay_step(v, k);
        if v >= y {
            lemma_mul_inequality(y, v, c);
            lemma_div_is_ordered(y * c, v * c, DECAY_SCALE as int);
            assert(x - j1 * delta - delta == x - j * delta) by (nonlinear_arith)
                requires
                    j1 == j - 1,
            ;
        }
    }
}

/// A block of `HALVING_SECONDS` halves any value of at least `2 * HALVING_SECONDS + 2`.
proof fn lemma_decay_halves(x: int, k: int)
    requires
        2 * HALVING_SECONDS + 2 <= x,
        0 <= k <= DECAY_SCALE - MIN_DECAY_LOSS,
    ensures
        decay_from(x, k, HALVING_SECONDS as nat) <= x / 2,
{
    let n = HALVING_SECONDS as int;
    let f = DECAY_SCALE as int;
    let y = x / 2;
    let c = f - k;
    let delta = y * c / f;
    lemma_decay_block(x, k, HALVING_SECONDS as nat);
    lemma_fundamental_div_mod(y * c, f);
    lemma_mod_bound(y * c, f);
    lemma_mul_inequality(MIN_DECAY_LOSS as int, c, y);
    assert(n * delta >= 2 * y - n) by (nonlinear_arith)
        requires
            y * c == f * delta + (y * c) % f,
            0 <= (y * c) % f < f,
            y * (MIN_DECAY_LOSS as int) <= c * y,
            n * (MIN_DECAY_LOSS as int) >= 2 * f,
            f > 0,
            y >= 0,
            n > 0,
    ;
}

/// Halving blocks: after `m` of them the value is small, or at most `x / 2^m`.
proof fn lemma_decay_halvings(x: int, k: int, m: nat)
    requires
        0 <= x,
        0 <= k <= DECAY_SCALE - MIN_DECAY_LOSS,
    ensures
        ({
            let v = decay_from(x, k, m * HALVING_SECONDS as nat);
            v < 2 * HALVING_SECONDS + 2 || v * pow2(m) <= x
        }),
    decreases m,
{
    if m == 0 {
        assert(pow2(0) == 1) by {
            lemma2_to64();
        }
    } else {
        let m1 = (m - 1) as nat;
        let n = HALVING_SECONDS as nat;
        lemma_decay_halvings(x, k, m1);
        assert(m * n == m1 * n + n) by (nonlinear_arith)
            requires
                m1 == m - 1,
        ;
        lemma_decay_from_split(x, k, m1 * n, n);
        let v = decay_from(x, k, m1 * n);
        lemma_decay_from_le(x, k, m1 * n);
        lemma_decay_from_le(v, k, n);
        lemma_pow2_unfold(m);
        lemma_pow2_pos(m1);
        if v >= 2 * HALVING_SECONDS + 2 {
            lemma_decay_halves(v, k);
            let w = decay_from(v, k, n);
            assert(w * pow2(m) <= x) by (nonlinear_arith)
                requires
                    0 <= w <= v / 2,
                    pow2(m) == 2 * pow2(m1),
                    v * pow2(m1) <= x,
                    pow2(m1) > 0,
            ;
        }
    }
}

/// A positive value loses at least one unit a step.
proof fn lemma_decay_countdown(x: int, k: int, t: nat)
    requires
        0 <= x,
        0 <= k < DECAY_SCALE,
    ensures
        decay_from(x, k, t) <= if x - t > 0 { x - t } else { 0 },
    decreases t,
{
    if t > 0 {
        lemma_decay_countdown(x, k, (t - 1) as nat);
        lemma_decay_from_le(x, k, (t - 1) as nat);
        lemma_decay_step(decay_from(x, k, (t - 1) as nat), k);
    }
}

/// Every decay factor of the table runs down to zero within `DECAY_RUNOUT_SECONDS`.
pub proof fn lemma_decay_runs_out_in_time(k: int, t: nat)
    requires
        0 <= k <= DECAY_SCALE - MIN_DECAY_LOSS,
        t >= DECAY_RUNOUT_SECONDS,
    ensures
        decay_pow(k, t) == 0,
{
    let f = DECAY_SCALE as int;
    let n = HALVING_SECONDS as nat;
    let a = 60 * n;
    lemma_decay_pow_from(k, t);
    lemma_decay_halvings(f, k, 60);
    lemma2_to64_rest();
    let v = decay_from(f, k, a);
    lemma_decay_from_le(f, k, a);
    if v >= 2 * HALVING_SECONDS + 2 {
        assert(v * pow2(60) <= f);
        assert(v == 0) by (nonlinear_arith)
            requires
                v * 0x1000000000000000 <= f,
                f == 1_000_000_000_000_000_000,
                v >= 0,
        ;
    }
    assert(v < 2 * HALVING_SECONDS + 2);
    let rest = (t - a) as nat;
    assert(a + rest == t);
    assert(rest >= 2 * HALVING_SECONDS + 2);
    lemma_decay_from_split(f, k, a, rest);
    lemma_decay_countdown(v, k, rest);
    assert(decay_from(v, k, rest) <= 0);
    lemma_decay_from_le(v, k, rest);
}

pub proof fn lemma_haldane_between(p: int, pi: int, k: int, t: nat)
    requires
        0 <= p,
        0 <= pi,
        0 <= k <= DECAY_SCALE,
    ensures
        pi >= p ==> p <= haldane(p, pi, k, t) <= pi,
        pi < p ==> pi <= haldane(p, pi, k, t) <= p,
{
    lemma_decay_bounds(k, t);
    let f = DECAY_SCALE as int - decay_pow(k, t);
    if pi >= p {
        lemma_scaled_le(pi - p, f, DECAY_SCALE as int);
    } else {
        lemma_scaled_le(p - pi, f, DECAY_SCALE as int);
    }
}

proof fn lemma_weighted_bounds(he_c: int, he_p: int, n2_c: int, n2_p: int, lo: int, hi: int)
    requires
        0 <= lo <= he_c <= hi,
        lo <= n2_c <= hi,
        0 <= he_p,
        0 <= n2_p,
    ensures
        lo * 100_000 <= weighted(he_c, he_p, n2_c, n2_p) <= hi * 100_000,
{
    let s = he_p + n2_p;
    if s != 0 {
        let x = (he_c * he_p + n2_c * n2_p) * 100_000;
        lemma_mul_inequality(he_c, hi, he_p);
        lemma_mul_inequality(n2_c, hi, n2_p);
        lemma_mul_inequality(lo, he_c, he_p);
        lemma_mul_inequality(lo, n2_c, n2_p);
        assert(x <= (hi * 100_000) * s) by (nonlinear_arith)
            requires
                x == (he_c * he_p + n2_c * n2_p) * 100_000,
                he_c * he_p <= hi * he_p,
                n2_c * n2_p <= hi * n2_p,
                s == he_p + n2_p,
        ;
        assert(x >= (lo * 100_000) * s) by (nonlinear_arith)
            requires
                x == (he_c * he_p + n2_c * n2_p) * 100_000,
                lo * he_p <= he_c * he_p,
                lo * n2_p <= n2_c * n2_p,
                s == he_p + n2_p,
        ;
        lemma_div_is_ordered(x, (hi * 100_000) * s, s);
        lemma_div_is_ordered((lo * 100_000) * s, x, s);
        lemma_div_multiples_vanish(hi * 100_000, s);
        lemma_div_multiples_vanish(lo * 100_000, s);
    }
}

/// `k^t` in fixed point.
pub(crate) fn decay_factor(k: u128, t: u64) -> (r: u128)
    requires
        k <= DECAY_SCALE,
    ensures
        r == decay_pow(k as int, t as nat),
        r <= DECAY_SCALE,
{
    let mut acc: u128 = DECAY_SCALE;
    let mut i: u64 = 0;
    while i < t
        invariant
            i <= t,
            k <= DECAY_SCALE,
            acc == decay_pow(k as int, i as nat),
            acc <= DECAY_SCALE,
        decreases t - i,
    {
        proof {
            lemma_mul_le(acc as int, k as int, DECAY_SCALE as int, DECAY_SCALE as int);
            lemma_scaled_le(acc as int, k as int, DECAY_SCALE as int);
        }
        acc = acc * k / DECAY_SCALE;
        i = i + 1;
    }
    acc
}

/// Inert gas load after `t` seconds of breathing an inspired pressure `pi`.
fn haldane_load(p: u64, pi: u64, k: u128, t: u64) -> (r: u64)
    requires
        k <= DECAY_SCALE,
    ensures
        r == haldane(p as int, pi as int, k as int, t as nat),
        pi >= p ==> p <= r <= pi,
        pi < p ==> pi <= r <= p,
{
    let d = decay_factor(k, t);
    let f = DECAY_SCALE - d;
    proof {
        lemma_haldane_between(p as int, pi as int, k as int, t as nat);
    }
    if pi >= p {
        proof {
            lemma_mul_le((pi as int - p as int), f as int, u64::MAX as int, DECAY_SCALE as int);
        }
        let delta = mul_div((pi - p) as u128, f, DECAY_SCALE);
        (p as u128 + delta) as u64
    } else {
        proof {
            lemma_mul_le((p as int - pi as int), f as int, u64::MAX as int, DECAY_SCALE as int);
        }
        let delta = mul_div((p - pi) as u128, f, DECAY_SCALE);
        (p as u128 - delta) as u64
    }
}

/// A coefficient weighted by the two loads.
fn weighted_param(he_c: u64, he_p: u64, n2_c: u64, n2_p: u64) -> (r: u64)
    requires
        1 <= he_c <= 100_000,
        1 <= n2_c <= 100_000,
        he_p <= MAX_AMBIENT_NBAR,
        n2_p <= MAX_AMBIENT_NBAR,
    ensures
        r == weighted(he_c as int, he_p as int, n2_c as int, n2_p as int),
{
    let lo = if he_c < n2_c { he_c } else { n2_c };
    let hi = if he_c < n2_c { n2_c } else { he_c };
    proof {
        lemma_weighted_bounds(he_c as int, he_p as int, n2_c as int, n2_p as int, lo as int, hi as int);
    }
    if he_p as u128 + n2_p as u128 == 0 {
        n2_c * 100_000
    } else {
        proof {
            lemma_mul_le(he_c as int, he_p as int, 100_000, MAX_AMBIENT_NBAR as int);
            lemma_mul_le(n2_c as int, n2_p as int, 100_000, MAX_AMBIENT_NBAR as int);
        }
        let x = (he_c as u128 * he_p as u128 + n2_c as u128 * n2_p as u128) * 100_000;
        (x / (he_p as u128 + n2_p as u128)) as u64
    }
}

impl Compartment {
    /// Weighted `a` coefficient in nanobar.
    pub open spec fn a_w(&self) -> int {
        weighted(
            self.params.he_a as int,
            self.he_ip as int,
            self.params.n2_a as int,
            self.n2_ip as int,
        )
    }

    /// Weighted `b` coefficient in billionths.
    pub open spec fn b_w(&self) -> int {
        weighted(
            self.params.he_b as int,
            self.he_ip as int,
            self.params.n2_b as int,
            self.n2_ip as int,
        )
    }

    /// Tolerable ambient pressure of the current loads under a gradient factor.
    pub open spec fn tolerable_at_gf(&self, gf: int) -> int {
        tolerable(self.total_ip as int, gf_a(self.a_w(), gf), gf_b(self.b_w(), gf))
    }

    pub open spec fn loads_wf(&self) -> bool {
        &&& self.params.wf()
        &&& self.he_ip <= MAX_AMBIENT_NBAR
        &&& self.n2_ip <= MAX_AMBIENT_NBAR
        &&& self.total_ip == self.he_ip + self.n2_ip
    }

    pub open spec fn wf(&self) -> bool {
        &&& self.loads_wf()
        &&& MIN_TOLERABLE_NBAR <= self.min_tolerable_amb_pressure <= 2 * MAX_AMBIENT_NBAR
    }

    pub proof fn lemma_weights(&self)
        requires
            self.loads_wf(),
        ensures
            100_000_000 <= self.a_w() <= 2_000_000_000,
            400_000_000 <= self.b_w() < 1_000_000_000,
    {
        let p = self.params;
        let (alo, ahi) = if p.he_a < p.n2_a { (p.he_a, p.n2_a) } else { (p.n2_a, p.he_a) };
        let (blo, bhi) = if p.he_b < p.n2_b { (p.he_b, p.n2_b) } else { (p.n2_b, p.he_b) };
        lemma_weighted_bounds(p.he_a as int, self.he_ip as int, p.n2_a as int, self.n2_ip as int, alo as int, ahi as int);
        lemma_weighted_bounds(p.he_b as int, self.he_ip as int, p.n2_b as int, self.n2_ip as int, blo as int, bhi as int);
    }

    /// Tolerable ambient pressure in nanobar under a gradient factor in percent.
    pub fn tolerable_pressure(&self, gf: u64) -> (r: i64)
        requires
            self.loads_wf(),
            1 <= gf <= 100,
        ensures
            r == self.tolerable_at_gf(gf as int),
            MIN_TOLERABLE_NBAR <= r <= 2 * MAX_AMBIENT_NBAR,
            r <= self.total_ip,
    {
        let (a, b) = self.gf_adjusted_params(gf);
        let a = a as u128;
        let b = b as u128;
        let total = self.total_ip as u128;
        if total >= a {
            proof {
                lemma_mul_le(total as int - a as int, b as int, 2 * MAX_AMBIENT_NBAR as int, NBAR_PER_BAR as int);
                lemma_scaled_le(total as int - a as int, b as int, NBAR_PER_BAR as int);
            }
            ((total - a) * b / 1_000_000_000) as i64
        } else {
            proof {
                lemma_mul_le(a as int - total as int, b as int, 2 * MAX_AMBIENT_NBAR as int, NBAR_PER_BAR as int);
                lemma_scaled_le(a as int - total as int, b as int, NBAR_PER_BAR as int);
            }
            -(((a - total) * b / 1_000_000_000) as i64)
        }
    }

    /// Weighted `a` (nanobar) and `b` (billionths) adjusted by a gradient factor in percent.
    pub fn gf_adjusted_params(&self, gf: u64) -> (r: (u64, u64))
        requires
            self.loads_wf(),
            1 <= gf <= 100,
        ensures
            r.0 == gf_a(self.a_w(), gf as int),
            r.1 == gf_b(self.b_w(), gf as int),
            r.0 <= 2_000_000_000,
            200_000_000 <= r.1 <= NBAR_PER_BAR,
    {
        proof {
            self.lemma_weights();
        }
        let a_w = weighted_param(self.params.he_a, self.he_ip, self.params.n2_a, self.n2_ip);
        let b_w = weighted_param(self.params.he_b, self.he_ip, self.params.n2_b, self.n2_ip);
        proof {
            lemma_mul_le(a_w as int, gf as int, 2_000_000_000, 100);
        }
        let a = a_w * gf / 100;
        let g: u128 = gf as u128 * 10_000_000;
        proof {
            lemma_mul_le(g as int, b_w as int, NBAR_PER_BAR as int, NBAR_PER_BAR as int);
            lemma_scaled_le(g as int, b_w as int, NBAR_PER_BAR as int);
            lemma_scaled_le(a_w as int, gf as int, 100);
        }
        let den = g + b_w as u128 - g * b_w as u128 / 1_000_000_000;
        proof {
            lemma_mul_le(b_w as int, NBAR_PER_BAR as int, NBAR_PER_BAR as int, NBAR_PER_BAR as int);
            lemma_div_is_ordered_by_denominator(b_w as int * NBAR_PER_BAR as int, b_w as int, den as int);
            lemma_div_is_ordered_by_denominator(400_000_000 * NBAR_PER_BAR as int, den as int, 2_000_000_000);
            lemma_div_is_ordered(400_000_000 * NBAR_PER_BAR as int, b_w as int * NBAR_PER_BAR as int, den as int);
            lemma_mul_inequality(400_000_000, b_w as int, NBAR_PER_BAR as int);
            lemma_div_multiples_vanish(NBAR_PER_BAR as int, b_w as int);
            lemma_mul_is_commutative(b_w as int, NBAR_PER_BAR as int);
        }
        let b = b_w as u128 * 1_000_000_000 / den;
        (a, b as u64)
    }

    /// Weighted (half-time, a, b): half-time in 10^-7 minutes, `a` in nanobar, `b` in
    /// billionths, for helium and nitrogen loads `he_pp` and `n2_pp` in nanobar.
    pub fn weighted_zhl_params(&self, he_pp: u64, n2_pp: u64) -> (r: (u64, u64, u64))
        requires
            self.params.wf(),
            he_pp <= MAX_AMBIENT_NBAR,
            n2_pp <= MAX_AMBIENT_NBAR,
        ensures
            r.0 == weighted(self.params.he_half_time as int, he_pp as int, self.params.n2_half_time as int, n2_pp as int),
            r.1 == weighted(self.params.he_a as int, he_pp as int, self.params.n2_a as int, n2_pp as int),
            r.2 == weighted(self.params.he_b as int, he_pp as int, self.params.n2_b as int, n2_pp as int),
    {
        (
            weighted_param(self.params.he_half_time, he_pp, self.params.n2_half_time, n2_pp),
            weighted_param(self.params.he_a, he_pp, self.params.n2_a, n2_pp),
            weighted_param(self.params.he_b, he_pp, self.params.n2_b, n2_pp),
        )
    }

    /// M-value in nanobar at `depth` under a gradient factor: a' + P / b'.
    pub fn m_value(&self, depth: Depth, surface_mbar: u64, gf: u64) -> (r: u64)
        requires
            self.loads_wf(),
            1 <= gf <= 100,
            depth.mm <= MAX_DEPTH_MM,
            valid_surface(surface_mbar as int),
        ensures
            r == gf_a(self.a_w(), gf as int) + ambient_nbar(surface_mbar as int, depth.mm as int)
                * (NBAR_PER_BAR as int) / gf_b(self.b_w(), gf as int),
    {
        let (a, b) = self.gf_adjusted_params(gf);
        let p = surface_mbar * 1_000_000 + depth.mm * 100_000;
        proof {
            lemma_mul_le(p as int, NBAR_PER_BAR as int, MAX_AMBIENT_NBAR as int, NBAR_PER_BAR as int);
            lemma_div_is_ordered_by_denominator(p as int * NBAR_PER_BAR as int, 200_000_000, b as int);
            lemma_div_le(p as int * NBAR_PER_BAR as int, MAX_AMBIENT_NBAR as int * NBAR_PER_BAR as int, 200_000_000);
        }
        a + (p as u128 * 1_000_000_000 / b as u128) as u64
    }

    /// A tissue of number `no` saturated with air at the surface.
    pub fn new(no: u64, params: ZhlParams, surface_mbar: u64, gf_high: u64) -> (r: Compartment)
        requires
            params.wf(),
            valid_surface(surface_mbar as int),
            1 <= gf_high <= 100,
        ensures
            r.wf(),
            r.no == no,
            r.params == params,
            r.he_ip == 0,
            r.n2_ip == inspired(Gas { o2: 21, he: 0, n2: 79 }, 0, surface_mbar as int).n2,
            r.min_tolerable_amb_pressure == r.tolerable_at_gf(gf_high as int),
            r.min_tolerable_amb_pressure <= r.total_ip,
    {
        let air = Gas::air();
        let pp = air.inspired_partial_pressures(Depth::zero(), surface_mbar);
        let mut c = Compartment {
            no,
            min_tolerable_amb_pressure: 0,
            he_ip: pp.he,
            n2_ip: pp.n2,
            total_ip: pp.he + pp.n2,
            params,
        };
        c.min_tolerable_amb_pressure = c.tolerable_pressure(gf_high);
        c
    }

    /// Loads after `time` at `depth` on `gas`, and the tolerable pressure under `max_gf`.
    pub fn recalculate(
        &mut self,
        depth: Depth,
        time: Time,
        gas: &Gas,
        max_gf: u64,
        surface_mbar: u64,
    )
        requires
            old(self).wf(),
            depth.mm <= MAX_DEPTH_MM,
            gas.wf(),
            valid_surface(surface_mbar as int),
            1 <= max_gf <= 100,
        ensures
            final(self).wf(),
            final(self).no == old(self).no,
            final(self).params == old(self).params,
            final(self).he_ip == haldane(
                old(self).he_ip as int,
                inspired(*gas, depth.mm as int, surface_mbar as int).he as int,
                old(self).params.he_decay as int,
                time.s as nat,
            ),
            final(self).n2_ip == haldane(
                old(self).n2_ip as int,
                inspired(*gas, depth.mm as int, surface_mbar as int).n2 as int,
                old(self).params.n2_decay as int,
                time.s as nat,
            ),
            final(self).min_tolerable_amb_pressure == final(self).tolerable_at_gf(max_gf as int),
            *final(self) == recalculated(
                *old(self),
                depth.mm as int,
                time.s as nat,
                *gas,
                max_gf as int,
                surface_mbar as int,
            ),
    {
        let pp = gas.inspired_partial_pressures(depth, surface_mbar);
        let he = haldane_load(self.he_ip, pp.he, self.params.he_decay, time.s);
        let n2 = haldane_load(self.n2_ip, pp.n2, self.params.n2_decay, time.s);
        self.he_ip = he;
        self.n2_ip = n2;
        self.total_ip = he + n2;
        self.min_tolerable_amb_pressure = self.tolerable_pressure(max_gf);
    }

    /// Depth at which this tissue's tolerable pressure is reached, rounded up to the millimetre.
    pub fn ceiling(&self, surface_mbar: u64) -> (r: Depth)
        requires
            self.wf(),
            valid_surface(surface_mbar as int),
        ensures
            r.mm == ceiling_mm(self.min_tolerable_amb_pressure as int, surface_mbar as int),
    {
        let s: i64 = surface_mbar as i64 * 1_000_000;
        if self.min_tolerable_amb_pressure > s {
            Depth { mm: ((self.min_tolerable_amb_pressure - s + 99_999) / 100_000) as u64 }
        } else {
            Depth { mm: 0 }
        }
    }

    /// Gradient in use at the ambient pressure of `depth` and at the surface.
    pub fn supersaturation(&self, surface_mbar: u64, depth: Depth) -> (r: Supersaturation)
        requires
            self.wf(),
            valid_surface(surface_mbar as int),
            depth.mm <= MAX_DEPTH_MM,
        ensures
            r.gf_99 == gradient_used(
                self.total_ip as int,
                self.a_w(),
                self.b_w(),
                ambient_nbar(surface_mbar as int, depth.mm as int),
            ),
            r.gf_surf == gradient_used(
                self.total_ip as int,
                self.a_w(),
                self.b_w(),
                ambient_nbar(surface_mbar as int, 0),
            ),
    {
        proof {
            self.lemma_weights();
        }
        let a_w = weighted_param(self.params.he_a, self.he_ip, self.params.n2_a, self.n2_ip);
        let b_w = weighted_param(self.params.he_b, self.he_ip, self.params.n2_b, self.n2_ip);
        let p_surf = surface_mbar * 1_000_000;
        let p_amb = p_surf + depth.mm * 100_000;
        let gf_99 = gradient_used_exec(self.total_ip, a_w, b_w, p_amb);
        let gf_surf = gradient_used_exec(self.total_ip, a_w, b_w, p_surf);
        Supersaturation { gf_99, gf_surf }
    }
}

/// A tissue holding no more than the ambient pressure uses no positive gradient there.
pub proof fn lemma_gradient_nonpositive(c: Compartment, p: int)
    requires
        c.loads_wf(),
        0 < p <= MAX_AMBIENT_NBAR,
        c.total_ip <= p,
    ensures
        gradient_used(c.total_ip as int, c.a_w(), c.b_w(), p) <= 0,
{
    c.lemma_weights();
    let b = c.b_w();
    lemma_mul_inequality(b, NBAR_PER_BAR as int, p);
    lemma_mul_is_commutative(b, p);
    lemma_mul_is_commutative(NBAR_PER_BAR as int, p);
    lemma_div_is_ordered(b * p, p * NBAR_PER_BAR as int, b);
    lemma_div_multiples_vanish(p, b);
    let m = c.a_w() + p * (NBAR_PER_BAR as int) / b;
    let n = (c.total_ip as int - p) * 10_000;
    lemma_div_pos_is_pos(-n, m - p);
}

/// A tissue after `t` seconds at `depth_mm` on `gas`, its tolerable pressure taken
/// under gradient factor `gf`.
pub open spec fn recalculated(c: Compartment, depth_mm: int, t: nat, gas: Gas, gf: int, surface: int) -> Compartment {
    let pp = inspired(gas, depth_mm, surface);
    let he = haldane(c.he_ip as int, pp.he as int, c.params.he_decay as int, t);
    let n2 = haldane(c.n2_ip as int, pp.n2 as int, c.params.n2_decay as int, t);
    let loaded = Compartment { he_ip: he as u64, n2_ip: n2 as u64, total_ip: (he + n2) as u64, ..c };
    Compartment { min_tolerable_amb_pressure: loaded.tolerable_at_gf(gf) as i64, ..loaded }
}

/// Inspired partial pressures of `gas` at a depth in millimetres.
pub open spec fn inspired(gas: Gas, depth_mm: int, surface_mbar: int) -> PartialPressures {
    gas.pressures_at(ambient_nbar(surface_mbar, depth_mm) - WATER_VAPOR_NBAR)
}

fn gradient_used_exec(total: u64, a_w: u64, b_w: u64, p: u64) -> (r: i64)
    requires
        total <= 2 * MAX_AMBIENT_NBAR,
        100_000_000 <= a_w <= 2_000_000_000,
        400_000_000 <= b_w < 1_000_000_000,
        p <= MAX_AMBIENT_NBAR,
    ensures
        r == gradient_used(total as int, a_w as int, b_w as int, p as int),
{
    proof {
        lemma_mul_le(p as int, NBAR_PER_BAR as int, MAX_AMBIENT_NBAR as int, NBAR_PER_BAR as int);
        lemma_div_le(p as int * NBAR_PER_BAR as int, MAX_AMBIENT_NBAR as int * NBAR_PER_BAR as int, b_w as int);
        lemma_div_is_ordered_by_denominator(MAX_AMBIENT_NBAR as int * NBAR_PER_BAR as int, 400_000_000, b_w as int);
        lemma_mul_inequality(b_w as int, NBAR_PER_BAR as int, p as int);
        lemma_mul_is_commutative(b_w as int, p as int);
        lemma_mul_is_commutative(NBAR_PER_BAR as int, p as int);
        lemma_div_is_ordered(b_w as int * p as int, p as int * NBAR_PER_BAR as int, b_w as int);
        lemma_div_multiples_vanish(p as int, b_w as int);
    }
    let m: u128 = a_w as u128 + p as u128 * 1_000_000_000 / b_w as u128;
    let d: u128 = m - p as u128;
    if total >= p {
        let n: u128 = (total - p) as u128 * 10_000;
        proof {
            lemma_div_le_self(n as int, d as int);
        }
        (n / d) as i64
    } else {
        let n: u128 = (p - total) as u128 * 10_000;
        proof {
            lemma_div_le_self(n as int, d as int);
        }
        -((n / d) as i64)
    }
}

} // verus!
