//! The sixteen-tissue Bühlmann model: recording, ceilings, NDL and the laws it keeps.
use crate::arith::{lemma_div_le, lemma_div_le_self, lemma_mul_le, lemma_scaled_le};
use crate::compartment::{
    ceiling_mm, decay_pow, gradient_used, haldane, inspired, lemma_gradient_nonpositive,
    lemma_decay_runs_out_in_time, lemma_haldane_between, DECAY_RUNOUT_SECONDS, recalculated, Compartment, Supersaturation, MIN_TOLERABLE_NBAR,
};
use crate::zhl::DECAY_SCALE;
use crate::config::{config_error, BuhlmannConfig, CeilingType, ConfigValidationErr};
use crate::deco::{
    deco_result_ok, five_on, plan, start_of, Deco, DecoCalculationError, DecoRuntime,
    MAX_PLAN_STEPS,
};
use crate::gas::{ambient_nbar, Gas, InertGas, MAX_AMBIENT_NBAR, NBAR_PER_BAR};
use crate::ox_tox::{cns_after, otu_after, OxTox, MAX_RECORD_SECONDS};
use crate::units::{Depth, Time, MAX_DEPTH_MM};
use crate::zhl::{zhl_16c_params, zhl_row};
use vstd::prelude::*;

verus! {

/// Minutes after which the no-decompression limit is no longer counted.
pub const NDL_CUT_OFF_MINS: u64 = 99;

/// Dive state of a model.
#[derive(Clone, Copy, Debug, PartialEq, Eq, Structural)]
pub struct BuhlmannState {
    pub depth: Depth,
    pub time: Time,
    pub gas: Gas,
    /// Depth of the first stop under GF low, fixed once a deco obligation appears.
    pub gf_low_depth: Option<Depth>,
    pub ox_tox: OxTox,
}

/// What a caller sees of the dive state.
#[derive(Clone, Copy, Debug, PartialEq, Eq, Structural)]
pub struct DiveState {
    pub depth: Depth,
    pub time: Time,
    pub gas: Gas,
    pub ox_tox: OxTox,
}

/// Bühlmann ZH-L16C model: sixteen tissues and the dive state.
#[derive(Debug)]
pub struct BuhlmannModel {
    pub config: BuhlmannConfig,
    pub compartments: Vec<Compartment>,
    pub state: BuhlmannState,
    /// A simulation copy: no oxygen dose is counted and the ceiling is always the actual one.
    pub sim: bool,
}

impl Default for BuhlmannState {
    /// At the surface on air, at time zero, with no oxygen dose.
    fn default() -> (r: BuhlmannState)
        ensures
            r.depth.mm == 0,
            r.time.s == 0,
            r.gas == Gas::spec_air(),
            r.gf_low_depth is None,
            r.ox_tox == (OxTox { cns: 0, otu: 0 }),
    {
        BuhlmannState {
            depth: Depth::zero(),
            time: Time::zero(),
            gas: Gas::air(),
            gf_low_depth: None,
            ox_tox: OxTox::new(),
        }
    }
}

impl Default for BuhlmannModel {
    /// A model with the default configuration.
    fn default() -> (r: BuhlmannModel)
        ensures
            r.wf(),
            r.is_fresh(BuhlmannConfig::spec_default()),
            r.actual_ceiling_mm() == 0,
    {
        BuhlmannModel::new(BuhlmannConfig::new())
    }
}

/// Largest tolerable pressure among the tissues.
pub open spec fn max_tol(cs: Seq<Compartment>) -> int
    decreases cs.len(),
{
    if cs.len() == 0 {
        MIN_TOLERABLE_NBAR as int
    } else {
        let m = max_tol(cs.drop_last());
        let x = cs.last().min_tolerable_amb_pressure as int;
        if x > m {
            x
        } else {
            m
        }
    }
}

/// Depth in millimetres after `i` seconds of travel from `start` toward `target`,
/// covering `num / den` millimetres a second.
pub open spec fn travel_depth(start: int, target: int, num: int, den: int, i: int) -> int {
    if target >= start {
        start + i * num / den
    } else {
        start - i * num / den
    }
}

/// A tissue's load of one inert gas after `i` one-second records of travel on `gas`.
pub open spec fn travel_load(
    p: int,
    k: int,
    gas: Gas,
    inert: InertGas,
    surface: int,
    start: int,
    target: int,
    num: int,
    den: int,
    i: nat,
) -> int
    decreases i,
{
    if i == 0 {
        p
    } else {
        let prev = travel_load(p, k, gas, inert, surface, start, target, num, den, (i - 1) as nat);
        let pp = inspired(gas, travel_depth(start, target, num, den, i as int), surface);
        let pi = match inert {
            InertGas::Helium => pp.he as int,
            InertGas::Nitrogen => pp.n2 as int,
        };
        haldane(prev, pi, k, 1)
    }
}

/// The tissues, and the first stop depth kept, after `i` one-second records of travel
/// by a live model (`live`) or a simulation copy.
pub open spec fn travel_tissues(
    cs: Seq<Compartment>,
    config: BuhlmannConfig,
    live: bool,
    kept: Option<Depth>,
    gas: Gas,
    start: int,
    target: int,
    num: int,
    den: int,
    i: nat,
) -> (Seq<Compartment>, Option<Depth>)
    decreases (if live { 1int } else { 0int }), 3int, i,
{
    if i == 0 {
        (cs, kept)
    } else {
        let (p, k) = travel_tissues(cs, config, live, kept, gas, start, target, num, den, (i - 1) as nat);
        tissues_after(p, config, live, k, travel_depth(start, target, num, den, i as int), 1, gas)
    }
}

/// The oxygen dose (CNS, OTU) after `i` one-second records of travel on `gas`,
/// starting from `dose`.
pub open spec fn travel_dose(
    dose: (int, int),
    gas: Gas,
    surface: int,
    start: int,
    target: int,
    num: int,
    den: int,
    i: nat,
) -> (int, int)
    decreases i,
{
    if i == 0 {
        dose
    } else {
        let p = travel_dose(dose, gas, surface, start, target, num, den, (i - 1) as nat);
        let d = travel_depth(start, target, num, den, i as int);
        let pp = inspired(gas, d, surface).o2 as int;
        (cns_after(p.0, pp, d == 0, 1), otu_after(p.1, pp, 1))
    }
}

/// The oxygen dose of `ox` after a travel: unchanged on a simulation copy.
pub open spec fn dose_after_travel(
    old: &BuhlmannModel,
    ox: OxTox,
    gas: Gas,
    target: int,
    num: int,
    den: int,
    steps: nat,
) -> bool {
    if old.sim {
        ox == old.state.ox_tox
    } else {
        (ox.cns as int, ox.otu as int) == travel_dose(
            (old.state.ox_tox.cns as int, old.state.ox_tox.otu as int),
            gas,
            old.surface(),
            old.state.depth.mm as int,
            target,
            num,
            den,
            steps,
        )
    }
}

/// The adaptive ceiling: from `depth_mm` under ceiling `c`, ascend to `c` at the deco
/// ascent rate on `gas` while `c` lies above, and take the ceiling found there.
pub open spec fn adaptive_ceiling_from(
    cs: Seq<Compartment>,
    config: BuhlmannConfig,
    kept: Option<Depth>,
    gas: Gas,
    depth_mm: int,
    c: int,
) -> int
    decreases 0int, 4int, depth_mm,
{
    if depth_mm <= 0 || depth_mm <= c || c < 0 {
        c
    } else {
        let rate = config.deco_ascent_rate * 1000;
        let steps = travel_seconds(depth_mm - c, rate as int);
        let (next, next_kept) = travel_tissues(cs, config, false, kept, gas, depth_mm, c, rate as int, 60, steps as nat);
        adaptive_ceiling_from(next, config, next_kept, gas, c, ceiling_of(next, config))
    }
}

/// Seconds to travel `dist_mm` at `rate` millimetres per minute, rounded down.
pub open spec fn travel_seconds(dist_mm: int, rate: int) -> int {
    dist_mm * 60 / rate
}

pub open spec fn abs_diff(a: int, b: int) -> int {
    if a >= b {
        a - b
    } else {
        b - a
    }
}

/// The leading tissue's ceiling in millimetres, rounded up to whole metres when configured.
pub open spec fn ceiling_of(cs: Seq<Compartment>, config: BuhlmannConfig) -> int {
    let c = ceiling_mm(max_tol(cs), config.surface_pressure as int);
    if config.round_ceiling {
        round_up_m(c)
    } else {
        c
    }
}

/// Deepest of the tissues' ceilings under GF low.
pub open spec fn gf_low_ceiling_of(cs: Seq<Compartment>, config: BuhlmannConfig) -> int {
    ceiling_mm(max_tol_at(cs, config.gf.0 as int), config.surface_pressure as int)
}

/// Index of the first tissue with the largest tolerable pressure.
pub open spec fn lead(cs: Seq<Compartment>) -> int
    decreases cs.len(),
{
    if cs.len() <= 1 {
        0
    } else {
        let j = lead(cs.drop_last());
        if cs.last().min_tolerable_amb_pressure > cs[j].min_tolerable_amb_pressure {
            cs.len() - 1
        } else {
            j
        }
    }
}

/// Gradient factor in force at `depth_mm` after tissues reached `cs` under ceiling
/// `ceiling`, and the first stop depth kept from then on, given the one kept so far.
pub open spec fn sloped(
    cs: Seq<Compartment>,
    config: BuhlmannConfig,
    kept: Option<Depth>,
    depth_mm: int,
    ceiling: int,
) -> (int, Option<Depth>) {
    if ceiling == 0 {
        (config.gf.1 as int, kept)
    } else {
        let d = match kept {
            Some(d) => d.mm as int,
            None => gf_low_ceiling_of(cs, config),
        };
        (gf_slope(config.gf.0 as int, config.gf.1 as int, d, depth_mm), Some(Depth { mm: d as u64 }))
    }
}

/// The ceiling a model reports for tissues `cs` at `depth_mm` on `gas`: the adaptive
/// one for a live model so configured, else the actual one.
pub open spec fn reported_ceiling(
    cs: Seq<Compartment>,
    config: BuhlmannConfig,
    live: bool,
    kept: Option<Depth>,
    depth_mm: int,
    gas: Gas,
) -> int
    decreases (if live { 1int } else { 0int }), 1int, 0int,
{
    if live && config.ceiling_type == CeilingType::Adaptive {
        adaptive_ceiling_from(cs, config, kept, gas, depth_mm, ceiling_of(cs, config))
    } else {
        ceiling_of(cs, config)
    }
}

/// The tissues, and the first stop depth kept, after `t` seconds at `depth_mm` on `gas`
/// by a live model (`live`) or a simulation copy: every tissue under GF high, then, with
/// distinct gradient factors, the sloped gradient factor applied to every tissue when so
/// configured, else to the leading one. Whether there is a ceiling is decided by the
/// ceiling the model reports.
pub open spec fn tissues_after(
    cs: Seq<Compartment>,
    config: BuhlmannConfig,
    live: bool,
    kept: Option<Depth>,
    depth_mm: int,
    t: nat,
    gas: Gas,
) -> (Seq<Compartment>, Option<Depth>)
    decreases (if live { 1int } else { 0int }), 2int, 0int,
{
    let surface = config.surface_pressure as int;
    let mid = Seq::new(
        16,
        |i: int| recalculated(cs[i], depth_mm, t, gas, config.gf.1 as int, surface),
    );
    if config.gf.0 == config.gf.1 {
        (mid, kept)
    } else {
        let c = reported_ceiling(mid, config, live, kept, depth_mm, gas);
        let (g, d) = sloped(mid, config, kept, depth_mm, c);
        if config.recalc_all_tissues_m_values {
            (Seq::new(16, |i: int| recalculated(mid[i], depth_mm, 0, gas, g, surface)), d)
        } else {
            let l = lead(mid);
            (mid.update(l, recalculated(mid[l], depth_mm, 0, gas, g, surface)), d)
        }
    }
}

/// Whether tissues `cs` in dive state `st` carry a deco obligation: a ceiling below the
/// surface; for the adaptive ceiling, a single-gas schedule of more than one stage, or
/// one that cannot be planned.
pub open spec fn deco_now(cs: Seq<Compartment>, config: BuhlmannConfig, st: BuhlmannState) -> bool {
    match config.ceiling_type {
        CeilingType::Actual => ceiling_of(cs, config) > 0,
        CeilingType::Adaptive => {
            let gases = seq![st.gas];
            let now = plan(start_of(cs, st), config, gases, MAX_PLAN_STEPS as nat);
            let later = plan(five_on(cs, config, st), config, gases, MAX_PLAN_STEPS as nat);
            now is None || later is None || now->0.len() > 1
        },
    }
}

/// No-decompression time in seconds, counted from minute `i`: the first minute after
/// which one more minute at the current depth and gas brings a deco obligation, or 99 minutes.
pub open spec fn ndl_from(cs: Seq<Compartment>, config: BuhlmannConfig, st: BuhlmannState, i: nat) -> int
    decreases 99 - i,
{
    if i >= 99 {
        99 * 60int
    } else {
        let (next, kept) = tissues_after(cs, config, false, st.gf_low_depth, st.depth.mm as int, 60, st.gas);
        let next_st = BuhlmannState {
            gf_low_depth: kept,
            time: Time { s: time_add(st.time.s as int, 60) as u64 },
            ..st
        };
        if deco_now(next, config, next_st) {
            i as int * 60
        } else {
            ndl_from(next, config, next_st, i + 1)
        }
    }
}

/// A depth rounded up to whole metres.
pub open spec fn round_up_m(mm: int) -> int {
    (mm + 999) / 1000 * 1000
}

/// Saturating sum of two durations.
pub open spec fn time_add(a: int, b: int) -> int {
    if a + b > u64::MAX {
        u64::MAX as int
    } else {
        a + b
    }
}

proof fn lemma_max_tol_step(cs: Seq<Compartment>, i: int)
    requires
        0 <= i < cs.len(),
    ensures
        max_tol(cs.subrange(0, i + 1)) == if cs[i].min_tolerable_amb_pressure as int > max_tol(
            cs.subrange(0, i),
        ) {
            cs[i].min_tolerable_amb_pressure as int
        } else {
            max_tol(cs.subrange(0, i))
        },
{
    assert(cs.subrange(0, i + 1).drop_last() =~= cs.subrange(0, i));
}

proof fn lemma_max_tol_le(cs: Seq<Compartment>, bound: int)
    requires
        MIN_TOLERABLE_NBAR <= bound,
        forall|j: int| 0 <= j < cs.len() ==> (#[trigger] cs[j]).min_tolerable_amb_pressure <= bound,
    ensures
        max_tol(cs) <= bound,
    decreases cs.len(),
{
    if cs.len() > 0 {
        assert(cs.last() == cs[cs.len() - 1]);
        lemma_max_tol_le(cs.drop_last(), bound);
    }
}

proof fn lemma_max_tol_bounds(cs: Seq<Compartment>)
    requires
        forall|j: int| 0 <= j < cs.len() ==> (#[trigger] cs[j]).wf(),
    ensures
        MIN_TOLERABLE_NBAR <= max_tol(cs) <= 2 * MAX_AMBIENT_NBAR,
    decreases cs.len(),
{
    if cs.len() > 0 {
        assert(cs.last() == cs[cs.len() - 1]);
        lemma_max_tol_bounds(cs.drop_last());
    }
}

impl BuhlmannModel {
    pub open spec fn wf(&self) -> bool {
        &&& self.config.valid()
        &&& self.compartments.len() == 16
        &&& forall|i: int| 0 <= i < 16 ==> (#[trigger] self.compartments[i]).wf()
        &&& self.state.depth.mm <= MAX_DEPTH_MM
        &&& self.state.gas.wf()
    }

    /// A live model at the surface on air at time zero with no oxygen dose, holding
    /// the sixteen tissues of the coefficient table saturated with air at the surface.
    pub open spec fn is_fresh(&self, config: BuhlmannConfig) -> bool {
        &&& self.config == config
        &&& !self.sim
        &&& self.state.depth.mm == 0
        &&& self.state.time.s == 0
        &&& self.state.gas == Gas::spec_air()
        &&& self.state.gf_low_depth is None
        &&& self.state.ox_tox == (OxTox { cns: 0, otu: 0 })
        &&& self.compartments.len() == 16
        &&& forall|i: int|
            0 <= i < 16 ==> {
                let c = #[trigger] self.compartments[i];
                &&& c.no == i + 1
                &&& c.params == zhl_row(i)
                &&& c.he_ip == 0
                &&& c.n2_ip == inspired(Gas::spec_air(), 0, config.surface_pressure as int).n2
                &&& c.total_ip == c.n2_ip
                &&& c.min_tolerable_amb_pressure == c.tolerable_at_gf(config.gf.1 as int)
            }
    }

    pub open spec fn gf_low(&self) -> int {
        self.config.gf.0 as int
    }

    pub open spec fn gf_high(&self) -> int {
        self.config.gf.1 as int
    }

    pub open spec fn surface(&self) -> int {
        self.config.surface_pressure as int
    }

    /// The leading tissue's ceiling in millimetres, rounded up to whole metres when configured.
    pub open spec fn actual_ceiling_mm(&self) -> int {
        ceiling_of(self.compartments@, self.config)
    }

    /// The no-decompression time in seconds.
    pub open spec fn ndl_spec(&self) -> int {
        if deco_now(self.compartments@, self.config, self.state) {
            0
        } else {
            ndl_from(self.compartments@, self.config, self.state, 0)
        }
    }

    /// The ceiling this model reports now.
    pub open spec fn ceiling_now(&self) -> int {
        reported_ceiling(
            self.compartments@,
            self.config,
            !self.sim,
            self.state.gf_low_depth,
            self.state.depth.mm as int,
            self.state.gas,
        )
    }

    /// Whether `ceiling` reports the actual ceiling.
    pub open spec fn reports_actual(&self) -> bool {
        self.sim || self.config.ceiling_type == CeilingType::Actual
    }

    /// Inert gas loads of tissue `i` after `t` seconds at `depth_mm` on `gas`, from `old`.
    pub open spec fn loads_after(
        &self,
        old: &BuhlmannModel,
        i: int,
        depth_mm: int,
        t: nat,
        gas: Gas,
    ) -> bool {
        let c = self.compartments[i];
        let o = old.compartments[i];
        let pp = inspired(gas, depth_mm, old.surface());
        &&& c.no == o.no
        &&& c.params == o.params
        &&& c.he_ip == haldane(o.he_ip as int, pp.he as int, o.params.he_decay as int, t)
        &&& c.n2_ip == haldane(o.n2_ip as int, pp.n2 as int, o.params.n2_decay as int, t)
    }

    /// A model at the surface on air, with tissues saturated by air.
    pub fn new(config: BuhlmannConfig) -> (r: BuhlmannModel)
        requires
            config.valid(),
        ensures
            r.wf(),
            r.is_fresh(config),
            r.actual_ceiling_mm() == 0,
    {
        let mut compartments: Vec<Compartment> = Vec::new();
        let mut i: usize = 0;
        while i < 16
            invariant
                i <= 16,
                config.valid(),
                compartments.len() == i,
                forall|j: int|
                    0 <= j < i ==> {
                        let c = #[trigger] compartments[j];
                        &&& c.wf()
                        &&& c.no == j + 1
                        &&& c.params == zhl_row(j)
                        &&& c.min_tolerable_amb_pressure == c.tolerable_at_gf(config.gf.1 as int)
                        &&& c.min_tolerable_amb_pressure <= c.total_ip
                        &&& c.he_ip == 0
                        &&& c.n2_ip == inspired(
                            Gas::spec_air(),
                            0,
                            config.surface_pressure as int,
                        ).n2
                    },
            decreases 16 - i,
        {
            let c = Compartment::new(
                i as u64 + 1,
                zhl_16c_params(i),
                config.surface_pressure,
                config.gf.1 as u64,
            );
            compartments.push(c);
            i = i + 1;
        }
        let r = BuhlmannModel {
            config,
            compartments,
            state: BuhlmannState::default(),
            sim: false,
        };
        proof {
            let air_n2 = inspired(Gas::spec_air(), 0, config.surface_pressure as int).n2 as int;
            assert(air_n2 < config.surface_pressure as int * 1_000_000);
            lemma_max_tol_le(r.compartments@, air_n2);
        }
        r
    }

    /// Index of the tissue with the largest tolerable pressure, the first of equals.
    fn leading_index(&self) -> (r: usize)
        requires
            self.wf(),
        ensures
            r < 16,
            r == lead(self.compartments@),
            self.compartments[r as int].min_tolerable_amb_pressure == max_tol(
                self.compartments@,
            ),
            forall|j: int|
                0 <= j < r ==> (#[trigger] self.compartments[j]).min_tolerable_amb_pressure
                    < self.compartments[r as int].min_tolerable_amb_pressure,
    {
        let cs = &self.compartments;
        let mut best: usize = 0;
        let mut i: usize = 1;
        proof {
            lemma_max_tol_step(cs@, 0);
            assert(cs@.subrange(0, 0) =~= Seq::<Compartment>::empty());
            assert(cs[0].wf());
        }
        while i < 16
            invariant
                self.wf(),
                cs == &self.compartments,
                1 <= i <= 16,
                best < i,
                best == lead(cs@.subrange(0, i as int)),
                cs[best as int].min_tolerable_amb_pressure == max_tol(cs@.subrange(0, i as int)),
                forall|j: int|
                    0 <= j < i ==> (#[trigger] cs[j]).min_tolerable_amb_pressure
                        <= cs[best as int].min_tolerable_amb_pressure,
                forall|j: int|
                    0 <= j < best ==> (#[trigger] cs[j]).min_tolerable_amb_pressure
                        < cs[best as int].min_tolerable_amb_pressure,
            decreases 16 - i,
        {
            proof {
                lemma_max_tol_step(cs@, i as int);
                let sub = cs@.subrange(0, i + 1);
                assert(sub.drop_last() =~= cs@.subrange(0, i as int));
                assert(sub[best as int] == cs[best as int]);
            }
            if cs[i].min_tolerable_amb_pressure > cs[best].min_tolerable_amb_pressure {
                best = i;
            }
            i = i + 1;
        }
        assert(cs@.subrange(0, 16) =~= cs@);
        best
    }

    /// The tissue that leads the ceiling.
    pub fn leading_comp(&self) -> (r: Compartment)
        requires
            self.wf(),
        ensures
            r == self.compartments[lead(self.compartments@)],
            r.min_tolerable_amb_pressure == max_tol(self.compartments@),
            r.wf(),
    {
        let i = self.leading_index();
        self.compartments[i]
    }

    /// The leading tissue's ceiling, rounded up to whole metres when configured.
    pub fn actual_ceiling(&self) -> (r: Depth)
        requires
            self.wf(),
        ensures
            r.mm == self.actual_ceiling_mm(),
            r.mm <= 5_000_000,
    {
        let lead = self.leading_comp();
        let c = lead.ceiling(self.config.surface_pressure);
        proof {
            lemma_max_tol_bounds(self.compartments@);
        }
        if self.config.round_ceiling {
            Depth { mm: (c.mm + 999) / 1000 * 1000 }
        } else {
            c
        }
    }

    /// Every tissue's tolerable pressure is taken under a gradient factor between GF low and GF high.
    pub open spec fn tol_in_gf_range(&self) -> bool {
        forall|i: int|
            0 <= i < 16 ==> tol_at_some_gf(
                #[trigger] self.compartments[i],
                self.gf_low(),
                self.gf_high(),
            )
    }

    /// Recomputes every tissue for `time` at `depth` on `gas` under gradient factor `gf`.
    fn recalculate_all(&mut self, depth: Depth, time: Time, gas: &Gas, gf: u64)
        requires
            old(self).wf(),
            depth.mm <= MAX_DEPTH_MM,
            gas.wf(),
            1 <= gf <= 100,
        ensures
            final(self).wf(),
            final(self).config == old(self).config,
            final(self).state == old(self).state,
            final(self).sim == old(self).sim,
            forall|i: int|
                0 <= i < 16 ==> #[trigger] final(self).loads_after(
                    old(self),
                    i,
                    depth.mm as int,
                    time.s as nat,
                    *gas,
                ),
            forall|i: int|
                0 <= i < 16 ==> (#[trigger] final(self).compartments[i]).min_tolerable_amb_pressure
                    == final(self).compartments[i].tolerable_at_gf(gf as int),
            final(self).compartments@ == Seq::new(
                16,
                |i: int|
                    recalculated(
                        old(self).compartments[i],
                        depth.mm as int,
                        time.s as nat,
                        *gas,
                        gf as int,
                        old(self).surface(),
                    ),
            ),
    {
        let ghost start = *self;
        let surface = self.config.surface_pressure;
        let mut i: usize = 0;
        while i < 16
            invariant
                i <= 16,
                start.wf(),
                depth.mm <= MAX_DEPTH_MM,
                gas.wf(),
                1 <= gf <= 100,
                surface == start.config.surface_pressure,
                self.wf(),
                self.config == start.config,
                self.state == start.state,
                self.sim == start.sim,
                forall|j: int|
                    i <= j < 16 ==> #[trigger] self.compartments[j] == start.compartments[j],
                forall|j: int|
                    0 <= j < i ==> #[trigger] self.loads_after(
                        &start,
                        j,
                        depth.mm as int,
                        time.s as nat,
                        *gas,
                    ),
                forall|j: int|
                    0 <= j < i ==> (#[trigger] self.compartments[j]).min_tolerable_amb_pressure
                        == self.compartments[j].tolerable_at_gf(gf as int),
                forall|j: int|
                    0 <= j < i ==> #[trigger] self.compartments[j] == recalculated(
                        start.compartments[j],
                        depth.mm as int,
                        time.s as nat,
                        *gas,
                        gf as int,
                        start.surface(),
                    ),
            decreases 16 - i,
        {
            let ghost prev = *self;
            let mut c = self.compartments[i];
            c.recalculate(depth, time, gas, gf, surface);
            self.compartments.set(i, c);
            proof {
                assert forall|j: int| 0 <= j < i + 1 implies #[trigger] self.loads_after(
                    &start,
                    j,
                    depth.mm as int,
                    time.s as nat,
                    *gas,
                ) by {
                    if j < i {
                        assert(prev.loads_after(&start, j, depth.mm as int, time.s as nat, *gas));
                    }
                }
            }
            i = i + 1;
        }
        proof {
            assert(self.compartments@ =~= Seq::new(
                16,
                |i: int|
                    recalculated(
                        start.compartments[i],
                        depth.mm as int,
                        time.s as nat,
                        *gas,
                        gf as int,
                        start.surface(),
                    ),
            ));
        }
    }

    /// Ceiling under GF low, as the deepest of the tissues' ceilings.
    pub open spec fn gf_low_ceiling_mm(&self) -> int {
        gf_low_ceiling_of(self.compartments@, self.config)
    }

    /// First stop depth under GF low: cached, or computed now.
    pub open spec fn gf_low_depth_mm(&self) -> int {
        match self.state.gf_low_depth {
            Some(d) => d.mm as int,
            None => self.gf_low_ceiling_mm(),
        }
    }

    /// Ceiling under GF low, from the tissues' current loads.
    fn gf_low_ceiling(&self) -> (r: Depth)
        requires
            self.wf(),
        ensures
            r.mm == self.gf_low_ceiling_mm(),
            r.mm <= 5_000_000,
    {
        let cs = &self.compartments;
        let gf_low = self.config.gf.0 as u64;
        let mut best: i64 = MIN_TOLERABLE_NBAR;
        let mut i: usize = 0;
        proof {
            assert(cs@.subrange(0, 0) =~= Seq::<Compartment>::empty());
        }
        while i < 16
            invariant
                self.wf(),
                cs == &self.compartments,
                gf_low == self.gf_low(),
                i <= 16,
                best == max_tol_at(cs@.subrange(0, i as int), gf_low as int),
                MIN_TOLERABLE_NBAR <= best <= 2 * MAX_AMBIENT_NBAR,
            decreases 16 - i,
        {
            proof {
                assert(cs@.subrange(0, i + 1).drop_last() =~= cs@.subrange(0, i as int));
            }
            let t = cs[i].tolerable_pressure(gf_low);
            if t > best {
                best = t;
            }
            i = i + 1;
        }
        assert(cs@.subrange(0, 16) =~= cs@);
        let s: i64 = self.config.surface_pressure as i64 * 1_000_000;
        if best > s {
            Depth { mm: ((best - s + 99_999) / 100_000) as u64 }
        } else {
            Depth { mm: 0 }
        }
    }

    /// Gradient factor in force at `depth`: GF high while the model reports no ceiling,
    /// GF low below the first stop, and in between a straight line up to GF high at the
    /// surface. Fixes the first stop depth the first time a ceiling appears and keeps it
    /// for the rest of the dive.
    pub fn calc_max_sloped_gf(&mut self, depth: Depth) -> (r: u64)
        requires
            old(self).wf(),
            depth.mm <= MAX_DEPTH_MM,
        ensures
            final(self).wf(),
            final(self).config == old(self).config,
            final(self).compartments == old(self).compartments,
            final(self).sim == old(self).sim,
            final(self).state == (BuhlmannState {
                gf_low_depth: final(self).state.gf_low_depth,
                ..old(self).state
            }),
            old(self).gf_low() <= r <= old(self).gf_high(),
            (r as int, final(self).state.gf_low_depth) == sloped(
                old(self).compartments@,
                old(self).config,
                old(self).state.gf_low_depth,
                depth.mm as int,
                old(self).ceiling_now(),
            ),
            old(self).ceiling_now() == 0 ==> r == old(self).gf_high() && final(self).state
                == old(self).state,
            old(self).ceiling_now() > 0 ==> final(self).state.gf_low_depth == Some(
                Depth { mm: old(self).gf_low_depth_mm() as u64 },
            ) && r == gf_slope(
                old(self).gf_low(),
                old(self).gf_high(),
                old(self).gf_low_depth_mm(),
                depth.mm as int,
            ),
        decreases (if old(self).sim { 0int } else { 1int }), 3int,
    {
        if self.ceiling().mm == 0 {
            return self.config.gf.1 as u64;
        }
        let d_low = match self.state.gf_low_depth {
            Some(d) => d,
            None => {
                let d = self.gf_low_ceiling();
                self.state.gf_low_depth = Some(d);
                d
            },
        };
        self.gf_slope_point(self.config.gf, d_low, depth)
    }

    /// Gradient factor at `depth` on the line from GF low at `gf_low_depth` to GF high
    /// at the surface; GF low below `gf_low_depth`.
    pub fn gf_slope_point(&self, gf: (u8, u8), gf_low_depth: Depth, depth: Depth) -> (r: u64)
        requires
            1 <= gf.0 <= gf.1 <= 100,
        ensures
            r == gf_slope(gf.0 as int, gf.1 as int, gf_low_depth.mm as int, depth.mm as int),
            gf.0 <= r <= gf.1,
    {
        let gf_low = gf.0 as u64;
        let gf_high = gf.1 as u64;
        let d_low = gf_low_depth;
        if depth.mm > d_low.mm {
            return gf_low;
        }
        if d_low.mm == 0 {
            return gf_high;
        }
        proof {
            lemma_mul_le(gf_high as int, d_low.mm as int, 100, u64::MAX as int);
            lemma_mul_le((gf_high - gf_low) as int, depth.mm as int, 100, d_low.mm as int);
            lemma_mul_le(gf_low as int, d_low.mm as int, 100, u64::MAX as int);
            assert(((gf_high - gf_low) as int) * (d_low.mm as int) + (gf_low as int) * (d_low.mm as int) == (gf_high as int) * (d_low.mm as int)) by (nonlinear_arith);
            vstd::arithmetic::mul::lemma_mul_inequality(depth.mm as int, d_low.mm as int, (gf_high - gf_low) as int);
            vstd::arithmetic::mul::lemma_mul_is_commutative((gf_high - gf_low) as int, depth.mm as int);
            vstd::arithmetic::mul::lemma_mul_is_commutative((gf_high - gf_low) as int, d_low.mm as int);
            let n = gf_high as int * d_low.mm as int - (gf_high - gf_low) as int * depth.mm as int;
            lemma_div_le(gf_low as int * d_low.mm as int, n, d_low.mm as int);
            lemma_div_le(n, gf_high as int * d_low.mm as int, d_low.mm as int);
            vstd::arithmetic::div_mod::lemma_div_multiples_vanish(gf_low as int, d_low.mm as int);
            vstd::arithmetic::div_mod::lemma_div_multiples_vanish(gf_high as int, d_low.mm as int);
            vstd::arithmetic::mul::lemma_mul_is_commutative(gf_low as int, d_low.mm as int);
            vstd::arithmetic::mul::lemma_mul_is_commutative(gf_high as int, d_low.mm as int);
        }
        let n: u128 = gf_high as u128 * d_low.mm as u128 - (gf_high - gf_low) as u128
            * depth.mm as u128;
        (n / d_low.mm as u128) as u64
    }

    /// Saturation of every tissue for `time` at `depth`, then the gradient factor slope.
    fn recalculate_compartments(&mut self, depth: Depth, time: Time, gas: &Gas)
        requires
            old(self).wf(),
            old(self).state.depth == depth,
            old(self).state.gas == *gas,
            depth.mm <= MAX_DEPTH_MM,
            gas.wf(),
        ensures
            final(self).wf(),
            final(self).config == old(self).config,
            final(self).sim == old(self).sim,
            final(self).state == (BuhlmannState {
                gf_low_depth: final(self).state.gf_low_depth,
                ..old(self).state
            }),
            forall|i: int|
                0 <= i < 16 ==> #[trigger] final(self).loads_after(
                    old(self),
                    i,
                    depth.mm as int,
                    time.s as nat,
                    *gas,
                ),
            final(self).tol_in_gf_range(),
            (final(self).compartments@, final(self).state.gf_low_depth) == tissues_after(
                old(self).compartments@,
                old(self).config,
                !old(self).sim,
                old(self).state.gf_low_depth,
                depth.mm as int,
                time.s as nat,
                *gas,
            ),
        decreases (if old(self).sim { 0int } else { 1int }), 4int,
    {
        let ghost start = *self;
        let gf_low = self.config.gf.0 as u64;
        let gf_high = self.config.gf.1 as u64;
        let surface = self.config.surface_pressure;
        self.recalculate_all(depth, time, gas, gf_high);
        let ghost mid = *self;
        if gf_low != gf_high {
            let max_gf = self.calc_max_sloped_gf(depth);
            let ghost mid2 = *self;
            if self.config.recalc_all_tissues_m_values {
                self.recalculate_all(depth, Time::zero(), gas, max_gf);
                proof {
                    assert forall|i: int| 0 <= i < 16 implies #[trigger] self.loads_after(
                        &start,
                        i,
                        depth.mm as int,
                        time.s as nat,
                        *gas,
                    ) by {
                        assert(mid.loads_after(&start, i, depth.mm as int, time.s as nat, *gas));
                        assert(self.loads_after(&mid2, i, depth.mm as int, 0, *gas));
                        let o = mid2.compartments[i];
                        let pp = inspired(*gas, depth.mm as int, mid2.surface());
                        lemma_haldane_zero(o.he_ip as int, pp.he as int, o.params.he_decay as int);
                        lemma_haldane_zero(o.n2_ip as int, pp.n2 as int, o.params.n2_decay as int);
                    }
                    assert forall|i: int| 0 <= i < 16 implies tol_at_some_gf(
                        #[trigger] self.compartments[i],
                        self.gf_low(),
                        self.gf_high(),
                    ) by {
                        assert(self.compartments[i].min_tolerable_amb_pressure
                            == self.compartments[i].tolerable_at_gf(max_gf as int));
                    }
                }
            } else {
                let lead = self.leading_index();
                let mut c = self.compartments[lead];
                c.recalculate(depth, Time::zero(), gas, max_gf, surface);
                self.compartments.set(lead, c);
                proof {
                    let o = mid2.compartments[lead as int];
                    let pp = inspired(*gas, depth.mm as int, mid2.surface());
                    lemma_haldane_zero(o.he_ip as int, pp.he as int, o.params.he_decay as int);
                    lemma_haldane_zero(o.n2_ip as int, pp.n2 as int, o.params.n2_decay as int);
                    assert forall|i: int| 0 <= i < 16 implies #[trigger] self.loads_after(
                        &start,
                        i,
                        depth.mm as int,
                        time.s as nat,
                        *gas,
                    ) by {
                        assert(mid.loads_after(&start, i, depth.mm as int, time.s as nat, *gas));
                    }
                    assert forall|i: int| 0 <= i < 16 implies tol_at_some_gf(
                        #[trigger] self.compartments[i],
                        self.gf_low(),
                        self.gf_high(),
                    ) by {
                        if i == lead {
                            assert(self.compartments[i].min_tolerable_amb_pressure
                                == self.compartments[i].tolerable_at_gf(max_gf as int));
                        } else {
                            assert(mid.compartments[i] == self.compartments[i]);
                            assert(self.compartments[i].min_tolerable_amb_pressure
                                == self.compartments[i].tolerable_at_gf(gf_high as int));
                        }
                    }
                }
            }
        } else {
            proof {
                assert forall|i: int| 0 <= i < 16 implies tol_at_some_gf(
                        #[trigger] self.compartments[i],
                        self.gf_low(),
                        self.gf_high(),
                    ) by {
                    assert(self.compartments[i].min_tolerable_amb_pressure
                        == self.compartments[i].tolerable_at_gf(gf_high as int));
                }
            }
        }
    }

    /// Records `time` spent at `depth` on `gas`.
    pub fn record(&mut self, depth: Depth, time: Time, gas: &Gas)
        requires
            old(self).wf(),
            depth.mm <= MAX_DEPTH_MM,
            gas.wf(),
            time.s <= MAX_RECORD_SECONDS,
        ensures
            final(self).wf(),
            final(self).config == old(self).config,
            final(self).sim == old(self).sim,
            final(self).state.depth == depth,
            final(self).state.gas == *gas,
            final(self).state.time.s == time_add(old(self).state.time.s as int, time.s as int),
            forall|i: int|
                0 <= i < 16 ==> #[trigger] final(self).loads_after(
                    old(self),
                    i,
                    depth.mm as int,
                    time.s as nat,
                    *gas,
                ),
            final(self).tol_in_gf_range(),
            (final(self).compartments@, final(self).state.gf_low_depth) == tissues_after(
                old(self).compartments@,
                old(self).config,
                !old(self).sim,
                old(self).state.gf_low_depth,
                depth.mm as int,
                time.s as nat,
                *gas,
            ),
            old(self).sim ==> final(self).state.ox_tox == old(self).state.ox_tox,
            !old(self).sim ==> final(self).state.ox_tox.cns == cns_after(
                old(self).state.ox_tox.cns as int,
                inspired(*gas, depth.mm as int, old(self).surface()).o2 as int,
                depth.mm == 0,
                time.s as int,
            ),
            !old(self).sim ==> final(self).state.ox_tox.otu == otu_after(
                old(self).state.ox_tox.otu as int,
                inspired(*gas, depth.mm as int, old(self).surface()).o2 as int,
                time.s as int,
            ),
        decreases (if old(self).sim { 0int } else { 1int }), 5int,
    {
        let ghost start = *self;
        self.state.depth = depth;
        self.state.gas = *gas;
        let t0 = self.state.time.s;
        self.state.time = Time { s: if time.s > u64::MAX - t0 { u64::MAX } else { t0 + time.s } };
        let ghost set = *self;
        self.recalculate_compartments(depth, time, gas);
        let ghost rc = *self;
        if !self.sim {
            let surface = self.config.surface_pressure;
            let mut ox = self.state.ox_tox;
            ox.recalculate(depth, time, gas, surface);
            self.state.ox_tox = ox;
        }
        proof {
            assert(self.compartments == rc.compartments);
            assert forall|i: int| 0 <= i < 16 implies tol_at_some_gf(
                #[trigger] self.compartments[i],
                self.gf_low(),
                self.gf_high(),
            ) by {
                assert(tol_at_some_gf(rc.compartments[i], rc.gf_low(), rc.gf_high()));
            }
            assert forall|i: int| 0 <= i < 16 implies #[trigger] self.loads_after(
                &start,
                i,
                depth.mm as int,
                time.s as nat,
                *gas,
            ) by {
                assert(rc.loads_after(&set, i, depth.mm as int, time.s as nat, *gas));
            }
        }
    }

    /// A simulation copy of this model.
    pub fn fork(&self) -> (r: BuhlmannModel)
        ensures
            r.config == self.config,
            r.compartments@ == self.compartments@,
            r.state == self.state,
            r.sim,
    {
        let mut compartments: Vec<Compartment> = Vec::new();
        let mut i: usize = 0;
        while i < self.compartments.len()
            invariant
                i <= self.compartments.len(),
                compartments@ == self.compartments@.subrange(0, i as int),
            decreases self.compartments.len() - i,
        {
            compartments.push(self.compartments[i]);
            i = i + 1;
            assert(compartments@ =~= self.compartments@.subrange(0, i as int));
        }
        assert(compartments@ =~= self.compartments@);
        BuhlmannModel { config: self.config, compartments, state: self.state, sim: true }
    }

    pub fn is_sim(&self) -> (r: bool)
        ensures
            r == self.sim,
    {
        self.sim
    }

    pub fn config(&self) -> (r: BuhlmannConfig)
        ensures
            r == self.config,
    {
        self.config
    }

    pub fn dive_state(&self) -> (r: DiveState)
        ensures
            r.depth == self.state.depth,
            r.time == self.state.time,
            r.gas == self.state.gas,
            r.ox_tox == self.state.ox_tox,
    {
        DiveState {
            depth: self.state.depth,
            time: self.state.time,
            gas: self.state.gas,
            ox_tox: self.state.ox_tox,
        }
    }

    /// CNS in billionths of a percent.
    pub fn cns(&self) -> (r: u64)
        ensures
            r == self.state.ox_tox.cns,
    {
        self.state.ox_tox.cns
    }

    /// OTU in billionths of a unit.
    pub fn otu(&self) -> (r: u64)
        ensures
            r == self.state.ox_tox.otu,
    {
        self.state.ox_tox.otu
    }

    pub fn tissues(&self) -> (r: Vec<Compartment>)
        ensures
            r@ == self.compartments@,
    {
        self.fork().compartments
    }

    /// Replaces the configuration when the new one is valid.
    pub fn update_config(&mut self, new_config: BuhlmannConfig) -> (r: Result<(), ConfigValidationErr>)
        requires
            old(self).wf(),
        ensures
            final(self).wf(),
            r is Ok <==> new_config.valid(),
            r matches Err(e) ==> config_error(new_config, e),
            r is Ok ==> final(self).config == new_config,
            r is Err ==> final(self).config == old(self).config,
            final(self).compartments == old(self).compartments,
            final(self).state == old(self).state,
            final(self).sim == old(self).sim,
    {
        match new_config.validate() {
            Err(e) => Err(e),
            Ok(()) => {
                self.config = new_config;
                Ok(())
            },
        }
    }

    /// Highest gradient in use over the tissues, now and at the surface, at least zero.
    pub fn supersaturation(&self) -> (r: Supersaturation)
        requires
            self.wf(),
        ensures
            r.gf_99 == max_gf_99(self.compartments@, self.surface(), self.state.depth.mm as int),
            r.gf_surf == max_gf_surf(self.compartments@, self.surface()),
    {
        let cs = &self.compartments;
        let mut gf_99: i64 = 0;
        let mut gf_surf: i64 = 0;
        let mut i: usize = 0;
        proof {
            assert(cs@.subrange(0, 0) =~= Seq::<Compartment>::empty());
        }
        while i < 16
            invariant
                self.wf(),
                cs == &self.compartments,
                i <= 16,
                gf_99 == max_gf_99(cs@.subrange(0, i as int), self.surface(), self.state.depth.mm as int),
                gf_surf == max_gf_surf(cs@.subrange(0, i as int), self.surface()),
            decreases 16 - i,
        {
            proof {
                assert(cs@.subrange(0, i + 1).drop_last() =~= cs@.subrange(0, i as int));
            }
            let s = cs[i].supersaturation(self.config.surface_pressure, self.state.depth);
            if s.gf_99 > gf_99 {
                gf_99 = s.gf_99;
            }
            if s.gf_surf > gf_surf {
                gf_surf = s.gf_surf;
            }
            i = i + 1;
        }
        assert(cs@.subrange(0, 16) =~= cs@);
        Supersaturation { gf_99, gf_surf }
    }

    /// Every tissue holds the loads of `steps` one-second records of travel from `old`.
    pub open spec fn travelled(
        &self,
        old: &BuhlmannModel,
        gas: Gas,
        target: int,
        num: int,
        den: int,
        steps: nat,
    ) -> bool {
        forall|j: int|
            0 <= j < 16 ==> {
                let c = #[trigger] self.compartments[j];
                let o = old.compartments[j];
                let start = old.state.depth.mm as int;
                &&& c.no == o.no
                &&& c.params == o.params
                &&& c.n2_ip == travel_load(o.n2_ip as int, o.params.n2_decay as int, gas, InertGas::Nitrogen, old.surface(), start, target, num, den, steps)
                &&& c.he_ip == travel_load(o.he_ip as int, o.params.he_decay as int, gas, InertGas::Helium, old.surface(), start, target, num, den, steps)
            }
    }

    /// Moves toward `target` one second at a time, the depth after `i` seconds
    /// being the start plus or minus `i * num / den`, then settles at `target`.
    fn travel(&mut self, target: Depth, steps: u64, num: u64, den: u64, gas: &Gas)
        requires
            old(self).wf(),
            target.mm <= MAX_DEPTH_MM,
            gas.wf(),
            den > 0,
            steps as int * num as int / den as int <= abs_diff(
                target.mm as int,
                old(self).state.depth.mm as int,
            ),
        ensures
            final(self).wf(),
            final(self).config == old(self).config,
            final(self).sim == old(self).sim,
            final(self).state.depth == target,
            final(self).state.gas == *gas,
            final(self).state.time.s == time_add(old(self).state.time.s as int, steps as int),
            final(self).travelled(old(self), *gas, target.mm as int, num as int, den as int, steps as nat),
            (final(self).compartments@, final(self).state.gf_low_depth) == travel_tissues(
                old(self).compartments@,
                old(self).config,
                !old(self).sim,
                old(self).state.gf_low_depth,
                *gas,
                old(self).state.depth.mm as int,
                target.mm as int,
                num as int,
                den as int,
                steps as nat,
            ),
            dose_after_travel(
                old(self),
                final(self).state.ox_tox,
                *gas,
                target.mm as int,
                num as int,
                den as int,
                steps as nat,
            ),
        decreases (if old(self).sim { 0int } else { 1int }), 6int,
    {
        let ghost begin = *self;
        let start = self.state.depth.mm;
        let t0 = self.state.time.s;
        let mut i: u64 = 0;
        while i < steps
            invariant
                self.wf(),
                self.config == old(self).config,
                self.sim == old(self).sim,
                gas.wf(),
                target.mm <= MAX_DEPTH_MM,
                start <= MAX_DEPTH_MM,
                den > 0,
                i <= steps,
                steps as int * num as int / den as int <= abs_diff(target.mm as int, start as int),
                self.state.time.s == time_add(t0 as int, i as int),
                begin.wf(),
                begin.config == self.config,
                start == begin.state.depth.mm,
                self.travelled(&begin, *gas, target.mm as int, num as int, den as int, i as nat),
                begin.sim == self.sim,
                dose_after_travel(
                    &begin,
                    self.state.ox_tox,
                    *gas,
                    target.mm as int,
                    num as int,
                    den as int,
                    i as nat,
                ),
                (self.compartments@, self.state.gf_low_depth) == travel_tissues(
                    begin.compartments@,
                    begin.config,
                    !begin.sim,
                    begin.state.gf_low_depth,
                    *gas,
                    start as int,
                    target.mm as int,
                    num as int,
                    den as int,
                    i as nat,
                ),
            decreases steps - i,
        {
            let ghost prev = *self;
            i = i + 1;
            proof {
                lemma_mul_le(i as int, num as int, steps as int, num as int);
                lemma_mul_le(steps as int, num as int, u64::MAX as int, u64::MAX as int);
                lemma_div_le(i as int * num as int, steps as int * num as int, den as int);
            }
            let off = (i as u128 * num as u128 / den as u128) as u64;
            let d = if target.mm >= start { start + off } else { start - off };
            self.record(Depth { mm: d }, Time { s: 1 }, gas);
            proof {
                assert forall|j: int| 0 <= j < 16 implies {
                    let c = #[trigger] self.compartments[j];
                    let o = begin.compartments[j];
                    &&& c.no == o.no
                    &&& c.params == o.params
                    &&& c.n2_ip == travel_load(o.n2_ip as int, o.params.n2_decay as int, *gas, InertGas::Nitrogen, begin.surface(), start as int, target.mm as int, num as int, den as int, i as nat)
                    &&& c.he_ip == travel_load(o.he_ip as int, o.params.he_decay as int, *gas, InertGas::Helium, begin.surface(), start as int, target.mm as int, num as int, den as int, i as nat)
                } by {
                    assert(self.loads_after(&prev, j, d as int, 1, *gas));
                    assert(prev.travelled(&begin, *gas, target.mm as int, num as int, den as int, (i - 1) as nat));
                    let pc = prev.compartments[j];
                    assert(pc.n2_ip == travel_load(begin.compartments[j].n2_ip as int, begin.compartments[j].params.n2_decay as int, *gas, InertGas::Nitrogen, begin.surface(), start as int, target.mm as int, num as int, den as int, (i - 1) as nat));
                    assert(d as int == travel_depth(start as int, target.mm as int, num as int, den as int, i as int));
                }
                assert(d as int == travel_depth(start as int, target.mm as int, num as int, den as int, i as int));
            }
        }
        self.state.depth = target;
        self.state.gas = *gas;
    }

    /// Linear travel to `target` in `time`, recorded one second at a time.
    pub fn record_travel(&mut self, target: Depth, time: Time, gas: &Gas)
        requires
            old(self).wf(),
            target.mm <= MAX_DEPTH_MM,
            gas.wf(),
        ensures
            final(self).wf(),
            final(self).config == old(self).config,
            final(self).sim == old(self).sim,
            final(self).state.depth == target,
            final(self).state.gas == *gas,
            final(self).state.time.s == time_add(old(self).state.time.s as int, time.s as int),
            final(self).travelled(
                old(self),
                *gas,
                target.mm as int,
                abs_diff(target.mm as int, old(self).state.depth.mm as int),
                time.s as int,
                time.s as nat,
            ),
            (final(self).compartments@, final(self).state.gf_low_depth) == travel_tissues(
                old(self).compartments@,
                old(self).config,
                !old(self).sim,
                old(self).state.gf_low_depth,
                *gas,
                old(self).state.depth.mm as int,
                target.mm as int,
                abs_diff(target.mm as int, old(self).state.depth.mm as int),
                time.s as int,
                time.s as nat,
            ),
            dose_after_travel(
                old(self),
                final(self).state.ox_tox,
                *gas,
                target.mm as int,
                abs_diff(target.mm as int, old(self).state.depth.mm as int),
                time.s as int,
                time.s as nat,
            ),
    {
        let start = self.state.depth.mm;
        let dist = if target.mm >= start { target.mm - start } else { start - target.mm };
        if time.s == 0 {
            self.travel(target, 0, dist, 1, gas);
        } else {
            proof {
                vstd::arithmetic::div_mod::lemma_div_multiples_vanish(dist as int, time.s as int);
                vstd::arithmetic::mul::lemma_mul_is_commutative(dist as int, time.s as int);
            }
            self.travel(target, time.s, dist, time.s, gas);
        }
    }

    /// Linear travel to `target` at `rate` millimetres per minute, recorded one second
    /// at a time for the whole seconds it takes.
    pub fn record_travel_with_rate(&mut self, target: Depth, rate: u64, gas: &Gas)
        requires
            old(self).wf(),
            target.mm <= MAX_DEPTH_MM,
            gas.wf(),
            1 <= rate <= 1_000_000,
        ensures
            final(self).wf(),
            final(self).config == old(self).config,
            final(self).sim == old(self).sim,
            final(self).state.depth == target,
            final(self).state.gas == *gas,
            final(self).state.time.s == time_add(
                old(self).state.time.s as int,
                travel_seconds(abs_diff(target.mm as int, old(self).state.depth.mm as int), rate as int),
            ),
            final(self).travelled(
                old(self),
                *gas,
                target.mm as int,
                rate as int,
                60,
                travel_seconds(abs_diff(target.mm as int, old(self).state.depth.mm as int), rate as int) as nat,
            ),
            (final(self).compartments@, final(self).state.gf_low_depth) == travel_tissues(
                old(self).compartments@,
                old(self).config,
                !old(self).sim,
                old(self).state.gf_low_depth,
                *gas,
                old(self).state.depth.mm as int,
                target.mm as int,
                rate as int,
                60,
                travel_seconds(abs_diff(target.mm as int, old(self).state.depth.mm as int), rate as int) as nat,
            ),
            dose_after_travel(
                old(self),
                final(self).state.ox_tox,
                *gas,
                target.mm as int,
                rate as int,
                60,
                travel_seconds(abs_diff(target.mm as int, old(self).state.depth.mm as int), rate as int) as nat,
            ),
        decreases (if old(self).sim { 0int } else { 1int }), 7int,
    {
        let start = self.state.depth.mm;
        let dist = if target.mm >= start { target.mm - start } else { start - target.mm };
        let steps = dist * 60 / rate;
        proof {
            vstd::arithmetic::div_mod::lemma_fundamental_div_mod(dist as int * 60, rate as int);
            assert(steps as int * rate as int <= dist as int * 60) by (nonlinear_arith)
                requires
                    steps == (dist as int * 60) / (rate as int),
                    rate > 0,
                    dist as int * 60 == (rate as int) * ((dist as int * 60) / (rate as int)) + (dist as int * 60) % (rate as int),
                    (dist as int * 60) % (rate as int) >= 0,
            ;
            lemma_div_le(steps as int * rate as int, dist as int * 60, 60);
            vstd::arithmetic::div_mod::lemma_div_multiples_vanish(dist as int, 60);
            vstd::arithmetic::mul::lemma_mul_is_commutative(dist as int, 60);
        }
        self.travel(target, steps, rate, 60, gas);
    }

    /// Current ceiling. The adaptive ceiling ascends a simulation copy toward its
    /// ceiling at the deco ascent rate until the ceiling no longer lies above it;
    /// a simulation copy reports the actual ceiling.
    pub fn ceiling(&self) -> (r: Depth)
        requires
            self.wf(),
        ensures
            self.reports_actual() ==> r.mm == self.actual_ceiling_mm(),
            self.state.depth.mm == 0 || self.state.depth.mm <= self.actual_ceiling_mm() ==> r.mm
                == self.actual_ceiling_mm(),
            !self.reports_actual() ==> r.mm == adaptive_ceiling_from(
                self.compartments@,
                self.config,
                self.state.gf_low_depth,
                self.state.gas,
                self.state.depth.mm as int,
                self.actual_ceiling_mm(),
            ),
            r.mm <= 5_000_000,
        decreases (if self.sim { 0int } else { 1int }), 2int,
    {
        if self.sim || self.config.ceiling_type == CeilingType::Actual {
            return self.actual_ceiling();
        }
        let mut sim = self.fork();
        let gas = sim.state.gas;
        let rate = self.config.deco_ascent_rate * 1000;
        let mut c = sim.actual_ceiling();
        if sim.state.depth.mm == 0 || sim.state.depth.mm <= c.mm {
            return c;
        }
        while sim.state.depth.mm > 0 && sim.state.depth.mm > c.mm
            invariant
                sim.wf(),
                gas.wf(),
                sim.config == self.config,
                1000 <= rate <= 30_000,
                rate == self.config.deco_ascent_rate * 1000,
                sim.sim,
                !self.sim,
                c.mm <= 5_000_000,
                c.mm == sim.actual_ceiling_mm(),
                adaptive_ceiling_from(
                    self.compartments@,
                    self.config,
                    self.state.gf_low_depth,
                    self.state.gas,
                    self.state.depth.mm as int,
                    self.actual_ceiling_mm(),
                ) == adaptive_ceiling_from(
                    sim.compartments@,
                    self.config,
                    sim.state.gf_low_depth,
                    gas,
                    sim.state.depth.mm as int,
                    c.mm as int,
                ),
            decreases sim.state.depth.mm,
        {
            sim.record_travel_with_rate(c, rate, &gas);
            c = sim.actual_ceiling();
        }
        c
    }

    /// Whether the diver has a deco obligation: a ceiling below the surface, or for the
    /// adaptive ceiling, a single-gas schedule of more than one stage. A schedule that
    /// cannot be planned counts as an obligation.
    pub fn in_deco(&self) -> (r: bool)
        requires
            self.wf(),
        ensures
            self.config.ceiling_type == CeilingType::Actual ==> r == (self.actual_ceiling_mm() > 0),
            r == deco_now(self.compartments@, self.config, self.state),
    {
        match self.config.ceiling_type {
            CeilingType::Actual => self.ceiling().mm > 0,
            CeilingType::Adaptive => {
                let gases = vec![self.state.gas];
                proof {
                    assert(gases@ =~= seq![self.state.gas]);
                    assert(gases@[0] == self.state.gas);
                }
                match self.deco(gases) {
                    Ok(runtime) => runtime.deco_stages.len() > 1,
                    Err(_) => true,
                }
            },
        }
    }

    /// Minutes left at the current depth and gas before a deco obligation, up to 99.
    pub fn ndl(&self) -> (r: Time)
        requires
            self.wf(),
        ensures
            r.s <= NDL_CUT_OFF_MINS * 60,
            r.s % 60 == 0,
            r.s == self.ndl_spec(),
    {
        if self.in_deco() {
            return Time::zero();
        }
        let mut sim = self.fork();
        let depth = self.state.depth;
        let gas = self.state.gas;
        let mut i: u64 = 0;
        while i < NDL_CUT_OFF_MINS
            invariant
                sim.wf(),
                sim.sim,
                sim.config == self.config,
                gas.wf(),
                gas == self.state.gas,
                depth == self.state.depth,
                depth.mm <= MAX_DEPTH_MM,
                i <= NDL_CUT_OFF_MINS,
                self.config.ceiling_type == CeilingType::Actual ==> self.actual_ceiling_mm() == 0,
                sim.state.depth == depth,
                sim.state.gas == gas,
                !deco_now(self.compartments@, self.config, self.state),
                ndl_from(self.compartments@, self.config, self.state, 0) == ndl_from(
                    sim.compartments@,
                    self.config,
                    sim.state,
                    i as nat,
                ),
            decreases NDL_CUT_OFF_MINS - i,
        {
            let ghost prev = sim.state;
            let ghost prev_cs = sim.compartments@;
            sim.record(depth, Time { s: 60 }, &gas);
            proof {
                assert(sim.state == BuhlmannState {
                    gf_low_depth: sim.state.gf_low_depth,
                    time: Time { s: time_add(prev.time.s as int, 60) as u64 },
                    ..prev
                });
                assert(ndl_from(prev_cs, self.config, prev, i as nat) == if deco_now(
                    sim.compartments@,
                    self.config,
                    sim.state,
                ) {
                    i as int * 60
                } else {
                    ndl_from(sim.compartments@, self.config, sim.state, (i + 1) as nat)
                });
            }
            if sim.in_deco() {
                return Time { s: i * 60 };
            }
            i = i + 1;
        }
        Time { s: NDL_CUT_OFF_MINS * 60 }
    }

    /// Schedule to the surface with the given gases, planned on a simulation copy.
    pub fn deco(&self, gas_mixes: Vec<Gas>) -> (r: Result<DecoRuntime, DecoCalculationError>)
        requires
            self.wf(),
            forall|i: int| 0 <= i < gas_mixes.len() ==> (#[trigger] gas_mixes[i]).wf(),
        ensures
            deco_result_ok(self.compartments@, self.config, self.state, gas_mixes@, r, true),
    {
        let mut deco = Deco::new();
        deco.calc(self.fork(), gas_mixes)
    }
}

/// Largest tolerable pressure among the tissues under a gradient factor.
pub open spec fn max_tol_at(cs: Seq<Compartment>, gf: int) -> int
    decreases cs.len(),
{
    if cs.len() == 0 {
        MIN_TOLERABLE_NBAR as int
    } else {
        let m = max_tol_at(cs.drop_last(), gf);
        let x = cs.last().tolerable_at_gf(gf);
        if x > m {
            x
        } else {
            m
        }
    }
}

/// The tissue's tolerable pressure is taken under some gradient factor in `lo..=hi`.
pub open spec fn tol_at_some_gf(c: Compartment, lo: int, hi: int) -> bool {
    exists|g: int| lo <= g <= hi && c.min_tolerable_amb_pressure == #[trigger] c.tolerable_at_gf(g)
}

/// Largest gradient in use at the current depth over the tissues, at least zero.
pub open spec fn max_gf_99(cs: Seq<Compartment>, surface: int, depth_mm: int) -> int
    decreases cs.len(),
{
    if cs.len() == 0 {
        0
    } else {
        let m = max_gf_99(cs.drop_last(), surface, depth_mm);
        let c = cs.last();
        let x = gradient_used(c.total_ip as int, c.a_w(), c.b_w(), ambient_nbar(surface, depth_mm));
        if x > m {
            x
        } else {
            m
        }
    }
}

/// Largest gradient in use at the surface over the tissues, at least zero.
pub open spec fn max_gf_surf(cs: Seq<Compartment>, surface: int) -> int
    decreases cs.len(),
{
    if cs.len() == 0 {
        0
    } else {
        let m = max_gf_surf(cs.drop_last(), surface);
        let c = cs.last();
        let x = gradient_used(c.total_ip as int, c.a_w(), c.b_w(), ambient_nbar(surface, 0));
        if x > m {
            x
        } else {
            m
        }
    }
}

proof fn lemma_haldane_zero(p: int, pi: int, k: int)
    ensures
        haldane(p, pi, k, 0) == p,
{
    assert(crate::compartment::decay_pow(k, 0) == crate::zhl::DECAY_SCALE as int);
    assert((pi - p) * 0 == 0);
    assert((p - pi) * 0 == 0);
}

/// Gradient factor on the line from GF low at `d_low` to GF high at the surface.
pub open spec fn gf_slope(gf_low: int, gf_high: int, d_low: int, depth: int) -> int {
    if depth > d_low {
        gf_low
    } else if d_low == 0 {
        gf_high
    } else {
        (gf_high * d_low - (gf_high - gf_low) * depth) / d_low
    }
}

/// Monotone on-gassing: over a record at one depth and gas, a tissue's load of a gas
/// whose inspired pressure is at least that load rises toward the inspired pressure and
/// never past it; while both loads are below their inspired pressures, the total load
/// does not fall.
pub proof fn lemma_monotone_ongassing(
    before: BuhlmannModel,
    after: BuhlmannModel,
    depth_mm: int,
    t: nat,
    gas: Gas,
)
    requires
        before.wf(),
        after.wf(),
        forall|i: int|
            0 <= i < 16 ==> #[trigger] after.loads_after(&before, i, depth_mm, t, gas),
    ensures
        forall|i: int|
            0 <= i < 16 ==> {
                let pp = inspired(gas, depth_mm, before.surface());
                let b = before.compartments[i];
                let a = #[trigger] after.compartments[i];
                &&& pp.n2 >= b.n2_ip ==> b.n2_ip <= a.n2_ip <= pp.n2
                &&& pp.he >= b.he_ip ==> b.he_ip <= a.he_ip <= pp.he
                &&& pp.n2 >= b.n2_ip && pp.he >= b.he_ip ==> b.total_ip <= a.total_ip
            },
{
    assert forall|i: int| 0 <= i < 16 implies {
        let pp = inspired(gas, depth_mm, before.surface());
        let b = before.compartments[i];
        let a = #[trigger] after.compartments[i];
        &&& pp.n2 >= b.n2_ip ==> b.n2_ip <= a.n2_ip <= pp.n2
        &&& pp.he >= b.he_ip ==> b.he_ip <= a.he_ip <= pp.he
        &&& pp.n2 >= b.n2_ip && pp.he >= b.he_ip ==> b.total_ip <= a.total_ip
    } by {
        let pp = inspired(gas, depth_mm, before.surface());
        let b = before.compartments[i];
        assert(after.loads_after(&before, i, depth_mm, t, gas));
        assert(b.wf());
        assert(after.compartments[i].wf());
        lemma_haldane_between(b.n2_ip as int, pp.n2 as int, b.params.n2_decay as int, t);
        lemma_haldane_between(b.he_ip as int, pp.he as int, b.params.he_decay as int, t);
    }
}

/// Surface equilibrium: a record at the surface on air, long enough that every tissue's
/// decay factor has run down to zero, leaves each tissue at the inspired nitrogen
/// pressure and free of helium, and no gradient in use is then above zero.
pub proof fn lemma_surface_equilibrium(before: BuhlmannModel, after: BuhlmannModel, t: nat)
    requires
        before.wf(),
        after.wf(),
        after.config == before.config,
        after.state.depth.mm == 0,
        forall|i: int|
            0 <= i < 16 ==> #[trigger] after.loads_after(&before, i, 0, t, Gas::spec_air()),
        forall|i: int|
            0 <= i < 16 ==> decay_pow((#[trigger] before.compartments[i]).params.n2_decay as int, t)
                == 0 && decay_pow(before.compartments[i].params.he_decay as int, t) == 0,
    ensures
        forall|i: int|
            0 <= i < 16 ==> (#[trigger] after.compartments[i]).n2_ip == inspired(
                Gas::spec_air(),
                0,
                before.surface(),
            ).n2 && after.compartments[i].he_ip == 0,
        max_gf_99(after.compartments@, after.surface(), 0) == 0,
        max_gf_surf(after.compartments@, after.surface()) == 0,
{
    let air = Gas::spec_air();
    let pp = inspired(air, 0, before.surface());
    assert forall|i: int| 0 <= i < 16 implies (#[trigger] after.compartments[i]).n2_ip == pp.n2
        && after.compartments[i].he_ip == 0 by {
        assert(after.loads_after(&before, i, 0, t, air));
        let b = before.compartments[i];
        assert(decay_pow(b.params.n2_decay as int, t) == 0);
        vstd::arithmetic::div_mod::lemma_div_multiples_vanish(pp.n2 as int - b.n2_ip as int, DECAY_SCALE as int);
        vstd::arithmetic::div_mod::lemma_div_multiples_vanish(b.n2_ip as int - pp.n2 as int, DECAY_SCALE as int);
        vstd::arithmetic::div_mod::lemma_div_multiples_vanish(b.he_ip as int, DECAY_SCALE as int);
        vstd::arithmetic::mul::lemma_mul_is_commutative(pp.n2 as int - b.n2_ip as int, DECAY_SCALE as int);
        vstd::arithmetic::mul::lemma_mul_is_commutative(b.n2_ip as int - pp.n2 as int, DECAY_SCALE as int);
        vstd::arithmetic::mul::lemma_mul_is_commutative(b.he_ip as int, DECAY_SCALE as int);
    }
    lemma_max_gf_at_rest(after.compartments@, after.surface(), pp.n2 as int);
}

/// Surface equilibrium is reached by any surface interval on air of at least
/// `DECAY_RUNOUT_SECONDS` (about 80 days), whatever the tissues held before.
pub proof fn lemma_surface_equilibrium_reached(before: BuhlmannModel, after: BuhlmannModel, t: nat)
    requires
        before.wf(),
        after.wf(),
        after.config == before.config,
        after.state.depth.mm == 0,
        forall|i: int|
            0 <= i < 16 ==> #[trigger] after.loads_after(&before, i, 0, t, Gas::spec_air()),
        t >= DECAY_RUNOUT_SECONDS,
    ensures
        forall|i: int|
            0 <= i < 16 ==> (#[trigger] after.compartments[i]).n2_ip == inspired(
                Gas::spec_air(),
                0,
                before.surface(),
            ).n2 && after.compartments[i].he_ip == 0,
        max_gf_99(after.compartments@, after.surface(), 0) == 0,
        max_gf_surf(after.compartments@, after.surface()) == 0,
{
    assert forall|i: int| 0 <= i < 16 implies decay_pow(
        (#[trigger] before.compartments[i]).params.n2_decay as int,
        t,
    ) == 0 && decay_pow(before.compartments[i].params.he_decay as int, t) == 0 by {
        assert(before.compartments[i].wf());
        lemma_decay_runs_out_in_time(before.compartments[i].params.n2_decay as int, t);
        lemma_decay_runs_out_in_time(before.compartments[i].params.he_decay as int, t);
    }
    lemma_surface_equilibrium(before, after, t);
}

/// Tissues holding only the inspired nitrogen of air at the surface use no positive gradient there.
proof fn lemma_max_gf_at_rest(cs: Seq<Compartment>, surface: int, n2: int)
    requires
        crate::gas::valid_surface(surface),
        n2 == inspired(Gas::spec_air(), 0, surface).n2,
        forall|i: int|
            0 <= i < cs.len() ==> (#[trigger] cs[i]).wf() && cs[i].n2_ip == n2 && cs[i].he_ip == 0,
    ensures
        max_gf_99(cs, surface, 0) == 0,
        max_gf_surf(cs, surface) == 0,
    decreases cs.len(),
{
    if cs.len() > 0 {
        let c = cs.last();
        assert(c == cs[cs.len() - 1]);
        lemma_max_gf_at_rest(cs.drop_last(), surface, n2);
        lemma_gradient_nonpositive(c, ambient_nbar(surface, 0));
    }
}

/// A no-decompression time and a deco obligation exclude each other: a positive NDL
/// means no obligation, and an obligation means an NDL of zero.
pub proof fn lemma_ndl_deco_exclusive(m: BuhlmannModel)
    requires
        m.wf(),
    ensures
        m.ndl_spec() > 0 ==> !deco_now(m.compartments@, m.config, m.state),
        deco_now(m.compartments@, m.config, m.state) ==> m.ndl_spec() == 0,
{
}

} // verus!
