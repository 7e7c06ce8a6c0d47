//! The decompression planner: stops, ascents and gas switches up to the surface.
use crate::gas::Gas;
use crate::compartment::Compartment;
use crate::config::{BuhlmannConfig, CeilingType};
use crate::model::{
    abs_diff, ceiling_of, time_add, tissues_after, travel_seconds, travel_tissues, BuhlmannModel,
    BuhlmannState,
};
use crate::units::{Depth, Time, MAX_DEPTH_MM};
use vstd::prelude::*;

verus! {

/// Depth window of a deco stop, in millimetres.
pub const CEILING_WINDOW_MM: u64 = 3000;

/// Deepest equivalent narcotic depth, in millimetres, at which a gas switch is made.
pub const MAX_END_MM: u64 = 30_000;

/// Oxygen partial pressure limit, in millibar, that sets a deco gas's switch depth.
pub const DECO_PP_O2_LIMIT_MBAR: u64 = 1600;

/// Most planning steps in one schedule; each stop step is one simulated second.
pub const MAX_PLAN_STEPS: u64 = 200_000;

/// Longest ascent in seconds between two depths of the model's range.
pub const MAX_ASCENT_SECONDS: u64 = 120_000;

#[derive(Clone, Copy, Debug, PartialEq, Eq, Structural)]
pub enum DecoAction {
    AscentToCeil,
    AscentToGasSwitchDepth,
    SwitchGas,
    Stop,
}

#[derive(Clone, Copy, Debug, PartialEq, Eq, Structural)]
pub enum DecoStageType {
    Ascent,
    DecoStop,
    GasSwitch,
}

#[derive(Clone, Copy, Debug, PartialEq, Eq, Structural)]
pub struct DecoStage {
    pub stage_type: DecoStageType,
    pub start_depth: Depth,
    pub end_depth: Depth,
    pub duration: Time,
    pub gas: Gas,
}

/// A schedule to the surface.
#[derive(Debug)]
pub struct DecoRuntime {
    pub deco_stages: Vec<DecoStage>,
    /// Time to surface.
    pub tts: Time,
    /// Time to surface after five more minutes at the current depth and gas.
    pub tts_at_5: Time,
    /// `tts_at_5 - tts` in seconds.
    pub tts_delta_at_5: i64,
}

#[derive(Clone, Copy, Debug, PartialEq, Eq, Structural)]
pub enum DecoCalculationError {
    /// No gas given.
    EmptyGasList,
    /// The gases given do not include the gas breathed now.
    CurrentGasNotInList,
    /// The schedule leaves the model's depth range or runs past the planning horizon.
    /// Some valid dives have no schedule at all: a stop that no longer changes the
    /// tissues never clears (see `lemma_stuck_stop_has_no_plan`).
    ScheduleOutOfRange,
}

impl DecoCalculationError {
    /// What went wrong, in words.
    pub fn message(&self) -> (r: &'static str)
        ensures
            *self == DecoCalculationError::EmptyGasList ==> r@ == "At least one available gas mix required"@,
            *self == DecoCalculationError::CurrentGasNotInList ==> r@
                == "Available gas mixes must include current gas mix used by deco model"@,
            *self == DecoCalculationError::ScheduleOutOfRange ==> r@
                == "Deco schedule leaves the model's depth range or planning horizon"@,
    {
        match self {
            DecoCalculationError::EmptyGasList => {
                proof {
                    reveal_strlit("At least one available gas mix required");
                }
                "At least one available gas mix required"
            },
            DecoCalculationError::CurrentGasNotInList => {
                proof {
                    reveal_strlit("Available gas mixes must include current gas mix used by deco model");
                }
                "Available gas mixes must include current gas mix used by deco model"
            },
            DecoCalculationError::ScheduleOutOfRange => {
                proof {
                    reveal_strlit("Deco schedule leaves the model's depth range or planning horizon");
                }
                "Deco schedule leaves the model's depth range or planning horizon"
            },
        }
    }
}

/// The ceiling lies above a deco stop that the diver has already passed.
#[derive(Clone, Copy, Debug, PartialEq, Eq, Structural)]
pub struct MissedDecoStopViolation;

/// A stage planner; a simulation planner gives no five-minute projection.
#[derive(Debug)]
pub struct Deco {
    pub deco_stages: Vec<DecoStage>,
    pub tts: Time,
    pub sim: bool,
}

/// Deco stop depth for a ceiling: the smallest multiple of 3 m at or below it.
pub open spec fn deco_stop_mm(ceiling_mm: int) -> int {
    (ceiling_mm + 2999) / 3000 * 3000
}

/// Where the simulated diver stands relative to the end of the last stage: there, or
/// deeper at a stop depth where the planner moved a diver who had passed a stop.
pub open spec fn linked(end_mm: int, at_mm: int) -> bool {
    end_mm == at_mm || (at_mm > end_mm && at_mm % 3000 == 0)
}

/// The 3 m stop depth displayed for a stop held at `depth_mm`: the multiple of 3 m at or
/// above it.
pub open spec fn display_stop_mm(depth_mm: int) -> int {
    depth_mm / 3000 * 3000
}

/// How a stage `b` follows a stage that ended at `end_mm`. A deco stop starts at its
/// displayed 3 m depth, with the previous stage ending in `[start, start + 3 m)`; any
/// other stage starts where the previous one ended. The one exception is the stage
/// right after a missed-stop recovery, which starts deeper at the stop depth the
/// diver was moved to.
pub open spec fn meets(end_mm: int, b: DecoStage) -> bool {
    let start = b.start_depth.mm as int;
    ||| b.stage_type != DecoStageType::DecoStop && start == end_mm
    ||| b.stage_type == DecoStageType::DecoStop && start % 3000 == 0 && start <= end_mm < start
        + 3000
    ||| end_mm < start && start % 3000 == 0
}

pub open spec fn total_duration(s: Seq<DecoStage>) -> int
    decreases s.len(),
{
    if s.len() == 0 {
        0
    } else {
        total_duration(s.drop_last()) + s.last().duration.s
    }
}

/// Consecutive stages meet, and every gas switch lies within the new gas's
/// maximum operating depth.
pub open spec fn stages_ok(s: Seq<DecoStage>) -> bool {
    &&& forall|i: int| 0 <= i < s.len() ==> (#[trigger] s[i]).gas.wf()
    &&& forall|i: int|
        0 <= i < s.len() && (#[trigger] s[i]).stage_type == DecoStageType::GasSwitch
            ==> s[i].start_depth.mm <= s[i].gas.mod_mm(DECO_PP_O2_LIMIT_MBAR as int)
            && s[i].duration.s == 0
    &&& forall|i: int| 0 <= i < s.len() - 1 ==> #[trigger] link_at(s, i)
}

/// Every stage breathes a gas of the list.
pub open spec fn stages_use(s: Seq<DecoStage>, gases: Seq<Gas>) -> bool {
    forall|i: int| 0 <= i < s.len() ==> gas_in(gases, (#[trigger] s[i]).gas)
}

/// Stage `i` meets stage `i + 1`, and the two are of different kinds.
pub open spec fn link_at(s: Seq<DecoStage>, i: int) -> bool {
    &&& meets(s[i].end_depth.mm as int, s[i + 1])
    &&& s[i].stage_type != s[i + 1].stage_type
}

pub open spec fn gas_in(gases: Seq<Gas>, g: Gas) -> bool {
    exists|i: int| 0 <= i < gases.len() && gases[i] == g
}

/// What a schedule promises: meeting stages that end at the surface, safe gas
/// switches, and a time to surface that is the sum of the stages.
pub open spec fn runtime_ok(start: BuhlmannState, rt: &DecoRuntime, projected: bool) -> bool {
    let s = rt.deco_stages@;
    &&& stages_ok(s)
    &&& s.len() > 0 ==> meets(start.depth.mm as int, s[0])
    &&& s.len() > 0 ==> s.last().end_depth.mm == 0
    &&& rt.tts.s == total_duration(s)
    &&& projected ==> rt.tts_delta_at_5 == rt.tts_at_5.s - rt.tts.s
    &&& !projected ==> rt.tts_at_5.s == 0 && rt.tts_delta_at_5 == 0
}

/// The planning simulation five minutes on at the current depth and gas.
pub open spec fn five_on(cs: Seq<Compartment>, config: BuhlmannConfig, state: BuhlmannState) -> PlanState {
    after_record(start_of(cs, state), config, state.depth.mm as int, 300, state.gas)
}

/// The planner's result for a model (tissues `cs`, settings `config`, dive state `start`)
/// and a list of gases; `projected` when it also plans five minutes on.
pub open spec fn deco_result_ok(
    cs: Seq<Compartment>,
    config: BuhlmannConfig,
    start: BuhlmannState,
    gases: Seq<Gas>,
    r: Result<DecoRuntime, DecoCalculationError>,
    projected: bool,
) -> bool {
    let now = plan(start_of(cs, start), config, gases, MAX_PLAN_STEPS as nat);
    let later = plan(five_on(cs, config, start), config, gases, MAX_PLAN_STEPS as nat);
    &&& (r matches Err(DecoCalculationError::EmptyGasList)) <==> gases.len() == 0
    &&& (r matches Err(DecoCalculationError::CurrentGasNotInList)) <==> (gases.len() > 0
        && !gas_in(gases, start.gas))
    &&& (r matches Err(DecoCalculationError::ScheduleOutOfRange)) <==> (gases.len() > 0
        && gas_in(gases, start.gas) && (now is None || (projected && later is None)))
    &&& (r is Ok <==> (gases.len() > 0 && gas_in(gases, start.gas) && now is Some && (!projected
        || later is Some)))
    &&& (r matches Ok(rt) ==> runtime_ok(start, &rt, projected))
    &&& (r matches Ok(rt) ==> stages_use(rt.deco_stages@, gases))
    &&& (r matches Ok(rt) ==> rt.deco_stages@ == now->0)
    &&& (r matches Ok(rt) ==> projected ==> rt.tts_at_5.s == total_duration(later->0))
}

/// The richest-but-one choice: among gases with more oxygen than `cur_o2` percent,
/// the first of those with the least oxygen.
pub open spec fn next_switch(gases: Seq<Gas>, cur_o2: int) -> Option<Gas>
    decreases gases.len(),
{
    if gases.len() == 0 {
        None
    } else {
        let b = next_switch(gases.drop_last(), cur_o2);
        let g = gases.last();
        if g.o2 > cur_o2 && (b is None || g.o2 < b->0.o2) {
            Some(g)
        } else {
            b
        }
    }
}

/// The planner's next move at `depth_mm` under `ceiling_mm`, breathing `cur`, with
/// `switch` the next deco gas if any.
pub open spec fn deco_action(depth_mm: int, ceiling_mm: int, switch: Option<Gas>) -> Result<
    (Option<DecoAction>, Option<Gas>),
    MissedDecoStopViolation,
> {
    if depth_mm <= 0 {
        Ok((None, None))
    } else if ceiling_mm <= 0 {
        Ok((Some(DecoAction::AscentToCeil), None))
    } else if depth_mm < deco_stop_mm(ceiling_mm) {
        Err(MissedDecoStopViolation)
    } else if switch is Some && depth_mm <= switch->0.mod_mm(DECO_PP_O2_LIMIT_MBAR as int)
        && switch->0.end_mm(depth_mm) <= MAX_END_MM {
        Ok((Some(DecoAction::SwitchGas), switch))
    } else if depth_mm - ceiling_mm <= CEILING_WINDOW_MM {
        Ok((Some(DecoAction::Stop), None))
    } else if switch is Some && switch->0.mod_mm(DECO_PP_O2_LIMIT_MBAR as int) >= ceiling_mm {
        Ok((Some(DecoAction::AscentToGasSwitchDepth), switch))
    } else {
        Ok((Some(DecoAction::AscentToCeil), None))
    }
}

/// `st` appended to a schedule, merged into the last stage when both are of one kind.
pub open spec fn register(s: Seq<DecoStage>, st: DecoStage) -> Seq<DecoStage> {
    if s.len() > 0 && s.last().stage_type == st.stage_type {
        s.update(
            s.len() - 1,
            DecoStage {
                end_depth: st.end_depth,
                duration: Time { s: (s.last().duration.s + st.duration.s) as u64 },
                ..s.last()
            },
        )
    } else {
        s.push(st)
    }
}

/// A planning simulation: tissues, kept first stop depth, depth (mm), elapsed time (s),
/// gas breathed, and the schedule so far.
pub struct PlanState {
    pub cs: Seq<Compartment>,
    pub kept: Option<Depth>,
    pub depth: int,
    pub time: int,
    pub gas: Gas,
    pub stages: Seq<DecoStage>,
}

/// The simulation after `t` seconds at `depth` on `gas`.
pub open spec fn after_record(p: PlanState, config: BuhlmannConfig, depth: int, t: nat, gas: Gas) -> PlanState {
    let (cs, kept) = tissues_after(p.cs, config, false, p.kept, depth, t, gas);
    PlanState { cs, kept, depth, time: time_add(p.time, t as int), gas, stages: p.stages }
}

/// The simulation after travelling to `target` on `gas` at the deco ascent rate.
pub open spec fn after_travel(p: PlanState, config: BuhlmannConfig, target: int, gas: Gas) -> PlanState {
    let rate = config.deco_ascent_rate as int * 1000;
    let steps = travel_seconds(abs_diff(target, p.depth), rate);
    let (cs, kept) = travel_tissues(p.cs, config, false, p.kept, gas, p.depth, target, rate, 60, steps as nat);
    PlanState { cs, kept, depth: target, time: time_add(p.time, steps), gas, stages: p.stages }
}

pub open spec fn make_stage(t: DecoStageType, start: int, end: int, duration: int, gas: Gas) -> DecoStage {
    DecoStage {
        stage_type: t,
        start_depth: Depth { mm: start as u64 },
        end_depth: Depth { mm: end as u64 },
        duration: Time { s: duration as u64 },
        gas,
    }
}

/// The schedule the planner reaches from `p` within `fuel` steps; `None` when it leaves
/// the model's depth range or needs more steps.
#[verifier::opaque]
pub open spec fn plan(p: PlanState, config: BuhlmannConfig, gases: Seq<Gas>, fuel: nat) -> Option<Seq<DecoStage>>
    decreases fuel,
{
    if fuel == 0 {
        None
    } else {
        let f = (fuel - 1) as nat;
        let ceiling = ceiling_of(p.cs, config);
        match deco_action(p.depth, ceiling, next_switch(gases, p.gas.o2 as int)) {
            Err(_) => {
                let stop = deco_stop_mm(ceiling);
                if stop > MAX_DEPTH_MM {
                    None
                } else {
                    plan(after_record(p, config, stop, 0, p.gas), config, gases, f)
                }
            },
            Ok((None, _)) => Some(p.stages),
            Ok((Some(DecoAction::AscentToCeil), _)) => {
                let q = after_travel(p, config, deco_stop_mm(ceiling), p.gas);
                let st = make_stage(DecoStageType::Ascent, p.depth, q.depth, q.time - p.time, q.gas);
                plan(PlanState { stages: register(p.stages, st), ..q }, config, gases, f)
            },
            Ok((Some(DecoAction::AscentToGasSwitchDepth), Some(g))) => {
                let m = g.mod_mm(DECO_PP_O2_LIMIT_MBAR as int);
                let q = after_travel(p, config, m, p.gas);
                let s1 = register(p.stages, make_stage(DecoStageType::Ascent, p.depth, m, q.time - p.time, p.gas));
                let r = after_record(q, config, m, 0, g);
                let s2 = register(s1, make_stage(DecoStageType::GasSwitch, m, m, 0, g));
                plan(PlanState { stages: s2, ..r }, config, gases, f)
            },
            Ok((Some(DecoAction::SwitchGas), Some(g))) => {
                let r = after_record(p, config, p.depth, 0, g);
                let st = make_stage(DecoStageType::GasSwitch, p.depth, p.depth, 0, g);
                plan(PlanState { stages: register(p.stages, st), ..r }, config, gases, f)
            },
            Ok((Some(DecoAction::Stop), _)) => {
                let r = after_record(p, config, p.depth, 1, p.gas);
                let st = make_stage(DecoStageType::DecoStop, display_stop_mm(p.depth), r.depth, r.time - p.time, p.gas);
                plan(PlanState { stages: register(p.stages, st), ..r }, config, gases, f)
            },
            Ok((Some(_), None)) => None,
        }
    }
}

/// The planning simulation that a simulation copy and a schedule stand for.
pub open spec fn current(m: BuhlmannModel, stages: Seq<DecoStage>) -> PlanState {
    PlanState {
        cs: m.compartments@,
        kept: m.state.gf_low_depth,
        depth: m.state.depth.mm as int,
        time: m.state.time.s as int,
        gas: m.state.gas,
        stages,
    }
}

/// The planning simulation that starts from a model's state with no stages.
pub open spec fn start_of(cs: Seq<Compartment>, state: BuhlmannState) -> PlanState {
    PlanState {
        cs,
        kept: state.gf_low_depth,
        depth: state.depth.mm as int,
        time: state.time.s as int,
        gas: state.gas,
        stages: Seq::empty(),
    }
}

proof fn lemma_total_push(s: Seq<DecoStage>, st: DecoStage)
    ensures
        total_duration(s.push(st)) == total_duration(s) + st.duration.s,
{
    assert(s.push(st).drop_last() =~= s);
}

proof fn lemma_total_update_last(s: Seq<DecoStage>, st: DecoStage)
    requires
        s.len() > 0,
    ensures
        total_duration(s.update(s.len() - 1, st)) == total_duration(s) - s.last().duration.s
            + st.duration.s,
{
    assert(s.update(s.len() - 1, st).drop_last() =~= s.drop_last());
}

/// Deco stop depth for a ceiling.
pub fn deco_stop_depth(ceiling: Depth) -> (r: Depth)
    requires
        ceiling.mm <= 10 * MAX_DEPTH_MM,
    ensures
        r.mm == deco_stop_mm(ceiling.mm as int),
{
    Depth { mm: (ceiling.mm + 2999) / 3000 * 3000 }
}

/// Next deco gas: more oxygen than `current_gas`, least oxygen among those, first in the list.
pub fn next_switch_gas(current_gas: &Gas, gas_mixes: &Vec<Gas>) -> (r: Option<Gas>)
    ensures
        r == next_switch(gas_mixes@, current_gas.o2 as int),
{
    let mut best: Option<Gas> = None;
    let mut i: usize = 0;
    proof {
        assert(gas_mixes@.subrange(0, 0) =~= Seq::<Gas>::empty());
    }
    while i < gas_mixes.len()
        invariant
            i <= gas_mixes.len(),
            best == next_switch(gas_mixes@.subrange(0, i as int), current_gas.o2 as int),
        decreases gas_mixes.len() - i,
    {
        proof {
            assert(gas_mixes@.subrange(0, i + 1).drop_last() =~= gas_mixes@.subrange(0, i as int));
        }
        let g = gas_mixes[i];
        if g.o2 > current_gas.o2 {
            match best {
                None => best = Some(g),
                Some(b) => if g.o2 < b.o2 {
                    best = Some(g);
                },
            }
        }
        i = i + 1;
    }
    assert(gas_mixes@.subrange(0, gas_mixes.len() as int) =~= gas_mixes@);
    best
}

proof fn lemma_next_switch_props(gases: Seq<Gas>, cur_o2: int)
    requires
        forall|i: int| 0 <= i < gases.len() ==> (#[trigger] gases[i]).wf(),
    ensures
        next_switch(gases, cur_o2) matches Some(g) ==> g.wf() && g.o2 > cur_o2 && gas_in(gases, g),
    decreases gases.len(),
{
    if gases.len() > 0 {
        let init = gases.drop_last();
        lemma_next_switch_props(init, cur_o2);
        assert(gases.last() == gases[gases.len() - 1]);
        if next_switch(init, cur_o2) is Some {
            let g = next_switch(init, cur_o2)->0;
            let j = choose|j: int| 0 <= j < init.len() && init[j] == g;
            assert(gases[j] == g);
        }
    }
}

/// The planner's next move; see `deco_action`.
pub fn next_deco_action(depth: Depth, ceiling: Depth, switch: Option<Gas>) -> (r: Result<
    (Option<DecoAction>, Option<Gas>),
    MissedDecoStopViolation,
>)
    requires
        depth.mm <= MAX_DEPTH_MM,
        ceiling.mm <= 10 * MAX_DEPTH_MM,
        switch matches Some(g) ==> g.wf(),
    ensures
        r == deco_action(depth.mm as int, ceiling.mm as int, switch),
{
    if depth.mm == 0 {
        return Ok((None, None));
    }
    if ceiling.mm == 0 {
        return Ok((Some(DecoAction::AscentToCeil), None));
    }
    if depth.mm < deco_stop_depth(ceiling).mm {
        return Err(MissedDecoStopViolation);
    }
    if let Some(g) = switch {
        let gas_mod = g.max_operating_depth(DECO_PP_O2_LIMIT_MBAR);
        let gas_end = g.equivalent_narcotic_depth(depth);
        if depth.mm <= gas_mod.mm && gas_end.mm <= MAX_END_MM {
            return Ok((Some(DecoAction::SwitchGas), switch));
        }
    }
    if depth.mm - ceiling.mm <= CEILING_WINDOW_MM {
        return Ok((Some(DecoAction::Stop), None));
    }
    if let Some(g) = switch {
        if g.max_operating_depth(DECO_PP_O2_LIMIT_MBAR).mm >= ceiling.mm {
            return Ok((Some(DecoAction::AscentToGasSwitchDepth), switch));
        }
    }
    Ok((Some(DecoAction::AscentToCeil), None))
}

fn copy_stages(v: &Vec<DecoStage>) -> (r: Vec<DecoStage>)
    ensures
        r@ == v@,
{
    let mut r: Vec<DecoStage> = Vec::new();
    let mut i: usize = 0;
    while i < v.len()
        invariant
            i <= v.len(),
            r@ == v@.subrange(0, i as int),
        decreases v.len() - i,
    {
        r.push(v[i]);
        i = i + 1;
        assert(r@ =~= v@.subrange(0, i as int));
    }
    assert(r@ =~= v@);
    r
}

proof fn lemma_display_stop(d: int)
    requires
        d >= 0,
    ensures
        display_stop_mm(d) <= d < display_stop_mm(d) + 3000,
        display_stop_mm(d) % 3000 == 0,
        d % 3000 == 0 ==> display_stop_mm(d) == d,
{
    vstd::arithmetic::div_mod::lemma_fundamental_div_mod(d, 3000);
    vstd::arithmetic::div_mod::lemma_mod_multiples_basic(d / 3000, 3000);
}

proof fn lemma_deco_stop(c: int)
    requires
        c >= 0,
    ensures
        c <= deco_stop_mm(c) <= c + 2999,
        deco_stop_mm(c) % 3000 == 0,
{
    vstd::arithmetic::div_mod::lemma_fundamental_div_mod(c + 2999, 3000);
    vstd::arithmetic::div_mod::lemma_mod_multiples_basic((c + 2999) / 3000, 3000);
}

proof fn lemma_travel_bound(dist: int, rate: int)
    requires
        0 <= dist <= MAX_DEPTH_MM,
        1000 <= rate,
    ensures
        0 <= travel_seconds(dist, rate) <= MAX_ASCENT_SECONDS,
{
    vstd::arithmetic::div_mod::lemma_div_is_ordered_by_denominator(dist * 60, 1000, rate);
    crate::arith::lemma_div_le(dist * 60, MAX_DEPTH_MM * 60, 1000);
    vstd::arithmetic::div_mod::lemma_div_pos_is_pos(dist * 60, rate);
}

proof fn lemma_mod_bound(g: Gas)
    requires
        g.wf(),
        g.o2 >= 1,
    ensures
        g.mod_mm(DECO_PP_O2_LIMIT_MBAR as int) <= 1_600_000,
{
    crate::arith::lemma_div_le_self(1_600_000, g.o2 as int);
}

impl Deco {
    pub open spec fn wf(&self) -> bool {
        &&& stages_ok(self.deco_stages@)
        &&& self.tts.s == total_duration(self.deco_stages@)
    }

    pub fn new() -> (r: Deco)
        ensures
            r.deco_stages@.len() == 0,
            r.tts.s == 0,
            !r.sim,
    {
        Deco { deco_stages: Vec::new(), tts: Time::zero(), sim: false }
    }

    /// A planner that gives no five-minute projection.
    pub fn new_sim() -> (r: Deco)
        ensures
            r.deco_stages@.len() == 0,
            r.tts.s == 0,
            r.sim,
    {
        Deco { deco_stages: Vec::new(), tts: Time::zero(), sim: true }
    }

    pub fn is_sim(&self) -> (r: bool)
        ensures
            r == self.sim,
    {
        self.sim
    }

    /// Appends a stage, merging it into the last one when both are of the same kind.
    fn register_deco_stage(&mut self, stage: DecoStage)
        requires
            old(self).wf(),
            stage.gas.wf(),
            stage.stage_type == DecoStageType::GasSwitch ==> stage.start_depth.mm
                <= stage.gas.mod_mm(DECO_PP_O2_LIMIT_MBAR as int) && stage.duration.s == 0,
            old(self).deco_stages@.len() > 0 ==> meets(
                old(self).deco_stages@.last().end_depth.mm as int,
                stage,
            ),
            old(self).tts.s + stage.duration.s <= u64::MAX,
        ensures
            final(self).wf(),
            final(self).sim == old(self).sim,
            final(self).deco_stages@.len() > 0,
            final(self).deco_stages@.last().end_depth == stage.end_depth,
            final(self).tts.s == old(self).tts.s + stage.duration.s,
            final(self).deco_stages@ == register(old(self).deco_stages@, stage),
            forall|gases: Seq<Gas>|
                stages_use(old(self).deco_stages@, gases) && gas_in(gases, stage.gas)
                    ==> #[trigger] stages_use(final(self).deco_stages@, gases),
            old(self).deco_stages@.len() > 0 ==> final(self).deco_stages@[0].start_depth
                == old(self).deco_stages@[0].start_depth && final(self).deco_stages@[0].stage_type
                == old(self).deco_stages@[0].stage_type,
            old(self).deco_stages@.len() == 0 ==> final(self).deco_stages@[0] == stage,
    {
        let ghost s0 = self.deco_stages@;
        let n = self.deco_stages.len();
        if n > 0 && self.deco_stages[n - 1].stage_type == stage.stage_type {
            let last = self.deco_stages[n - 1];
            proof {
                assert(s0.last() == s0[n - 1]);
                assert(s0.drop_last().len() < s0.len());
                lemma_total_nonneg(s0.drop_last());
            }
            let merged = DecoStage {
                stage_type: last.stage_type,
                start_depth: last.start_depth,
                end_depth: stage.end_depth,
                duration: Time { s: last.duration.s + stage.duration.s },
                gas: last.gas,
            };
            proof {
                lemma_total_update_last(s0, merged);
            }
            self.deco_stages.set(n - 1, merged);
            proof {
                let s1 = self.deco_stages@;
                assert forall|i: int| 0 <= i < s1.len() - 1 implies #[trigger] link_at(s1, i) by {
                    assert(link_at(s0, i));
                }
            }
        } else {
            self.deco_stages.push(stage);
            proof {
                lemma_total_push(s0, stage);
                let s1 = self.deco_stages@;
                assert forall|i: int| 0 <= i < s1.len() - 1 implies #[trigger] link_at(s1, i) by {
                    if i + 1 < n {
                        assert(link_at(s0, i));
                    } else {
                        assert(s0.last() == s0[n - 1]);
                    }
                }
            }
        }
        self.tts = Time { s: self.tts.s + stage.duration.s };
    }

    fn validate_gas_mixes(deco_model: &BuhlmannModel, gas_mixes: &Vec<Gas>) -> (r: Result<
        (),
        DecoCalculationError,
    >)
        ensures
            (r matches Err(DecoCalculationError::EmptyGasList)) <==> gas_mixes@.len() == 0,
            (r matches Err(DecoCalculationError::CurrentGasNotInList)) <==> (gas_mixes@.len() > 0
                && !gas_in(gas_mixes@, deco_model.state.gas)),
            r is Ok <==> (gas_mixes@.len() > 0 && gas_in(gas_mixes@, deco_model.state.gas)),
    {
        if gas_mixes.len() == 0 {
            return Err(DecoCalculationError::EmptyGasList);
        }
        let current = deco_model.state.gas;
        let mut i: usize = 0;
        while i < gas_mixes.len()
            invariant
                i <= gas_mixes.len(),
                current == deco_model.state.gas,
                forall|j: int| 0 <= j < i ==> gas_mixes@[j] != current,
            decreases gas_mixes.len() - i,
        {
            if gas_mixes[i] == current {
                return Ok(());
            }
            i = i + 1;
        }
        Err(DecoCalculationError::CurrentGasNotInList)
    }

    /// Plans on the simulation copy `sim` until it reaches the surface.
    #[verifier::rlimit(100)]
    fn run(&mut self, start: BuhlmannModel, gas_mixes: &Vec<Gas>) -> (r: Result<
        (),
        DecoCalculationError,
    >)
        requires
            start.wf(),
            start.sim,
            forall|i: int| 0 <= i < gas_mixes.len() ==> (#[trigger] gas_mixes[i]).wf(),
            old(self).deco_stages@.len() == 0,
            old(self).tts.s == 0,
            gas_in(gas_mixes@, start.state.gas),
        ensures
            final(self).sim == old(self).sim,
            r matches Err(e) ==> e == DecoCalculationError::ScheduleOutOfRange,
            r is Ok ==> stages_use(final(self).deco_stages@, gas_mixes@),
            r is Ok ==> final(self).wf(),
            r is Ok && final(self).deco_stages@.len() > 0 ==> meets(
                start.state.depth.mm as int,
                final(self).deco_stages@[0],
            ),
            r is Ok && final(self).deco_stages@.len() > 0
                ==> final(self).deco_stages@.last().end_depth.mm == 0,
            r is Ok ==> final(self).tts.s <= 200_000 * 120_001,
            r is Ok <==> plan(start_of(start.compartments@, start.state), start.config, gas_mixes@, MAX_PLAN_STEPS as nat) is Some,
            r is Ok ==> final(self).deco_stages@ == plan(
                start_of(start.compartments@, start.state),
                start.config,
                gas_mixes@,
                MAX_PLAN_STEPS as nat,
            )->0,
    {
        let start_depth = start.state.depth;
        let mut sim = start;
        let rate = sim.config.deco_ascent_rate * 1000;
        let mut n: u64 = 0;
        proof {
            assert(self.deco_stages@ =~= Seq::<DecoStage>::empty());
            assert(current(sim, self.deco_stages@) == start_of(start.compartments@, start.state));
        }
        loop
            invariant
                sim.wf(),
                sim.sim,
                start_depth == start.state.depth,
                1000 <= rate <= 30_000,
                rate as int == start.config.deco_ascent_rate as int * 1000,
                forall|i: int| 0 <= i < gas_mixes.len() ==> (#[trigger] gas_mixes[i]).wf(),
                self.wf(),
                self.sim == old(self).sim,
                n <= MAX_PLAN_STEPS,
                self.tts.s <= n * 120_001,
                self.deco_stages@.len() == 0 ==> linked(start_depth.mm as int, sim.state.depth.mm as int),
                self.deco_stages@.len() > 0 ==> meets(start_depth.mm as int, self.deco_stages@[0]),
                self.deco_stages@.len() > 0 ==> linked(self.deco_stages@.last().end_depth.mm as int, sim.state.depth.mm as int),
                sim.config == start.config,
                gas_in(gas_mixes@, sim.state.gas),
                stages_use(self.deco_stages@, gas_mixes@),
                plan(start_of(start.compartments@, start.state), start.config, gas_mixes@, MAX_PLAN_STEPS as nat)
                    == plan(current(sim, self.deco_stages@), start.config, gas_mixes@, (MAX_PLAN_STEPS - n) as nat),
            decreases MAX_PLAN_STEPS - n,
        {
            if n >= MAX_PLAN_STEPS {
                proof {
                    reveal(plan);
                }
                return Err(DecoCalculationError::ScheduleOutOfRange);
            }
            let ghost pre = current(sim, self.deco_stages@);
            let ghost fuel = (MAX_PLAN_STEPS - n) as nat;
            n = n + 1;
            let pre_depth = sim.state.depth;
            let pre_time = sim.state.time;
            let pre_gas = sim.state.gas;
            let ceiling = sim.ceiling();
            let switch = next_switch_gas(&pre_gas, gas_mixes);
            proof {
                lemma_next_switch_props(gas_mixes@, pre_gas.o2 as int);
                lemma_deco_stop(ceiling.mm as int);
                lemma_display_stop(pre_depth.mm as int);
            }
            match next_deco_action(pre_depth, ceiling, switch) {
                Err(MissedDecoStopViolation) => {
                    let stop = deco_stop_depth(ceiling);
                    if stop.mm > MAX_DEPTH_MM {
                        proof {
                            reveal(plan);
                        }
                        return Err(DecoCalculationError::ScheduleOutOfRange);
                    }
                    sim.record(stop, Time::zero(), &pre_gas);
                    proof {
                        assert(current(sim, self.deco_stages@) == after_record(pre, sim.config, stop.mm as int, 0, pre_gas));
                    }
                    proof {
                        reveal(plan);
                        assert(plan(pre, start.config, gas_mixes@, fuel) == plan(
                            current(sim, self.deco_stages@),
                            start.config,
                            gas_mixes@,
                            (fuel - 1) as nat,
                        ));
                    }
                },
                Ok((None, _)) => {
                    proof {
                        reveal(plan);
                    }
                    return Ok(());
                },
                Ok((Some(DecoAction::AscentToCeil), _)) => {
                    let target = deco_stop_depth(ceiling);
                    sim.record_travel_with_rate(target, rate, &pre_gas);
                    proof {
                        lemma_travel_bound(abs_diff(target.mm as int, pre_depth.mm as int), rate as int);
                    }
                    let stage = DecoStage {
                        stage_type: DecoStageType::Ascent,
                        start_depth: pre_depth,
                        end_depth: sim.state.depth,
                        duration: Time { s: sim.state.time.s - pre_time.s },
                        gas: sim.state.gas,
                    };
                    let ghost q = after_travel(pre, sim.config, target.mm as int, pre_gas);
                    proof {
                        assert(current(sim, pre.stages) == q);
                    }
                    self.register_deco_stage(stage);
                    proof {
                        assert(stage == make_stage(DecoStageType::Ascent, pre.depth, q.depth, q.time - pre.time, q.gas));
                        assert(current(sim, self.deco_stages@) == PlanState { stages: register(pre.stages, stage), ..q });
                    }
                    proof {
                        reveal(plan);
                        assert(plan(pre, start.config, gas_mixes@, fuel) == plan(
                            current(sim, self.deco_stages@),
                            start.config,
                            gas_mixes@,
                            (fuel - 1) as nat,
                        ));
                    }
                },
                Ok((Some(DecoAction::AscentToGasSwitchDepth), Some(next_gas))) => {
                    proof {
                        lemma_mod_bound(next_gas);
                    }
                    let switch_mod = next_gas.max_operating_depth(DECO_PP_O2_LIMIT_MBAR);
                    sim.record_travel_with_rate(switch_mod, rate, &pre_gas);
                    proof {
                        lemma_travel_bound(abs_diff(switch_mod.mm as int, pre_depth.mm as int), rate as int);
                    }
                    let ascent = DecoStage {
                        stage_type: DecoStageType::Ascent,
                        start_depth: pre_depth,
                        end_depth: sim.state.depth,
                        duration: Time { s: sim.state.time.s - pre_time.s },
                        gas: pre_gas,
                    };
                    let ghost q = after_travel(pre, sim.config, switch_mod.mm as int, pre_gas);
                    proof {
                        assert(current(sim, pre.stages) == q);
                        assert(ascent == make_stage(DecoStageType::Ascent, pre.depth, switch_mod.mm as int, q.time - pre.time, pre_gas));
                    }
                    self.register_deco_stage(ascent);
                    let ghost s1 = self.deco_stages@;
                    sim.record(switch_mod, Time::zero(), &next_gas);
                    proof {
                        assert(current(sim, s1) == PlanState {
                            stages: s1,
                            ..after_record(q, sim.config, switch_mod.mm as int, 0, next_gas)
                        });
                    }
                    let switch_stage = DecoStage {
                        stage_type: DecoStageType::GasSwitch,
                        start_depth: switch_mod,
                        end_depth: switch_mod,
                        duration: Time::zero(),
                        gas: next_gas,
                    };
                    self.register_deco_stage(switch_stage);
                    proof {
                        assert(switch_stage == make_stage(DecoStageType::GasSwitch, switch_mod.mm as int, switch_mod.mm as int, 0, next_gas));
                    }
                    proof {
                        reveal(plan);
                        assert(plan(pre, start.config, gas_mixes@, fuel) == plan(
                            current(sim, self.deco_stages@),
                            start.config,
                            gas_mixes@,
                            (fuel - 1) as nat,
                        ));
                    }
                },
                Ok((Some(DecoAction::SwitchGas), Some(next_gas))) => {
                    sim.record(pre_depth, Time::zero(), &next_gas);
                    let stage = DecoStage {
                        stage_type: DecoStageType::GasSwitch,
                        start_depth: pre_depth,
                        end_depth: pre_depth,
                        duration: Time::zero(),
                        gas: next_gas,
                    };
                    proof {
                        assert(current(sim, pre.stages) == after_record(pre, sim.config, pre.depth, 0, next_gas));
                        assert(stage == make_stage(DecoStageType::GasSwitch, pre.depth, pre.depth, 0, next_gas));
                    }
                    self.register_deco_stage(stage);
                    proof {
                        reveal(plan);
                        assert(plan(pre, start.config, gas_mixes@, fuel) == plan(
                            current(sim, self.deco_stages@),
                            start.config,
                            gas_mixes@,
                            (fuel - 1) as nat,
                        ));
                    }
                },
                Ok((Some(DecoAction::Stop), _)) => {
                    sim.record(pre_depth, Time { s: 1 }, &pre_gas);
                    let stage = DecoStage {
                        stage_type: DecoStageType::DecoStop,
                        start_depth: Depth { mm: pre_depth.mm / 3000 * 3000 },
                        end_depth: sim.state.depth,
                        duration: Time { s: sim.state.time.s - pre_time.s },
                        gas: pre_gas,
                    };
                    let ghost r = after_record(pre, sim.config, pre.depth, 1, pre_gas);
                    proof {
                        assert(current(sim, pre.stages) == r);
                        assert(stage == make_stage(DecoStageType::DecoStop, display_stop_mm(pre.depth), r.depth, r.time - pre.time, pre_gas));
                    }
                    self.register_deco_stage(stage);
                    proof {
                        reveal(plan);
                        assert(plan(pre, start.config, gas_mixes@, fuel) == plan(
                            current(sim, self.deco_stages@),
                            start.config,
                            gas_mixes@,
                            (fuel - 1) as nat,
                        ));
                    }
                },
                Ok((Some(_), None)) => {
                    proof {
                        assert(false);
                    }
                },
            }
        }
    }

    /// Plans a schedule to the surface for `deco_model` with the gases available;
    /// a planner that is not a simulation also projects the schedule five minutes on.
    pub fn calc(&mut self, deco_model: BuhlmannModel, gas_mixes: Vec<Gas>) -> (r: Result<
        DecoRuntime,
        DecoCalculationError,
    >)
        requires
            deco_model.wf(),
            forall|i: int| 0 <= i < gas_mixes.len() ==> (#[trigger] gas_mixes[i]).wf(),
            old(self).deco_stages@.len() == 0,
            old(self).tts.s == 0,
        ensures
            deco_result_ok(
                deco_model.compartments@,
                deco_model.config,
                deco_model.state,
                gas_mixes@,
                r,
                !old(self).sim,
            ),
    {
        match Deco::validate_gas_mixes(&deco_model, &gas_mixes) {
            Err(e) => return Err(e),
            Ok(()) => {},
        }
        let sim = deco_model.fork();
        match self.run(sim, &gas_mixes) {
            Err(e) => return Err(e),
            Ok(()) => {},
        }
        let tts = self.tts;
        let mut tts_at_5 = Time::zero();
        let mut tts_delta_at_5: i64 = 0;
        if !self.sim {
            let mut nested = Deco::new_sim();
            let mut nested_model = deco_model.fork();
            let depth = nested_model.state.depth;
            let gas = nested_model.state.gas;
            nested_model.record(depth, Time::from_minutes(5), &gas);
            proof {
                assert(start_of(nested_model.compartments@, nested_model.state) == five_on(
                    deco_model.compartments@,
                    deco_model.config,
                    deco_model.state,
                ));
            }
            match nested.run(nested_model, &gas_mixes) {
                Err(e) => return Err(e),
                Ok(()) => {},
            }
            tts_at_5 = nested.tts;
            tts_delta_at_5 = tts_at_5.s as i64 - tts.s as i64;
        }
        Ok(
            DecoRuntime {
                deco_stages: copy_stages(&self.deco_stages),
                tts,
                tts_at_5,
                tts_delta_at_5,
            },
        )
    }
}

proof fn lemma_total_nonneg(s: Seq<DecoStage>)
    ensures
        total_duration(s) >= 0,
    decreases s.len(),
{
    if s.len() > 0 {
        lemma_total_nonneg(s.drop_last());
    }
}

/// Time-to-surface consistency: the five-minute projection of a schedule equals the time
/// to surface of the schedule planned after the diver spends those five minutes at the
/// same depth and gas. The projection records on a simulation copy, which decides the
/// sloped gradient factor by the actual ceiling; so the law is stated where the live
/// record decides the same way: under the actual ceiling, or with one gradient factor.
pub proof fn lemma_tts_consistency(
    cs: Seq<Compartment>,
    config: BuhlmannConfig,
    state: BuhlmannState,
    cs5: Seq<Compartment>,
    state5: BuhlmannState,
    gases: Seq<Gas>,
    r: Result<DecoRuntime, DecoCalculationError>,
    r5: Result<DecoRuntime, DecoCalculationError>,
)
    requires
        config.ceiling_type == CeilingType::Actual || config.gf.0 == config.gf.1,
        (cs5, state5.gf_low_depth) == tissues_after(
            cs,
            config,
            true,
            state.gf_low_depth,
            state.depth.mm as int,
            300,
            state.gas,
        ),
        state5.depth == state.depth,
        state5.gas == state.gas,
        state5.time.s == time_add(state.time.s as int, 300),
        deco_result_ok(cs, config, state, gases, r, true),
        deco_result_ok(cs5, config, state5, gases, r5, true),
    ensures
        r matches Ok(rt) ==> r5 matches Ok(rt5) ==> rt.tts_at_5 == rt5.tts,
{
    assert(tissues_after(cs, config, true, state.gf_low_depth, state.depth.mm as int, 300, state.gas)
        == tissues_after(cs, config, false, state.gf_low_depth, state.depth.mm as int, 300, state.gas));
    assert(start_of(cs5, state5) == five_on(cs, config, state));
}

/// A stop that no longer changes the tissues never clears: when the planner must stop
/// and one more second there leaves the tissues and the kept first stop depth as they
/// are, no schedule exists however many steps are allowed.
pub proof fn lemma_stuck_stop_has_no_plan(
    p: PlanState,
    config: BuhlmannConfig,
    gases: Seq<Gas>,
    fuel: nat,
)
    requires
        deco_action(p.depth, ceiling_of(p.cs, config), next_switch(gases, p.gas.o2 as int))
            == Ok::<(Option<DecoAction>, Option<Gas>), MissedDecoStopViolation>(
            (Some(DecoAction::Stop), None),
        ),
        tissues_after(p.cs, config, false, p.kept, p.depth, 1, p.gas) == (p.cs, p.kept),
    ensures
        plan(p, config, gases, fuel) is None,
    decreases fuel,
{
    reveal(plan);
    if fuel > 0 {
        let r = after_record(p, config, p.depth, 1, p.gas);
        let st = make_stage(DecoStageType::DecoStop, display_stop_mm(p.depth), r.depth, r.time - p.time, p.gas);
        let q = PlanState { stages: register(p.stages, st), ..r };
        lemma_stuck_stop_has_no_plan(q, config, gases, (fuel - 1) as nat);
    }
}

} // verus!
