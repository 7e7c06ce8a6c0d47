use dive_deco::{
    BuhlmannConfig, BuhlmannModel, CeilingType, DecoCalculationError, DecoRuntime, DecoStage,
    DecoStageType, Depth, Gas, Time,
};

fn model_default() -> BuhlmannModel {
    BuhlmannModel::new(BuhlmannConfig::new())
}

fn model_gf(gf_low: u8, gf_high: u8) -> BuhlmannModel {
    BuhlmannModel::new(BuhlmannConfig::new().with_gradient_factors(gf_low, gf_high))
}

fn stage(t: DecoStageType, start_m: u64, end_m: u64, s: u64, gas: Gas) -> DecoStage {
    DecoStage {
        stage_type: t,
        start_depth: Depth::from_meters(start_m),
        end_depth: Depth::from_meters(end_m),
        duration: Time::from_seconds(s),
        gas,
    }
}

fn assert_deco_stages_eq(deco_stages: Vec<DecoStage>, expected_deco_stages: Vec<DecoStage>) {
    assert_eq!(deco_stages.len(), expected_deco_stages.len());
    for (i, expected_stage) in expected_deco_stages.iter().enumerate() {
        assert_eq!(deco_stages[i].stage_type, expected_stage.stage_type);
        assert_eq!(deco_stages[i].start_depth, expected_stage.start_depth);
        assert_eq!(deco_stages[i].end_depth, expected_stage.end_depth);
        assert_eq!(deco_stages[i].duration, expected_stage.duration);
        assert_eq!(deco_stages[i].gas, expected_stage.gas);
    }
}

fn get_first_deco_stop_depth(deco: DecoRuntime) -> Option<Depth> {
    deco.deco_stages
        .into_iter()
        .find(|stage| stage.stage_type == DecoStageType::DecoStop)
        .map(|stop| stop.start_depth)
}

#[test]
fn test_deco_ascent_no_deco() {
    let air = Gas::air();
    let mut model = model_default();
    model.record(Depth::from_meters(20), Time::from_minutes(5), &air);
    let DecoRuntime { deco_stages, tts, .. } = model.deco(vec![air]).unwrap();
    assert_eq!(deco_stages.len(), 1);
    assert_eq!(tts, Time::from_minutes(2));
}

#[test]
fn test_deco_single_gas() {
    let air = Gas::air();
    let mut model = BuhlmannModel::new(BuhlmannConfig::new().with_deco_ascent_rate(9));
    model.record(Depth::from_meters(40), Time::from_minutes(20), &air);
    let DecoRuntime { deco_stages, tts, .. } = model.deco(vec![air]).unwrap();
    assert_eq!(tts, Time::from_seconds(754));
    assert_eq!(deco_stages.len(), 5);
    let expected = vec![
        stage(DecoStageType::Ascent, 40, 6, 226, air),
        stage(DecoStageType::DecoStop, 6, 6, 88, air),
        stage(DecoStageType::Ascent, 6, 3, 20, air),
        stage(DecoStageType::DecoStop, 3, 3, 400, air),
        stage(DecoStageType::Ascent, 3, 0, 20, air),
    ];
    assert_deco_stages_eq(deco_stages, expected);
}

#[test]
fn test_deco_multi_gas() {
    let mut model = BuhlmannModel::new(BuhlmannConfig::new().with_deco_ascent_rate(9));
    let air = Gas::new(21, 0);
    let ean_50 = Gas::new(50, 0);
    model.record(Depth::from_meters(40), Time::from_minutes(20), &air);
    let DecoRuntime { deco_stages, tts, .. } = model.deco(vec![air, ean_50]).unwrap();
    let expected = vec![
        stage(DecoStageType::Ascent, 40, 22, 120, air),
        stage(DecoStageType::GasSwitch, 22, 22, 0, ean_50),
        stage(DecoStageType::Ascent, 22, 6, 106, ean_50),
        stage(DecoStageType::DecoStop, 6, 6, 34, ean_50),
        stage(DecoStageType::Ascent, 6, 3, 20, ean_50),
        stage(DecoStageType::DecoStop, 3, 3, 291, ean_50),
        stage(DecoStageType::Ascent, 3, 0, 20, ean_50),
    ];
    assert_deco_stages_eq(deco_stages, expected);
    assert_eq!(tts, Time::from_seconds(591));
}

#[test]
fn test_deco_with_deco_mod_at_bottom() {
    let mut model = BuhlmannModel::new(BuhlmannConfig::new().with_deco_ascent_rate(9));
    let air = Gas::air();
    let ean_36 = Gas::new(36, 0);
    model.record(Depth::from_meters(30), Time::from_minutes(30), &air);
    let DecoRuntime { deco_stages, tts, .. } = model.deco(vec![air, ean_36]).unwrap();
    let expected = vec![
        stage(DecoStageType::GasSwitch, 30, 30, 0, ean_36),
        stage(DecoStageType::Ascent, 30, 3, 180, ean_36),
        stage(DecoStageType::DecoStop, 3, 3, 268, ean_36),
        stage(DecoStageType::Ascent, 3, 0, 20, ean_36),
    ];
    assert_deco_stages_eq(deco_stages, expected);
    assert_eq!(tts, Time::from_seconds(468));
}

#[test]
fn test_tts_delta() {
    let mut model = model_gf(30, 70);
    let air = Gas::air();
    let ean_50 = Gas::new(50, 0);
    let gas_mixes = vec![air, ean_50];
    model.record(Depth::from_meters(40), Time::from_minutes(20), &air);
    let deco_1 = model.deco(gas_mixes.clone()).unwrap();
    model.record(Depth::from_meters(40), Time::from_minutes(5), &air);
    let deco_2 = model.deco(gas_mixes).unwrap();
    assert_eq!(deco_1.tts_at_5, deco_2.tts);
    assert_eq!(
        deco_1.tts_delta_at_5,
        deco_2.tts.as_seconds() as i64 - deco_1.tts.as_seconds() as i64
    );
}

#[test]
fn test_runtime_on_missed_stop() {
    let air = Gas::air();
    let ean_50 = Gas::new(50, 0);
    let available_gas_mixes = vec![air, ean_50];
    let configs = vec![
        BuhlmannConfig::new().with_ceiling_type(CeilingType::Actual).with_gradient_factors(30, 70),
        BuhlmannConfig::new().with_ceiling_type(CeilingType::Adaptive).with_gradient_factors(30, 70),
    ];
    for config in configs.into_iter() {
        let mut model = BuhlmannModel::new(config);
        model.record(Depth::from_meters(40), Time::from_minutes(30), &air);
        model.record(Depth::from_meters(22), Time::zero(), &air);
        let initial_deco = model.deco(available_gas_mixes.clone()).unwrap();
        let initial_deco_stop_depth = get_first_deco_stop_depth(initial_deco);

        model.record(Depth::from_meters(20), Time::zero(), &air);
        let between_deco = model.deco(available_gas_mixes.clone()).unwrap();
        let between_deco_stop_depth = get_first_deco_stop_depth(between_deco);

        model.record(Depth::from_meters(15), Time::zero(), &air);
        let below_deco = model.deco(available_gas_mixes.clone()).unwrap();
        let below_deco_stop_depth = get_first_deco_stop_depth(below_deco);

        assert_eq!(initial_deco_stop_depth, between_deco_stop_depth, "below deco stop, above ceiling");
        assert_eq!(initial_deco_stop_depth, below_deco_stop_depth, "below ceiling");
    }
}

#[test]
fn test_deco_runtime_integrity() {
    let config = BuhlmannConfig::new()
        .with_gradient_factors(30, 70)
        .with_ceiling_type(CeilingType::Adaptive);
    let mut model = BuhlmannModel::new(config);
    let air = Gas::air();
    let ean_50 = Gas::new(50, 0);
    let oxygen = Gas::new(100, 0);
    model.record(Depth::from_meters(40), Time::from_minutes(20), &air);
    let deco_runtime = model.deco(vec![air, ean_50, oxygen]).unwrap();
    let stages = deco_runtime.deco_stages;
    for w in stages.windows(2) {
        let (a, b) = (w[0], w[1]);
        if b.stage_type == DecoStageType::DecoStop {
            let stop_mm = b.start_depth.as_millimeters();
            let prev_end_mm = a.end_depth.as_millimeters();
            assert_eq!(stop_mm % 3000, 0, "stop depth {} is not a multiple of 3 m", stop_mm);
            assert!(prev_end_mm >= stop_mm);
            assert!(prev_end_mm - stop_mm < 3000);
        } else {
            assert_eq!(b.start_depth, a.end_depth);
        }
        if a.stage_type == DecoStageType::GasSwitch {
            let gas_mod = a.gas.max_operating_depth(1600);
            assert!(
                a.start_depth.as_millimeters() <= gas_mod.as_millimeters(),
                "Gas switch for {:?} at depth {:?} exceeds MOD of {:?}",
                a.gas,
                a.start_depth,
                gas_mod
            );
        }
    }
}

#[test]
fn should_err_on_empty_gas_mixes() {
    let model = model_default();
    assert_eq!(model.deco(vec![]).unwrap_err(), DecoCalculationError::EmptyGasList);
}

#[test]
fn should_err_on_gas_mixes_without_current_mix() {
    let mut model = model_default();
    let air = Gas::air();
    let ean_50 = Gas::new(50, 0);
    model.record(Depth::from_meters(40), Time::from_minutes(10), &air);
    assert_eq!(
        model.deco(vec![ean_50]).unwrap_err(),
        DecoCalculationError::CurrentGasNotInList
    );
}

fn ceiling_rounding() {
    // ceiling, stop depth, in millimetres
    let cases = [(0, 0), (2000, 3000), (2999, 3000), (3000, 3000), (3001, 6000), (12_000, 12_000)];
    for (ceiling, expected) in cases {
        let res = dive_deco::deco::deco_stop_depth(Depth::from_millimeters(ceiling));
        assert_eq!(res, Depth::from_millimeters(expected));
    }
}

fn next_switch() {
    let air = Gas::air();
    let ean_50 = Gas::new(50, 0);
    let oxygen = Gas::new(100, 0);
    let trimix = Gas::new(50, 20);
    let cases: Vec<(Gas, Vec<Gas>, Option<Gas>)> = vec![
        (air, vec![air], None),
        (air, vec![air, ean_50], Some(ean_50)),
        (air, vec![air, ean_50, oxygen], Some(ean_50)),
        (ean_50, vec![air, ean_50, oxygen], Some(oxygen)),
        (air, vec![air, trimix], Some(trimix)),
        (air, vec![air, trimix, ean_50], Some(trimix)),
    ];
    for (current, mixes, expected) in cases {
        assert_eq!(dive_deco::deco::next_switch_gas(&current, &mixes), expected);
    }
}

#[test]
fn deco_test_ceiling_rounding() {
    ceiling_rounding();
}

#[test]
fn runtime_test_ceiling_rounding() {
    ceiling_rounding();
}

#[test]
fn deco_test_next_switch_gas() {
    next_switch();
}

#[test]
fn runtime_test_next_switch_gas() {
    next_switch();
}

#[test]
fn runtime_ascent_no_deco() {
    let air = Gas::air();
    let mut model = model_default();
    model.record(Depth::from_meters(20), Time::from_minutes(5), &air);
    let runtime = model.deco(vec![air]).unwrap();
    assert_eq!(runtime.deco_stages.len(), 1);
    assert_eq!(runtime.tts.as_minutes(), 2);
}

#[test]
fn schedule_past_planning_horizon_is_refused() {
    let air = Gas::air();
    let mut model = model_gf(10, 10);
    model.record(Depth::from_meters(300), Time::from_minutes(3 * 24 * 60), &air);
    assert_eq!(model.deco(vec![air]).unwrap_err(), DecoCalculationError::ScheduleOutOfRange);
    assert_eq!(
        DecoCalculationError::ScheduleOutOfRange.message(),
        "Deco schedule leaves the model's depth range or planning horizon"
    );
    assert_eq!(DecoCalculationError::EmptyGasList.message(), "At least one available gas mix required");
}


#[test]
fn saturated_stop_that_never_clears_has_no_schedule() {
    // GF 1/1 on pure nitrogen, saturated at 3 m: the ceiling stays inside the stop
    // window, and a further second at the stop changes no tissue, so no schedule exists
    let nitrogen = Gas::new(0, 0);
    let mut model = model_gf(1, 1);
    model.record(Depth::from_meters(3), Time::from_minutes(8 * 24 * 60), &nitrogen);
    let ceiling = model.ceiling();
    assert!(ceiling.as_millimeters() > 0 && ceiling.as_millimeters() < 3000);
    let before = model.tissues();
    model.record(Depth::from_meters(3), Time::from_seconds(1), &nitrogen);
    assert_eq!(before, model.tissues());
    assert_eq!(model.ceiling(), ceiling);
    assert_eq!(model.deco(vec![nitrogen]).unwrap_err(), DecoCalculationError::ScheduleOutOfRange);
}
