use dive_deco::{
    BuhlmannConfig, BuhlmannModel, CeilingType, Compartment, ConfigValidationErr, Depth, Gas,
    OxTox, Supersaturation, Time,
};

fn model_default() -> BuhlmannModel {
    BuhlmannModel::new(BuhlmannConfig::new())
}

fn model_gf(gf_low: u8, gf_high: u8) -> BuhlmannModel {
    BuhlmannModel::new(BuhlmannConfig::new().with_gradient_factors(gf_low, gf_high))
}

/// Percent from hundredths of a percent.
fn pct(v: i64) -> f64 {
    v as f64 / 100.0
}

fn meters(d: Depth) -> f64 {
    d.as_millimeters() as f64 / 1000.0
}

fn assert_close_abs(a: f64, b: f64, tol: f64) {
    assert!((a - b).abs() <= tol, "{} is not close to {} within {}", a, b, tol);
}

fn assert_close_percent(a: f64, b: f64, tol_percent: f64) {
    let tol = b * tol_percent / 100.0;
    assert!((a - b).abs() <= tol, "{} is not close to {} within {} %", a, b, tol_percent);
}

fn ceiling_40_30_then_30_30() {
    let mut model = model_default();
    let air = Gas::new(21, 0);
    model.record(Depth::from_meters(40), Time::from_minutes(30), &air);
    model.record(Depth::from_meters(30), Time::from_minutes(30), &air);
    assert_close_percent(meters(model.ceiling()), 7.802523739933558, 0.5);
}

fn gfs() {
    let mut model = model_default();
    let air = Gas::new(21, 0);
    model.record(Depth::from_meters(50), Time::from_minutes(20), &air);
    let Supersaturation { gf_99, gf_surf } = model.supersaturation();
    assert_eq!(gf_99, 0);
    assert_close_abs(pct(gf_surf), 193.8554997961134, 0.02);
    model.record(Depth::from_meters(40), Time::from_minutes(10), &air);
    let Supersaturation { gf_99, gf_surf } = model.supersaturation();
    assert_eq!(gf_99, 0);
    assert_close_abs(pct(gf_surf), 208.00431699178796, 0.02);
}

fn initial_gfs() {
    let mut model = model_default();
    model.record(Depth::zero(), Time::zero(), &Gas::new(21, 0));
    let Supersaturation { gf_99, gf_surf } = model.supersaturation();
    assert_eq!(gf_99, 0);
    assert_eq!(gf_surf, 0);
}

fn model_records_equality() {
    let mut model1 = model_default();
    let mut model2 = model_default();
    let air = Gas::new(21, 0);
    let test_depth = Depth::from_meters(50);
    let test_time = Time::from_minutes(100);
    model1.record(test_depth, test_time, &air);
    for _i in 1..=test_time.as_seconds() {
        model2.record(test_depth, Time::from_seconds(1), &air);
    }
    assert_eq!(model1.ceiling().as_meters(), model2.ceiling().as_meters());
    let s1 = model1.supersaturation();
    let s2 = model2.supersaturation();
    assert_eq!(s1.gf_99 / 100, s2.gf_99 / 100);
    assert_eq!(s1.gf_surf / 100, s2.gf_surf / 100);
}

fn actual_ndl_calculation() {
    let mut model = BuhlmannModel::new(BuhlmannConfig::new().with_ceiling_type(CeilingType::Actual));
    let air = Gas::new(21, 0);
    let depth = Depth::from_meters(30);
    model.record(depth, Time::zero(), &air);
    assert_eq!(model.ndl(), Time::from_minutes(16));
    model.record(depth, Time::from_minutes(1), &air);
    assert_eq!(model.ndl(), Time::from_minutes(15));
}

fn adaptive_ndl_calculation() {
    let mut model =
        BuhlmannModel::new(BuhlmannConfig::new().with_ceiling_type(CeilingType::Adaptive));
    let air = Gas::new(21, 0);
    let depth = Depth::from_meters(30);
    model.record(depth, Time::zero(), &air);
    assert_eq!(model.ndl(), Time::from_minutes(19));
    model.record(depth, Time::from_minutes(1), &air);
    assert_eq!(model.ndl(), Time::from_minutes(18));
}

fn ndl_cut_off() {
    let mut model = model_default();
    let air = Gas::new(21, 0);
    model.record(Depth::zero(), Time::zero(), &air);
    assert_eq!(model.ndl(), Time::from_minutes(99));
    model.record(Depth::from_meters(10), Time::from_minutes(10), &air);
    assert_eq!(model.ndl(), Time::from_minutes(99));
}

fn multi_gas_ndl() {
    let mut model = BuhlmannModel::new(BuhlmannConfig::new().with_ceiling_type(CeilingType::Actual));
    let air = Gas::new(21, 0);
    let ean_28 = Gas::new(28, 0);
    model.record(Depth::from_meters(30), Time::zero(), &air);
    assert_eq!(model.ndl(), Time::from_minutes(16));
    model.record(Depth::from_meters(30), Time::from_minutes(10), &air);
    assert_eq!(model.ndl(), Time::from_minutes(6));
    model.record(Depth::from_meters(30), Time::zero(), &ean_28);
    assert_eq!(model.ndl(), Time::from_minutes(10));
}

fn ndl_with_gf() {
    let mut model = model_gf(70, 70);
    model.record(Depth::from_meters(20), Time::zero(), &Gas::new(21, 0));
    assert_eq!(model.ndl(), Time::from_minutes(21));
}

fn altitude() {
    let mut model = BuhlmannModel::new(BuhlmannConfig::new().with_surface_pressure(700));
    model.record(Depth::from_meters(40), Time::from_minutes(60), &Gas::new(21, 0));
    assert_close_abs(pct(model.supersaturation().gf_surf), 299.023204474694, 0.02);
}

fn example_ceiling_start() {
    let mut model = BuhlmannModel::new(
        BuhlmannConfig::new().with_gradient_factors(30, 70).with_surface_pressure(1013),
    );
    model.record(Depth::from_meters(40), Time::from_minutes(10), &Gas::air());
    assert_close_abs(meters(model.ceiling()), 12.85312294790554, 0.002);
}

fn example_ceiling() {
    let mut model = BuhlmannModel::new(
        BuhlmannConfig::new().with_gradient_factors(30, 70).with_surface_pressure(1013),
    );
    let air = Gas::air();
    let ean_50 = Gas::new(50, 0);
    model.record(Depth::from_meters(40), Time::from_minutes(40), &air);
    model.record(Depth::from_meters(30), Time::from_minutes(3), &air);
    model.record(Depth::from_meters(21), Time::from_minutes(10), &ean_50);
    assert_close_abs(meters(model.ceiling()), 12.455491216740299, 0.002);
}

fn adaptive_ceiling() {
    let mut model =
        BuhlmannModel::new(BuhlmannConfig::new().with_ceiling_type(CeilingType::Adaptive));
    model.record(Depth::from_meters(40), Time::from_minutes(20), &Gas::air());
    assert_close_abs(meters(model.ceiling()), 4., 0.5);
}

fn gradual_ascent_with_deco() {
    let mut model = BuhlmannModel::new(
        BuhlmannConfig::new().with_gradient_factors(30, 70).with_surface_pressure(1013),
    );
    let air = Gas::air();
    let ean_50 = Gas::new(50, 0);
    model.record(Depth::from_meters(45), Time::from_minutes(30), &air);
    loop {
        let depth = model.dive_state().depth;
        if depth == Depth::zero() {
            break;
        }
        let target = Depth::from_millimeters(depth.as_millimeters().saturating_sub(3000));
        model.record_travel_with_rate(target, 10_000, &air);
        model.deco(vec![air, ean_50]).unwrap();
    }
}

fn cns_otu() {
    let mut model = model_default();
    model.record(Depth::from_meters(40), Time::from_minutes(10), &Gas::air());
    model.record_travel_with_rate(Depth::zero(), 10_000, &Gas::air());
    assert_close_abs(model.otu() as f64 / 1e9, 13., 1.);
}

#[test]
fn buhlmann_tests_test_ceiling() {
    ceiling_40_30_then_30_30();
}

#[test]
fn buehlmann_tests_test_ceiling() {
    ceiling_40_30_then_30_30();
}

#[test]
fn buhlmann_tests_test_gfs() {
    gfs();
}

#[test]
fn buehlmann_tests_test_gfs() {
    gfs();
}

#[test]
fn buhlmann_tests_test_initial_gfs() {
    initial_gfs();
}

#[test]
fn buehlmann_tests_test_initial_gfs() {
    initial_gfs();
}

#[test]
fn buhlmann_tests_test_model_records_equality() {
    model_records_equality();
}

#[test]
fn buehlmann_tests_test_model_records_equality() {
    model_records_equality();
}

#[test]
fn buhlmann_tests_test_actual_ndl_calculation() {
    actual_ndl_calculation();
}

#[test]
fn buehlmann_tests_test_actual_ndl_calculation() {
    actual_ndl_calculation();
}

#[test]
fn buhlmann_tests_test_adaptive_ndl_calculation() {
    adaptive_ndl_calculation();
}

#[test]
fn buehlmann_tests_test_adaptive_ndl_calculation() {
    adaptive_ndl_calculation();
}

#[test]
fn buhlmann_tests_test_ndl_cut_off() {
    ndl_cut_off();
}

#[test]
fn buehlmann_tests_test_ndl_cut_off() {
    ndl_cut_off();
}

#[test]
fn buhlmann_tests_test_multi_gas_ndl() {
    multi_gas_ndl();
}

#[test]
fn buehlmann_tests_test_multi_gas_ndl() {
    multi_gas_ndl();
}

#[test]
fn buhlmann_tests_test_ndl_with_gf() {
    ndl_with_gf();
}

#[test]
fn buehlmann_tests_test_ndl_with_gf() {
    ndl_with_gf();
}

#[test]
fn buhlmann_tests_test_altitude() {
    altitude();
}

#[test]
fn buehlmann_tests_test_altitude() {
    altitude();
}

#[test]
fn buhlmann_tests_test_example_ceiling_start() {
    example_ceiling_start();
}

#[test]
fn buehlmann_tests_test_example_ceiling_start() {
    example_ceiling_start();
}

#[test]
fn buhlmann_tests_test_example_ceiling() {
    example_ceiling();
}

#[test]
fn buehlmann_tests_test_example_ceiling() {
    example_ceiling();
}

#[test]
fn test_example_ceiling_feet() {
    let mut model = BuhlmannModel::new(
        BuhlmannConfig::new().with_gradient_factors(30, 70).with_surface_pressure(1013),
    );
    let air = Gas::air();
    let ean_50 = Gas::new(50, 0);
    let from_feet = |ft: f64| Depth::from_millimeters((ft * 304.8).round() as u64);
    model.record(from_feet(131.234), Time::from_minutes(40), &air);
    model.record(from_feet(98.4252), Time::from_minutes(3), &air);
    model.record(from_feet(68.8976), Time::from_minutes(10), &ean_50);
    assert_eq!(model.ceiling().as_feet(), 40);
    assert_close_abs(meters(model.ceiling()), 12.455532471765158, 0.002);
}

#[test]
fn buhlmann_tests_test_adaptive_ceiling() {
    adaptive_ceiling();
}

#[test]
fn buehlmann_tests_test_adaptive_ceiling() {
    adaptive_ceiling();
}

#[test]
fn buhlmann_tests_test_gradual_ascent_with_deco() {
    gradual_ascent_with_deco();
}

#[test]
fn buehlmann_tests_test_gradual_ascent_with_deco() {
    gradual_ascent_with_deco();
}

#[test]
fn buhlmann_tests_test_cns_otu() {
    cns_otu();
}

#[test]
fn buehlmann_tests_test_cns_otu() {
    cns_otu();
}

fn state() {
    let mut model = BuhlmannModel::new(BuhlmannConfig::default());
    let air = Gas::new(21, 0);
    let nx32 = Gas::new(32, 0);
    model.record(Depth::from_meters(10), Time::from_minutes(10), &air);
    model.record(Depth::from_meters(15), Time::from_minutes(15), &nx32);
    assert_eq!(model.state.depth.as_meters(), 15);
    assert_eq!(model.state.time, Time::from_minutes(25));
    assert_eq!(model.state.gas, nx32);
    assert_eq!(model.state.gf_low_depth, None);
    assert_ne!(model.state.ox_tox, OxTox::default());
}

fn max_gf_within_ndl() {
    let mut model = model_gf(50, 100);
    model.record(Depth::zero(), Time::zero(), &Gas::air());
    assert_eq!(model.calc_max_sloped_gf(Depth::zero()), 100);
}

fn max_gf_below_first_stop() {
    let mut model = model_gf(50, 100);
    model.record(Depth::from_meters(40), Time::from_minutes(12), &Gas::air());
    assert_eq!(model.calc_max_sloped_gf(Depth::from_meters(40)), 50);
}

fn max_gf_during_deco() {
    let mut model = model_gf(30, 70);
    let air = Gas::air();
    model.record(Depth::from_meters(40), Time::from_minutes(30), &air);
    model.record(Depth::from_meters(21), Time::from_minutes(5), &air);
    model.record(Depth::from_meters(14), Time::zero(), &air);
    assert_eq!(model.calc_max_sloped_gf(Depth::from_meters(14)), 40);
}

fn gf_slope_point() {
    let model = model_gf(30, 85);
    let slope_point = model.gf_slope_point(
        (30, 85),
        Depth::from_millimeters(33_528),
        Depth::from_millimeters(30_480),
    );
    assert_eq!(slope_point, 35);
}

fn initial_supersaturation() {
    fn extract_supersaturations(model: &BuhlmannModel) -> Vec<Supersaturation> {
        let surface = model.config().surface_pressure;
        model
            .tissues()
            .into_iter()
            .map(|comp: Compartment| comp.supersaturation(surface, Depth::zero()))
            .collect()
    }
    let model_initial = model_default();
    let mut model_with_surface_interval = model_default();
    model_with_surface_interval.record(Depth::zero(), Time::from_seconds(999_999), &Gas::air());
    assert_eq!(
        extract_supersaturations(&model_initial),
        extract_supersaturations(&model_with_surface_interval)
    );
}

#[test]
fn buhlmann_model_test_state() {
    state();
}

#[test]
fn buehlmann_model_test_state() {
    state();
}

#[test]
fn buhlmann_model_test_max_gf_within_ndl() {
    max_gf_within_ndl();
}

#[test]
fn buehlmann_model_test_max_gf_within_ndl() {
    max_gf_within_ndl();
}

#[test]
fn buhlmann_model_test_max_gf_below_first_stop() {
    max_gf_below_first_stop();
}

#[test]
fn buehlmann_model_test_max_gf_below_first_stop() {
    max_gf_below_first_stop();
}

#[test]
fn buhlmann_model_test_max_gf_during_deco() {
    max_gf_during_deco();
}

#[test]
fn buehlmann_model_test_max_gf_during_deco() {
    max_gf_during_deco();
}

#[test]
fn buhlmann_model_test_gf_slope_point() {
    gf_slope_point();
}

#[test]
fn buehlmann_model_test_gf_slope_point() {
    gf_slope_point();
}

#[test]
fn buhlmann_model_test_initial_supersaturation() {
    initial_supersaturation();
}

#[test]
fn buehlmann_model_test_initial_supersaturation() {
    initial_supersaturation();
}

#[test]
fn test_updating_config() {
    let mut model = model_default();
    let initial_config = model.config();
    let new_config = BuhlmannConfig::new()
        .with_gradient_factors(30, 70)
        .with_round_ceiling(true)
        .with_ceiling_type(CeilingType::Adaptive)
        .with_round_ceiling(true);
    assert_ne!(initial_config, new_config, "given configs aren't identical");
    model.update_config(new_config).unwrap();
    assert_eq!(model.config(), new_config, "new config saved");
    let invalid_config = new_config.with_gradient_factors(0, 150);
    let update_res = model.update_config(invalid_config);
    assert_eq!(
        update_res,
        Err(ConfigValidationErr {
            field: String::from("gf"),
            reason: String::from("GF values have to be in 1-100 range"),
        }),
        "invalid config update results in Err"
    );
}

#[test]
fn test_ndl_0_if_in_deco() {
    let mut model = BuhlmannModel::new(
        BuhlmannConfig::new().with_gradient_factors(30, 70).with_ceiling_type(CeilingType::Actual),
    );
    let air = Gas::air();
    model.record(Depth::from_meters(40), Time::from_minutes(6), &air);
    model.record(Depth::from_meters(9), Time::zero(), &air);
    assert!(model.in_deco());
    assert_eq!(model.ndl(), Time::zero());
}

#[test]
fn test_ndl() {
    // (gradient factors, depth, expected NDL in minutes)
    let test_cases = [((100, 100), 21, 40), ((100, 100), 15, 90), ((70, 70), 21, 19), ((70, 70), 15, 47)];
    for ((gf_low, gf_high), depth, expected) in test_cases {
        let mut model = model_gf(gf_low, gf_high);
        model.record(Depth::from_meters(depth), Time::zero(), &Gas::air());
        assert_eq!(model.ndl(), Time::from_minutes(expected));
    }
}

#[test]
fn test_gf_low_ceiling() {
    let mut model = model_gf(50, 100);
    model.record(Depth::from_meters(40), Time::from_minutes(10), &Gas::air());
    assert_close_abs(meters(model.ceiling()), 8., 0.5);
}

fn tmx_gf_surf() -> f64 {
    let mut model = model_gf(100, 100);
    model.record(Depth::from_meters(30), Time::from_minutes(300), &Gas::new(21, 35));
    pct(model.supersaturation().gf_surf)
}

fn tmx_ndl() {
    let mut model = model_gf(30, 70);
    model.record(Depth::from_meters(20), Time::zero(), &Gas::new(21, 35));
    assert_eq!(model.ndl(), Time::from_minutes(17));
}

#[test]
fn helium_tests_test_tmx_gf_surf() {
    assert_close_percent(tmx_gf_surf(), 335.77, 1.);
}

#[test]
fn trimix_tests_test_tmx_gf_surf() {
    assert_close_percent(tmx_gf_surf(), 337., 5.);
}

#[test]
fn helium_tests_test_tmx_ndl() {
    tmx_ndl();
}

#[test]
fn trimix_tests_test_tmx_ndl() {
    tmx_ndl();
}

#[test]
fn test_heliox_gf_surf() {
    let mut model = model_gf(100, 100);
    model.record(Depth::from_meters(30), Time::from_minutes(40), &Gas::new(21, 79));
    assert_close_percent(pct(model.supersaturation().gf_surf), 197.93, 1.);
}

#[test]
fn travel_descent() {
    let mut model = model_default();
    let target_depth = Depth::from_meters(40);
    let descent_time = Time::from_minutes(10);
    model.record_travel(target_depth, descent_time, &Gas::air());
    let dive_state = model.dive_state();
    assert_eq!(dive_state.depth, target_depth);
    assert_eq!(dive_state.time, descent_time);
    assert_close_percent(pct(model.supersaturation().gf_surf), 62., 5.);
}

#[test]
fn saturation_on_descent() {
    let mut model = model_default();
    model.record_travel(Depth::from_meters(40), Time::from_minutes(10), &Gas::air());
    assert_close_percent(pct(model.supersaturation().gf_surf), 62., 10.);
}

#[test]
fn travel_ascent() {
    let mut model = model_gf(30, 70);
    let air = Gas::air();
    model.record(Depth::from_meters(40), Time::from_minutes(20), &air);
    let target_depth = Depth::from_meters(15);
    model.record_travel(target_depth, Time::from_seconds(90), &air);
    let dive_state = model.dive_state();
    let Supersaturation { gf_99, gf_surf } = model.supersaturation();
    assert_eq!(dive_state.depth, target_depth);
    assert_eq!(dive_state.time, Time::from_seconds(20 * 60 + 90));
    assert_close_percent(pct(gf_99), 31., 10.);
    assert_close_percent(pct(gf_surf), 150., 10.);
}

#[test]
fn test_travel_record_with_rate() {
    let mut model = model_default();
    let air = Gas::air();
    model.record(Depth::from_meters(20), Time::from_minutes(20), &air);
    model.record_travel_with_rate(Depth::zero(), 9_000, &air);
    let state = model.dive_state();
    assert_eq!(state.depth, Depth::zero());
    assert_eq!(state.time, Time::from_seconds(20 * 60 + 133));
    assert_close_percent(pct(model.supersaturation().gf_99), 61., 5.);
}

#[test]
fn test_cns() {
    let mut model = model_default();
    let nitrox = Gas::new(32, 0);
    model.record(Depth::from_meters(20), Time::from_minutes(40), &nitrox);
    model.record_travel_with_rate(Depth::zero(), 9_000, &nitrox);
    assert_close_abs(model.cns() as f64 / 1e9, 12., 1.);
}

#[test]
fn test_cns_multi_stage() {
    let mut model = model_default();
    let nitrox = Gas::new(32, 0);
    model.record_travel_with_rate(Depth::from_millimeters(36_580), 12_190, &nitrox);
    model.record(Depth::from_millimeters(36_580), Time::from_minutes(22), &nitrox);
    model.record_travel_with_rate(Depth::zero(), 1_220, &nitrox);
    let before = model.cns() as f64 / 1e9;
    assert_close_abs(before, 27.5, 1.);
    // ten minutes at the surface eliminate CNS with a 90 minute half-time
    model.record(Depth::zero(), Time::from_minutes(10), &Gas::air());
    assert_close_abs(model.cns() as f64 / 1e9, before / 2f64.powf(600. / 5400.), 1e-6);
}

#[test]
fn test_model_steps_equality() {
    let mut model1 = model_default();
    let mut model2 = model_default();
    let air = Gas::new(21, 0);
    let test_depth = Depth::from_meters(50);
    let test_time_minutes = 100;
    model1.record(test_depth, Time::from_minutes(test_time_minutes), &air);
    for _i in 1..=test_time_minutes {
        model2.record(test_depth, Time::from_minutes(1), &air);
    }
    assert_eq!(model1.ceiling().as_meters(), model2.ceiling().as_meters());
    let s1 = model1.supersaturation();
    let s2 = model2.supersaturation();
    assert_eq!(s1.gf_99 / 100, s2.gf_99 / 100);
    assert_eq!(s1.gf_surf / 100, s2.gf_surf / 100);
}
