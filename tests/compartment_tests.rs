use dive_deco::zhl::zhl_16c_params;
use dive_deco::{Compartment, Depth, Gas, Time};

fn comp_1() -> Compartment {
    Compartment::new(1, zhl_16c_params(0), 1013, 100)
}

fn comp_5() -> Compartment {
    Compartment::new(5, zhl_16c_params(4), 1013, 100)
}

fn assert_close(a: i128, b: f64, tol: i128) {
    let b_nano = (b * 1e9).round() as i128;
    assert!((a - b_nano).abs() <= tol, "{} is not within {} of {}", a, tol, b_nano);
}

#[test]
fn compartment_test_constructor() {
    let comp = comp_1();
    assert_eq!(comp.no, 1);
    assert_eq!(comp.he_ip, 0);
    assert_eq!(comp.n2_ip, 750_737_000);
    assert_eq!(comp.total_ip, 750_737_000);
    assert_close(comp.min_tolerable_amb_pressure as i128, -0.257127315, 2);
    assert_eq!(comp.params.n2_half_time, 400);
    assert_eq!(comp.params.n2_a, 12599);
    assert_eq!(comp.params.he_b, 4245);
}

#[test]
fn test_m_value_raw() {
    let mut comp_1 = comp_1();
    let mut comp_5 = comp_5();
    let air = Gas::new(21, 0);
    comp_1.recalculate(Depth::zero(), Time::from_seconds(1), &air, 100, 1000);
    comp_5.recalculate(Depth::zero(), Time::from_seconds(1), &air, 100, 1000);
    assert_close(comp_1.m_value(Depth::zero(), 1000, 100) as i128, 3.24009801980198, 2);
    assert_close(comp_5.m_value(Depth::zero(), 1000, 100) as i128, 1.8506177701206004, 2);
}

#[test]
fn test_m_value_calc() {
    let mut comp_1 = comp_1();
    let mut comp_5 = comp_5();
    let air = Gas::new(21, 0);
    comp_1.recalculate(Depth::zero(), Time::from_seconds(1), &air, 70, 1000);
    comp_5.recalculate(Depth::zero(), Time::from_seconds(1), &air, 70, 1000);
    assert_close(comp_1.m_value(Depth::zero(), 1000, 70) as i128, 2.568068613861386, 2);
    assert_close(comp_5.m_value(Depth::zero(), 1000, 70) as i128, 1.5954324390844203, 2);
}

#[test]
fn compartment_test_recalculation_ongassing() {
    let mut comp = comp_5();
    let air = Gas::new(21, 0);
    comp.recalculate(Depth::from_meters(30), Time::from_minutes(10), &air, 100, 1000);
    assert_close(comp.total_ip as i128, 1.2850179204911072, 10);
}

#[test]
fn test_weighted_params_trimix() {
    let comp = comp_1();
    let (half_time, a, b) = comp.weighted_zhl_params(500_000_000, 320_000_000);
    // half-time in 10^-7 minutes, a in nanobar, b in billionths
    assert!((half_time as f64 / 1e7 - 2.481707317073171).abs() < 1e-6);
    assert_close(a as i128, 1.5541073170731705, 2);
    assert_close(b as i128, 0.4559146341463414, 2);
}

#[test]
fn compartment_test_min_pressure_calculation() {
    let mut comp = comp_5();
    let air = Gas::new(21, 0);
    comp.recalculate(Depth::from_meters(30), Time::from_minutes(10), &air, 100, 100);
    assert_close(comp.min_tolerable_amb_pressure as i128, 0.40957969932131577, 10);
}

#[test]
fn compartment_ceiling_rounds_up_to_the_millimetre() {
    let mut comp = comp_1();
    comp.min_tolerable_amb_pressure = 1_013_000_000 + 100_001;
    assert_eq!(comp.ceiling(1013), Depth::from_millimeters(2));
    comp.min_tolerable_amb_pressure = 900_000_000;
    assert_eq!(comp.ceiling(1013), Depth::zero());
}

#[test]
fn table_matches_published_first_and_last_rows() {
    let first = zhl_16c_params(0);
    assert_eq!(
        (first.n2_half_time, first.n2_a, first.n2_b, first.he_half_time, first.he_a, first.he_b),
        (400, 12599, 5050, 151, 17424, 4245)
    );
    let last = zhl_16c_params(15);
    assert_eq!(
        (last.n2_half_time, last.n2_a, last.n2_b, last.he_half_time, last.he_a, last.he_b),
        (63500, 2327, 9653, 24003, 5119, 9267)
    );
    // one second of decay of the fastest nitrogen tissue: 2^(-1 / 240)
    assert!((first.n2_decay as f64 / 1e18 - 2f64.powf(-1.0 / 240.0)).abs() < 1e-15);
}
