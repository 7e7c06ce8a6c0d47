use dive_deco::{BuhlmannConfig, CeilingType, ConfigValidationErr};

const GF_RANGE_ERR_MSG: &str = "GF values have to be in 1-100 range";
const GF_ORDER_ERR_MSG: &str = "GFLow can't be higher than GFHigh";
const SURFACE_PRESSURE_ERR_MSG: &str = "Surface pressure must be in milibars in 500-1500 range";
const DECO_ASCENT_RATE_ERR_MSG: &str = "Ascent rate must in 1-30 m/min range";

fn default_config() {
    let config = BuhlmannConfig::default();
    assert_eq!(config.validate(), Ok(()));
    assert_eq!(config.gf, (100, 100));
    assert_eq!(config.deco_ascent_rate, 10);
    assert_eq!(config.ceiling_type, CeilingType::Actual);
    assert!(!config.round_ceiling);
}

fn variable_gradient_factors() {
    let config = BuhlmannConfig::new().with_gradient_factors(30, 70);
    assert_eq!(config.validate(), Ok(()));
    assert_eq!(config.gf, (30, 70));
}

fn gf_range() {
    for (gf_low, gf_high) in [(1, 101), (0, 99), (120, 240)] {
        let config = BuhlmannConfig::new().with_gradient_factors(gf_low, gf_high);
        assert_eq!(config.validate(), Err(ConfigValidationErr::new("gf", GF_RANGE_ERR_MSG)));
    }
}

fn gf_order() {
    let config = BuhlmannConfig::new().with_gradient_factors(90, 80);
    assert_eq!(config.validate(), Err(ConfigValidationErr::new("gf", GF_ORDER_ERR_MSG)));
}

fn surface_pressure_config() {
    let config = BuhlmannConfig::new().with_surface_pressure(1032);
    assert_eq!(config.validate(), Ok(()));
    assert_eq!(config.surface_pressure, 1032);
}

fn invalid_surface_pressure_values() {
    for invalid_case in [0, 100, 2000] {
        let config = BuhlmannConfig::new().with_surface_pressure(invalid_case);
        assert_eq!(
            config.validate(),
            Err(ConfigValidationErr::new("surface_pressure", SURFACE_PRESSURE_ERR_MSG))
        );
    }
}

fn deco_ascent_rate_config() {
    let config = BuhlmannConfig::new().with_deco_ascent_rate(15);
    assert_eq!(config.validate(), Ok(()));
    assert_eq!(config.deco_ascent_rate, 15);
}

fn invalid_deco_ascent_rate_values() {
    for invalid_case in [0, 31, 50] {
        let config = BuhlmannConfig::new().with_deco_ascent_rate(invalid_case);
        assert_eq!(
            config.validate(),
            Err(ConfigValidationErr::new("deco_ascent_rate", DECO_ASCENT_RATE_ERR_MSG))
        );
    }
}

#[test]
fn buhlmann_config_test_default_config() {
    default_config();
}

#[test]
fn buehlmann_config_test_default_config() {
    default_config();
}

#[test]
fn buhlmann_config_test_variable_gradient_factors() {
    variable_gradient_factors();
}

#[test]
fn buehlmann_config_test_variable_gradient_factors() {
    variable_gradient_factors();
}

#[test]
fn buhlmann_config_test_gf_range() {
    gf_range();
}

#[test]
fn buehlmann_config_test_gf_range() {
    gf_range();
}

#[test]
fn buhlmann_config_test_gf_order() {
    gf_order();
}

#[test]
fn buehlmann_config_test_gf_order() {
    gf_order();
}

#[test]
fn buhlmann_config_test_surface_pressure_config() {
    surface_pressure_config();
}

#[test]
fn buehlmann_config_test_surface_pressure_config() {
    surface_pressure_config();
}

#[test]
fn buhlmann_config_test_invalid_surface_pressure_values() {
    invalid_surface_pressure_values();
}

#[test]
fn buehlmann_config_test_invalid_surface_pressure_values() {
    invalid_surface_pressure_values();
}

#[test]
fn buhlmann_config_test_deco_ascent_rate_config() {
    deco_ascent_rate_config();
}

#[test]
fn buehlmann_config_test_deco_ascent_rate_config() {
    deco_ascent_rate_config();
}

#[test]
fn buhlmann_config_test_invalid_deco_ascent_rate_values() {
    invalid_deco_ascent_rate_values();
}

#[test]
fn buehlmann_config_test_invalid_deco_ascent_rate_values() {
    invalid_deco_ascent_rate_values();
}

#[test]
fn config_validation_reports_first_invalid_field() {
    let config = BuhlmannConfig::new().with_surface_pressure(100).with_deco_ascent_rate(0);
    assert_eq!(config.validate().unwrap_err().field, "surface_pressure");
    let config = BuhlmannConfig::new().with_deco_ascent_rate(0);
    assert_eq!(config.validate().unwrap_err().field, "deco_ascent_rate");
}
