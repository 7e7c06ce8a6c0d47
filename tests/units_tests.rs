use dive_deco::{Depth, Time, Unit, Units};

fn m_to_ft() {
    let depth = Depth::from_meters(1);
    assert_eq!(depth.as_feet(), 3);
    assert_eq!(Depth::from_meters(100).as_feet(), 328);
}

fn ft_to_m() {
    let depth = Depth::from_feet(100);
    assert_eq!(depth.as_millimeters(), 30_480);
    assert_eq!(depth.as_meters(), 30);
}

fn depth_conversion_factors() {
    let depth = Depth::from_meters(1);
    assert_eq!(depth.as_millimeters(), 1000);
    assert_eq!(Depth::from_feet(1).as_millimeters(), 305);
}

fn from_units_constructor() {
    let depth_m = Depth::from_units(1, Units::Metric);
    assert_eq!(depth_m.as_meters(), 1);
    assert_eq!(depth_m.as_millimeters(), 1000);
    let depth_ft = Depth::from_units(1, Units::Imperial);
    assert_eq!(depth_ft.as_millimeters(), 305);
    assert_eq!(depth_ft.to_units(Units::Imperial), 1);
    assert_eq!(Depth::from_meters(30).to_units(Units::Imperial), 98);
    assert_eq!(depth_m.base_unit(), 1000);
}

#[test]
fn depth_m_to_ft() {
    m_to_ft();
}

#[test]
fn units_m_to_ft() {
    m_to_ft();
}

#[test]
fn depth_ft_to_m() {
    ft_to_m();
}

#[test]
fn units_ft_to_m() {
    ft_to_m();
}

#[test]
fn depth_depth_conversion_factors() {
    depth_conversion_factors();
}

#[test]
fn units_depth_conversion_factors() {
    depth_conversion_factors();
}

#[test]
fn depth_from_units_constructor() {
    from_units_constructor();
}

#[test]
fn units_from_units_constructor() {
    from_units_constructor();
}

#[test]
fn test_depth_param_type_conversion() {
    let depth = Depth::from_meters(10);
    assert_eq!(depth, Depth::from_millimeters(10_000));
    assert_eq!(Depth::zero(), Depth::from_millimeters(0));
}

#[test]
fn test_from_seconds() {
    let time = Time::from_seconds(120);
    assert_eq!(time.as_seconds(), 120);
}

#[test]
fn test_from_minutes() {
    let time = Time::from_minutes(2);
    assert_eq!(time.as_seconds(), 120);
}

#[test]
fn test_as_seconds() {
    assert_eq!(Time::from_minutes(2).as_seconds(), 120);
}

#[test]
fn test_as_minutes() {
    assert_eq!(Time::from_seconds(1800).as_minutes(), 30);
    assert_eq!(Time::from_seconds(119).as_minutes(), 1);
}

#[test]
fn test_into_time() {
    assert_eq!(Time::zero(), Time::from_seconds(0));
}
