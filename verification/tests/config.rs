use feather::celsius::Celsius;
use feather::config::{
    default_corsair_product, default_corsair_vendor, default_hysteresis, default_refresh,
    read_error, toml_error, with_path, Aggregation, AssignmentConfig, ColorCurve, ColorPoint,
    Config, DaemonConfig, DeviceConfig, FanCurve, FanPoint, OutputConfig, ProfileConfig,
    ScheduleConfig, SensorConfig,
};
use feather::error::FeatherError;
use feather::names::NameMap;

fn celsius(value: f64) -> Celsius {
    Celsius { bits: value.to_bits() }
}

fn map<V: vstd::view::View>(entries: Vec<(&str, V)>) -> NameMap<V> {
    let mut result = NameMap::new();
    for (name, value) in entries {
        result.insert(name.to_owned(), value);
    }
    result
}

fn hub(expected_fan_count: Option<u8>) -> DeviceConfig {
    DeviceConfig::CorsairIcueLink {
        vendor_id: default_corsair_vendor(),
        product_id: default_corsair_product(),
        unique_id: Some("ABC".to_owned()),
        interface: 0,
        expected_fan_count,
    }
}

fn fan_curve(last: u8) -> FanCurve {
    FanCurve {
        points: vec![
            FanPoint {
                temp: celsius(40.0),
                percent: 30,
            },
            FanPoint {
                temp: celsius(80.0),
                percent: last,
            },
        ],
    }
}

fn assignment(sources: &[&str], curve: Option<&str>, off_schedule: Option<&str>) -> AssignmentConfig {
    AssignmentConfig {
        sources: sources.iter().map(|source| source.to_string()).collect(),
        aggregate: Aggregation::default(),
        curve: curve.map(str::to_owned),
        color_curve: None,
        off_schedule: off_schedule.map(str::to_owned),
    }
}

fn case_profile(curve: &str) -> ProfileConfig {
    ProfileConfig {
        outputs: map(vec![("case", assignment(&["cpu"], Some(curve), None))]),
    }
}

fn case_fan() -> OutputConfig {
    OutputConfig::Fan {
        device: "hub".to_owned(),
        channels: vec![],
        minimum_percent: 30,
        fail_safe_percent: 100,
        hysteresis_percent: default_hysteresis(),
        refresh_interval: default_refresh(),
    }
}

fn valid() -> Config {
    Config {
        schema_version: 1,
        default_profile: "balanced".to_owned(),
        daemon: DaemonConfig::default(),
        devices: map(vec![("hub", hub(Some(13)))]),
        sensors: map(vec![(
            "cpu",
            SensorConfig::LinuxHwmon {
                device: "0000:00:18.3".to_owned(),
                chip: "k10temp".to_owned(),
                label: "Tctl".to_owned(),
            },
        )]),
        curves: map(vec![("case", fan_curve(100))]),
        color_curves: NameMap::new(),
        schedules: NameMap::new(),
        outputs: map(vec![("case", case_fan())]),
        profiles: map(vec![("balanced", case_profile("case"))]),
    }
}

fn display(brightness_percent: u8, sources: &[&str]) -> Config {
    Config {
        schema_version: 1,
        default_profile: "balanced".to_owned(),
        daemon: DaemonConfig::default(),
        devices: map(vec![(
            "gpu_display",
            DeviceConfig::WireViewProIi {
                serial: "2090389E4245".to_owned(),
            },
        )]),
        sensors: NameMap::new(),
        curves: NameMap::new(),
        color_curves: NameMap::new(),
        schedules: map(vec![(
            "night",
            ScheduleConfig {
                start: "22:00".to_owned(),
                end: "07:00".to_owned(),
            },
        )]),
        outputs: map(vec![(
            "gpu_display",
            OutputConfig::Display {
                device: "gpu_display".to_owned(),
                brightness_percent,
            },
        )]),
        profiles: map(vec![(
            "balanced",
            ProfileConfig {
                outputs: map(vec![(
                    "gpu_display",
                    assignment(sources, None, Some("night")),
                )]),
            },
        )]),
    }
}

fn rejected(config: &Config) -> String {
    match config.validate() {
        Err(FeatherError::Config(message)) => message,
        other => panic!("{other:?}"),
    }
}

#[test]
fn accepts_valid_config() {
    let config = valid();
    config.validate().unwrap();
    assert_eq!(config.default_profile, "balanced");
    assert!(matches!(
        config.devices.get("hub"),
        Some(DeviceConfig::CorsairIcueLink {
            expected_fan_count: Some(13),
            ..
        })
    ));
}

#[test]
fn accepts_a_scheduled_wireview_display() {
    let config = display(75, &[]);
    config.validate().unwrap();
    assert!(matches!(
        config.devices.get("gpu_display"),
        Some(DeviceConfig::WireViewProIi { serial }) if serial == "2090389E4245"
    ));
    assert!(matches!(
        config.outputs.get("gpu_display"),
        Some(OutputConfig::Display {
            brightness_percent: 75,
            ..
        })
    ));
}

#[test]
fn rejects_a_display_with_temperature_sources() {
    let error = display(75, &["missing"]).validate().unwrap_err();
    assert!(error.to_text().contains("unknown sensor 'missing'"));
}

#[test]
fn rejects_display_brightness_over_one_hundred() {
    let error = display(101, &[]).validate().unwrap_err();
    assert!(error
        .to_text()
        .contains("brightness_percent must be from 1 through 100"));
}

#[test]
fn rejects_an_impossible_expected_corsair_fan_count() {
    let mut config = valid();
    config.devices.insert("hub".to_owned(), hub(Some(25)));
    let error = config.validate().unwrap_err();
    assert!(error
        .to_text()
        .contains("expected_fan_count must be from 1 through 24"));
}

#[test]
fn rejects_a_zero_driver_timeout() {
    let mut config = valid();
    config.daemon.driver_timeout = 0;
    let error = config.validate().unwrap_err();
    assert!(error
        .to_text()
        .contains("daemon.driver_timeout must be greater than zero"));
}

#[test]
fn rejects_missing_profile_reference() {
    let mut config = valid();
    config
        .profiles
        .insert("balanced".to_owned(), case_profile("missing"));
    let error = config.validate().unwrap_err().to_text();
    assert!(error.contains("unknown curve 'missing'"), "{error}");
}

#[test]
fn rejects_curve_percentages_over_one_hundred() {
    let mut config = valid();
    config.curves.insert("case".to_owned(), fan_curve(101));
    let error = config.validate().unwrap_err();
    assert!(error.to_text().contains("invalid fan percentage 101"));
}

#[test]
fn rejects_a_sensor_attached_to_the_wrong_driver() {
    let mut config = valid();
    config.sensors.insert(
        "cpu".to_owned(),
        SensorConfig::NvidiaNvml {
            device: "hub".to_owned(),
        },
    );
    let error = config.validate().unwrap_err();
    assert!(error.to_text().contains("requires an nvidia-nvml device"));
}

fn light_curve() -> ColorCurve {
    ColorCurve {
        points: vec![ColorPoint {
            temp: celsius(40.0),
            rgb: [0, 0, 0],
        }],
    }
}

#[test]
fn rejects_partial_device_ownership_in_a_profile() {
    let mut config = valid();
    config
        .color_curves
        .insert("light".to_owned(), light_curve());
    config.outputs.insert(
        "light".to_owned(),
        OutputConfig::Rgb {
            device: "hub".to_owned(),
            led_count: 1,
        },
    );
    let error = config.validate().unwrap_err();
    assert!(error
        .to_text()
        .contains("assigns only part of device 'hub'"));
}

#[test]
fn rejects_a_missing_default_profile() {
    let mut config = valid();
    config.default_profile = "loud".to_owned();
    assert!(rejected(&config).contains("loud"));
}

#[test]
fn rejects_another_schema_version() {
    let mut config = valid();
    config.schema_version = 2;
    assert!(rejected(&config).contains("schema"));
}

#[test]
fn rejects_two_owners_of_a_channel() {
    let mut config = valid();
    config.outputs.insert("other".to_owned(), case_fan());
    let mut profile = case_profile("case");
    profile.outputs.insert(
        "other".to_owned(),
        assignment(&["cpu"], Some("case"), None),
    );
    config.profiles.insert("balanced".to_owned(), profile);
    assert!(config.validate().is_err());
}

#[test]
fn rejects_two_devices_with_one_selector() {
    let mut config = valid();
    config.devices.insert("twin".to_owned(), hub(None));
    assert!(config.validate().is_err());
}

#[test]
fn rejects_curves_that_do_not_rise() {
    let mut config = valid();
    let mut curve = fan_curve(100);
    curve.points[1].temp = celsius(40.0);
    config.curves.insert("case".to_owned(), curve);
    assert!(rejected(&config).contains("must increase from low to high"));
    config
        .curves
        .insert("case".to_owned(), FanCurve { points: vec![] });
    assert_eq!(rejected(&config), "curves.case.points must not be empty");
    let mut curve = fan_curve(100);
    curve.points[0].temp = celsius(f64::NAN);
    config.curves.insert("case".to_owned(), curve);
    assert!(rejected(&config).contains("must be finite"));
}

#[test]
fn configuration_errors_name_their_source() {
    assert_eq!(
        toml_error("line 1").to_text(),
        "configuration error: invalid TOML: line 1"
    );
    assert_eq!(
        read_error("/etc/x", "denied").to_text(),
        "configuration error: could not read /etc/x: denied"
    );
    assert_eq!(
        with_path(toml_error("line 1"), "/etc/x").to_text(),
        "configuration error: /etc/x: invalid TOML: line 1"
    );
    assert_eq!(
        with_path(FeatherError::Io("gone".to_owned()), "/etc/x"),
        FeatherError::Io("gone".to_owned())
    );
}

#[test]
fn names_stay_in_order() {
    let mut names = map(vec![("b", 2u32), ("a", 1), ("c", 3)]);
    names.insert("b".to_owned(), 20);
    assert_eq!(names.keys(), vec!["a", "b", "c"]);
    assert_eq!(names.get("b"), Some(&20));
    assert_eq!(names.remove("a"), Some(1));
    assert_eq!(names.remove("a"), None);
    assert_eq!(names.len(), 2);
    assert!(!names.contains_key("a"));
}
