use feather::celsius::Celsius;
use feather::client::{
    active_profile_line, duration_ms, is_readable, log_level, parse_duration, positive_duration,
    preview_line, preview_output, preview_profile, preview_step, preview_temperatures,
    profile_line, require_target, status_exit_code, PreviewValue,
};
use feather::config::{
    Aggregation, AssignmentConfig, ColorCurve, ColorPoint, Config, DaemonConfig, FanCurve,
    FanPoint, OutputConfig, ProfileConfig,
};
use feather::doctor::{
    add_status_checks, device_check, doctor_exit_code, failed_check, is_healthy,
    result_for_health, socket_check, DoctorResult, SocketFile,
};
use feather::drivers::DisplayTarget;
use feather::error::FeatherError;
use feather::names::NameMap;
use feather::policy::Blends;
use feather::types::{
    DaemonStatus, Health, OutputKind, OutputStatus, SensorReading, SensorStatus,
    STATUS_SCHEMA_VERSION,
};

const SECOND: u128 = 1_000_000_000;

#[test]
fn duration_parser_rejects_zero() {
    assert!(parse_duration("0s").is_err());
    assert_eq!(parse_duration("15s").unwrap() / SECOND, 15);
}

#[test]
fn durations_are_read_in_all_units() {
    assert_eq!(parse_duration("2m 500ms").unwrap(), 120_500_000_000);
    assert_eq!(parse_duration("1h").unwrap(), 3_600 * SECOND);
    assert_eq!(
        parse_duration("0s").unwrap_err(),
        "duration must be greater than zero"
    );
    assert!(parse_duration("soon").is_err());
    assert_eq!(parse_duration("1000000000000000ns").unwrap(), 1_000_000 * SECOND);
    assert_eq!(parse_duration("000000000000000000000000030s").unwrap(), 30 * SECOND);
    assert_eq!(parse_duration("0000000000000001h 5m").unwrap(), 3_900 * SECOND);
    assert_eq!(positive_duration(Ok(7)), Ok(7));
    assert_eq!(
        positive_duration(Err("broken".to_owned())),
        Err("broken".to_owned())
    );
}

#[test]
fn only_durations_that_are_far_too_long_are_not_readable() {
    for text in [
        "30s",
        "1000000000000000ns",
        "299999999999999999 ms",
        "000000000000000000000000030s",
        "123456789012345y",
        "499999999998y 0.000000001s",
        "",
    ] {
        assert!(is_readable(text));
    }
    for text in [
        "500000000000y 0.000000001s",
        "0.00000000000000000000500000000000d",
        "300000000000000000m",
        "3 0 0 000000000000000m",
        "18446744073709551615s 1000ms",
    ] {
        assert!(!is_readable(text));
    }
}

#[test]
fn durations_are_sent_in_whole_milliseconds() {
    assert_eq!(duration_ms(1_999_999), Ok(1));
    assert_eq!(
        duration_ms(u128::MAX),
        Err("override duration is too large".to_owned())
    );
}

#[test]
fn all_or_named_target_is_required() {
    assert!(require_target(&None, false).is_err());
    assert!(require_target(&None, true).is_ok());
    assert!(require_target(&Some("case".into()), false).is_ok());
}

#[test]
fn profiles_are_listed_with_their_state() {
    let saved = Some("quiet".to_owned());
    assert_eq!(profile_line("quiet", "quiet", &saved), "quiet (active, startup)");
    assert_eq!(profile_line("loud", "loud", &saved), "loud (active)");
    assert_eq!(profile_line("quiet", "loud", &saved), "quiet (startup)");
    assert_eq!(profile_line("loud", "quiet", &None), "loud");
    assert_eq!(
        active_profile_line("quiet", false, &saved),
        "Active profile: quiet (startup)"
    );
    assert_eq!(
        active_profile_line("loud", false, &saved),
        "Active profile: loud (runtime only)"
    );
    assert_eq!(
        active_profile_line("loud", true, &None),
        "Active profile: loud (startup)"
    );
}

#[test]
fn exit_codes_tell_the_kind_of_failure() {
    assert_eq!(status_exit_code(true, Health::Healthy), 0);
    assert_eq!(status_exit_code(true, Health::Degraded), 5);
    assert_eq!(status_exit_code(false, Health::FailSafe), 0);
    let text = || "x".to_owned();
    assert_eq!(FeatherError::Config(text()).exit_code(), 2);
    assert_eq!(FeatherError::Protocol(text()).exit_code(), 2);
    assert_eq!(FeatherError::Daemon(text()).exit_code(), 3);
    assert_eq!(FeatherError::Driver(text()).exit_code(), 4);
    assert_eq!(FeatherError::Io(text()).exit_code(), 1);
    assert_eq!(FeatherError::Json(text()).exit_code(), 1);
    assert_eq!(log_level(0), "info");
    assert_eq!(log_level(1), "debug");
    assert_eq!(log_level(9), "trace");
}

fn celsius(value: f64) -> Celsius {
    Celsius { bits: value.to_bits() }
}

fn blend_fan(left: FanPoint, right: FanPoint, at: Celsius) -> u8 {
    let (from, to, at) = (
        f64::from_bits(left.temp.bits),
        f64::from_bits(right.temp.bits),
        f64::from_bits(at.bits),
    );
    let (low, high) = (f64::from(left.percent), f64::from(right.percent));
    (low + (at - from) / (to - from) * (high - low)).round() as u8
}

fn blend_color(left: ColorPoint, _right: ColorPoint, _at: Celsius) -> [u8; 3] {
    left.rgb
}

fn preview_config() -> Config {
    let mut config = Config {
        schema_version: 1,
        default_profile: "balanced".to_owned(),
        daemon: DaemonConfig::default(),
        devices: NameMap::new(),
        sensors: NameMap::new(),
        curves: NameMap::new(),
        color_curves: NameMap::new(),
        schedules: NameMap::new(),
        outputs: NameMap::new(),
        profiles: NameMap::new(),
    };
    config.curves.insert(
        "main".to_owned(),
        FanCurve {
            points: vec![
                FanPoint {
                    temp: celsius(40.0),
                    percent: 20,
                },
                FanPoint {
                    temp: celsius(60.0),
                    percent: 60,
                },
            ],
        },
    );
    config.color_curves.insert(
        "warm".to_owned(),
        ColorCurve {
            points: vec![
                ColorPoint {
                    temp: celsius(-5.0),
                    rgb: [1, 2, 3],
                },
                ColorPoint {
                    temp: celsius(40.0),
                    rgb: [4, 5, 6],
                },
            ],
        },
    );
    config.outputs.insert(
        "case".to_owned(),
        OutputConfig::Fan {
            device: "hub".to_owned(),
            channels: vec![],
            minimum_percent: 30,
            fail_safe_percent: 100,
            hysteresis_percent: 2,
            refresh_interval: SECOND,
        },
    );
    config.outputs.insert(
        "light".to_owned(),
        OutputConfig::Rgb {
            device: "hub".to_owned(),
            led_count: 1,
        },
    );
    config.outputs.insert(
        "screen".to_owned(),
        OutputConfig::Display {
            device: "display".to_owned(),
            brightness_percent: 75,
        },
    );
    config
}

fn assignment(curve: Option<&str>, color_curve: Option<&str>) -> AssignmentConfig {
    AssignmentConfig {
        sources: vec![],
        aggregate: Aggregation::Max,
        curve: curve.map(str::to_owned),
        color_curve: color_curve.map(str::to_owned),
        off_schedule: None,
    }
}

#[test]
fn previews_use_every_curve_temperature_once() {
    assert_eq!(
        preview_temperatures(&preview_config()),
        vec![celsius(-5.0), celsius(40.0), celsius(60.0)]
    );
}

#[test]
fn previews_show_the_targets_of_the_policy() {
    let config = preview_config();
    let blends = Blends {
        fan: blend_fan,
        color: blend_color,
    };
    let show = |name: &str, assignment: AssignmentConfig, value: f64| {
        preview_output(&config, name, &assignment, celsius(value), 12, 0, &blends)
    };
    assert!(matches!(
        show("case", assignment(Some("main"), None), 50.0),
        Ok(PreviewValue::Fan(40))
    ));
    assert!(matches!(
        show("case", assignment(Some("main"), None), 10.0),
        Ok(PreviewValue::Fan(30))
    ));
    assert!(matches!(
        show("light", assignment(None, Some("warm")), 80.0),
        Ok(PreviewValue::Rgb([4, 5, 6]))
    ));
    assert!(matches!(
        show("screen", assignment(None, None), 80.0),
        Ok(PreviewValue::Display(DisplayTarget::Awake {
            brightness_percent: 75
        }))
    ));
    assert_eq!(
        show("case", assignment(None, None), 50.0).unwrap_err(),
        "output 'case' has no fan curve"
    );
    assert_eq!(
        show("case", assignment(Some("none"), None), 50.0).unwrap_err(),
        "unknown curve 'none'"
    );
    assert_eq!(
        show("pump", assignment(Some("main"), None), 50.0).unwrap_err(),
        "unknown output 'pump'"
    );
}

#[test]
fn a_preview_lists_the_outputs_up_to_the_first_failure() {
    let config = preview_config();
    let blends = Blends {
        fan: blend_fan,
        color: blend_color,
    };
    let mut outputs = NameMap::new();
    outputs.insert("screen".to_owned(), assignment(None, None));
    outputs.insert("case".to_owned(), assignment(Some("main"), None));
    outputs.insert("light".to_owned(), assignment(None, Some("warm")));
    let step = preview_step(&config, &outputs, celsius(50.0), 12, 0, &blends);
    assert_eq!(
        step.lines,
        ["  case: 40%", "  light: rgb(4,5,6)", "  screen: on, 75%"]
    );
    assert_eq!(step.error, None);
    outputs.insert("light".to_owned(), assignment(None, None));
    let step = preview_step(&config, &outputs, celsius(50.0), 12, 0, &blends);
    assert_eq!(step.lines, ["  case: 40%"]);
    assert_eq!(step.error.as_deref(), Some("output 'light' has no color curve"));
    assert_eq!(
        preview_line("screen", PreviewValue::Display(DisplayTarget::Sleep)),
        "  screen: off"
    );
}

#[test]
fn a_preview_follows_the_default_profile_unless_one_is_named() {
    let mut config = preview_config();
    let default = config.default_profile.clone();
    assert_eq!(
        preview_profile(&config, None).unwrap_err(),
        format!("unknown profile '{default}'")
    );
    for name in [default.as_str(), "night"] {
        config.profiles.insert(
            name.to_owned(),
            ProfileConfig {
                outputs: NameMap::new(),
            },
        );
    }
    assert_eq!(preview_profile(&config, None), Ok(default));
    assert_eq!(
        preview_profile(&config, Some("night".to_owned())),
        Ok("night".to_owned())
    );
    assert_eq!(
        preview_profile(&config, Some("day".to_owned())).unwrap_err(),
        "unknown profile 'day'"
    );
}

#[test]
fn maps_health_results() {
    assert_eq!(result_for_health(&Health::Healthy), DoctorResult::Pass);
    assert_eq!(result_for_health(&Health::Released), DoctorResult::Warning);
    assert_eq!(result_for_health(&Health::Degraded), DoctorResult::Fail);
    assert_eq!(result_for_health(&Health::FailSafe), DoctorResult::Fail);
    assert_eq!(result_for_health(&Health::Unavailable), DoctorResult::Fail);
}

#[test]
fn the_socket_is_for_its_owner_and_group() {
    let check = |mode: u32| socket_check("/run/x", &SocketFile::Socket { mode });
    assert_eq!(check(0o140_660).result, DoctorResult::Pass);
    assert_eq!(check(0o660).message, "/run/x is a Unix socket with mode 0660");
    assert_eq!(check(0o600).result, DoctorResult::Warning);
    assert_eq!(check(0o666).result, DoctorResult::Fail);
    assert_eq!(
        socket_check("/run/x", &SocketFile::Other).message,
        "/run/x exists but is not a Unix socket"
    );
    assert_eq!(
        socket_check("/run/x", &SocketFile::Unreadable("denied".to_owned())).message,
        "could not inspect /run/x: denied"
    );
    assert_eq!(device_check(0).result, DoctorResult::Fail);
    assert_eq!(device_check(3).message, "3 supported devices detected");
    assert_eq!(failed_check("daemon", "gone").result, DoctorResult::Fail);
}

fn status(version: &str, health: Health) -> DaemonStatus {
    let mut sensors = NameMap::new();
    sensors.insert(
        "cpu".to_owned(),
        SensorStatus {
            driver: "linux-hwmon".to_owned(),
            health,
            reading: Some(SensorReading {
                celsius: celsius(50.0),
                age_ms: 12,
            }),
            error: Some("late".to_owned()),
        },
    );
    let mut outputs = NameMap::new();
    outputs.insert(
        "case".to_owned(),
        OutputStatus {
            kind: OutputKind::Fan,
            health,
            target: None,
            observed: None,
            error: None,
        },
    );
    DaemonStatus {
        schema_version: STATUS_SCHEMA_VERSION,
        version: version.to_owned(),
        active_profile: "balanced".to_owned(),
        config_generation: 1,
        uptime_seconds: 1,
        health,
        sensors,
        outputs,
        overrides: vec![],
        driver_errors: NameMap::new(),
    }
}

#[test]
fn the_status_is_checked_part_by_part() {
    let mut checks = Vec::new();
    add_status_checks(
        &mut checks,
        &status("0.1.2", Health::Healthy),
        &vec!["50.0".to_owned()],
        &vec!["none".to_owned()],
    );
    let names: Vec<&str> = checks.iter().map(|check| check.name.as_str()).collect();
    assert_eq!(names, vec!["daemon", "health", "sensor.cpu", "output.case"]);
    assert_eq!(
        checks[2].message,
        "50.0 C, 12 ms old; health=Healthy; late"
    );
    assert_eq!(checks[3].message, "Fan target=none; health=Healthy");
    assert!(is_healthy(&checks));
    assert_eq!(doctor_exit_code(&checks), 0);

    let mut checks = Vec::new();
    let mut bad = status("0.1.1", Health::Degraded);
    bad.driver_errors
        .insert("policy".to_owned(), "missing".to_owned());
    add_status_checks(
        &mut checks,
        &bad,
        &vec!["50.0".to_owned()],
        &vec!["none".to_owned()],
    );
    assert_eq!(
        checks[0].message,
        "client version 0.1.2 does not match featherd 0.1.1"
    );
    assert_eq!(checks[4].name, "driver.policy");
    assert_eq!(doctor_exit_code(&checks), 5);
}
