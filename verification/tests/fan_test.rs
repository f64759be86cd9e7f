use feather::drivers::corsair::{fan_write_result, LinkDevice, LinkTopology, SpeedReading};
use feather::fan_test::{
    analyze_step, rpm_readings, validate_options, warnings, Action, Event, Failure, FanTest,
    FanTestReport, Stage,
};
use feather::json::{object1, Json};
use feather::names::NameMap;
use feather::types::{
    DaemonStatus, Health, OutputKind, OutputStatus, OverrideKind, OverrideStatus,
    STATUS_SCHEMA_VERSION,
};

const SECOND: u128 = 1_000_000_000;
const HOLD: u128 = 15 * SECOND;

fn rpm(entries: &[(&str, u64)]) -> NameMap<u64> {
    let mut map = NameMap::new();
    for (channel, value) in entries {
        map.insert(channel.to_string(), *value);
    }
    map
}

#[test]
fn validates_and_analyzes_samples() {
    assert!(validate_options(&[35, 50, 75, 100], HOLD).is_ok());
    assert!(validate_options(&[35], HOLD).is_err());
    assert!(validate_options(&[50, 50], HOLD).is_err());
    assert!(validate_options(&[50, 40], HOLD).is_err());

    let first = analyze_step(35, rpm(&[("1", 800), ("2", 810), ("3", 790)]), 75).unwrap();
    assert_eq!(first.median_rpm, 800);
    assert!(first.low_channels.is_empty());

    let last = analyze_step(100, rpm(&[("1", 2_000), ("2", 900), ("3", 1_980)]), 75).unwrap();
    assert_eq!(last.low_channels, vec!["2"]);
    let warnings = warnings(&vec![first, last], 75);
    assert!(warnings.iter().any(|warning| warning.contains("channel 2")));
    assert!(warnings
        .iter()
        .any(|warning| warning.contains("810 to 900 RPM")));
}

#[test]
fn options_and_samples_are_refused_for_a_reason() {
    assert_eq!(
        validate_options(&[50, 60], 301 * SECOND).unwrap_err(),
        "fan test hold time must not exceed 5m per step"
    );
    assert_eq!(
        validate_options(&[50, 40], HOLD).unwrap_err(),
        "fan test steps must be unique and in ascending order"
    );
    assert_eq!(
        validate_options(&[], HOLD).unwrap_err(),
        "fan test requires 2 to 10 duty steps"
    );
    assert_eq!(
        analyze_step(40, rpm(&[("1", 0), ("2", 0)]), 75).unwrap_err(),
        "all fans reported 0 RPM at 40%"
    );
    let even = analyze_step(40, rpm(&[("1", 800), ("2", 1_001)]), 75).unwrap();
    assert_eq!(even.median_rpm, 900);
}

#[test]
fn lost_channels_are_reported() {
    let first = analyze_step(35, rpm(&[("1", 800)]), 75).unwrap();
    let last = analyze_step(100, rpm(&[("2", 2_000)]), 75).unwrap();
    assert_eq!(
        warnings(&vec![first, last], 75),
        vec!["channel 1 disappeared during the fan test"]
    );
}

fn output(observed: Option<Json>, target: Option<u64>) -> OutputStatus {
    OutputStatus {
        kind: OutputKind::Fan,
        health: Health::Healthy,
        target: target.map(Json::number),
        observed,
        error: None,
    }
}

#[test]
fn reported_speeds_are_read_back() {
    let topology = LinkTopology {
        last_channel: 2,
        devices: vec![LinkDevice {
            channel: 2,
            model: 0x04,
            variant: 0,
            id: "ONLY".to_owned(),
        }],
        consumed: 0,
    };
    let speeds = vec![SpeedReading {
        channel: 2,
        status: 0,
        rpm: Some(800),
    }];
    let write = fan_write_result("hub", 40, None, &topology, &vec![2], &speeds);
    let readings = rpm_readings("case", &output(Some(write.observed), None)).unwrap();
    assert_eq!(readings.get("2"), Some(&800));
    assert_eq!(readings.len(), 1);
}

#[test]
fn outputs_without_speeds_cannot_be_tested() {
    assert_eq!(
        rpm_readings("gpu", &output(None, None)).unwrap_err(),
        "output 'gpu' does not report per-channel RPM and cannot be performance tested"
    );
    let empty = object1("rpm", Json::Object(vec![]));
    assert_eq!(
        rpm_readings("case", &output(Some(empty), None)).unwrap_err(),
        "output 'case' reported no RPM readings"
    );
    let broken = object1("rpm", object1("1", Json::Null));
    assert_eq!(
        rpm_readings("case", &output(Some(broken), None)).unwrap_err(),
        "output 'case' returned invalid RPM for channel 1"
    );
}

fn status(target: u64, speed: u64, overridden: bool) -> DaemonStatus {
    let observed = object1("rpm", object1("1", Json::number(speed)));
    let mut outputs = NameMap::new();
    outputs.insert("case".to_owned(), output(Some(observed), Some(target)));
    let mut overrides = Vec::new();
    if overridden {
        overrides.push(OverrideStatus {
            output: "case".to_owned(),
            kind: OverrideKind::Fan,
            value: Json::number(target),
            remaining_ms: 1_000,
        });
    }
    DaemonStatus {
        schema_version: STATUS_SCHEMA_VERSION,
        version: "0.1.2".to_owned(),
        active_profile: "balanced".to_owned(),
        config_generation: 1,
        uptime_seconds: 1,
        health: Health::Healthy,
        sensors: NameMap::new(),
        outputs,
        overrides,
        driver_errors: NameMap::new(),
    }
}

fn start() -> FanTest {
    FanTest::new("case", vec![40, 100], HOLD, 75).unwrap()
}

fn finished(action: Action) -> std::result::Result<FanTestReport, Failure> {
    match action {
        Action::Finish(result) => result,
        other => panic!("{other:?}"),
    }
}

fn step(test: &mut FanTest, percent: u8, speed: u64) -> Action {
    assert!(matches!(
        test.advance(Event::Accepted, 0),
        Action::RequestStatus
    ));
    let action = test.advance(Event::Status(status(1, speed, true)), SECOND);
    assert!(matches!(action, Action::Sleep(250_000_000)));
    assert!(matches!(
        test.advance(Event::Slept, SECOND),
        Action::RequestStatus
    ));
    let reached = status(u64::from(percent), speed, true);
    assert!(matches!(
        test.advance(Event::Status(reached), 2 * SECOND),
        Action::Sleep(HOLD)
    ));
    assert!(matches!(
        test.advance(Event::Slept, 17 * SECOND),
        Action::RequestStatus
    ));
    let measured = status(u64::from(percent), speed, true);
    test.advance(Event::Status(measured), 17 * SECOND)
}

#[test]
fn a_test_runs_its_steps_and_restores_the_policy() {
    let mut test = start();
    let action = test.advance(Event::Status(status(50, 800, false)), 0);
    assert!(matches!(
        action,
        Action::SetOverride {
            percent: 40,
            duration_ms: 30_000
        }
    ));
    let action = step(&mut test, 40, 800);
    assert!(matches!(action, Action::SetOverride { percent: 100, .. }));
    let action = step(&mut test, 100, 2_000);
    assert!(matches!(action, Action::RequestStatus));
    assert_eq!(test.stage, Stage::Inspecting);
    let action = test.advance(Event::Status(status(100, 2_000, true)), 40 * SECOND);
    assert!(matches!(action, Action::ClearOverride));
    let action = test.advance(Event::Accepted, 40 * SECOND);
    assert!(matches!(action, Action::Sleep(1_100_000_000)));
    let action = test.advance(Event::Slept, 42 * SECOND);
    assert!(matches!(action, Action::RequestStatus));
    let action = test.advance(Event::Status(status(50, 900, false)), 42 * SECOND);
    let report = finished(action).unwrap();
    assert!(report.passed && report.policy_restored);
    assert_eq!(report.steps.len(), 2);
    assert_eq!(report.exit_code(), 0);
}

#[test]
fn an_unresponsive_fan_fails_the_test() {
    let mut test = start();
    test.advance(Event::Status(status(50, 800, false)), 0);
    step(&mut test, 40, 800);
    step(&mut test, 100, 810);
    let report = finished(test.advance(Event::Status(status(50, 800, false)), 0)).unwrap();
    assert_eq!(
        report.warnings,
        vec!["channel 1 changed from 800 to 810 RPM between 40% and 100% duty"]
    );
    assert_eq!(report.exit_code(), 5);
}

#[test]
fn an_overridden_output_is_not_touched() {
    let failure = finished(start().advance(Event::Status(status(50, 800, true)), 0)).unwrap_err();
    assert_eq!(
        failure.message,
        "output 'case' already has an active override"
    );
    assert_eq!(failure.exit_code, 1);
}

#[test]
fn an_interrupted_test_cleans_up() {
    let mut test = start();
    test.advance(Event::Status(status(50, 800, false)), 0);
    test.advance(Event::Accepted, 0);
    test.advance(Event::Status(status(1, 800, true)), SECOND);
    let action = test.advance(Event::Interrupted, SECOND);
    assert!(matches!(action, Action::RequestStatus));
    let action = test.advance(
        Event::Failed(Failure {
            message: "daemon error: gone".to_owned(),
            exit_code: 3,
        }),
        SECOND,
    );
    let failure = finished(action).unwrap_err();
    assert_eq!(
        failure.message,
        "fan test interrupted; cleanup also failed: daemon error: gone"
    );
    assert_eq!(failure.exit_code, 1);
}

#[test]
fn a_target_that_is_not_reached_ends_the_test() {
    let mut test = start();
    test.advance(Event::Status(status(50, 800, false)), 0);
    test.advance(Event::Accepted, 0);
    test.advance(Event::Status(status(50, 800, true)), 5 * SECOND);
    let failure = finished(test.advance(Event::Status(status(50, 800, false)), 6 * SECOND));
    assert_eq!(
        failure.unwrap_err().message,
        "output 'case' did not reach 40% within 5s"
    );
}
