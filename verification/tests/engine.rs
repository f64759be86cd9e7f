use std::cell::RefCell;
use std::rc::Rc;

use feather::celsius::Celsius;
use feather::config::{
    default_hysteresis, default_refresh, Aggregation, AssignmentConfig, ColorCurve, ColorPoint,
    Config, DaemonConfig, DeviceConfig, FanCurve, FanPoint, OutputConfig, ProfileConfig,
    ScheduleConfig, SensorConfig,
};
use feather::drivers::{DisplayTarget, FanWrite, Hardware, Sample};
use feather::engine::Engine;
use feather::error::{FeatherError, Result};
use feather::json::{object1, Json};
use feather::names::NameMap;
use feather::policy::Blends;
use feather::types::{DeviceDescriptor, Health, OutputKind};

const SECOND: u128 = 1_000_000_000;
const MILLISECOND: u128 = 1_000_000;
const START: u128 = 100 * SECOND;

type FanBlend = fn(FanPoint, FanPoint, Celsius) -> u8;
type ColorBlend = fn(ColorPoint, ColorPoint, Celsius) -> [u8; 3];

fn celsius(value: f64) -> Celsius {
    Celsius { bits: value.to_bits() }
}

fn weigh(left: f64, right: f64, from: Celsius, to: Celsius, at: Celsius) -> f64 {
    let (from, to, at) = (
        f64::from_bits(from.bits),
        f64::from_bits(to.bits),
        f64::from_bits(at.bits),
    );
    (left + (at - from) / (to - from) * (right - left)).round()
}

fn blend_fan(left: FanPoint, right: FanPoint, at: Celsius) -> u8 {
    weigh(
        f64::from(left.percent),
        f64::from(right.percent),
        left.temp,
        right.temp,
        at,
    ) as u8
}

fn blend_color(left: ColorPoint, right: ColorPoint, at: Celsius) -> [u8; 3] {
    std::array::from_fn(|index| {
        weigh(
            f64::from(left.rgb[index]),
            f64::from(right.rgb[index]),
            left.temp,
            right.temp,
            at,
        ) as u8
    })
}

fn blends() -> Blends<FanBlend, ColorBlend> {
    Blends {
        fan: blend_fan,
        color: blend_color,
    }
}

#[derive(Debug, Default)]
struct FakeState {
    sensor: Option<f64>,
    fan_writes: Vec<(String, u8)>,
    rgb_writes: Vec<(String, [u8; 3])>,
    display_writes: Vec<(String, DisplayTarget)>,
    display_error: Option<String>,
    fan_warning: Option<String>,
    fan_error: Option<String>,
    fan_health_error: Option<String>,
    fan_failure_isolated: bool,
    release_error: Option<String>,
    preflight_error: Option<String>,
    discovery: Option<std::result::Result<String, String>>,
    releases: Vec<String>,
    preflights: usize,
    commits: usize,
    shutdowns: usize,
}

struct FakeHardware {
    state: Rc<RefCell<FakeState>>,
}

fn failed(reason: &Option<String>) -> Result<()> {
    match reason {
        Some(reason) => Err(FeatherError::Driver(reason.clone())),
        None => Ok(()),
    }
}

impl Hardware for FakeHardware {
    fn preflight(&mut self, _config: &Config) -> Result<Vec<DeviceDescriptor>> {
        let mut state = self.state.borrow_mut();
        state.preflights += 1;
        failed(&state.preflight_error)?;
        Ok(Vec::new())
    }

    fn commit_config(&mut self, _config: &Config) {
        self.state.borrow_mut().commits += 1;
    }

    fn discover(&mut self) -> Result<Vec<DeviceDescriptor>> {
        match &self.state.borrow().discovery {
            None => Ok(Vec::new()),
            Some(Ok(id)) => Ok(vec![DeviceDescriptor {
                id: id.clone(),
                driver: "test".to_owned(),
                name: "Test".to_owned(),
                details: NameMap::new(),
            }]),
            Some(Err(reason)) => Err(FeatherError::Driver(reason.clone())),
        }
    }

    fn read_sensor(&mut self, _alias: &str, _config: &SensorConfig) -> Result<Sample> {
        match self.state.borrow().sensor {
            Some(value) => Ok(Sample {
                celsius: celsius(value),
                text: value.to_string(),
            }),
            None => Err(FeatherError::Driver("test sensor unavailable".to_owned())),
        }
    }

    fn set_fan(&mut self, alias: &str, _config: &OutputConfig, percent: u8) -> Result<FanWrite> {
        let mut state = self.state.borrow_mut();
        failed(&state.fan_error)?;
        state.fan_writes.push((alias.to_owned(), percent));
        Ok(FanWrite {
            observed: object1("percent", Json::number(u64::from(percent))),
            warning: state.fan_warning.clone(),
        })
    }

    fn fan_needs_periodic_refresh(&self, config: &OutputConfig) -> bool {
        !matches!(config, OutputConfig::Fan { device, .. } if device == "gpu0")
    }

    fn check_fan_health(&self, _config: &OutputConfig) -> Result<()> {
        failed(&self.state.borrow().fan_health_error)
    }

    fn fan_failure_is_isolated(&self, _config: &OutputConfig) -> bool {
        self.state.borrow().fan_failure_isolated
    }

    fn set_rgb(&mut self, alias: &str, _config: &OutputConfig, rgb: [u8; 3]) -> Result<Json> {
        self.state
            .borrow_mut()
            .rgb_writes
            .push((alias.to_owned(), rgb));
        Ok(object1("rgb", Json::rgb(rgb)))
    }

    fn set_display(
        &mut self,
        alias: &str,
        _config: &OutputConfig,
        target: DisplayTarget,
    ) -> Result<Json> {
        let mut state = self.state.borrow_mut();
        failed(&state.display_error)?;
        state.display_writes.push((alias.to_owned(), target));
        Ok(object1("target", Json::string(&format!("{target:?}"))))
    }

    fn release(&mut self, alias: &str, _config: &OutputConfig) -> Result<()> {
        let mut state = self.state.borrow_mut();
        state.releases.push(alias.to_owned());
        failed(&state.release_error)
    }

    fn debug_hid_dump(&mut self, _device_alias: &str) -> Result<String> {
        Ok("test dump".to_owned())
    }

    fn shutdown(&mut self) {
        self.state.borrow_mut().shutdowns += 1;
    }
}

fn map<V: vstd::view::View>(entries: Vec<(&str, V)>) -> NameMap<V> {
    let mut result = NameMap::new();
    for (name, value) in entries {
        result.insert(name.to_owned(), value);
    }
    result
}

fn assignment(sources: &[&str], curve: Option<&str>, off_schedule: Option<&str>) -> AssignmentConfig {
    AssignmentConfig {
        sources: sources.iter().map(|source| source.to_string()).collect(),
        aggregate: Aggregation::Max,
        curve: curve.map(str::to_owned),
        color_curve: None,
        off_schedule: off_schedule.map(str::to_owned),
    }
}

fn profile(outputs: Vec<(&str, AssignmentConfig)>) -> ProfileConfig {
    ProfileConfig { outputs: map(outputs) }
}

fn main_curve(last: u8) -> FanCurve {
    FanCurve {
        points: vec![
            FanPoint {
                temp: celsius(40.0),
                percent: 40,
            },
            FanPoint {
                temp: celsius(60.0),
                percent: last,
            },
        ],
    }
}

fn hub() -> DeviceConfig {
    DeviceConfig::CorsairIcueLink {
        vendor_id: 0x1b1c,
        product_id: 0x0c3f,
        unique_id: Some("TEST".to_owned()),
        interface: 0,
        expected_fan_count: None,
    }
}

fn cpu() -> SensorConfig {
    SensorConfig::LinuxHwmon {
        device: "test-device".to_owned(),
        chip: "test-chip".to_owned(),
        label: "test-label".to_owned(),
    }
}

fn fan(device: &str, channels: Vec<u32>, hysteresis_percent: u8, refresh: u128) -> OutputConfig {
    OutputConfig::Fan {
        device: device.to_owned(),
        channels,
        minimum_percent: 30,
        fail_safe_percent: 100,
        hysteresis_percent,
        refresh_interval: refresh,
    }
}

fn limits() -> DaemonConfig {
    DaemonConfig {
        poll_interval: SECOND,
        stale_after: 2 * SECOND,
        failure_limit: 3,
        ..DaemonConfig::default()
    }
}

fn config(
    daemon: DaemonConfig,
    device: (&str, DeviceConfig),
    outputs: Vec<(&str, OutputConfig)>,
    profiles: Vec<(&str, ProfileConfig)>,
) -> Config {
    Config {
        schema_version: 1,
        default_profile: "balanced".to_owned(),
        daemon,
        devices: map(vec![device]),
        sensors: map(vec![("cpu", cpu())]),
        curves: map(vec![("main", main_curve(60))]),
        color_curves: NameMap::new(),
        schedules: NameMap::new(),
        outputs: map(outputs),
        profiles: map(profiles),
    }
}

fn engine_config() -> Config {
    config(
        limits(),
        ("hub", hub()),
        vec![("case", fan("hub", vec![0], 2, 60 * SECOND))],
        vec![(
            "balanced",
            profile(vec![("case", assignment(&["cpu"], Some("main"), None))]),
        )],
    )
}

fn grouped_output_config() -> Config {
    config(
        DaemonConfig::default(),
        ("hub", hub()),
        vec![
            ("case", fan("hub", vec![0], default_hysteresis(), default_refresh())),
            ("pump", fan("hub", vec![1], default_hysteresis(), default_refresh())),
        ],
        vec![(
            "balanced",
            profile(vec![
                ("case", assignment(&["cpu"], Some("main"), None)),
                ("pump", assignment(&["cpu"], Some("main"), None)),
            ]),
        )],
    )
}

fn nvidia_output_config() -> Config {
    config(
        limits(),
        (
            "gpu0",
            DeviceConfig::NvidiaNvml {
                uuid: "GPU-test".to_owned(),
            },
        ),
        vec![("gpu_fans", fan("gpu0", vec![], default_hysteresis(), SECOND))],
        vec![(
            "balanced",
            profile(vec![("gpu_fans", assignment(&["cpu"], Some("main"), None))]),
        )],
    )
}

fn display_config() -> Config {
    Config {
        schema_version: 1,
        default_profile: "balanced".to_owned(),
        daemon: DaemonConfig::default(),
        devices: map(vec![(
            "wireview",
            DeviceConfig::WireViewProIi {
                serial: "2090389E4245".to_owned(),
            },
        )]),
        sensors: NameMap::new(),
        curves: NameMap::new(),
        color_curves: NameMap::new(),
        schedules: map(vec![(
            "night",
            ScheduleConfig {
                start: "22:00".to_owned(),
                end: "07:00".to_owned(),
            },
        )]),
        outputs: map(vec![(
            "gpu_display",
            OutputConfig::Display {
                device: "wireview".to_owned(),
                brightness_percent: 75,
            },
        )]),
        profiles: map(vec![(
            "balanced",
            profile(vec![("gpu_display", assignment(&[], None, Some("night")))]),
        )]),
    }
}

fn light_config() -> Config {
    let mut config = config(
        limits(),
        ("hub", hub()),
        vec![(
            "light",
            OutputConfig::Rgb {
                device: "hub".to_owned(),
                led_count: 8,
            },
        )],
        vec![(
            "balanced",
            profile(vec![(
                "light",
                AssignmentConfig {
                    sources: vec!["cpu".to_owned()],
                    aggregate: Aggregation::Max,
                    curve: None,
                    color_curve: Some("warm".to_owned()),
                    off_schedule: Some("night".to_owned()),
                },
            )]),
        )],
    );
    config.schedules.insert(
        "night".to_owned(),
        ScheduleConfig {
            start: "22:00".to_owned(),
            end: "07:00".to_owned(),
        },
    );
    config.color_curves.insert(
        "warm".to_owned(),
        ColorCurve {
            points: vec![
                ColorPoint {
                    temp: celsius(40.0),
                    rgb: [0, 0, 100],
                },
                ColorPoint {
                    temp: celsius(60.0),
                    rgb: [200, 0, 0],
                },
            ],
        },
    );
    config
}

type Fixture = (Engine<FakeHardware>, Rc<RefCell<FakeState>>);

fn test_engine(config: Config, sensor: Option<f64>) -> Fixture {
    config.validate().unwrap();
    let state = Rc::new(RefCell::new(FakeState {
        sensor,
        ..FakeState::default()
    }));
    let hardware = FakeHardware {
        state: Rc::clone(&state),
    };
    let engine = Engine::new(config, hardware, None, START).unwrap();
    (engine, state)
}

fn tick(engine: &mut Engine<FakeHardware>, now: u128) -> bool {
    engine.tick(now, 12, 0, &blends())
}

fn writes(entries: &[(&str, u8)]) -> Vec<(String, u8)> {
    entries
        .iter()
        .map(|(name, percent)| (name.to_string(), *percent))
        .collect()
}

#[test]
fn uses_fail_safe_when_a_required_sensor_is_unavailable() {
    let (mut engine, state) = test_engine(engine_config(), None);

    assert!(!tick(&mut engine, START));

    assert_eq!(state.borrow().fan_writes, writes(&[("case", 100)]));
    assert_eq!(engine.status(START).health, Health::FailSafe);
}

#[test]
fn expires_fan_overrides_and_returns_to_the_curve() {
    let (mut engine, state) = test_engine(engine_config(), Some(50.0));
    engine
        .set_fan_override("case", 75, 100 * MILLISECOND, false, START)
        .unwrap();

    assert!(!tick(&mut engine, START));
    assert!(!tick(&mut engine, START + 2 * SECOND));

    assert_eq!(
        state.borrow().fan_writes,
        writes(&[("case", 75), ("case", 50)])
    );
}

#[test]
fn blanks_and_restores_a_display_across_the_night_schedule() {
    let (mut engine, state) = test_engine(display_config(), None);

    assert!(!engine.tick(START, 23, 0, &blends()));
    assert_eq!(
        engine.status(START).outputs.get("gpu_display").unwrap().target,
        Some(Json::string("sleep"))
    );
    assert!(!engine.tick(START + SECOND, 12, 0, &blends()));

    assert_eq!(
        state.borrow().display_writes,
        vec![
            ("gpu_display".to_owned(), DisplayTarget::Sleep),
            (
                "gpu_display".to_owned(),
                DisplayTarget::Awake {
                    brightness_percent: 75,
                },
            ),
        ]
    );
    let status = engine.status(START + SECOND);
    let output = status.outputs.get("gpu_display").unwrap();
    assert_eq!(output.kind, OutputKind::Display);
    assert_eq!(output.target, Some(Json::number(75)));
}

#[test]
fn display_override_temporarily_replaces_the_schedule() {
    let (mut engine, state) = test_engine(display_config(), None);
    engine
        .set_display_override("gpu_display", false, 100 * MILLISECOND, START)
        .unwrap();

    assert!(!engine.tick(START, 12, 0, &blends()));
    assert!(!engine.tick(START + SECOND, 12, 0, &blends()));

    assert_eq!(
        state.borrow().display_writes,
        vec![
            ("gpu_display".to_owned(), DisplayTarget::Sleep),
            (
                "gpu_display".to_owned(),
                DisplayTarget::Awake {
                    brightness_percent: 75,
                },
            ),
        ]
    );
}

#[test]
fn display_failures_do_not_stop_fan_control() {
    let (mut engine, state) = test_engine(display_config(), None);
    state.borrow_mut().display_error = Some("display unavailable".to_owned());

    for seconds in 0..10 {
        assert!(!tick(&mut engine, START + seconds * SECOND));
    }

    let status = engine.status(START + 10 * SECOND);
    assert_eq!(status.health, Health::Degraded);
    assert_eq!(
        status.outputs.get("gpu_display").unwrap().health,
        Health::Degraded
    );
}

#[test]
fn nvidia_fan_failures_degrade_without_stopping_other_control() {
    let (mut engine, state) = test_engine(nvidia_output_config(), Some(50.0));
    {
        let mut state = state.borrow_mut();
        state.fan_error = Some("NVIDIA helper is quarantined".to_owned());
        state.fan_failure_isolated = true;
    }

    for seconds in 0..10 {
        assert!(!tick(&mut engine, START + seconds * SECOND));
    }

    let status = engine.status(START + 10 * SECOND);
    assert_eq!(status.health, Health::Degraded);
    let output = status.outputs.get("gpu_fans").unwrap();
    assert_eq!(output.health, Health::Degraded);
    assert!(output
        .error
        .as_deref()
        .is_some_and(|error| error.contains("quarantined")));
}

#[test]
fn non_quarantined_nvidia_fan_failures_reach_the_failure_limit() {
    let (mut engine, state) = test_engine(nvidia_output_config(), Some(50.0));
    state.borrow_mut().fan_error = Some("NVML permission denied".to_owned());

    assert!(!tick(&mut engine, START));
    assert!(!tick(&mut engine, START + SECOND));
    assert!(tick(&mut engine, START + 2 * SECOND));
}

#[test]
fn nvidia_fan_targets_are_not_rewritten_when_unchanged() {
    let (mut engine, state) = test_engine(nvidia_output_config(), Some(50.0));

    for seconds in 0..10 {
        assert!(!tick(&mut engine, START + seconds * SECOND));
    }

    assert_eq!(state.borrow().fan_writes.len(), 1);
}

#[test]
fn nvidia_quarantine_degrades_an_unchanged_fan_output_without_rewriting() {
    let (mut engine, state) = test_engine(nvidia_output_config(), Some(50.0));
    assert!(!tick(&mut engine, START));
    state.borrow_mut().fan_health_error = Some("NVIDIA helper is quarantined".to_owned());

    assert!(!tick(&mut engine, START + SECOND));

    assert_eq!(state.borrow().fan_writes.len(), 1);
    let status = engine.status(START + SECOND);
    let output = status.outputs.get("gpu_fans").unwrap();
    assert_eq!(output.health, Health::Degraded);
    assert!(output
        .error
        .as_deref()
        .is_some_and(|error| error.contains("quarantined")));
}

#[test]
fn nvidia_fan_retries_after_a_transient_error() {
    let (mut engine, state) = test_engine(nvidia_output_config(), Some(50.0));
    assert!(!tick(&mut engine, START));

    {
        let mut state = state.borrow_mut();
        state.sensor = Some(60.0);
        state.fan_error = Some("temporary NVML failure".to_owned());
    }
    assert!(!tick(&mut engine, START + SECOND));

    {
        let mut state = state.borrow_mut();
        state.sensor = Some(50.0);
        state.fan_error = None;
    }
    assert!(!tick(&mut engine, START + 2 * SECOND));

    assert_eq!(
        state.borrow().fan_writes,
        writes(&[("gpu_fans", 50), ("gpu_fans", 50)])
    );
    let status = engine.status(START + 2 * SECOND);
    let output = status.outputs.get("gpu_fans").unwrap();
    assert_eq!(output.health, Health::Healthy);
    assert_eq!(output.error, None);
}

#[test]
fn repeated_corsair_fan_failures_remain_fatal() {
    let (mut engine, state) = test_engine(engine_config(), Some(50.0));
    state.borrow_mut().fan_error = Some("fan controller unavailable".to_owned());

    assert!(!tick(&mut engine, START));
    assert!(!tick(&mut engine, START + SECOND));
    assert!(tick(&mut engine, START + 2 * SECOND));
}

#[test]
fn reports_fail_safe_even_when_the_target_does_not_change() {
    let mut config = engine_config();
    config.curves.insert("main".to_owned(), main_curve(100));
    let (mut engine, state) = test_engine(config, Some(60.0));
    assert!(!tick(&mut engine, START));
    state.borrow_mut().sensor = None;

    assert!(!tick(&mut engine, START + 3 * SECOND));

    assert_eq!(state.borrow().fan_writes.len(), 1);
    assert_eq!(
        engine.status(START + 3 * SECOND).health,
        Health::FailSafe
    );
}

#[test]
fn the_status_lists_overrides_until_they_expire() {
    let (mut engine, _state) = test_engine(engine_config(), Some(50.0));
    engine
        .set_fan_override("case", 75, 100 * MILLISECOND, false, START)
        .unwrap();

    let status = engine.status(START + 60 * MILLISECOND);
    assert_eq!(status.overrides.len(), 1);
    assert_eq!(status.overrides[0].output, "case");
    assert_eq!(status.overrides[0].remaining_ms, 40);
    assert!(engine.status(START + 100 * MILLISECOND).overrides.is_empty());
    assert!(engine.status(START + 2 * SECOND).overrides.is_empty());
}

#[test]
fn the_status_lists_errors_by_sensor_and_output() {
    let (mut engine, state) = test_engine(engine_config(), Some(50.0));
    state.borrow_mut().fan_error = Some("fan controller unavailable".to_owned());
    assert!(!tick(&mut engine, START));
    let errors = engine.status(START).driver_errors;
    assert_eq!(errors.len(), 1);
    assert_eq!(
        errors.get("case").map(String::as_str),
        Some("driver error: fan controller unavailable")
    );

    state.borrow_mut().fan_error = None;
    state.borrow_mut().sensor = None;
    assert!(!tick(&mut engine, START + 2 * SECOND));
    let status = engine.status(START + 2 * SECOND);
    assert_eq!(status.driver_errors.len(), 1);
    assert_eq!(
        status.driver_errors.get("cpu"),
        status.sensors.get("cpu").unwrap().error.as_ref()
    );
}

#[test]
fn fan_override_requires_confirmation_below_the_configured_minimum() {
    let (mut engine, _state) = test_engine(engine_config(), Some(50.0));

    let error = engine
        .set_fan_override("case", 20, 10 * SECOND, false, START)
        .unwrap_err();
    assert!(error.to_text().contains("--allow-below-minimum"));
    engine
        .set_fan_override("case", 20, 10 * SECOND, true, START)
        .unwrap();
}

#[test]
fn preserves_a_hardware_warning_between_refresh_writes() {
    let (mut engine, state) = test_engine(engine_config(), Some(50.0));
    state.borrow_mut().fan_warning = Some("expected 13 fans; enumerated 12".to_owned());

    assert!(!tick(&mut engine, START));
    assert!(!tick(&mut engine, START + 2 * SECOND));

    assert_eq!(state.borrow().fan_writes.len(), 1);
    let status = engine.status(START + 2 * SECOND);
    assert_eq!(status.health, Health::Degraded);
    let output = status.outputs.get("case").unwrap();
    assert_eq!(output.health, Health::Degraded);
    assert_eq!(
        output.error.as_deref(),
        Some("expected 13 fans; enumerated 12")
    );
}

#[test]
fn shutdown_restores_hardware_policy() {
    let (mut engine, state) = test_engine(engine_config(), Some(50.0));

    engine.shutdown();

    assert_eq!(state.borrow().shutdowns, 1);
}

#[test]
fn releases_all_outputs_that_share_a_device() {
    let (mut engine, state) = test_engine(grouped_output_config(), Some(50.0));

    let released = engine.release_outputs(Some("case")).unwrap();

    assert_eq!(released, vec!["case".to_owned(), "pump".to_owned()]);
    assert_eq!(state.borrow().releases, vec!["case".to_owned()]);
    let status = engine.status(START);
    assert_eq!(status.outputs.get("case").unwrap().health, Health::Released);
    assert_eq!(status.outputs.get("pump").unwrap().health, Health::Released);
}

#[test]
fn reload_preflights_then_releases_then_commits() {
    let (mut engine, state) = test_engine(engine_config(), Some(50.0));

    engine.reload(engine_config()).unwrap();

    let state = state.borrow();
    assert_eq!(state.preflights, 2);
    assert_eq!(state.releases, vec!["case".to_owned()]);
    assert_eq!(state.commits, 2);
}

fn two_profiles() -> Config {
    let mut config = engine_config();
    config.profiles.insert(
        "quiet".to_owned(),
        profile(vec![("case", assignment(&["cpu"], Some("main"), None))]),
    );
    config
}

#[test]
fn reload_keeps_an_available_profile_and_falls_back_when_it_is_removed() {
    let (mut engine, _state) = test_engine(two_profiles(), Some(50.0));
    engine.set_profile("quiet").unwrap();

    engine.reload(two_profiles()).unwrap();
    assert_eq!(engine.active_profile(), "quiet");

    engine.reload(engine_config()).unwrap();
    assert_eq!(engine.active_profile(), "balanced");
}

#[test]
fn a_failed_reload_keeps_the_configuration() {
    let (mut engine, state) = test_engine(two_profiles(), Some(50.0));
    state.borrow_mut().preflight_error = Some("hub is missing".to_owned());
    assert_eq!(
        engine.reload(engine_config()).unwrap_err(),
        FeatherError::Driver("hub is missing".to_owned())
    );
    assert_eq!(engine.profiles(), vec!["balanced", "quiet"]);
    assert!(state.borrow().releases.is_empty());

    state.borrow_mut().preflight_error = None;
    state.borrow_mut().release_error = Some("hub is busy".to_owned());
    assert_eq!(
        engine.reload(engine_config()).unwrap_err(),
        FeatherError::Driver("hub is busy".to_owned())
    );
    assert_eq!(engine.profiles(), vec!["balanced", "quiet"]);
    assert_eq!(engine.status(START).config_generation, 1);
}

#[test]
fn an_unknown_initial_profile_is_refused() {
    let hardware = FakeHardware {
        state: Rc::new(RefCell::new(FakeState::default())),
    };
    let result = Engine::new(engine_config(), hardware, Some("loud".to_owned()), START);
    assert!(matches!(
        result,
        Err(FeatherError::Config(message)) if message == "initial profile 'loud' does not exist"
    ));
}

#[test]
fn fans_follow_the_curve_with_hysteresis_and_a_minimum() {
    let mut config = engine_config();
    config.curves.insert(
        "main".to_owned(),
        FanCurve {
            points: vec![
                FanPoint {
                    temp: celsius(20.0),
                    percent: 10,
                },
                FanPoint {
                    temp: celsius(60.0),
                    percent: 60,
                },
            ],
        },
    );
    let (mut engine, state) = test_engine(config, Some(10.0));
    assert!(!tick(&mut engine, START));
    state.borrow_mut().sensor = Some(36.8);
    assert!(!tick(&mut engine, START + SECOND));
    state.borrow_mut().sensor = Some(40.0);
    assert!(!tick(&mut engine, START + 2 * SECOND));
    assert_eq!(
        state.borrow().fan_writes,
        writes(&[("case", 30), ("case", 35)])
    );
}

#[test]
fn a_stale_reading_sends_the_fan_to_its_fail_safe_duty() {
    let (mut engine, state) = test_engine(engine_config(), Some(50.0));
    assert!(!tick(&mut engine, START));
    state.borrow_mut().sensor = None;
    assert!(!tick(&mut engine, START + 2 * SECOND));
    assert_eq!(state.borrow().fan_writes, writes(&[("case", 50)]));
    assert!(!tick(&mut engine, START + 3 * SECOND));
    assert_eq!(
        state.borrow().fan_writes,
        writes(&[("case", 50), ("case", 100)])
    );
}

#[test]
fn implausible_temperatures_are_sensor_errors() {
    let (mut engine, _state) = test_engine(engine_config(), Some(151.0));
    assert!(!tick(&mut engine, START));
    let status = engine.status(START);
    let sensor = status.sensors.get("cpu").unwrap();
    assert_eq!(sensor.health, Health::Unavailable);
    assert_eq!(sensor.error.as_deref(), Some("invalid temperature 151"));
    assert_eq!(sensor.driver, "linux-hwmon");
}

#[test]
fn lights_follow_their_curve_and_turn_off_by_schedule_and_without_sensor() {
    let (mut engine, state) = test_engine(light_config(), Some(50.0));
    assert!(!engine.tick(START, 12, 0, &blends()));
    assert!(!engine.tick(START + SECOND, 23, 0, &blends()));
    state.borrow_mut().sensor = None;
    assert!(!engine.tick(START + 5 * SECOND, 12, 0, &blends()));
    assert_eq!(
        state.borrow().rgb_writes,
        vec![
            ("light".to_owned(), [100, 0, 50]),
            ("light".to_owned(), [0, 0, 0]),
        ]
    );
    assert_eq!(engine.status(START + 5 * SECOND).health, Health::FailSafe);
    engine
        .set_rgb_override("light", [1, 2, 3], SECOND, START + 5 * SECOND)
        .unwrap();
    assert!(!engine.tick(START + 5 * SECOND, 23, 0, &blends()));
    assert_eq!(
        state.borrow().rgb_writes.last().unwrap(),
        &("light".to_owned(), [1, 2, 3])
    );
}

#[test]
fn refused_overrides_name_their_reason() {
    let (mut engine, _state) = test_engine(engine_config(), Some(50.0));
    let refused = |result: Result<()>| match result {
        Err(FeatherError::Daemon(message)) => message,
        other => panic!("{other:?}"),
    };
    assert_eq!(
        refused(engine.set_fan_override("case", 50, 0, false, START)),
        "override duration must be greater than zero"
    );
    assert_eq!(
        refused(engine.set_fan_override("case", 101, SECOND, false, START)),
        "fan override percentage must be at most 100"
    );
    assert_eq!(
        refused(engine.set_fan_override("pump", 50, SECOND, false, START)),
        "unknown output 'pump'"
    );
    assert_eq!(
        refused(engine.set_fan_override("case", 29, SECOND, false, START)),
        "fan override 29% is below output 'case' minimum 30%; use --allow-below-minimum to confirm"
    );
    assert_eq!(
        refused(engine.set_rgb_override("case", [0, 0, 0], SECOND, START)),
        "output 'case' is not RGB"
    );
    assert_eq!(
        refused(engine.set_display_override("case", true, SECOND, START)),
        "output 'case' is not a display"
    );
    assert_eq!(
        refused(engine.set_fan_override("case", 50, u128::MAX, false, START)),
        "override duration is too large"
    );
    engine.release_outputs(None).unwrap();
    assert_eq!(
        refused(engine.set_fan_override("case", 50, SECOND, false, START)),
        "output 'case' is not controlled by the active profile"
    );
    assert_eq!(
        refused(engine.clear_overrides(Some("case"))),
        "output 'case' has no active override"
    );
}

#[test]
fn clearing_an_override_returns_to_the_curve() {
    let (mut engine, state) = test_engine(engine_config(), Some(50.0));
    engine
        .set_fan_override("case", 75, 60 * SECOND, false, START)
        .unwrap();
    assert!(!tick(&mut engine, START));
    assert_eq!(engine.status(START).overrides[0].remaining_ms, 60_000);
    engine.clear_overrides(Some("case")).unwrap();
    assert!(!tick(&mut engine, START + SECOND));
    assert_eq!(
        state.borrow().fan_writes,
        writes(&[("case", 75), ("case", 50)])
    );
}

#[test]
fn a_resume_undoes_a_release() {
    let (mut engine, state) = test_engine(grouped_output_config(), Some(50.0));
    engine.release_outputs(Some("pump")).unwrap();
    assert!(!tick(&mut engine, START));
    assert!(state.borrow().fan_writes.is_empty());
    assert_eq!(engine.resume_outputs(Some("case")).unwrap(), vec!["case", "pump"]);
    assert!(!tick(&mut engine, START + SECOND));
    assert_eq!(
        state.borrow().fan_writes,
        writes(&[("case", 50), ("pump", 50)])
    );
    assert_eq!(
        engine.resume_outputs(Some("none")).unwrap_err(),
        FeatherError::Daemon("unknown output 'none'".to_owned())
    );
}

#[test]
fn a_change_of_profile_gives_back_what_it_no_longer_controls() {
    let mut config = grouped_output_config();
    config.devices.insert(
        "gpu0".to_owned(),
        DeviceConfig::NvidiaNvml {
            uuid: "GPU-test".to_owned(),
        },
    );
    config
        .outputs
        .insert("gpu_fans".to_owned(), fan("gpu0", vec![], 2, SECOND));
    config.profiles.insert(
        "gpu".to_owned(),
        profile(vec![(
            "gpu_fans",
            assignment(&["cpu"], Some("main"), None),
        )]),
    );
    let (mut engine, state) = test_engine(config, Some(50.0));
    engine.set_profile("gpu").unwrap();
    assert_eq!(state.borrow().releases, vec!["case".to_owned()]);
    assert_eq!(
        engine.set_profile("loud").unwrap_err(),
        FeatherError::Daemon("unknown profile 'loud'".to_owned())
    );
    assert_eq!(engine.active_profile(), "gpu");
    state.borrow_mut().release_error = Some("busy".to_owned());
    assert!(engine.set_profile("balanced").is_err());
    assert_eq!(engine.active_profile(), "gpu");
}

#[test]
fn devices_fall_back_on_those_known_before() {
    let (mut engine, state) = test_engine(engine_config(), Some(50.0));
    state.borrow_mut().discovery = Some(Err("bus error".to_owned()));
    assert_eq!(
        engine.devices().unwrap_err(),
        FeatherError::Driver("bus error".to_owned())
    );
    state.borrow_mut().discovery = Some(Ok("one".to_owned()));
    assert_eq!(engine.devices().unwrap()[0].id, "one");
    state.borrow_mut().discovery = Some(Err("bus error".to_owned()));
    assert_eq!(engine.devices().unwrap()[0].id, "one");
}

#[test]
fn the_tick_interval_is_bounded_by_polling_and_refresh() {
    let (engine, _state) = test_engine(nvidia_output_config(), None);
    assert_eq!(engine.tick_interval(), SECOND);
    let (engine, _state) = test_engine(display_config(), None);
    assert_eq!(engine.tick_interval(), SECOND);
}

#[test]
fn the_status_reports_the_version_and_the_uptime() {
    let (mut engine, _state) = test_engine(engine_config(), Some(50.0));
    assert!(!tick(&mut engine, START));
    let status = engine.status(START + 7 * SECOND + 5 * MILLISECOND);
    assert_eq!(status.version, "0.1.2");
    assert_eq!(status.schema_version, 3);
    assert_eq!(status.uptime_seconds, 7);
    assert_eq!(status.active_profile, "balanced");
    let sensor = status.sensors.get("cpu").unwrap();
    assert_eq!(sensor.reading.unwrap().age_ms, 7_005);
    assert_eq!(status.health, Health::Degraded);
    assert_eq!(status.outputs.get("case").unwrap().target, Some(Json::number(50)));
}
