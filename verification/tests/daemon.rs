use feather::config::{
    Aggregation, AssignmentConfig, Config, DaemonConfig, DeviceConfig, FanCurve, FanPoint,
    OutputConfig, ProfileConfig, SensorConfig,
};
use feather::celsius::Celsius;
use feather::daemon::{
    check_state, check_state_size, exit_result, loaded_profile, queue_error, socket_decision,
    startup_profile, state_to_save, CommandReply, DaemonState, PersistedState, Progress,
    QueueFault, Schedule, SocketPath, StateFile, Watchdog, MAX_STATE_BYTES,
};
use feather::drivers::{DisplayTarget, FanWrite, Hardware, Sample};
use feather::engine::Engine;
use feather::error::{FeatherError, Result};
use feather::ipc::{respond, Command, ErrorCode};
use feather::json::{object1, Json};
use feather::names::NameMap;
use feather::policy::Blends;
use feather::types::DeviceDescriptor;

const SECOND: u128 = 1_000_000_000;

struct FakeHardware {
    fan_writes: Vec<u8>,
    broken: bool,
    shutdowns: usize,
}

impl Hardware for FakeHardware {
    fn preflight(&mut self, _config: &Config) -> Result<Vec<DeviceDescriptor>> {
        Ok(Vec::new())
    }

    fn commit_config(&mut self, _config: &Config) {}

    fn discover(&mut self) -> Result<Vec<DeviceDescriptor>> {
        Ok(Vec::new())
    }

    fn read_sensor(&mut self, _alias: &str, _config: &SensorConfig) -> Result<Sample> {
        Ok(Sample {
            celsius: Celsius {
                bits: 50.0_f64.to_bits(),
            },
            text: "50".to_owned(),
        })
    }

    fn set_fan(&mut self, _alias: &str, _config: &OutputConfig, percent: u8) -> Result<FanWrite> {
        if self.broken {
            return Err(FeatherError::Driver("broken".to_owned()));
        }
        self.fan_writes.push(percent);
        Ok(FanWrite::healthy(object1(
            "percent",
            Json::number(u64::from(percent)),
        )))
    }

    fn fan_needs_periodic_refresh(&self, _config: &OutputConfig) -> bool {
        true
    }

    fn check_fan_health(&self, _config: &OutputConfig) -> Result<()> {
        Ok(())
    }

    fn fan_failure_is_isolated(&self, _config: &OutputConfig) -> bool {
        false
    }

    fn set_rgb(&mut self, _alias: &str, _config: &OutputConfig, rgb: [u8; 3]) -> Result<Json> {
        Ok(object1("rgb", Json::rgb(rgb)))
    }

    fn set_display(
        &mut self,
        _alias: &str,
        _config: &OutputConfig,
        target: DisplayTarget,
    ) -> Result<Json> {
        Ok(object1("target", Json::string(&format!("{target:?}"))))
    }

    fn release(&mut self, _alias: &str, _config: &OutputConfig) -> Result<()> {
        Ok(())
    }

    fn debug_hid_dump(&mut self, _device_alias: &str) -> Result<String> {
        Ok("fake HID data".to_owned())
    }

    fn shutdown(&mut self) {
        self.shutdowns += 1;
    }
}

fn profile() -> ProfileConfig {
    let mut profile = ProfileConfig::default();
    profile.outputs.insert(
        "case".to_owned(),
        AssignmentConfig {
            sources: vec!["cpu".to_owned()],
            aggregate: Aggregation::Max,
            curve: Some("main".to_owned()),
            color_curve: None,
            off_schedule: None,
        },
    );
    profile
}

fn config(profiles: &[&str]) -> Config {
    let mut config = Config {
        schema_version: 1,
        default_profile: "balanced".to_owned(),
        daemon: DaemonConfig {
            poll_interval: SECOND / 50,
            stale_after: SECOND,
            socket: "/tmp/file.sock".to_owned(),
            state_file: "/tmp/file.json".to_owned(),
            failure_limit: 3,
            ..DaemonConfig::default()
        },
        devices: NameMap::new(),
        sensors: NameMap::new(),
        curves: NameMap::new(),
        color_curves: NameMap::new(),
        schedules: NameMap::new(),
        outputs: NameMap::new(),
        profiles: NameMap::new(),
    };
    config.devices.insert(
        "hub".to_owned(),
        DeviceConfig::CorsairIcueLink {
            vendor_id: 0x1b1c,
            product_id: 0x0c3f,
            unique_id: Some("TEST".to_owned()),
            interface: 0,
            expected_fan_count: None,
        },
    );
    config.sensors.insert(
        "cpu".to_owned(),
        SensorConfig::LinuxHwmon {
            device: "test-device".to_owned(),
            chip: "test-chip".to_owned(),
            label: "test-label".to_owned(),
        },
    );
    let point = |temp: f64, percent: u8| FanPoint {
        temp: Celsius {
            bits: temp.to_bits(),
        },
        percent,
    };
    config.curves.insert(
        "main".to_owned(),
        FanCurve {
            points: vec![point(40.0, 40), point(60.0, 60)],
        },
    );
    config.outputs.insert(
        "case".to_owned(),
        OutputConfig::Fan {
            device: "hub".to_owned(),
            channels: vec![0],
            minimum_percent: 30,
            fail_safe_percent: 100,
            hysteresis_percent: 1,
            refresh_interval: SECOND / 50,
        },
    );
    for name in profiles {
        config.profiles.insert(name.to_string(), profile());
    }
    config.validate().unwrap();
    config
}

fn daemon() -> DaemonState<FakeHardware> {
    let hardware = FakeHardware {
        fan_writes: Vec::new(),
        broken: false,
        shutdowns: 0,
    };
    DaemonState {
        engine: Engine::new(config(&["balanced", "quiet"]), hardware, None, SECOND).unwrap(),
        socket_path: "/run/test.sock".to_owned(),
        state_path: "/var/test.json".to_owned(),
        persisted_profile: None,
    }
}

fn done(progress: Progress) -> Result<CommandReply> {
    match progress {
        Progress::Done(result) => result,
        other => panic!("{other:?}"),
    }
}

fn data(progress: Progress) -> Json {
    match done(progress).unwrap() {
        CommandReply::Data(data) => data,
        other => panic!("{other:?}"),
    }
}

fn text(value: &Json, name: &str) -> String {
    match value.get(name) {
        Some(Json::Text(text)) => text.clone(),
        other => panic!("{other:?}"),
    }
}

#[test]
fn commands_are_carried_out_in_turn() {
    let mut daemon = daemon();
    match done(daemon.handle_command(Command::Status, 2 * SECOND)).unwrap() {
        CommandReply::Status(status) => assert_eq!(status.active_profile, "balanced"),
        other => panic!("{other:?}"),
    }
    let profiles = data(daemon.handle_command(Command::ProfileList, 2 * SECOND));
    assert_eq!(text(&profiles, "active_profile"), "balanced");
    assert_eq!(profiles.get("persisted_profile"), Some(&Json::Null));

    let set = Command::ProfileSet {
        profile: "quiet".to_owned(),
        persist: true,
    };
    let profile = match daemon.handle_command(set, 2 * SECOND) {
        Progress::SaveProfile(profile) => profile,
        other => panic!("{other:?}"),
    };
    assert_eq!(profile, "quiet");
    daemon.finish_profile(profile, Ok(())).unwrap();
    assert_eq!(daemon.persisted_profile.as_deref(), Some("quiet"));
    assert_eq!(daemon.engine.active_profile(), "quiet");

    let low = |allow_below_minimum: bool| Command::OverrideFan {
        output: "case".to_owned(),
        percent: 20,
        duration_ms: 1_000,
        allow_below_minimum,
    };
    let error = done(daemon.handle_command(low(false), 2 * SECOND)).unwrap_err();
    assert!(error.to_text().contains("--allow-below-minimum"));
    let accepted = data(daemon.handle_command(low(true), 2 * SECOND));
    assert_eq!(accepted.get("expires_in_ms"), Some(&Json::number(1_000)));

    let cleared = data(daemon.handle_command(Command::OverrideClear { output: None }, 2 * SECOND));
    assert_eq!(text(&cleared, "cleared"), "all");
    let released = data(daemon.handle_command(
        Command::OutputRelease {
            output: Some("case".to_owned()),
        },
        2 * SECOND,
    ));
    assert_eq!(
        released.get("released"),
        Some(&Json::List(vec![Json::string("case")]))
    );
    let resumed = data(daemon.handle_command(
        Command::OutputResume { output: None },
        2 * SECOND,
    ));
    assert_eq!(
        resumed.get("resumed"),
        Some(&Json::List(vec![Json::string("case")]))
    );
    let dump = data(daemon.handle_command(
        Command::DebugHidDump {
            device: "hub".to_owned(),
        },
        2 * SECOND,
    ));
    assert_eq!(text(&dump, "dump"), "fake HID data");
    assert!(matches!(
        done(daemon.handle_command(Command::Devices, 2 * SECOND)),
        Ok(CommandReply::Devices(_))
    ));
}

#[test]
fn a_dump_of_an_unknown_device_is_an_unknown_resource() {
    let mut daemon = daemon();
    let error = done(daemon.handle_command(
        Command::DebugHidDump {
            device: "nope".to_owned(),
        },
        2 * SECOND,
    ))
    .unwrap_err();
    assert_eq!(error, FeatherError::Daemon("unknown device 'nope'".to_owned()));
    let response = respond("r".to_owned(), Err(error));
    assert_eq!(response.error.unwrap().code, ErrorCode::UnknownResource);
}

#[test]
fn clearing_tells_unknown_outputs_from_those_without_an_override() {
    let mut daemon = daemon();
    for (output, message) in [
        ("case", "output 'case' has no active override"),
        ("nope", "unknown output 'nope'"),
    ] {
        let result = done(daemon.handle_command(
            Command::OverrideClear {
                output: Some(output.to_owned()),
            },
            2 * SECOND,
        ));
        assert_eq!(result.unwrap_err(), FeatherError::Daemon(message.to_owned()));
    }
}

#[test]
fn a_saved_profile_is_active_after_a_restart_and_the_end_is_clean() {
    let mut first = daemon();
    let progress = first.handle_command(
        Command::ProfileSet {
            profile: "quiet".to_owned(),
            persist: true,
        },
        2 * SECOND,
    );
    let Progress::SaveProfile(profile) = progress else {
        panic!("nothing to save");
    };
    let saved = check_state("/var/test.json", state_to_save(&profile)).unwrap();
    first.engine.shutdown();

    let config = config(&["balanced", "quiet"]);
    let startup = startup_profile(&config, Ok(Some(saved)));
    let hardware = FakeHardware {
        fan_writes: Vec::new(),
        broken: false,
        shutdowns: 0,
    };
    let mut second = DaemonState {
        engine: Engine::new(config, hardware, startup.profile, SECOND).unwrap(),
        socket_path: "/run/test.sock".to_owned(),
        state_path: "/var/test.json".to_owned(),
        persisted_profile: Some(profile),
    };
    let Ok(CommandReply::Status(status)) = done(second.handle_command(Command::Status, SECOND))
    else {
        panic!("no status");
    };
    assert_eq!(status.active_profile, "quiet");
    let _ = second.handle_command(Command::OutputRelease { output: None }, 2 * SECOND);
    assert_eq!(second.engine.hardware.shutdowns, 0);
    second.engine.shutdown();
    assert_eq!(second.engine.hardware.shutdowns, 1);
    assert!(exit_result(None, Ok(()), Ok(())).is_ok());
}

#[test]
fn a_profile_that_cannot_be_saved_stays_active() {
    let mut daemon = daemon();
    let error = daemon
        .finish_profile(
            "quiet".to_owned(),
            Err(FeatherError::Daemon("disk full".to_owned())),
        )
        .unwrap_err();
    assert_eq!(
        error,
        FeatherError::Daemon(
            "profile 'quiet' is active for this run, but could not be saved: \
             daemon error: disk full"
                .to_owned()
        )
    );
    assert_eq!(daemon.persisted_profile, None);
}

#[test]
fn a_reload_keeps_the_paths_and_drops_a_lost_saved_profile() {
    let mut daemon = daemon();
    daemon.persisted_profile = Some("quiet".to_owned());
    assert!(matches!(
        daemon.handle_command(Command::ConfigReload, 2 * SECOND),
        Progress::ReadConfiguration
    ));
    let (reply, remove) = daemon.finish_reload(Err(FeatherError::Config("bad".to_owned())));
    assert!(reply.is_err() && !remove);
    let (reply, remove) = daemon.finish_reload(Ok(config(&["balanced", "quiet"])));
    assert!(!remove);
    match reply.unwrap() {
        CommandReply::Data(data) => assert_eq!(data.get("generation"), Some(&Json::number(2))),
        other => panic!("{other:?}"),
    }
    assert_eq!(daemon.engine.config.daemon.socket, "/run/test.sock");
    assert_eq!(daemon.engine.config.daemon.state_file, "/var/test.json");
    let (_, remove) = daemon.finish_reload(Ok(config(&["balanced"])));
    assert!(remove);
    assert_eq!(daemon.persisted_profile, None);
}

fn blend_fan(left: FanPoint, right: FanPoint, _at: Celsius) -> u8 {
    (left.percent + right.percent) / 2
}

#[test]
fn the_failure_limit_shuts_the_hardware_down() {
    let mut daemon = daemon();
    let blends = Blends {
        fan: blend_fan,
        color: |left: feather::config::ColorPoint, _right, _at| left.rgb,
    };
    daemon.tick(2 * SECOND, 12, 0, &blends).unwrap();
    assert_eq!(daemon.engine.hardware.fan_writes, vec![50]);
    daemon.engine.hardware.broken = true;
    daemon.tick(3 * SECOND, 12, 0, &blends).unwrap();
    daemon.tick(4 * SECOND, 12, 0, &blends).unwrap();
    assert_eq!(
        daemon.tick(5 * SECOND, 12, 0, &blends).unwrap_err(),
        FeatherError::Daemon("hardware failure limit reached".to_owned())
    );
    assert_eq!(daemon.engine.hardware.shutdowns, 1);
}

#[test]
fn the_schedule_follows_the_interval() {
    let mut schedule = Schedule::new(10, 100);
    assert!(schedule.is_due(10));
    schedule.ticked(10);
    assert_eq!(schedule.remaining(30), 80);
    assert!(!schedule.is_due(109));
    schedule.adjust(30, 20);
    assert_eq!(schedule.remaining(30), 20);
    schedule.adjust(40, 500);
    assert_eq!(schedule.next_tick, 50);
    assert_eq!(schedule.remaining(60), 0);
}

#[test]
fn the_watchdog_notices_a_worker_that_stands_still() {
    let mut watchdog = Watchdog::new();
    assert!(watchdog.observe(0));
    assert!(!watchdog.observe(0));
    assert!(watchdog.observe(1));
}

#[test]
fn the_first_failure_of_the_end_is_reported() {
    let failed = |reason: &str| Err(FeatherError::Daemon(reason.to_owned()));
    let named = |reason: &str| FeatherError::Daemon(reason.to_owned());
    assert_eq!(
        exit_result(Some(failed("a")), failed("b"), failed("c")).unwrap_err(),
        named("a")
    );
    assert_eq!(
        exit_result(Some(Ok(())), failed("b"), failed("c")).unwrap_err(),
        named("b")
    );
    assert_eq!(exit_result(None, Ok(()), failed("c")).unwrap_err(), named("c"));
    assert!(exit_result(None, Ok(()), Ok(())).is_ok());
    assert_eq!(
        queue_error(QueueFault::Full),
        named("hardware command queue is full")
    );
    assert_eq!(
        queue_error(QueueFault::Disconnected),
        named("hardware worker is not running")
    );
}

#[test]
fn saved_profiles_are_read_back() {
    let saved = state_to_save("quiet");
    assert_eq!(check_state("/s", saved).unwrap(), "quiet");
    assert_eq!(
        check_state("/s", state_to_save("")).unwrap_err(),
        FeatherError::Daemon("state file /s has an empty profile name".to_owned())
    );
    let newer = PersistedState {
        schema_version: 2,
        active_profile: "quiet".to_owned(),
    };
    assert_eq!(
        check_state("/s", newer).unwrap_err(),
        FeatherError::Daemon("state file /s uses schema 2, expected 1".to_owned())
    );
    assert!(check_state_size("/s", MAX_STATE_BYTES).is_ok());
    assert_eq!(
        check_state_size("/s", MAX_STATE_BYTES + 1).unwrap_err(),
        FeatherError::Daemon("state file /s exceeds 65536 bytes".to_owned())
    );
}

#[test]
fn the_startup_profile_has_to_exist() {
    let config = config(&["balanced", "quiet"]);
    let startup = startup_profile(&config, Ok(Some("quiet".to_owned())));
    assert_eq!(startup.profile.as_deref(), Some("quiet"));
    assert!(!startup.remove);
    let startup = startup_profile(&config, Ok(Some("loud".to_owned())));
    assert!(startup.profile.is_none() && startup.remove);
    let startup = startup_profile(&config, Err(FeatherError::Daemon("x".to_owned())));
    assert!(startup.profile.is_none() && !startup.remove);
}

#[test]
fn only_stale_sockets_are_removed() {
    let decide = |found: SocketPath| socket_decision("/run/x", &found);
    assert_eq!(decide(SocketPath::Absent), Ok(false));
    assert_eq!(decide(SocketPath::Stale), Ok(true));
    let refused = |found: SocketPath| decide(found).unwrap_err().to_text();
    assert!(refused(SocketPath::Live).contains("already in use"));
    assert!(refused(SocketPath::Occupied).contains("refusing to replace"));
    assert_eq!(
        refused(SocketPath::Unverified("denied".to_owned())),
        "daemon error: could not verify existing socket /run/x: denied"
    );
    assert_eq!(
        refused(SocketPath::Unreadable("denied".to_owned())),
        "daemon error: could not inspect /run/x: denied"
    );
}

fn written(profile: &str) -> StateFile {
    StateFile::Read { bytes: 48, contents: Ok(state_to_save(profile)) }
}

#[test]
fn persisted_profile_uses_an_atomic_state_file() {
    assert_eq!(loaded_profile("state.json", written("quiet")).unwrap(), Some("quiet".into()));
    assert_eq!(loaded_profile("state.json", StateFile::Absent).unwrap(), None);
}

#[test]
fn state_files_that_cannot_be_used_are_errors() {
    let load = |found| loaded_profile("/s", found).unwrap_err();
    assert_eq!(
        load(StateFile::Unreadable("denied".to_owned())),
        FeatherError::Daemon("could not read /s: denied".to_owned())
    );
    assert_eq!(
        load(StateFile::Read { bytes: 3, contents: Err("expected value".to_owned()) }),
        FeatherError::Daemon("could not parse /s: expected value".to_owned())
    );
    let large = MAX_STATE_BYTES + 1;
    assert_eq!(
        load(StateFile::Read { bytes: large, contents: Err("expected value".to_owned()) }),
        FeatherError::Daemon("state file /s exceeds 65536 bytes".to_owned())
    );
    assert_eq!(
        load(StateFile::Read { bytes: large, contents: Ok(state_to_save("quiet")) }),
        FeatherError::Daemon("state file /s exceeds 65536 bytes".to_owned())
    );
    assert_eq!(
        load(written("")),
        FeatherError::Daemon("state file /s has an empty profile name".to_owned())
    );
    let newer = PersistedState { schema_version: 2, active_profile: "quiet".to_owned() };
    assert_eq!(
        load(StateFile::Read { bytes: 48, contents: Ok(newer) }),
        FeatherError::Daemon("state file /s uses schema 2, expected 1".to_owned())
    );
}
