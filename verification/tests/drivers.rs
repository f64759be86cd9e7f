use std::collections::VecDeque;

use feather::celsius::Celsius;
use feather::config::{Config, DaemonConfig, DeviceConfig, Nanos, OutputConfig, SensorConfig};
use feather::drivers::hub::HidInfo;
use feather::drivers::hwmon::{HwmonDirectory, HwmonFile, HwmonListing};
use feather::drivers::nvidia::{CallOutcome, HelperRequest, HelperResponse, HelperResult};
use feather::drivers::system::{Drivers, SystemHardware};
use feather::drivers::unsupported::{Unsupported, UnsupportedHardware};
use feather::drivers::wireview::{enumerate, enumerate_error, needs_ports, open_error, select_port};
use feather::drivers::wireview::{PortAction, PortEvent, PortStep, SerialPortInfo, UsbIdentity};
use feather::drivers::{
    combine_preflight, discover_devices, DeviceRouter, DisplayTarget, FanRoute, Hardware,
    ReleaseRoute, Sample, SensorRoute,
};
use feather::error::{FeatherError, Result};
use feather::json::Json;
use feather::names::NameMap;
use feather::types::DeviceDescriptor;

fn devices() -> NameMap<DeviceConfig> {
    let mut devices = NameMap::new();
    devices.insert(
        "hub0".to_owned(),
        DeviceConfig::CorsairIcueLink {
            vendor_id: 0x1b1c,
            product_id: 0x0c3f,
            unique_id: None,
            interface: 0,
            expected_fan_count: Some(6),
        },
    );
    devices.insert(
        "gpu0".to_owned(),
        DeviceConfig::NvidiaNvml {
            uuid: "GPU-1".to_owned(),
        },
    );
    devices.insert(
        "wireview0".to_owned(),
        DeviceConfig::WireViewProIi {
            serial: "ABC".to_owned(),
        },
    );
    devices
}

fn config() -> Config {
    Config {
        schema_version: 1,
        default_profile: "default".to_owned(),
        daemon: DaemonConfig::default(),
        devices: devices(),
        sensors: NameMap::new(),
        curves: NameMap::new(),
        color_curves: NameMap::new(),
        schedules: NameMap::new(),
        outputs: NameMap::new(),
        profiles: NameMap::new(),
    }
}

fn router() -> DeviceRouter {
    let mut router = DeviceRouter::new();
    router.commit_config(&config());
    router
}

fn fan(device: &str) -> OutputConfig {
    OutputConfig::Fan {
        device: device.to_owned(),
        channels: vec![1, 2],
        minimum_percent: 20,
        fail_safe_percent: 100,
        hysteresis_percent: 2,
        refresh_interval: 2_000_000_000,
    }
}

fn rgb(device: &str) -> OutputConfig {
    OutputConfig::Rgb {
        device: device.to_owned(),
        led_count: 34,
    }
}

fn display(device: &str) -> OutputConfig {
    OutputConfig::Display {
        device: device.to_owned(),
        brightness_percent: 60,
    }
}

fn driver_error<T>(message: &str) -> Result<T> {
    Err(FeatherError::Driver(message.to_owned()))
}

fn failure<T>(result: Result<T>) -> String {
    match result {
        Ok(_) => panic!("the operation should have failed"),
        Err(FeatherError::Driver(message)) => message,
        Err(error) => panic!("unexpected error {error:?}"),
    }
}

fn found(id: &str, alias: Option<&str>) -> DeviceDescriptor {
    let mut details = NameMap::new();
    if let Some(alias) = alias {
        details.insert("alias".to_owned(), alias.to_owned());
    }
    DeviceDescriptor {
        id: id.to_owned(),
        driver: "test".to_owned(),
        name: id.to_owned(),
        details,
    }
}

#[test]
fn fan_writes_go_to_hubs_and_gpus() {
    let router = router();
    let output = fan("hub0");
    match router.route_fan("case", &output).unwrap() {
        FanRoute::Corsair {
            device,
            config,
            channels,
            expected_fan_count,
        } => {
            assert_eq!(device, "hub0");
            assert!(matches!(config, DeviceConfig::CorsairIcueLink { .. }));
            assert_eq!(*channels, [1, 2]);
            assert_eq!(expected_fan_count, Some(6));
        }
        other => panic!("unexpected route {other:?}"),
    }
    let output = fan("gpu0");
    match router.route_fan("gpu_fans", &output).unwrap() {
        FanRoute::Nvidia {
            device, channels, ..
        } => {
            assert_eq!(device, "gpu0");
            assert_eq!(*channels, [1, 2]);
        }
        other => panic!("unexpected route {other:?}"),
    }
    assert_eq!(
        failure(router.route_fan("x", &fan("wireview0"))),
        "WireView devices do not expose system fan control"
    );
    assert_eq!(
        failure(router.route_fan("lights", &rgb("hub0"))),
        "output 'lights' is not a fan"
    );
    assert_eq!(
        failure(router.route_fan("x", &fan("hub9"))),
        "device alias 'hub9' is not configured"
    );
}

#[test]
fn only_gpu_fans_skip_the_refresh_and_have_a_health() {
    let router = router();
    assert!(router.needs_periodic_refresh(&fan("hub0")));
    assert!(router.needs_periodic_refresh(&fan("hub9")));
    assert!(!router.needs_periodic_refresh(&fan("gpu0")));
    assert!(!router.needs_periodic_refresh(&rgb("hub0")));
    assert!(router.health_device(&fan("gpu0")).is_some());
    assert!(router.health_device(&fan("hub0")).is_none());
    assert!(router.health_device(&display("gpu0")).is_none());
}

#[test]
fn color_writes_go_to_hubs() {
    let router = router();
    let output = rgb("hub0");
    let (route, led_count) = router.route_rgb("lights", &output).unwrap();
    assert_eq!((route.device, led_count), ("hub0", 34));
    assert_eq!(
        failure(router.route_rgb("x", &rgb("gpu0"))),
        "NVIDIA devices do not expose RGB control"
    );
    assert_eq!(
        failure(router.route_rgb("x", &rgb("wireview0"))),
        "WireView devices do not expose RGB control"
    );
    assert_eq!(
        failure(router.route_rgb("case", &fan("hub0"))),
        "output 'case' is not RGB"
    );
}

#[test]
fn display_writes_go_to_wireviews() {
    let router = router();
    let output = display("wireview0");
    assert_eq!(
        router.route_display("screen", &output).unwrap().device,
        "wireview0"
    );
    assert_eq!(
        failure(router.route_display("x", &display("hub0"))),
        "device 'hub0' has no display output"
    );
    assert_eq!(
        failure(router.route_display("case", &fan("hub0"))),
        "output 'case' is not a display"
    );
}

#[test]
fn releases_go_to_the_device_of_an_output() {
    let router = router();
    let output = rgb("hub0");
    assert!(matches!(
        router.route_release(&output).unwrap(),
        ReleaseRoute::Corsair(_)
    ));
    let output = fan("gpu0");
    assert!(matches!(
        router.route_release(&output).unwrap(),
        ReleaseRoute::Nvidia(_)
    ));
    let output = display("wireview0");
    assert!(matches!(
        router.route_release(&output).unwrap(),
        ReleaseRoute::WireView(_, 60)
    ));
    assert_eq!(
        failure(router.route_release(&fan("wireview0"))),
        "device 'wireview0' has an incompatible output"
    );
}

#[test]
fn sensors_and_dumps_go_to_their_drivers() {
    let router = router();
    let sensor = SensorConfig::LinuxHwmon {
        device: "x".to_owned(),
        chip: "y".to_owned(),
        label: "z".to_owned(),
    };
    assert!(matches!(
        router.route_sensor(&sensor).unwrap(),
        SensorRoute::Hwmon
    ));
    let sensor = SensorConfig::NvidiaNvml {
        device: "gpu0".to_owned(),
    };
    match router.route_sensor(&sensor).unwrap() {
        SensorRoute::Nvidia(route) => assert_eq!(route.device, "gpu0"),
        other => panic!("unexpected route {other:?}"),
    }
    let sensor = SensorConfig::CorsairIcueLink {
        device: "hub0".to_owned(),
        channel: 3,
    };
    match router.route_sensor(&sensor).unwrap() {
        SensorRoute::Corsair(route, channel) => assert_eq!((route.device, channel), ("hub0", 3)),
        other => panic!("unexpected route {other:?}"),
    }
    let missing = SensorConfig::NvidiaNvml {
        device: "gpu9".to_owned(),
    };
    assert_eq!(
        failure(router.route_sensor(&missing)),
        "device alias 'gpu9' is not configured"
    );
    assert_eq!(router.route_dump("hub0").unwrap().device, "hub0");
    assert_eq!(
        failure(router.route_dump("gpu0")),
        "device 'gpu0' is not a HID device"
    );
    assert_eq!(
        failure(router.route_dump("wireview0")),
        "device 'wireview0' is not a HID device"
    );
}

#[test]
fn discovery_fails_only_where_nothing_was_found() {
    let devices = discover_devices(
        Ok(vec![found("hub", None)]),
        driver_error("no NVML"),
        Ok(vec![found("cpu", None)]),
        driver_error("no ports"),
    )
    .unwrap();
    let ids: Vec<&str> = devices.iter().map(|device| device.id.as_str()).collect();
    assert_eq!(ids, ["hub", "cpu"]);
    assert_eq!(
        failure(discover_devices(
            Ok(vec![]),
            driver_error("no NVML"),
            Ok(vec![]),
            driver_error("no ports"),
        )),
        "driver error: no NVML; driver error: no ports"
    );
    assert!(discover_devices(Ok(vec![]), Ok(vec![]), Ok(vec![]), Ok(vec![]))
        .unwrap()
        .is_empty());
}

#[test]
fn preflight_needs_every_configured_device_once() {
    let all = combine_preflight(
        &devices(),
        Ok(vec![found("hub", Some("hub0"))]),
        Ok(vec![found("GPU-1", Some("gpu0"))]),
        Ok(vec![found("screen", Some("wireview0"))]),
        Ok(()),
    )
    .unwrap();
    assert_eq!(all.len(), 3);
    assert_eq!(
        failure(combine_preflight(
            &devices(),
            Ok(vec![found("same", Some("hub0"))]),
            driver_error("no NVML"),
            Ok(vec![found("same", Some("wireview0"))]),
            Ok(()),
        )),
        "driver error: no NVML; device aliases 'hub0' and 'wireview0' select the same hardware; \
         configured device 'gpu0' was not found"
    );
    assert_eq!(
        failure(combine_preflight(
            &devices(),
            Ok(vec![]),
            driver_error("no NVML"),
            Ok(vec![]),
            driver_error("sensor 'cpu': missing"),
        )),
        "sensor 'cpu': missing"
    );
}

#[test]
fn wireview_ports_are_selected_by_serial() {
    assert!(needs_ports(&devices()));
    assert!(!needs_ports(&NameMap::new()));
    let ports = enumerate(&vec![
        SerialPortInfo {
            path: "/dev/ttyS0".to_owned(),
            usb: None,
        },
        SerialPortInfo {
            path: "/dev/ttyACM0".to_owned(),
            usb: Some(UsbIdentity {
                vid: 0x0483,
                pid: 0x5740,
                serial_number: Some(" abc ".to_owned()),
                manufacturer: None,
                product: None,
            }),
        },
    ]);
    assert_eq!(ports.len(), 1);
    assert_eq!(
        select_port("wireview0", &ports, "ABC").unwrap().path,
        "/dev/ttyACM0"
    );
    assert_eq!(
        failure(select_port("wireview0", &ports, "XYZ")),
        "WireView device 'wireview0' with serial 'XYZ' is unavailable"
    );
    assert_eq!(
        enumerate_error("denied"),
        FeatherError::Driver("could not enumerate serial ports: denied".to_owned())
    );
    assert_eq!(
        open_error("wireview0", "/dev/ttyACM0", "busy"),
        FeatherError::Driver(
            "could not open WireView device 'wireview0' at /dev/ttyACM0: busy".to_owned()
        )
    );
}

/// Answers from lists, and notes what it was asked.
struct Bench {
    notes: Vec<String>,
    transfers: VecDeque<Result<Vec<u8>>>,
    has_port: bool,
    port: VecDeque<PortEvent>,
    spawns: VecDeque<Result<()>>,
    answers: VecDeque<CallOutcome>,
}

impl Bench {
    fn note(&mut self, note: String) {
        self.notes.push(note);
    }
}

impl Drivers for Bench {
    fn list_hids(&mut self) -> Result<Vec<HidInfo>> {
        self.note("hids".to_owned());
        Ok(vec![HidInfo {
            vendor_id: 0x1b1c,
            product_id: 0x0c3f,
            interface_number: 0,
            serial_number: Some("HUB".to_owned()),
            product_string: None,
            path: "/dev/hidraw0".to_owned(),
        }])
    }

    fn list_ports(&mut self) -> Result<Vec<SerialPortInfo>> {
        self.note("ports".to_owned());
        if !self.has_port {
            return driver_error("no ports");
        }
        Ok(vec![SerialPortInfo {
            path: "/dev/ttyACM0".to_owned(),
            usb: Some(UsbIdentity {
                vid: 0x0483,
                pid: 0x5740,
                serial_number: Some("ABC".to_owned()),
                manufacturer: None,
                product: None,
            }),
        }])
    }

    fn list_hwmon(&mut self) -> HwmonListing {
        self.note("hwmon".to_owned());
        let mut directories = NameMap::new();
        directories.insert(
            "/h".to_owned(),
            HwmonDirectory {
                path: "/h".to_owned(),
                chip: Some("k10temp".to_owned()),
                device: "cpu".to_owned(),
                files: Ok(vec![HwmonFile {
                    name: "temp1_input".to_owned(),
                    path: "/h/temp1_input".to_owned(),
                    label: None,
                }]),
            },
        );
        HwmonListing {
            base: "/".to_owned(),
            directories: Ok(directories),
        }
    }

    fn read_input(&mut self, path: &str) -> Result<Sample> {
        self.note(format!("read {path}"));
        Ok(sample(40.0))
    }

    fn open_hub(&mut self, alias: &str, path: &str) -> Result<()> {
        self.note(format!("open {alias} at {path}"));
        Ok(())
    }

    /// Unless told otherwise, a hub accepts everything and reports 31.5 C on channel 0.
    fn transfer(&mut self, alias: &str, packet: &Vec<u8>) -> Result<Vec<u8>> {
        assert_eq!(packet.len(), 513);
        self.note(format!("send {alias}"));
        self.transfers
            .pop_front()
            .unwrap_or(Ok(vec![0, 0, 0, 0, 0x10, 0, 1, 0, 59, 1]))
    }

    fn close_hub(&mut self, alias: &str) {
        self.note(format!("close {alias}"));
    }

    fn open_port(&mut self, alias: &str, path: &str) -> Result<()> {
        self.note(format!("open {alias} at {path}"));
        Ok(())
    }

    fn perform(&mut self, action: PortAction) -> PortEvent {
        self.note(format!("{action:?}"));
        self.port.pop_front().unwrap()
    }

    fn close_port(&mut self) {
        self.note("close port".to_owned());
    }

    fn pause(&mut self, milliseconds: u64) {
        self.note(format!("pause {milliseconds}"));
    }

    fn spawn_helper(&mut self, label: &str) -> Result<()> {
        self.note(format!("spawn {label}"));
        self.spawns.pop_front().unwrap_or(Ok(()))
    }

    fn exchange(&mut self, label: &str, request: HelperRequest, timeout: Nanos) -> CallOutcome {
        self.note(format!("{label}: {request:?} within {timeout}"));
        self.answers.pop_front().unwrap()
    }

    fn drop_helper(&mut self, label: &str) {
        self.note(format!("drop {label}"));
    }

    fn describe(&mut self, result: &HelperResult) -> String {
        format!("{result:?}")
    }

    fn decimal(&mut self, celsius: Celsius) -> String {
        f64::from_bits(celsius.bits).to_string()
    }

    fn from_tenths(&mut self, tenths: i16) -> Sample {
        sample(f64::from(tenths) / 10.0)
    }
}

fn sample(value: f64) -> Sample {
    Sample {
        celsius: Celsius {
            bits: value.to_bits(),
        },
        text: value.to_string(),
    }
}

fn answered(result: HelperResult) -> CallOutcome {
    CallOutcome::Answered(HelperResponse::Success { result })
}

fn hardware() -> SystemHardware<Bench> {
    let mut hardware = SystemHardware::new(Bench {
        notes: vec![],
        transfers: VecDeque::new(),
        has_port: false,
        port: VecDeque::new(),
        spawns: VecDeque::new(),
        answers: VecDeque::new(),
    });
    hardware.commit_config(&config());
    hardware
}

fn notes(hardware: &mut SystemHardware<Bench>) -> Vec<String> {
    std::mem::take(&mut hardware.machine.drivers.notes)
}

fn water() -> SensorConfig {
    SensorConfig::CorsairIcueLink {
        device: "hub0".to_owned(),
        channel: 0,
    }
}

#[test]
fn a_hub_is_opened_once_and_put_in_software_mode() {
    let mut hardware = hardware();
    assert_eq!(
        hardware.read_sensor("water", &water()).unwrap().text,
        "31.5"
    );
    assert_eq!(
        notes(&mut hardware),
        [
            "hids",
            "open hub0 at /dev/hidraw0",
            "send hub0",
            "pause 50",
            "send hub0",
            "pause 50",
            "send hub0",
            "send hub0",
            "send hub0",
            "send hub0",
            "send hub0",
        ]
    );
    let written = hardware.set_rgb("lights", &rgb("hub0"), [1, 2, 3]).unwrap();
    assert_eq!(written.get("led_count").unwrap().as_u64(), Some(34));
    assert_eq!(
        notes(&mut hardware),
        ["send hub0", "send hub0", "send hub0"]
    );
    hardware.release("lights", &rgb("hub0")).unwrap();
    assert_eq!(notes(&mut hardware), ["send hub0", "close hub0"]);
    assert!(hardware.hubs.is_empty());
    hardware.shutdown();
    assert!(notes(&mut hardware).is_empty());
}

#[test]
fn a_failed_hub_operation_is_tried_again_once() {
    let mut hardware = hardware();
    hardware.read_sensor("water", &water()).unwrap();
    notes(&mut hardware);
    let transfers = &mut hardware.machine.drivers.transfers;
    transfers.push_back(driver_error("unplugged"));
    assert!(hardware.read_sensor("water", &water()).is_ok());
    let seen = notes(&mut hardware);
    assert_eq!(
        seen[..6],
        [
            "send hub0",
            "send hub0",
            "close hub0",
            "pause 100",
            "hids",
            "open hub0 at /dev/hidraw0"
        ]
    );
    assert_eq!(seen.len(), 15);

    let transfers = &mut hardware.machine.drivers.transfers;
    transfers.push_back(driver_error("unplugged"));
    transfers.push_back(driver_error("unplugged"));
    transfers.push_back(driver_error("still unplugged"));
    assert_eq!(
        failure(hardware.debug_hid_dump("hub0")),
        "still unplugged"
    );
    assert_eq!(notes(&mut hardware).last().unwrap(), "close hub0");
    assert!(hardware.hubs.is_empty());

    hardware.read_sensor("water", &water()).unwrap();
    notes(&mut hardware);
    hardware.shutdown();
    assert_eq!(notes(&mut hardware), ["send hub0", "close hub0"]);
    assert!(hardware.hubs.is_empty());
}

#[test]
fn a_failed_display_write_is_tried_again_once() {
    let mut hardware = hardware();
    hardware.machine.drivers.has_port = true;
    let mut settings = vec![0_u8; 72];
    settings[68] = 2;
    settings[71] = 5;
    let port = &mut hardware.machine.drivers.port;
    port.push_back(PortEvent::Failed {
        step: PortStep::ReadWelcome,
        reason: "timed out".to_owned(),
    });
    port.push_back(PortEvent::Done(
        b"Thermal Grizzly WireView Pro II\0".to_vec(),
    ));
    port.push_back(PortEvent::Done(vec![0xef, 0x05, 7]));
    port.push_back(PortEvent::Done(settings[..4].to_vec()));
    port.push_back(PortEvent::Done(settings[4..].to_vec()));
    let report = hardware
        .set_display("screen", &display("wireview0"), DisplayTarget::Sleep)
        .unwrap();
    assert_eq!(report.get("firmware_version").unwrap().as_u64(), Some(7));
    assert_eq!(
        notes(&mut hardware),
        [
            "ports",
            "open wireview0 at /dev/ttyACM0",
            "Welcome { count: 32 }",
            "close port",
            "pause 100",
            "ports",
            "open wireview0 at /dev/ttyACM0",
            "Welcome { count: 32 }",
            "Ask { request: 1, count: 3 }",
            "Ask { request: 5, count: 4 }",
            "Read { count: 68 }",
            "close port"
        ]
    );

    for reason in ["busy", "gone"] {
        hardware
            .machine
            .drivers
            .port
            .push_back(PortEvent::Failed {
                step: PortStep::ClearInput,
                reason: reason.to_owned(),
            });
    }
    assert_eq!(
        failure(hardware.release("screen", &display("wireview0"))),
        "could not clear WireView device 'screen' input: gone"
    );
}

#[test]
fn only_a_failed_serial_operation_is_tried_again() {
    let mut hardware = hardware();
    hardware.machine.drivers.has_port = true;
    hardware
        .machine
        .drivers
        .port
        .push_back(PortEvent::Done(b"Something else\0\0\0\0\0\0\0\0\0\0\0\0\0\0\0\0\0\0".to_vec()));
    assert!(hardware
        .set_display("screen", &display("wireview0"), DisplayTarget::Sleep)
        .is_err());
    assert_eq!(
        notes(&mut hardware),
        [
            "ports",
            "open wireview0 at /dev/ttyACM0",
            "Welcome { count: 32 }",
            "close port"
        ]
    );
    hardware.machine.drivers.has_port = false;
    assert_eq!(
        failure(hardware.set_display("screen", &display("wireview0"), DisplayTarget::Sleep)),
        "no ports"
    );
    assert_eq!(notes(&mut hardware), ["ports", "pause 100", "ports"]);
}

#[test]
fn an_error_that_no_hid_operation_caused_keeps_the_hub() {
    let mut hardware = hardware();
    hardware.read_sensor("water", &water()).unwrap();
    notes(&mut hardware);
    let other = SensorConfig::CorsairIcueLink {
        device: "hub0".to_owned(),
        channel: 9,
    };
    assert_eq!(
        failure(hardware.read_sensor("other", &other)),
        "hub 'hub0' did not report temperature channel 9"
    );
    assert_eq!(
        notes(&mut hardware),
        ["send hub0", "send hub0", "send hub0", "send hub0", "send hub0"]
    );
    assert!(hardware.hubs.contains_key("hub0"));
}

#[test]
fn a_release_that_fails_is_sent_again_over_a_fresh_handle() {
    let mut hardware = hardware();
    hardware.read_sensor("water", &water()).unwrap();
    notes(&mut hardware);
    let transfers = &mut hardware.machine.drivers.transfers;
    transfers.push_back(driver_error("unplugged"));
    transfers.push_back(driver_error("unplugged"));
    hardware.release("lights", &rgb("hub0")).unwrap();
    assert_eq!(
        notes(&mut hardware),
        [
            "send hub0",
            "send hub0",
            "close hub0",
            "pause 100",
            "hids",
            "open hub0 at /dev/hidraw0",
            "send hub0",
            "close hub0"
        ]
    );

    hardware.read_sensor("water", &water()).unwrap();
    notes(&mut hardware);
    let transfers = &mut hardware.machine.drivers.transfers;
    for _ in 0..4 {
        transfers.push_back(driver_error("unplugged"));
    }
    assert_eq!(failure(hardware.release("lights", &rgb("hub0"))), "unplugged");
    assert!(hardware.hubs.is_empty());
}

#[test]
fn a_shutdown_tries_twice_to_give_a_hub_back() {
    let mut hardware = hardware();
    hardware.read_sensor("water", &water()).unwrap();
    notes(&mut hardware);
    hardware
        .machine
        .drivers
        .transfers
        .push_back(driver_error("busy"));
    hardware.shutdown();
    assert_eq!(notes(&mut hardware), ["send hub0", "send hub0", "close hub0"]);
    assert!(hardware.hubs.is_empty());
}

#[test]
fn a_dump_of_an_unknown_device_reaches_no_driver() {
    let mut hardware = hardware();
    assert_eq!(
        hardware.debug_hid_dump("nope").unwrap_err(),
        FeatherError::Daemon("unknown device 'nope'".to_owned())
    );
    assert!(notes(&mut hardware).is_empty());
}

#[test]
fn a_helper_out_of_service_is_not_asked_again() {
    let mut hardware = hardware();
    let answers = &mut hardware.machine.drivers.answers;
    answers.push_back(answered(HelperResult::Value(Json::Bool(true))));
    answers.push_back(CallOutcome::TimedOut("5s".to_owned()));
    let output = fan("gpu0");
    assert!(hardware.set_fan("gpu_fans", &output, 50).is_ok());
    assert!(hardware.check_fan_health(&output).is_ok());
    assert_eq!(
        notes(&mut hardware),
        [
            "spawn GPU-1",
            "GPU-1: SetFans { alias: \"gpu0\", uuid: \"GPU-1\", channels: [1, 2], percent: 50 } \
             within 5000000000"
        ]
    );
    let reason = failure(hardware.set_fan("gpu_fans", &output, 60));
    assert_eq!(notes(&mut hardware)[1], "drop GPU-1");
    assert!(reason.contains("request exceeded 5s"));
    assert_eq!(failure(hardware.set_fan("gpu_fans", &output, 70)), reason);
    assert_eq!(failure(hardware.check_fan_health(&output)), reason);
    assert!(hardware.fan_failure_is_isolated(&output));
    assert!(notes(&mut hardware).is_empty());

    hardware.commit_config(&config());
    assert!(hardware.fan_failure_is_isolated(&output));
    let mut other = config();
    other.devices = NameMap::new();
    hardware.commit_config(&other);
    assert!(hardware.helpers.is_empty());
    assert!(notes(&mut hardware).is_empty());
}

#[test]
fn unexpected_answers_of_helpers_are_errors() {
    let mut hardware = hardware();
    let answers = &mut hardware.machine.drivers.answers;
    answers.push_back(answered(HelperResult::Unit));
    answers.push_back(answered(HelperResult::Unit));
    assert_eq!(
        failure(hardware.set_fan("gpu_fans", &fan("gpu0"), 50)),
        "NVIDIA helper returned an unexpected response for fan write: Unit"
    );
    assert!(hardware.release("gpu_fans", &fan("gpu0")).is_ok());
}

#[test]
fn shutdown_ends_helpers() {
    let mut hardware = hardware();
    let answers = &mut hardware.machine.drivers.answers;
    answers.push_back(answered(HelperResult::Value(Json::Null)));
    answers.push_back(answered(HelperResult::Unit));
    assert!(hardware.set_fan("gpu_fans", &fan("gpu0"), 50).is_ok());
    notes(&mut hardware);
    hardware.shutdown();
    assert_eq!(
        notes(&mut hardware),
        [
            "GPU-1: Shutdown within 5000000000",
            "drop GPU-1"
        ]
    );
    assert!(hardware.helpers.is_empty());
}

#[test]
fn sensors_are_read_by_their_drivers() {
    let mut hardware = hardware();
    let cpu = SensorConfig::LinuxHwmon {
        device: "cpu".to_owned(),
        chip: "k10temp".to_owned(),
        label: "temp1".to_owned(),
    };
    assert_eq!(hardware.read_sensor("cpu", &cpu).unwrap().text, "40");
    assert_eq!(notes(&mut hardware), ["hwmon", "read /h/temp1_input"]);

    let missing = SensorConfig::CorsairIcueLink {
        device: "hub0".to_owned(),
        channel: 2,
    };
    assert_eq!(
        failure(hardware.read_sensor("water", &missing)),
        "hub 'hub0' did not report temperature channel 2"
    );

    let gpu = SensorConfig::NvidiaNvml {
        device: "gpu0".to_owned(),
    };
    hardware
        .machine
        .drivers
        .answers
        .push_back(answered(HelperResult::Temperature(sample(61.0).celsius)));
    assert_eq!(hardware.read_sensor("gpu", &gpu).unwrap().text, "61");
    let wrong = SensorConfig::NvidiaNvml {
        device: "hub0".to_owned(),
    };
    assert_eq!(
        failure(hardware.read_sensor("gpu", &wrong)),
        "configured device is not an NVIDIA GPU"
    );
}

#[test]
fn preflight_asks_the_drivers_that_a_configuration_needs() {
    let mut hardware = hardware();
    let answers = &mut hardware.machine.drivers.answers;
    answers.push_back(answered(HelperResult::Devices(vec![found("GPU-1", None)])));
    answers.push_back(answered(HelperResult::Unit));
    assert_eq!(
        failure(hardware.preflight(&config())),
        "driver error: no ports; configured device 'wireview0' was not found"
    );
    assert_eq!(
        notes(&mut hardware),
        [
            "hids",
            "spawn discovery",
            "discovery: DiscoverAll within 5000000000",
            "discovery: Shutdown within 5000000000",
            "drop discovery",
            "ports",
            "hwmon"
        ]
    );
    let mut nothing = config();
    nothing.devices = NameMap::new();
    assert!(hardware.preflight(&nothing).unwrap().is_empty());
    assert_eq!(notes(&mut hardware), ["hwmon"]);
}

#[test]
fn discovery_goes_on_where_a_driver_fails() {
    let mut hardware = hardware();
    hardware
        .machine
        .drivers
        .spawns
        .push_back(driver_error("no NVML"));
    let devices = hardware.discover().unwrap();
    let names: Vec<&str> = devices.iter().map(|device| device.driver.as_str()).collect();
    assert_eq!(names, ["corsair-icue-link", "linux-hwmon"]);
    assert_eq!(
        notes(&mut hardware),
        ["hids", "spawn discovery", "hwmon", "ports"]
    );
}

#[test]
fn the_drivers_of_an_unsupported_host_find_nothing() {
    let mut hardware = SystemHardware::new(Unsupported::new());
    assert!(failure(hardware.discover()).contains("Linux host required"));
    assert!(failure(hardware.preflight(&config())).contains("Linux host required"));
}

#[test]
fn an_unsupported_host_controls_nothing() {
    let mut hardware = UnsupportedHardware::new();
    let config = config();
    assert_eq!(
        failure(hardware.preflight(&config)),
        "hardware control is supported only on Linux"
    );
    assert_eq!(
        failure(hardware.discover()),
        "hardware discovery is supported only on Linux"
    );
    assert_eq!(failure(hardware.debug_hid_dump("hub0")), "Linux host required");
    hardware.commit_config(&config);
    hardware.shutdown();
}
