use feather::drivers::wireview::{
    config_frames, config_size, descriptor, desired_display_settings, display_offsets,
    display_settings, enumerate, find_port, set_config_display, validate_welcome, welcome_message,
    DisplaySession, DisplaySettings, PortAction, PortEvent, PortStep, SerialPortInfo, UsbIdentity,
    WireViewPort, AWAKE_TIMEOUT_SECONDS, BACKLIGHT_DUTY_OFFSET, CMD_WRITE_CONFIG,
    CONFIG_VERSION_OFFSET, SLEEP_TIMEOUT_SECONDS, TIMEOUT_MODE_SLEEP, TIMEOUT_MODE_STATIC,
};
use feather::drivers::DisplayTarget;
use feather::error::FeatherError;

#[test]
fn supports_known_configuration_sizes() {
    assert_eq!(config_size(0).unwrap(), 72);
    assert_eq!(config_size(1).unwrap(), 74);
    assert_eq!(config_size(2).unwrap(), 96);
    assert!(config_size(3).is_err());
}

#[test]
fn changes_only_display_control_fields_for_each_config_version() {
    for version in 0..=2 {
        let mut config = vec![0xaa; config_size(version).unwrap()];
        config[CONFIG_VERSION_OFFSET] = version;
        let offsets = display_offsets(version).unwrap();
        config[BACKLIGHT_DUTY_OFFSET] = 100;
        config[offsets.timeout_mode] = TIMEOUT_MODE_STATIC;
        config[offsets.timeout_seconds] = AWAKE_TIMEOUT_SECONDS;
        let before = config.clone();
        let desired = desired_display_settings(DisplayTarget::Sleep).unwrap();

        set_config_display(&mut config, desired).unwrap();

        assert_eq!(display_settings(&config).unwrap(), desired);
        for (offset, (old, new)) in before.iter().zip(&config).enumerate() {
            if [
                BACKLIGHT_DUTY_OFFSET,
                offsets.timeout_mode,
                offsets.timeout_seconds,
            ]
            .contains(&offset)
            {
                continue;
            }
            assert_eq!(old, new, "config version {version}, byte {offset}");
        }
    }
}

#[test]
fn awake_and_sleep_settings_are_explicit() {
    assert_eq!(
        desired_display_settings(DisplayTarget::Awake {
            brightness_percent: 100,
        })
        .unwrap(),
        DisplaySettings {
            brightness_percent: 100,
            timeout_mode: TIMEOUT_MODE_STATIC,
            timeout_seconds: AWAKE_TIMEOUT_SECONDS,
        }
    );
    assert_eq!(
        desired_display_settings(DisplayTarget::Sleep).unwrap(),
        DisplaySettings {
            brightness_percent: 0,
            timeout_mode: TIMEOUT_MODE_SLEEP,
            timeout_seconds: SLEEP_TIMEOUT_SECONDS,
        }
    );
}

#[test]
fn matches_usb_serial_without_case_sensitivity() {
    let ports = vec![WireViewPort {
        path: "/dev/ttyACM0".into(),
        serial: "20ABCD".into(),
        manufacturer: None,
        product: None,
    }];

    assert_eq!(
        find_port(&ports, "20abcd").map(|port| port.path.as_str()),
        Some("/dev/ttyACM0")
    );
}

#[test]
fn splits_configuration_into_offset_frames() {
    let config = (0_u8..96).collect::<Vec<_>>();

    let frames = config_frames(&config).unwrap();

    assert_eq!(frames.len(), 2);
    assert_eq!(&frames[0][..2], &[CMD_WRITE_CONFIG, 0]);
    assert_eq!(&frames[0][2..], &config[..62]);
    assert_eq!(&frames[1][..2], &[CMD_WRITE_CONFIG, 62]);
    assert_eq!(&frames[1][2..], &config[62..]);
}

#[test]
fn validates_the_complete_welcome_message() {
    validate_welcome("wireview", &welcome_message()).unwrap();
    assert!(validate_welcome("wireview", b"Thermal Grizzly").is_err());
    assert!(validate_welcome("wireview", &[0xef, 0x05, 0x05]).is_err());
    assert_eq!(welcome_message(), b"Thermal Grizzly WireView Pro II\0");
    assert_eq!(
        validate_welcome("gpu", &[0xef, 0x05, 0x05, 0x0a, 0xff]).unwrap_err(),
        FeatherError::Driver(
            "serial device for 'gpu' returned an unexpected welcome message starting with \
             ef:05:05:0a"
                .into()
        )
    );
}

#[test]
fn frames_reach_as_far_as_their_offsets() {
    let frames = config_frames(&[7; 310]).unwrap();
    assert_eq!(frames.len(), 5);
    assert_eq!(frames[4][1], 248);
    assert_eq!(
        config_frames(&[7; 311]).unwrap_err(),
        FeatherError::Driver("WireView configuration is too large".into())
    );
    assert!(config_frames(&[]).unwrap().is_empty());
}

#[test]
fn rejects_settings_out_of_range() {
    let mut config = vec![0; 72];
    config[BACKLIGHT_DUTY_OFFSET] = 101;
    assert_eq!(
        display_settings(&config).unwrap_err(),
        FeatherError::Driver("WireView returned invalid backlight duty 101%".into())
    );
    config[BACKLIGHT_DUTY_OFFSET] = 100;
    config[68] = 3;
    assert_eq!(
        display_settings(&config).unwrap_err(),
        FeatherError::Driver("WireView returned invalid timeout mode 3".into())
    );
    config[CONFIG_VERSION_OFFSET] = 9;
    assert_eq!(
        display_settings(&config).unwrap_err(),
        FeatherError::Driver("unsupported WireView configuration version 9".into())
    );
    assert_eq!(
        display_settings(&[0, 0]).unwrap_err(),
        FeatherError::Driver("WireView configuration did not contain a version".into())
    );
    assert_eq!(
        desired_display_settings(DisplayTarget::Awake { brightness_percent: 101 }).unwrap_err(),
        FeatherError::Driver("WireView brightness 101% is over 100%".into())
    );
}

fn usb(vid: u16, serial: Option<&str>) -> SerialPortInfo {
    SerialPortInfo {
        path: "/dev/ttyACM1".into(),
        usb: Some(UsbIdentity {
            vid,
            pid: 0x5740,
            serial_number: serial.map(Into::into),
            manufacturer: Some("TG".into()),
            product: None,
        }),
    }
}

#[test]
fn enumerates_only_wireviews_with_a_serial() {
    let infos = vec![
        usb(0x0483, Some(" 20ABCD \n")),
        usb(0x0483, Some("  ")),
        usb(0x0483, None),
        usb(0x0484, Some("20ABCD")),
        SerialPortInfo { path: "/dev/ttyS0".into(), usb: None },
    ];
    let ports = enumerate(&infos);
    assert_eq!(ports.len(), 1);
    assert_eq!(ports[0].serial, "20ABCD");
    let device = descriptor(&ports[0]);
    assert_eq!(device.id, "wireview-pro-ii:20ABCD");
    assert_eq!(device.details.get("vendor_id").unwrap(), "0483");
    assert_eq!(device.details.get("product_id").unwrap(), "5740");
    assert_eq!(device.details.get("manufacturer").unwrap(), "TG");
    assert!(device.details.get("product").is_none());
}

#[test]
fn a_sleeping_display_is_woken_and_repainted() {
    let (mut session, action) = DisplaySession::start(
        "gpu",
        "20ABCD",
        DisplayTarget::Awake { brightness_percent: 75 },
    );
    assert!(matches!(action, PortAction::Welcome { count: 32 }));
    let action = session.next(PortEvent::Done(welcome_message()));
    assert!(matches!(action, PortAction::Ask { request: 1, count: 3 }));
    let action = session.next(PortEvent::Done(vec![0xef, 0x05, 4]));
    assert!(matches!(action, PortAction::Ask { request: 5, count: 4 }));
    let mut config = vec![0; 72];
    config[68] = TIMEOUT_MODE_SLEEP;
    config[71] = SLEEP_TIMEOUT_SECONDS;
    let action = session.next(PortEvent::Done(config[..4].to_vec()));
    assert!(matches!(action, PortAction::Read { count: 68 }));
    let action = session.next(PortEvent::Done(config[4..].to_vec()));
    let PortAction::Write { frames } = action else {
        panic!("nothing was written");
    };
    assert_eq!(frames[0][2 + BACKLIGHT_DUTY_OFFSET], 75);
    let action = session.next(PortEvent::Done(vec![]));
    let PortAction::Send { request } = action else {
        panic!("nothing was repainted");
    };
    assert_eq!(request, vec![0x0c, 0xef]);
    let PortAction::Finish(Ok(report)) = session.next(PortEvent::Done(vec![])) else {
        panic!("nothing was reported");
    };
    assert_eq!(report.get("brightness_percent").unwrap().as_u64(), Some(75));
    assert_eq!(
        report.get("previous_brightness_percent").unwrap().as_u64(),
        Some(0)
    );
    assert_eq!(report.get("firmware_version").unwrap().as_u64(), Some(4));
}

#[test]
fn a_display_in_its_state_is_left_alone() {
    let (mut session, _) = DisplaySession::start("gpu", "20ABCD", DisplayTarget::Sleep);
    session.next(PortEvent::Done(welcome_message()));
    session.next(PortEvent::Done(vec![0xef, 0x05, 4]));
    let mut config = vec![0; 72];
    config[68] = TIMEOUT_MODE_SLEEP;
    config[71] = SLEEP_TIMEOUT_SECONDS;
    session.next(PortEvent::Done(config[..4].to_vec()));
    let action = session.next(PortEvent::Done(config[4..].to_vec()));
    assert!(matches!(action, PortAction::Finish(Ok(_))));
}

#[test]
fn a_failed_serial_operation_ends_the_change() {
    let (mut session, _) = DisplaySession::start("gpu", "20ABCD", DisplayTarget::Sleep);
    let action = session.next(PortEvent::Failed {
        step: PortStep::ReadWelcome,
        reason: "timed out".into(),
    });
    let PortAction::Finish(Err(error)) = action else {
        panic!("the failure was ignored");
    };
    assert_eq!(
        error.to_text(),
        "driver error: could not read welcome message for WireView device 'gpu': timed out"
    );
    let (mut session, _) = DisplaySession::start("gpu", "20ABCD", DisplayTarget::Sleep);
    session.next(PortEvent::Done(welcome_message()));
    let PortAction::Finish(Err(error)) = session.next(PortEvent::Done(vec![0xee, 0x05, 4])) else {
        panic!("another device was accepted");
    };
    assert_eq!(
        error,
        FeatherError::Driver(
            "serial device for 'gpu' returned an unexpected identity ee:05".into()
        )
    );
}
