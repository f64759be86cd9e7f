use feather::config::DeviceConfig;
use feather::drivers::corsair::{
    automatic_speed_channels, device_profile, fan_write_result, hex, parse_devices, parse_speeds,
    parse_temperatures, select_channels, LinkDevice, LinkTopology, SpeedReading, DT_DEVICES,
    DT_SPEEDS, DT_TEMPERATURES,
};
use feather::drivers::diagnostics::diagnostic_dump;
use feather::drivers::hub::{
    descriptor, discover_all, matches_device, select_hub, HidInfo, HubAction, HubEvent, HubJob,
    HubModes, HubReport, HubTask, Transfer,
};
use feather::drivers::retry_delay_ms;
use feather::error::FeatherError;
use feather::json::Json;

fn response(data_type: u8, values: &[(u8, i16)]) -> Vec<u8> {
    let mut response = vec![0; 7 + values.len() * 3];
    response[3] = 0;
    response[4] = data_type;
    response[6] = u8::try_from(values.len()).unwrap_or(u8::MAX);
    for (index, (valid, value)) in values.iter().enumerate() {
        let offset = 7 + index * 3;
        response[offset] = *valid;
        response[offset + 1..offset + 3].copy_from_slice(&value.to_le_bytes());
    }
    response
}

fn devices_response(records: &[Option<(u8, u8, &str)>]) -> Vec<u8> {
    let mut response = vec![0; 7];
    response[4] = DT_DEVICES;
    response[6] = u8::try_from(records.len()).unwrap();
    for record in records {
        match record {
            Some((model, variant, id)) => {
                let id_length = u8::try_from(id.len()).unwrap();
                response.extend_from_slice(&[0, 0, *model, *variant, 0, 0, 0, id_length]);
                response.extend_from_slice(id.as_bytes());
            }
            None => response.extend_from_slice(&[0; 8]),
        }
    }
    response
}

fn device(channel: u8, model: u8, variant: u8, id: &str) -> LinkDevice {
    LinkDevice {
        channel,
        model,
        variant,
        id: id.to_owned(),
    }
}

fn speed(channel: u8, status: u8, rpm: Option<i16>) -> SpeedReading {
    SpeedReading {
        channel,
        status,
        rpm,
    }
}

#[test]
fn parses_temperature_fixture() {
    let fixture = response(DT_TEMPERATURES, &[(0, 425), (1, 700), (0, 615)]);
    let temperatures: Vec<(u8, f64)> = parse_temperatures(&fixture)
        .unwrap()
        .into_iter()
        .map(|(channel, tenths)| (channel, f64::from(tenths) / 10.0))
        .collect();
    assert_eq!(temperatures, vec![(0, 42.5), (2, 61.5)]);
}

#[test]
fn parses_speed_fixture() {
    let fixture = response(DT_SPEEDS, &[(0, 900), (1, 0), (0, 1_450)]);
    assert_eq!(
        parse_speeds(&fixture).unwrap(),
        vec![
            speed(0, 0, Some(900)),
            speed(1, 1, None),
            speed(2, 0, Some(1_450)),
        ]
    );
}

#[test]
fn parses_link_devices_with_empty_channels() {
    let fixture = devices_response(&[
        None,
        Some((0x04, 0x00, "FIRST")),
        Some((0x04, 0x00, "SECOND")),
        None,
    ]);

    let topology = parse_devices(&fixture).unwrap();

    assert_eq!(topology.last_channel, 4);
    assert_eq!(
        topology.devices,
        vec![device(2, 0x04, 0, "FIRST"), device(3, 0x04, 0, "SECOND")]
    );
    assert_eq!(topology.consumed, 43);
}

#[test]
fn rejects_a_truncated_link_device_record() {
    let mut fixture = devices_response(&[Some((0x04, 0x00, "FAN"))]);
    fixture.pop();

    let error = parse_devices(&fixture).unwrap_err();
    assert!(error.to_text().contains("truncated Corsair device ID"));
}

#[test]
fn automatic_selection_keeps_enumerated_unavailable_fans() {
    let devices = vec![
        device(2, 0x04, 0, "FIRST"),
        device(5, 0x04, 0, "SECOND"),
        device(13, 0x05, 1, "ADAPTER"),
    ];
    let speeds = vec![
        speed(2, 0, Some(800)),
        speed(5, 1, None),
        speed(8, 0, Some(900)),
        speed(13, 1, None),
    ];

    assert_eq!(automatic_speed_channels(&devices, &speeds), vec![2, 5, 8]);
}

fn only_fan() -> LinkTopology {
    LinkTopology {
        last_channel: 2,
        devices: vec![device(2, 0x04, 0, "ONLY")],
        consumed: 0,
    }
}

#[test]
fn expected_fan_mismatch_returns_a_degraded_warning() {
    let speeds = vec![speed(2, 0, Some(800))];

    let write = fan_write_result("hub", 40, Some(2), &only_fan(), &vec![2], &speeds);

    assert_eq!(
        write.observed.get("expected_fan_count"),
        Some(&Json::number(2))
    );
    assert_eq!(
        write.observed.get("fan_channels"),
        Some(&Json::List(vec![Json::number(2)]))
    );
    assert!(write
        .warning
        .is_some_and(|warning| warning.contains("enumerated 1 fan subdevices; expected 2")));
}

#[test]
fn rejects_wrong_data_type() {
    let mut fixture = response(0xff, &[(0, 900)]);
    fixture[5] = 0xff;
    assert!(parse_speeds(&fixture).is_err());
}

#[test]
fn device_identifiers_that_are_no_text_are_read_lossily() {
    let mut fixture = devices_response(&[Some((0x04, 0x00, "AB"))]);
    let last = fixture.len() - 1;
    fixture[last] = 0xff;
    let topology = parse_devices(&fixture).unwrap();
    assert_eq!(topology.devices[0].id, "A\u{fffd}");
}

#[test]
fn known_models_have_profiles() {
    let profile = device_profile(&device(1, 0x04, 0, "")).unwrap();
    assert!(profile.controls_speed && profile.is_fan);
    let profile = device_profile(&device(1, 0x05, 1, "")).unwrap();
    assert!(!profile.controls_speed && !profile.is_fan);
    assert!(device_profile(&device(1, 0xee, 0, "")).is_none());
}

#[test]
fn explicit_channels_are_selected_once_and_in_order() {
    let none: Vec<LinkDevice> = Vec::new();
    let speeds: Vec<SpeedReading> = Vec::new();
    assert_eq!(
        select_channels(&vec![7, 3, 7], &none, &speeds).unwrap(),
        vec![3, 7]
    );
    assert!(select_channels(&vec![256], &none, &speeds).is_err());
}

#[test]
fn healthy_fan_writes_have_no_warning() {
    let speeds = vec![speed(2, 0, Some(800))];
    let write = fan_write_result("hub", 40, Some(1), &only_fan(), &vec![2], &speeds);
    assert_eq!(write.warning, None);
    assert_eq!(
        write.observed.get("rpm"),
        Some(&Json::Object(vec![("2".to_owned(), Json::number(800))]))
    );
    assert_eq!(write.observed.get("percent"), Some(&Json::number(40)));
}

#[test]
fn dumps_list_devices_and_speeds() {
    let devices = devices_response(&[Some((0x04, 0x00, "FIRST"))]);
    let speeds = response(DT_SPEEDS, &[(1, 0), (0, 900)]);
    let temperatures = response(DT_TEMPERATURES, &[(0, 425)]);
    let dump = diagnostic_dump(Some(2), &devices, &speeds, &temperatures).unwrap();
    assert!(dump.contains("FIRST"));
    assert!(dump.contains("900"));
    assert_eq!(hex(&[0x01, 0xab]), "01ab");
}

fn info(serial: Option<&str>, interface_number: i32) -> HidInfo {
    HidInfo {
        path: "/dev/hidraw0".to_owned(),
        vendor_id: 0x1b1c,
        product_id: 0x0c3f,
        serial_number: serial.map(str::to_owned),
        interface_number,
        product_string: Some("iCUE LINK System Hub".to_owned()),
    }
}

fn hub(unique_id: Option<&str>) -> DeviceConfig {
    DeviceConfig::CorsairIcueLink {
        vendor_id: 0x1b1c,
        product_id: 0x0c3f,
        unique_id: unique_id.map(str::to_owned),
        interface: 0,
        expected_fan_count: None,
    }
}

#[test]
fn hubs_are_selected_by_serial_and_interface() {
    assert!(matches_device(&info(Some("ABC"), 0), &hub(Some("ABC"))));
    assert!(!matches_device(&info(Some("ABC"), 1), &hub(Some("ABC"))));
    assert!(!matches_device(&info(Some("XYZ"), 0), &hub(Some("ABC"))));
    assert!(matches_device(&info(None, 0), &hub(None)));
    let infos = vec![info(Some("ABC"), 0), info(Some("XYZ"), 0)];
    assert!(select_hub(&infos, &hub(Some("XYZ"))).is_ok());
    assert_eq!(discover_all(&infos).len(), 2);
    assert_eq!(descriptor(&infos[0]).driver, "corsair-icue-link");
}

fn transfer(action: &HubAction) -> &Transfer {
    match action {
        HubAction::Transfer { transfer, .. } => transfer,
        HubAction::Finish(result) => panic!("{result:?}"),
    }
}

fn run(task: HubTask, modes: HubModes, answers: &[(u8, Vec<u8>)]) -> (HubJob, HubAction, usize) {
    let (mut job, mut action) = HubJob::start("hub", task, modes);
    let mut transfers = 0;
    let mut endpoint = 0;
    loop {
        let answer = match &action {
            HubAction::Finish(_) => return (job, action, transfers),
            HubAction::Transfer { transfer, .. } => {
                assert_eq!(transfer.packet().unwrap().len(), 513);
                match transfer {
                    Transfer::Open(open) => {
                        endpoint = *open;
                        vec![0; 512]
                    }
                    Transfer::Read(_) => answers
                        .iter()
                        .find(|(known, _)| *known == endpoint)
                        .map(|(_, bytes)| bytes.clone())
                        .unwrap_or_else(|| vec![0; 512]),
                    _ => vec![0; 512],
                }
            }
        };
        transfers += 1;
        assert!(transfers < 100);
        (job, action) = job.next(HubEvent::Answer(answer));
    }
}

const HARDWARE: HubModes = HubModes {
    software: false,
    color_open: false,
};

const SOFTWARE: HubModes = HubModes {
    software: true,
    color_open: false,
};

#[test]
fn a_temperature_job_enters_software_mode_and_reads_the_channel() {
    let temperatures = response(DT_TEMPERATURES, &[(0, 425), (0, 615)]);
    let (job, action, _) = run(
        HubTask::Temperature { channel: 1 },
        HARDWARE,
        &[(0x21, temperatures)],
    );
    assert!(matches!(
        action,
        HubAction::Finish(Ok(HubReport::Tenths(615)))
    ));
    assert_eq!(job.modes, SOFTWARE);
}

#[test]
fn a_fan_job_writes_speeds_and_reports_them() {
    let devices = devices_response(&[None, Some((0x04, 0x00, "ONLY"))]);
    let speeds = response(DT_SPEEDS, &[(1, 0), (1, 0), (0, 800)]);
    let (_, action, _) = run(
        HubTask::Fans {
            channels: vec![],
            percent: 40,
            expected_fan_count: Some(1),
        },
        SOFTWARE,
        &[(0x36, devices), (0x17, speeds)],
    );
    match action {
        HubAction::Finish(Ok(HubReport::Fans(write))) => {
            assert_eq!(write.observed.get("percent"), Some(&Json::number(40)));
            assert_eq!(write.warning, None);
        }
        other => panic!("{other:?}"),
    }
}

#[test]
fn a_color_job_opens_the_endpoint_once() {
    let task = || HubTask::Rgb {
        led_count: 2,
        rgb: [1, 2, 3],
    };
    let (job, action, first) = run(task(), SOFTWARE, &[]);
    assert!(matches!(action, HubAction::Finish(Ok(HubReport::Rgb(_)))));
    assert!(job.modes.color_open);
    let (_, action, second) = run(task(), job.modes, &[]);
    assert!(matches!(action, HubAction::Finish(Ok(HubReport::Rgb(_)))));
    assert!(second < first);
}

#[test]
fn a_release_returns_the_hub_to_hardware_mode() {
    let (job, action) = HubJob::start("hub", HubTask::Release, SOFTWARE);
    assert!(matches!(transfer(&action), Transfer::HardwareMode));
    let (job, action) = job.next(HubEvent::Answer(vec![0; 512]));
    assert!(matches!(action, HubAction::Finish(Ok(HubReport::Released))));
    assert_eq!(job.modes, HARDWARE);
    let (_, action) = HubJob::start("hub", HubTask::Release, HARDWARE);
    assert!(matches!(action, HubAction::Finish(Ok(HubReport::Released))));
}

#[test]
fn a_failed_dump_still_gives_control_back() {
    let (job, action) = HubJob::start(
        "hub",
        HubTask::Dump {
            expected_fan_count: None,
        },
        HARDWARE,
    );
    assert!(matches!(transfer(&action), Transfer::HardwareMode));
    let (job, _) = job.next(HubEvent::Answer(vec![0; 512]));
    let (job, _) = job.next(HubEvent::Answer(vec![0; 512]));
    let (job, action) = job.next(HubEvent::Failed(FeatherError::Driver("lost".to_owned())));
    assert!(matches!(transfer(&action), Transfer::HardwareMode));
    let (_, action) = job.next(HubEvent::Failed(FeatherError::Driver("gone".to_owned())));
    match action {
        HubAction::Finish(Err(error)) => assert_eq!(
            error.to_text(),
            "driver error: driver error: lost; hardware-mode restore also failed: driver error: gone"
        ),
        other => panic!("{other:?}"),
    }
}

#[test]
fn operations_are_tried_again_once() {
    assert_eq!(retry_delay_ms(0), None);
    assert_eq!(retry_delay_ms(1), Some(100));
    assert_eq!(retry_delay_ms(2), None);
}
