use feather::celsius::Celsius;
use feather::config::DeviceConfig;
use feather::drivers::nvidia::{
    clamp_percent, describe_gpu, discover_configured, expect_devices, expect_temperature,
    expect_unit, expect_value, fan_capabilities, fan_write_report, helper_response,
    helpers_to_stop, invalid_request, lost_reply, needs_nvml, nvidia_error, selected_channels,
    supervisor_follows, supervisor_takes, terminal_nvidia_error, uuid, CallOutcome,
    FanCapabilities, FanInfo, GpuInfo, HelperFans, HelperRequest, HelperResponse, HelperResult,
    HelperState, ReplyLoss, RequestRole, SupervisorStep,
};
use feather::error::FeatherError;
use feather::json::Json;
use feather::names::NameMap;

#[test]
fn identifies_terminal_driver_errors() {
    assert!(terminal_nvidia_error(
        "device requires a reset before it can be used again"
    ));
    assert!(terminal_nvidia_error(
        "Reset required [NV_ERR_RESET_REQUIRED]"
    ));
    assert!(terminal_nvidia_error("GPU has fallen off the bus"));
    assert!(terminal_nvidia_error(
        "device fell off the bus or has otherwise become inacessible"
    ));
    assert!(!terminal_nvidia_error("temporarily unavailable"));
}

fn answered(message: &str) -> CallOutcome {
    CallOutcome::Answered(HelperResponse::Error {
        message: message.to_owned(),
    })
}

#[test]
fn a_transient_error_leaves_the_helper_in_service() {
    let mut helper = HelperState::new("GPU-test");
    let result = helper.settle(false, answered("temporarily unavailable"));
    assert!(matches!(result, Err(FeatherError::Driver(message)) if message == "temporarily unavailable"));
    assert!(helper.accept().is_ok());
    assert!(helper.check_health().is_ok());
    assert!(!helper.is_quarantined());
    let result = helper.settle(
        false,
        CallOutcome::Answered(HelperResponse::Success {
            result: HelperResult::Unit,
        }),
    );
    assert!(matches!(result, Ok(HelperResult::Unit)));
}

#[test]
fn a_helper_that_fails_for_good_takes_no_request() {
    let reasons = [
        (CallOutcome::Refused, "supervisor stopped before accepting the request"),
        (CallOutcome::TimedOut("5s".to_owned()), "request exceeded 5s"),
        (CallOutcome::Disconnected, "supervisor stopped before replying"),
        (CallOutcome::Broken("broken pipe".to_owned()), "broken pipe"),
        (answered("GPU is lost"), "GPU is lost"),
    ];
    for (outcome, reason) in reasons {
        let mut helper = HelperState::new("GPU-test");
        let expected = format!(
            "NVIDIA helper for GPU-test is quarantined: {reason}; reset the GPU and restart featherd"
        );
        assert!(helper.needs_shutdown());
        let error = helper.settle(false, outcome).unwrap_err();
        assert_eq!(error, FeatherError::Driver(expected.clone()));
        assert_eq!(
            helper.accept().unwrap_err(),
            FeatherError::Driver(expected.clone())
        );
        assert_eq!(
            helper.check_health().unwrap_err(),
            FeatherError::Driver(expected)
        );
        assert!(!helper.needs_shutdown());
    }
}

#[test]
fn a_helper_that_was_shut_down_takes_no_request() {
    let mut helper = HelperState::new("GPU-test");
    let result = helper.settle(
        true,
        CallOutcome::Answered(HelperResponse::Success {
            result: HelperResult::Unit,
        }),
    );
    assert!(result.is_ok());
    assert_eq!(
        helper.accept().unwrap_err(),
        FeatherError::Driver(
            "NVIDIA helper for GPU-test is quarantined: helper is not running; \
             reset the GPU and restart featherd"
                .to_owned()
        )
    );
    assert!(helper.check_health().is_ok());
}

#[test]
fn answers_of_another_form_are_refused() {
    assert!(expect_devices(HelperResult::Devices(vec![]), "").is_ok());
    let hot = Celsius {
        bits: 61.0_f64.to_bits(),
    };
    assert_eq!(
        expect_temperature(HelperResult::Temperature(hot), "").unwrap(),
        hot
    );
    assert!(expect_value(HelperResult::Value(Json::Null), "").is_ok());
    assert!(expect_unit(HelperResult::Unit, "").is_ok());
    let expected = |operation: &str| {
        FeatherError::Driver(format!(
            "NVIDIA helper returned an unexpected response for {operation}: Unit"
        ))
    };
    assert_eq!(
        expect_devices(HelperResult::Unit, "Unit").unwrap_err(),
        expected("device discovery")
    );
    assert_eq!(
        expect_temperature(HelperResult::Unit, "Unit").unwrap_err(),
        expected("temperature read")
    );
    assert_eq!(
        expect_value(HelperResult::Unit, "Unit").unwrap_err(),
        expected("fan write")
    );
    assert!(expect_unit(HelperResult::Value(Json::Null), "Value(Null)").is_err());
}

#[test]
fn helper_answers_carry_results_and_errors() {
    assert!(HelperRequest::Stop.is_last() && HelperRequest::Shutdown.is_last());
    assert!(!HelperRequest::DiscoverAll.is_last());
    assert!(matches!(
        helper_response(Ok(HelperResult::Unit)),
        HelperResponse::Success {
            result: HelperResult::Unit
        }
    ));
    match helper_response(Err(nvidia_error("could not count GPUs", "no driver"))) {
        HelperResponse::Error { message } => {
            assert_eq!(message, "driver error: could not count GPUs: no driver")
        }
        other => panic!("{other:?}"),
    }
    match invalid_request("line 1") {
        HelperResponse::Error { message } => {
            assert_eq!(message, "invalid NVIDIA helper request: line 1")
        }
        other => panic!("{other:?}"),
    }
}

#[test]
fn fans_are_selected_and_clamped() {
    assert_eq!(selected_channels(&vec![], 2, "gpu0").unwrap(), vec![0, 1]);
    assert_eq!(selected_channels(&vec![1], 2, "gpu0").unwrap(), vec![1]);
    assert_eq!(
        selected_channels(&vec![0, 2], 2, "gpu0").unwrap_err(),
        FeatherError::Driver("fan 2 does not exist on 'gpu0'".to_owned())
    );
    assert_eq!(
        selected_channels(&vec![], 0, "gpu0").unwrap_err(),
        FeatherError::Driver("device 'gpu0' reports no controllable fans".to_owned())
    );
    let range = fan_capabilities(2, Some((30, 90)));
    assert_eq!(clamp_percent(10, range), 30);
    assert_eq!(clamp_percent(95, range), 90);
    assert_eq!(clamp_percent(42, range), 42);
    assert_eq!(
        fan_capabilities(1, None),
        FanCapabilities {
            count: 1,
            minimum: 0,
            maximum: 100,
        }
    );
    let report = fan_write_report(&vec![0, 1], 42, range);
    assert_eq!(report.get("percent"), Some(&Json::number(42)));
    assert_eq!(
        report.get("fans"),
        Some(&Json::Object(vec![
            ("0".to_owned(), Json::number(42)),
            ("1".to_owned(), Json::number(42)),
        ]))
    );
    assert_eq!(
        report.get("range"),
        Some(&Json::List(vec![Json::number(30), Json::number(90)]))
    );
}

#[test]
fn a_helper_keeps_what_it_could_not_give_back() {
    let mut fans = HelperFans::new();
    let range = fan_capabilities(2, None);
    assert_eq!(fans.cached("GPU-test"), None);
    fans.remember("GPU-test", range);
    assert_eq!(fans.cached("GPU-test"), Some(range));
    fans.take_control("GPU-test");
    let failures = vec!["fan 0: busy".to_owned(), "fan 1: busy".to_owned()];
    assert_eq!(
        fans.released("gpu0", "GPU-test", &failures).unwrap_err(),
        FeatherError::Driver(
            "could not restore 'gpu0' automatic fan policy: fan 0: busy, fan 1: busy".to_owned()
        )
    );
    assert!(fans.controlled.contains_key("GPU-test"));
    fans.released("gpu0", "GPU-test", &vec![]).unwrap();
    assert!(!fans.controlled.contains_key("GPU-test"));
}

fn configured() -> NameMap<DeviceConfig> {
    let mut devices = NameMap::new();
    devices.insert(
        "gpu0".to_owned(),
        DeviceConfig::NvidiaNvml {
            uuid: "GPU-test".to_owned(),
        },
    );
    devices.insert(
        "display".to_owned(),
        DeviceConfig::WireViewProIi {
            serial: "1".to_owned(),
        },
    );
    devices
}

#[test]
fn configured_gpus_are_found_by_their_uuid() {
    let gpu = GpuInfo {
        index: 1,
        uuid: "GPU-test".to_owned(),
        name: None,
        fan_range: Some((30, 100)),
        temperature: Some(61),
        fans: vec![
            FanInfo {
                percent: Some(45),
                policy: Some("Manual".to_owned()),
            },
            FanInfo {
                percent: None,
                policy: None,
            },
        ],
    };
    let description = describe_gpu(&gpu);
    assert_eq!(description.name, "NVIDIA GPU 1");
    assert_eq!(description.driver, "nvidia-nvml");
    assert_eq!(
        description.details.keys(),
        vec![
            "fan0_percent",
            "fan0_policy",
            "fan_count",
            "fan_range",
            "index",
            "temperature_c",
            "uuid"
        ]
    );
    assert_eq!(description.details.get("fan_range").unwrap(), "30-100");
    let found = discover_configured(&configured(), &vec![description]);
    assert_eq!(found.len(), 1);
    assert_eq!(found[0].details.get("alias").unwrap(), "gpu0");
    assert!(needs_nvml(&configured()));
    assert!(!needs_nvml(&NameMap::new()));
    assert_eq!(
        helpers_to_stop(
            &vec!["GPU-test".to_owned(), "GPU-gone".to_owned()],
            &configured()
        ),
        vec!["GPU-gone"]
    );
    assert_eq!(uuid(configured().get("gpu0").unwrap()).unwrap(), "GPU-test");
    assert_eq!(
        uuid(configured().get("display").unwrap()).unwrap_err(),
        FeatherError::Driver("configured device is not an NVIDIA GPU".to_owned())
    );
}

#[test]
fn a_supervisor_kills_a_helper_that_does_not_reply() {
    let read = HelperRequest::ReadTemperature {
        alias: "gpu0".to_owned(),
        uuid: "GPU-1".to_owned(),
    };
    assert_eq!(read.role(), RequestRole::Ordinary);
    assert_eq!(HelperRequest::Shutdown.role(), RequestRole::Last);
    assert_eq!(HelperRequest::Stop.role(), RequestRole::Kill);
    assert_eq!(supervisor_takes(RequestRole::Kill), SupervisorStep::Kill);
    assert_eq!(supervisor_takes(RequestRole::Last), SupervisorStep::Exchange);
    assert_eq!(supervisor_takes(RequestRole::Ordinary), SupervisorStep::Exchange);
    assert_eq!(supervisor_follows(RequestRole::Ordinary, true), SupervisorStep::Next);
    assert_eq!(supervisor_follows(RequestRole::Ordinary, false), SupervisorStep::Kill);
    assert_eq!(supervisor_follows(RequestRole::Last, true), SupervisorStep::End);
    assert_eq!(supervisor_follows(RequestRole::Last, false), SupervisorStep::Kill);
}

#[test]
fn lost_replies_are_put_in_words() {
    let why = || "gone".to_owned();
    let losses = [
        (ReplyLoss::Unencoded(why()), "could not encode NVIDIA helper request: gone"),
        (ReplyLoss::Unwritten(why()), "could not write NVIDIA helper request: gone"),
        (ReplyLoss::TimedOut("5s".to_owned()), "NVIDIA helper for GPU-1 timed out after 5s"),
        (ReplyLoss::Closed, "NVIDIA helper for GPU-1 closed its output"),
        (ReplyLoss::Exited, "NVIDIA helper for GPU-1 exited"),
        (ReplyLoss::Unread(why()), "could not read NVIDIA helper response: gone"),
        (ReplyLoss::Undecoded(why()), "could not decode NVIDIA helper response: gone"),
    ];
    for (loss, words) in losses {
        assert_eq!(lost_reply("GPU-1", &loss), words);
    }
}
