use feather::celsius::Celsius;
use feather::drivers::helper::{Answer, GpuFault, Gpus, HelperDriver};
use feather::drivers::nvidia::{
    FanInfo, GpuInfo, HelperRequest, HelperResponse, HelperResult,
};
use feather::drivers::unsupported::Unsupported;
use feather::json::Json;

#[derive(Default)]
struct Rack {
    log: Vec<String>,
    no_library: bool,
    lost: bool,
    broken_fan: Option<u32>,
    nameless: bool,
    fans: u32,
    range: Option<(u32, u32)>,
    faulty: bool,
}

impl Gpus for Rack {
    fn load(&mut self) -> Answer<()> {
        self.log.push("load".into());
        if self.no_library {
            return Err("library not found".into());
        }
        Ok(())
    }

    fn unload(&mut self) {
        self.log.push("unload".into());
    }

    fn count(&mut self) -> Answer<u32> {
        self.log.push("count".into());
        Ok(2)
    }

    fn read(&mut self, index: u32) -> Result<GpuInfo, GpuFault> {
        self.log.push(format!("read {index}"));
        if index == 1 && self.faulty {
            return Err(GpuFault::Open("not there".into()));
        }
        if index == 1 && self.nameless {
            return Err(GpuFault::Uuid("no name".into()));
        }
        Ok(GpuInfo {
            index: 7,
            uuid: format!("GPU-{index}"),
            name: None,
            fan_range: Some((30, 100)),
            temperature: Some(41),
            fans: vec![FanInfo {
                percent: Some(33),
                policy: Some("Manual".into()),
            }],
        })
    }

    fn find(&mut self, uuid: &str) -> Answer<()> {
        self.log.push(format!("find {uuid}"));
        if self.lost {
            return Err("GPU is lost".into());
        }
        Ok(())
    }

    fn temperature(&mut self, uuid: &str) -> Answer<Celsius> {
        self.log.push(format!("temperature {uuid}"));
        if self.faulty {
            return Err("no sensor".into());
        }
        Ok(Celsius { bits: 41.0f64.to_bits() })
    }

    fn count_fans(&mut self, uuid: &str) -> Answer<u32> {
        self.log.push(format!("fans {uuid}"));
        if self.faulty {
            return Err("not supported".into());
        }
        Ok(self.fans)
    }

    fn fan_range(&mut self, uuid: &str) -> Option<(u32, u32)> {
        self.log.push(format!("range {uuid}"));
        self.range
    }

    fn set_fan(&mut self, uuid: &str, fan: u32, duty: u32) -> Answer<()> {
        self.log.push(format!("set {uuid} {fan} {duty}"));
        if self.broken_fan == Some(fan) {
            return Err("no permission".into());
        }
        Ok(())
    }

    fn reset_fan(&mut self, uuid: &str, fan: u32) -> Answer<()> {
        self.log.push(format!("reset {uuid} {fan}"));
        if self.broken_fan == Some(fan) {
            return Err("no permission".into());
        }
        Ok(())
    }
}

fn rack() -> Rack {
    Rack {
        fans: 2,
        range: Some((30, 90)),
        ..Rack::default()
    }
}

fn set(channels: Vec<u32>, percent: u8) -> HelperRequest {
    HelperRequest::SetFans {
        alias: "gpu0".into(),
        uuid: "GPU-a".into(),
        channels,
        percent,
    }
}

fn release() -> HelperRequest {
    HelperRequest::Release {
        alias: "gpu0".into(),
        uuid: "GPU-a".into(),
    }
}

fn read() -> HelperRequest {
    HelperRequest::ReadTemperature {
        alias: "gpu0".into(),
        uuid: "GPU-a".into(),
    }
}

fn failure(driver: &mut HelperDriver<Rack>, request: &HelperRequest) -> String {
    match driver.execute(request) {
        Ok(result) => panic!("unexpected success: {result:?}"),
        Err(error) => error.to_text(),
    }
}

fn field(report: &Json, name: &str) -> String {
    let Json::Object(fields) = report else {
        panic!("not an object");
    };
    let found = fields.iter().find(|entry| entry.0 == name);
    format!("{:?}", found.map(|entry| &entry.1))
}

#[test]
fn the_library_is_loaded_once_and_the_fans_are_asked_for_once() {
    let mut driver = HelperDriver::new(rack());
    assert!(driver.execute(&set(vec![], 10)).is_ok());
    assert!(driver.execute(&set(vec![1], 95)).is_ok());
    assert_eq!(
        driver.gpus.log,
        [
            "load",
            "find GPU-a",
            "fans GPU-a",
            "range GPU-a",
            "find GPU-a",
            "set GPU-a 0 30",
            "set GPU-a 1 30",
            "find GPU-a",
            "set GPU-a 1 90",
        ]
    );
}

#[test]
fn a_fan_write_is_reported() {
    let mut driver = HelperDriver::new(rack());
    let Ok(HelperResult::Value(report)) = driver.execute(&set(vec![1], 42)) else {
        panic!("no report");
    };
    assert_eq!(field(&report, "percent"), format!("{:?}", Some(Json::number(42))));
    let mut plain = HelperDriver::new(Rack { range: None, ..rack() });
    assert!(plain.execute(&set(vec![0], 100)).is_ok());
    assert_eq!(plain.gpus.log.last().map(String::as_str), Some("set GPU-a 0 100"));
}

#[test]
fn a_failed_write_stops_and_keeps_control() {
    let mut driver = HelperDriver::new(Rack {
        broken_fan: Some(0),
        ..rack()
    });
    assert_eq!(
        failure(&mut driver, &set(vec![], 50)),
        "driver error: could not set 'gpu0' fan 0: no permission"
    );
    assert_eq!(driver.gpus.log.last().map(String::as_str), Some("set GPU-a 0 50"));
    assert!(driver.fans.controlled.contains_key("GPU-a"));
    assert_eq!(
        failure(&mut driver, &release()),
        "driver error: could not restore 'gpu0' automatic fan policy: fan 0: no permission"
    );
    assert_eq!(driver.gpus.log.last().map(String::as_str), Some("reset GPU-a 1"));
    assert!(driver.fans.controlled.contains_key("GPU-a"));
    driver.gpus.broken_fan = None;
    assert!(matches!(driver.execute(&release()), Ok(HelperResult::Unit)));
    assert!(!driver.fans.controlled.contains_key("GPU-a"));
}

#[test]
fn writes_that_no_fan_can_take_are_refused() {
    let mut driver = HelperDriver::new(rack());
    assert_eq!(
        failure(&mut driver, &set(vec![0, 2], 50)),
        "driver error: fan 2 does not exist on 'gpu0'"
    );
    let mut driver = HelperDriver::new(Rack { fans: 0, ..rack() });
    assert_eq!(
        failure(&mut driver, &set(vec![], 50)),
        "driver error: device 'gpu0' reports no controllable fans"
    );
    let mut driver = HelperDriver::new(Rack {
        range: Some((90, 30)),
        ..rack()
    });
    assert_eq!(
        failure(&mut driver, &set(vec![], 50)),
        "driver error: device 'gpu0' reports an invalid fan range"
    );
    assert!(driver.gpus.log.iter().all(|call| !call.starts_with("set")));
    assert!(driver.fans.controlled.contains_key("GPU-a"));
}

#[test]
fn a_missing_library_or_gpu_is_reported() {
    let mut driver = HelperDriver::new(Rack {
        no_library: true,
        ..rack()
    });
    let missing =
        "driver error: could not load or initialize libnvidia-ml.so.1: library not found";
    assert_eq!(failure(&mut driver, &read()), missing);
    assert_eq!(failure(&mut driver, &HelperRequest::DiscoverAll), missing);
    assert_eq!(driver.gpus.log, ["load", "load"]);
    let mut driver = HelperDriver::new(Rack { lost: true, ..rack() });
    assert_eq!(
        failure(&mut driver, &read()),
        "driver error: device 'gpu0' is unavailable: GPU is lost"
    );
    let mut driver = HelperDriver::new(Rack { faulty: true, ..rack() });
    assert_eq!(
        failure(&mut driver, &read()),
        "driver error: could not read 'gpu0' temperature: no sensor"
    );
    assert_eq!(
        failure(&mut driver, &release()),
        "driver error: could not count fans for 'gpu0': not supported"
    );
}

#[test]
fn temperatures_are_read() {
    let mut driver = HelperDriver::new(rack());
    let Ok(HelperResult::Temperature(value)) = driver.execute(&read()) else {
        panic!("no temperature");
    };
    assert_eq!(value.bits, 41.0f64.to_bits());
    assert_eq!(driver.gpus.log, ["load", "find GPU-a", "temperature GPU-a"]);
}

#[test]
fn gpus_are_described_under_their_index() {
    let mut driver = HelperDriver::new(rack());
    let Ok(HelperResult::Devices(devices)) = driver.execute(&HelperRequest::DiscoverAll) else {
        panic!("no devices");
    };
    assert_eq!(devices.len(), 2);
    assert_eq!(devices[1].id, "GPU-1");
    assert_eq!(devices[1].name, "NVIDIA GPU 1");
    assert_eq!(devices[1].details.get("index").map(String::as_str), Some("1"));
    assert_eq!(devices[1].details.get("fan0_policy").map(String::as_str), Some("Manual"));
    assert_eq!(driver.gpus.log, ["load", "count", "read 0", "read 1"]);
    let mut driver = HelperDriver::new(Rack { faulty: true, ..rack() });
    assert_eq!(
        failure(&mut driver, &HelperRequest::DiscoverAll),
        "driver error: could not open GPU 1: not there"
    );
    let mut driver = HelperDriver::new(Rack {
        nameless: true,
        ..rack()
    });
    assert_eq!(
        failure(&mut driver, &HelperRequest::DiscoverAll),
        "driver error: could not read GPU 1 UUID: no name"
    );
}

#[test]
fn a_shutdown_gives_every_gpu_back() {
    let mut driver = HelperDriver::new(rack());
    assert!(driver.shutdown().is_empty());
    assert!(driver.gpus.log.is_empty());
    assert!(driver.execute(&set(vec![0], 50)).is_ok());
    driver.gpus.log.clear();
    assert!(matches!(driver.execute(&HelperRequest::Shutdown), Ok(HelperResult::Unit)));
    assert_eq!(
        driver.gpus.log,
        ["find GPU-a", "reset GPU-a 0", "reset GPU-a 1", "unload"]
    );
    assert!(!driver.loaded);
    assert!(driver.fans.controlled.is_empty());
    assert!(driver.fans.capabilities.is_empty());
}

#[test]
fn a_gpu_that_cannot_be_given_back_is_named() {
    let mut driver = HelperDriver::new(rack());
    assert!(driver.execute(&set(vec![0], 50)).is_ok());
    driver.gpus.broken_fan = Some(1);
    let left = driver.shutdown();
    assert_eq!(left.len(), 1);
    assert_eq!(left[0].0, "GPU-a");
    assert_eq!(
        left[0].1.to_text(),
        "driver error: could not restore 'GPU-a' automatic fan policy: fan 1: no permission"
    );
    assert!(driver.fans.controlled.contains_key("GPU-a"));
    assert!(!driver.loaded);
}

#[test]
fn lines_of_input_are_served_until_the_last() {
    let mut driver = HelperDriver::new(rack());
    let served = driver.serve(Err("expected value".into()));
    assert!(!served.last);
    assert!(matches!(
        served.response,
        Some(HelperResponse::Error { message })
            if message == "invalid NVIDIA helper request: expected value"
    ));
    let served = driver.serve(Ok(read()));
    assert!(!served.last);
    assert!(matches!(
        served.response,
        Some(HelperResponse::Success { result: HelperResult::Temperature(_) })
    ));
    let served = driver.serve(Ok(set(vec![5], 50)));
    assert!(!served.last);
    assert!(matches!(
        served.response,
        Some(HelperResponse::Error { message })
            if message == "driver error: fan 5 does not exist on 'gpu0'"
    ));
    let served = driver.serve(Ok(HelperRequest::Shutdown));
    assert!(served.last);
    assert!(matches!(
        served.response,
        Some(HelperResponse::Success { result: HelperResult::Unit })
    ));
    let served = driver.serve(Ok(HelperRequest::Stop));
    assert!(served.last);
    assert!(served.response.is_none());
}

#[test]
fn the_library_of_an_unsupported_host_does_not_load() {
    let mut driver = HelperDriver::new(Unsupported::new());
    let Err(error) = driver.execute(&release()) else {
        panic!("the library was loaded");
    };
    assert_eq!(
        error.to_text(),
        "driver error: could not load or initialize libnvidia-ml.so.1: Linux host required"
    );
}
