use feather::config::SensorConfig;
use feather::drivers::hwmon::{
    discover, input_stem, is_temp_input, label_file, resolve, validate_sensors, HwmonDirectory,
    HwmonFile, HwmonListing,
};
use feather::error::FeatherError;
use feather::names::NameMap;

fn file(name: &str, label: Option<&str>) -> HwmonFile {
    HwmonFile {
        name: name.to_owned(),
        path: format!("/sys/class/hwmon/hwmon1/{name}"),
        label: label.map(str::to_owned),
    }
}

fn directory(device: &str, files: Vec<HwmonFile>) -> HwmonDirectory {
    HwmonDirectory {
        path: "/sys/class/hwmon/hwmon1".to_owned(),
        chip: Some("k10temp\n".to_owned()),
        device: device.to_owned(),
        files: Ok(files),
    }
}

fn listing(directories: Vec<HwmonDirectory>) -> HwmonListing {
    let mut list = NameMap::new();
    for (at, directory) in directories.into_iter().enumerate() {
        list.insert(format!("/sys/class/hwmon/hwmon{at}"), directory);
    }
    HwmonListing {
        base: "/sys/class/hwmon".to_owned(),
        directories: Ok(list),
    }
}

fn sensor(device: &str) -> SensorConfig {
    SensorConfig::LinuxHwmon {
        device: device.to_owned(),
        chip: "k10temp".to_owned(),
        label: "Tctl".to_owned(),
    }
}

#[test]
fn selects_a_sensor_by_chip_device_and_label() {
    let directories = listing(vec![directory(
        "/sys/devices/0000:00:18.3",
        vec![
            file("temp1_label", None),
            file("temp2_input", None),
            file("temp1_input", Some("Tctl\n")),
        ],
    )]);
    assert_eq!(
        resolve(&directories, &sensor("0000:00:18.3")).unwrap(),
        "/sys/class/hwmon/hwmon1/temp1_input"
    );
    let found = discover(&directories).unwrap();
    assert_eq!(found[0].name, "k10temp/Tctl");
    assert_eq!(found[1].name, "k10temp/temp2");
    assert_eq!(found[0].id, "hwmon:/sys/devices/0000:00:18.3:temp1");
}

#[test]
fn a_selector_has_to_mean_exactly_one_input() {
    let none = listing(vec![]);
    let twice = listing(vec![
        directory("/sys/devices/0000:00:18.3", vec![file("temp1_input", Some("Tctl"))]),
        directory("/sys/devices/0000:00:18.3/x", vec![file("temp1_input", Some("Tctl"))]),
    ]);
    assert_eq!(
        resolve(&twice, &sensor("0000:00:18.3")).unwrap_err(),
        FeatherError::Driver(
            "hwmon sensor k10temp/Tctl on '0000:00:18.3' is ambiguous (2 matches)".to_owned()
        )
    );
    assert_eq!(
        resolve(&none, &sensor("0000:00:18.3")).unwrap_err(),
        FeatherError::Driver(
            "hwmon sensor k10temp/Tctl on '0000:00:18.3' was not found".to_owned()
        )
    );
    let other = SensorConfig::NvidiaNvml {
        device: "gpu0".to_owned(),
    };
    assert_eq!(
        resolve(&twice, &other).unwrap_err(),
        FeatherError::Driver("sensor is not a hwmon source".to_owned())
    );
    let mut sensors = NameMap::new();
    sensors.insert("gpu".to_owned(), other);
    assert!(validate_sensors(&none, &sensors).is_ok());
    sensors.insert("cpu".to_owned(), sensor("0000:00:18.3"));
    assert_eq!(
        validate_sensors(&none, &sensors).unwrap_err(),
        FeatherError::Driver(
            "sensor 'cpu': driver error: hwmon sensor k10temp/Tctl on '0000:00:18.3' was not found"
                .to_owned()
        )
    );
}

#[test]
fn a_directory_that_cannot_be_listed_is_an_error() {
    let mut broken = directory("/sys/devices/0000:00:18.3", vec![]);
    broken.files = Err("denied".to_owned());
    let expected =
        FeatherError::Driver("could not scan /sys/class/hwmon/hwmon1: denied".to_owned());
    let directories = listing(vec![broken]);
    assert_eq!(
        resolve(&directories, &sensor("0000:00:18.3")).unwrap_err(),
        expected
    );
    assert_eq!(discover(&directories).unwrap_err(), expected);
    assert!(resolve(&directories, &sensor("0000:00:18.4"))
        .unwrap_err()
        .to_text()
        .contains("was not found"));
}

#[test]
fn a_listing_that_failed_is_an_error() {
    let failed = HwmonListing {
        base: "/sys/class/hwmon".to_owned(),
        directories: Err("denied".to_owned()),
    };
    let expected = FeatherError::Driver("could not scan /sys/class/hwmon: denied".to_owned());
    assert_eq!(
        resolve(&failed, &sensor("0000:00:18.3")).unwrap_err(),
        expected
    );
    assert_eq!(discover(&failed).unwrap_err(), expected);
    let mut sensors = NameMap::new();
    sensors.insert(
        "gpu".to_owned(),
        SensorConfig::NvidiaNvml {
            device: "gpu0".to_owned(),
        },
    );
    assert!(validate_sensors(&failed, &sensors).is_ok());
    sensors.insert("cpu".to_owned(), sensor("0000:00:18.3"));
    assert_eq!(
        validate_sensors(&failed, &sensors).unwrap_err().to_text(),
        "driver error: sensor 'cpu': driver error: could not scan /sys/class/hwmon: denied"
    );
}

#[test]
fn inputs_come_in_order_of_directories_and_files() {
    let mut list = NameMap::new();
    for (path, device) in [("/b", "/devices/b"), ("/a", "/devices/a")] {
        list.insert(
            path.to_owned(),
            directory(device, vec![file("temp2_input", None), file("temp1_input", None)]),
        );
    }
    let found = discover(&HwmonListing {
        base: "/".to_owned(),
        directories: Ok(list),
    })
    .unwrap();
    let ids: Vec<&str> = found.iter().map(|device| device.id.as_str()).collect();
    assert_eq!(
        ids,
        [
            "hwmon:/devices/a:temp1",
            "hwmon:/devices/a:temp2",
            "hwmon:/devices/b:temp1",
            "hwmon:/devices/b:temp2"
        ]
    );
}

#[test]
fn input_files_are_told_by_their_names() {
    assert!(is_temp_input("temp1_input"));
    assert!(!is_temp_input("temp1_label"));
    assert!(!is_temp_input("fan1_input"));
    assert_eq!(input_stem("temp1_input"), "temp1");
    assert_eq!(input_stem("temp1_input_input"), "temp1");
    assert_eq!(input_stem("temp1"), "temp1");
    assert_eq!(label_file("temp12_input"), "temp12_label");
}
