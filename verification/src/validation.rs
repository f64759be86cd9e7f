//! The rules a configuration must satisfy, and the first one it breaks.

use vstd::prelude::*;

use crate::celsius::Celsius;
use crate::config::parse_time;
use crate::config::AssignmentConfig;
use crate::config::ColorPoint;
use crate::config::Config;
use crate::config::DeviceConfig;
use crate::config::FanPoint;
use crate::config::OutputConfig;
use crate::config::Problem;
use crate::config::ScheduleConfig;
use crate::config::SensorConfig;
use crate::config::CONFIG_SCHEMA_VERSION;
use crate::error::FeatherError;
use crate::error::Result;
use crate::names;
use crate::names::NameMap;
use crate::search;
use crate::text;

verus! {

// ---------------------------------------------------------------- daemon settings

/// What is wrong with the schema version, the daemon settings, or the default profile.
pub open spec fn settings_problem(config: Config) -> Problem {
    if config.schema_version != CONFIG_SCHEMA_VERSION {
        Some("schema_version must be 1"@)
    } else if config.daemon.poll_interval == 0 {
        Some("daemon.poll_interval must be greater than zero"@)
    } else if config.daemon.stale_after < config.daemon.poll_interval {
        Some("daemon.stale_after must be at least daemon.poll_interval"@)
    } else if config.daemon.socket@.len() == 0 {
        Some("daemon.socket must not be empty"@)
    } else if config.daemon.state_file@.len() == 0 {
        Some("daemon.state_file must not be empty"@)
    } else if config.daemon.failure_limit == 0 {
        Some("daemon.failure_limit must be greater than zero"@)
    } else if config.daemon.driver_timeout == 0 {
        Some("daemon.driver_timeout must be greater than zero"@)
    } else if !names::has(config.profiles@, config.default_profile@) {
        Some("default_profile '"@ + config.default_profile@ + "' does not exist"@)
    } else {
        None
    }
}

fn is_empty(value: &str) -> (empty: bool)
    ensures
        empty == (value@.len() == 0),
{
    let chars = text::to_chars(value);
    chars.len() == 0
}

fn fail(message: String) -> (result: Result<()>)
    ensures
        result == Err::<(), FeatherError>(FeatherError::Config(message)),
{
    Err(FeatherError::Config(message))
}

fn check_settings(config: &Config) -> (result: Result<()>)
    ensures
        crate::config::reports(result, settings_problem(*config)),
{
    if config.schema_version != CONFIG_SCHEMA_VERSION {
        return fail("schema_version must be 1".to_owned());
    }
    if config.daemon.poll_interval == 0 {
        return fail("daemon.poll_interval must be greater than zero".to_owned());
    }
    if config.daemon.stale_after < config.daemon.poll_interval {
        return fail("daemon.stale_after must be at least daemon.poll_interval".to_owned());
    }
    if is_empty(config.daemon.socket.as_str()) {
        return fail("daemon.socket must not be empty".to_owned());
    }
    if is_empty(config.daemon.state_file.as_str()) {
        return fail("daemon.state_file must not be empty".to_owned());
    }
    if config.daemon.failure_limit == 0 {
        return fail("daemon.failure_limit must be greater than zero".to_owned());
    }
    if config.daemon.driver_timeout == 0 {
        return fail("daemon.driver_timeout must be greater than zero".to_owned());
    }
    if !config.profiles.contains_key(config.default_profile.as_str()) {
        return fail(
            text::concat3(
                "default_profile '",
                config.default_profile.as_str(),
                "' does not exist",
            ),
        );
    }
    Ok(())
}

// ---------------------------------------------------------------- devices

/// What identifies the hardware behind a device: equal selectors select the same device.
pub open spec fn selector(device: DeviceConfig) -> Seq<char> {
    match device {
        DeviceConfig::CorsairIcueLink { vendor_id, product_id, unique_id, interface, .. } => {
            "corsair:"@ + text::hex_padded(vendor_id as nat, 4) + ":"@ + text::hex_padded(
                product_id as nat,
                4,
            ) + ":"@ + (match unique_id {
                Some(id) => id@,
                None => "*"@,
            }) + ":"@ + text::signed_decimal(interface as int)
        },
        DeviceConfig::NvidiaNvml { uuid } => "nvidia:"@ + uuid@,
        DeviceConfig::WireViewProIi { serial } => "wireview:"@ + text::upper(serial@),
    }
}

/// What is wrong with a device by itself.
pub open spec fn device_field_problem(name: Seq<char>, device: DeviceConfig) -> Problem {
    match device {
        DeviceConfig::CorsairIcueLink { unique_id, expected_fan_count, .. } => {
            if unique_id is Some && text::blank(unique_id->0@) {
                Some("devices."@ + name + ".unique_id must not be empty"@)
            } else if expected_fan_count is Some && !(1 <= expected_fan_count->0 <= 24) {
                Some("devices."@ + name + ".expected_fan_count must be from 1 through 24"@)
            } else {
                None
            }
        },
        DeviceConfig::NvidiaNvml { uuid } => if text::blank(uuid@) {
            Some("devices."@ + name + ".uuid must not be empty"@)
        } else {
            None
        },
        DeviceConfig::WireViewProIi { serial } => if text::blank(serial@) {
            Some("devices."@ + name + ".serial must not be empty"@)
        } else {
            None
        },
    }
}

/// Whether an earlier device selects the same hardware as the one at `at`.
pub open spec fn selector_taken(devices: names::Entries<DeviceConfig>, at: int) -> bool {
    exists|other: int|
        0 <= other < at && selector(#[trigger] devices[other].1) == selector(devices[at].1)
}

/// What is wrong with each device.
pub open spec fn device_problem(devices: names::Entries<DeviceConfig>) -> spec_fn(int) -> Problem {
    |at: int|
        search::either(
            device_field_problem(devices[at].0, devices[at].1),
            if selector_taken(devices, at) {
                Some(
                    "devices."@ + devices[at].0
                        + " selects hardware already claimed by another alias"@,
                )
            } else {
                None
            },
        )
}

/// The first problem among the devices.
pub open spec fn devices_problem(devices: names::Entries<DeviceConfig>) -> Problem {
    search::first(device_problem(devices), 0, devices.len() as int)
}

fn device_selector(device: &DeviceConfig) -> (result: String)
    ensures
        result@ == selector(*device),
{
    match device {
        DeviceConfig::CorsairIcueLink { vendor_id, product_id, unique_id, interface, .. } => {
            let mut result = "corsair:".to_owned();
            text::push_hex(&mut result, *vendor_id as u64, 4);
            result.append(":");
            text::push_hex(&mut result, *product_id as u64, 4);
            result.append(":");
            match unique_id {
                Some(id) => result.append(id.as_str()),
                None => result.append("*"),
            }
            result.append(":");
            text::push_signed(&mut result, *interface as i64);
            result
        },
        DeviceConfig::NvidiaNvml { uuid } => text::concat2("nvidia:", uuid.as_str()),
        DeviceConfig::WireViewProIi { serial } => {
            let serial = text::to_upper(serial.as_str());
            text::concat2("wireview:", serial.as_str())
        },
    }
}

fn check_device_fields(name: &str, device: &DeviceConfig) -> (result: Result<()>)
    ensures
        crate::config::reports(result, device_field_problem(name@, *device)),
{
    match device {
        DeviceConfig::CorsairIcueLink { unique_id, expected_fan_count, .. } => {
            if let Some(id) = unique_id {
                if text::is_blank(id.as_str()) {
                    return fail(
                        text::concat3("devices.", name, ".unique_id must not be empty"),
                    );
                }
            }
            if let Some(count) = expected_fan_count {
                if *count < 1 || *count > 24 {
                    return fail(
                        text::concat3(
                            "devices.",
                            name,
                            ".expected_fan_count must be from 1 through 24",
                        ),
                    );
                }
            }
        },
        DeviceConfig::NvidiaNvml { uuid } => {
            if text::is_blank(uuid.as_str()) {
                return fail(text::concat3("devices.", name, ".uuid must not be empty"));
            }
        },
        DeviceConfig::WireViewProIi { serial } => {
            if text::is_blank(serial.as_str()) {
                return fail(text::concat3("devices.", name, ".serial must not be empty"));
            }
        },
    }
    Ok(())
}

fn contains_text(list: &Vec<String>, value: &str) -> (found: bool)
    ensures
        found == exists|i: int| 0 <= i < list@.len() && (#[trigger] list@[i])@ == value@,
{
    let mut i: usize = 0;
    while i < list.len()
        invariant
            i <= list@.len(),
            forall|j: int| 0 <= j < i ==> (#[trigger] list@[j])@ != value@,
        decreases list@.len() - i,
    {
        if text::same(list[i].as_str(), value) {
            return true;
        }
        i += 1;
    }
    false
}

fn check_devices(devices: &NameMap<DeviceConfig>) -> (result: Result<()>)
    ensures
        crate::config::reports(result, devices_problem(devices@)),
{
    let mut selectors: Vec<String> = Vec::new();
    let mut at: usize = 0;
    let count: usize = devices.len();
    while at < count
        invariant
            count == devices@.len(),
            at <= count,
            selectors@.len() == at,
            forall|i: int|
                0 <= i < at ==> (#[trigger] selectors@[i])@ == selector(devices@[i].1),
            devices_problem(devices@) == search::first(device_problem(devices@), at as int, count as int),
        decreases count - at,
    {
        let name = devices.key_at(at);
        let device = devices.value_at(at);
        check_device_fields(name.as_str(), device)?;
        let selector = device_selector(device);
        let taken = contains_text(&selectors, selector.as_str());
        proof {
            if taken {
                let i = choose|i: int|
                    0 <= i < selectors@.len() && (#[trigger] selectors@[i])@ == selector@;
                assert(crate::validation::selector(devices@[i].1) == crate::validation::selector(
                    devices@[at as int].1,
                ));
            } else if selector_taken(devices@, at as int) {
                let i = choose|other: int|
                    0 <= other < at && crate::validation::selector(#[trigger] devices@[other].1)
                        == crate::validation::selector(devices@[at as int].1);
                assert(selectors@[i]@ == selector@);
            }
        }
        if taken {
            return fail(
                text::concat3(
                    "devices.",
                    name.as_str(),
                    " selects hardware already claimed by another alias",
                ),
            );
        }
        selectors.push(selector);
        at += 1;
    }
    Ok(())
}

// ---------------------------------------------------------------- sensors

/// Whether `name` is a Corsair hub.
pub open spec fn is_corsair(devices: names::Entries<DeviceConfig>, name: Seq<char>) -> bool {
    names::find(devices, name) matches Some(DeviceConfig::CorsairIcueLink { .. })
}

/// Whether `name` is an NVIDIA GPU.
pub open spec fn is_nvidia(devices: names::Entries<DeviceConfig>, name: Seq<char>) -> bool {
    names::find(devices, name) matches Some(DeviceConfig::NvidiaNvml { .. })
}

/// Whether `name` is a WireView Pro II.
pub open spec fn is_wireview(devices: names::Entries<DeviceConfig>, name: Seq<char>) -> bool {
    names::find(devices, name) matches Some(DeviceConfig::WireViewProIi { .. })
}

/// A reference to a name that is missing.
pub open spec fn missing_key<V>(
    kind: Seq<char>,
    owner: Seq<char>,
    key: Seq<char>,
    entries: names::Entries<V>,
) -> Problem {
    if names::has(entries, key) {
        None
    } else {
        Some(owner + " references unknown "@ + kind + " '"@ + key + "'"@)
    }
}

/// What is wrong with one sensor.
pub open spec fn sensor_problem_of(
    devices: names::Entries<DeviceConfig>,
    name: Seq<char>,
    sensor: SensorConfig,
) -> Problem {
    match sensor {
        SensorConfig::LinuxHwmon { device, chip, label } => {
            if device@.len() == 0 || chip@.len() == 0 || label@.len() == 0 {
                Some("sensors."@ + name + " requires non-empty device, chip, and label"@)
            } else {
                None
            }
        },
        SensorConfig::NvidiaNvml { device } => search::either(
            missing_key("device"@, name, device@, devices),
            if is_nvidia(devices, device@) {
                None
            } else {
                Some("sensors."@ + name + " requires an nvidia-nvml device"@)
            },
        ),
        SensorConfig::CorsairIcueLink { device, .. } => search::either(
            missing_key("device"@, name, device@, devices),
            if is_corsair(devices, device@) {
                None
            } else {
                Some("sensors."@ + name + " requires a corsair-icue-link device"@)
            },
        ),
    }
}

/// What is wrong with each sensor.
pub open spec fn sensor_problem(config: Config) -> spec_fn(int) -> Problem {
    |at: int|
        sensor_problem_of(config.devices@, config.sensors@[at].0, config.sensors@[at].1)
}

/// The first problem among the sensors.
pub open spec fn sensors_problem(config: Config) -> Problem {
    search::first(sensor_problem(config), 0, config.sensors@.len() as int)
}

fn require_key<V: View>(kind: &str, owner: &str, key: &str, map: &NameMap<V>) -> (result: Result<()>)
    ensures
        crate::config::reports(result, missing_key(kind@, owner@, key@, map@)),
{
    if map.contains_key(key) {
        Ok(())
    } else {
        fail(text::concat6(owner, " references unknown ", kind, " '", key, "'"))
    }
}

fn names_corsair(devices: &NameMap<DeviceConfig>, name: &str) -> (result: bool)
    ensures
        result == is_corsair(devices@, name@),
{
    match devices.get(name) {
        Some(DeviceConfig::CorsairIcueLink { .. }) => true,
        _ => false,
    }
}

fn names_nvidia(devices: &NameMap<DeviceConfig>, name: &str) -> (result: bool)
    ensures
        result == is_nvidia(devices@, name@),
{
    match devices.get(name) {
        Some(DeviceConfig::NvidiaNvml { .. }) => true,
        _ => false,
    }
}

fn names_wireview(devices: &NameMap<DeviceConfig>, name: &str) -> (result: bool)
    ensures
        result == is_wireview(devices@, name@),
{
    match devices.get(name) {
        Some(DeviceConfig::WireViewProIi { .. }) => true,
        _ => false,
    }
}

fn check_sensor(
    devices: &NameMap<DeviceConfig>,
    name: &str,
    sensor: &SensorConfig,
) -> (result: Result<()>)
    ensures
        crate::config::reports(result, sensor_problem_of(devices@, name@, *sensor)),
{
    match sensor {
        SensorConfig::LinuxHwmon { device, chip, label } => {
            if is_empty(device.as_str()) || is_empty(chip.as_str()) || is_empty(label.as_str()) {
                return fail(
                    text::concat3(
                        "sensors.",
                        name,
                        " requires non-empty device, chip, and label",
                    ),
                );
            }
        },
        SensorConfig::NvidiaNvml { device } => {
            require_key("device", name, device.as_str(), devices)?;
            if !names_nvidia(devices, device.as_str()) {
                return fail(
                    text::concat3("sensors.", name, " requires an nvidia-nvml device"),
                );
            }
        },
        SensorConfig::CorsairIcueLink { device, .. } => {
            require_key("device", name, device.as_str(), devices)?;
            if !names_corsair(devices, device.as_str()) {
                return fail(
                    text::concat3("sensors.", name, " requires a corsair-icue-link device"),
                );
            }
        },
    }
    Ok(())
}

fn check_sensors(config: &Config) -> (result: Result<()>)
    ensures
        crate::config::reports(result, sensors_problem(*config)),
{
    let mut at: usize = 0;
    let count: usize = config.sensors.len();
    while at < count
        invariant
            count == config.sensors@.len(),
            at <= count,
            sensors_problem(*config) == search::first(sensor_problem(*config), at as int, count as int),
        decreases count - at,
    {
        check_sensor(
            &config.devices,
            config.sensors.key_at(at).as_str(),
            config.sensors.value_at(at),
        )?;
        at += 1;
    }
    Ok(())
}

// ---------------------------------------------------------------- curves and schedules

/// What is wrong with the temperature at each point of a curve.
pub open spec fn point_problem(name: Seq<char>, temps: Seq<Celsius>) -> spec_fn(int) -> Problem {
    |at: int|
        if !temps[at].finite() {
            Some(name + " temperatures must be finite"@)
        } else if at > 0 && temps[at].at_most(temps[at - 1]) {
            Some(name + " temperatures must increase from low to high"@)
        } else {
            None
        }
}

/// What is wrong with the temperatures of a curve.
pub open spec fn points_problem(name: Seq<char>, temps: Seq<Celsius>) -> Problem {
    if temps.len() == 0 {
        Some(name + ".points must not be empty"@)
    } else {
        search::first(point_problem(name, temps), 0, temps.len() as int)
    }
}

/// The temperatures of fan points.
pub open spec fn fan_temps(points: Seq<FanPoint>) -> Seq<Celsius> {
    Seq::new(points.len(), |i: int| points[i].temp)
}

/// The temperatures of color points.
pub open spec fn color_temps(points: Seq<ColorPoint>) -> Seq<Celsius> {
    Seq::new(points.len(), |i: int| points[i].temp)
}

/// What is wrong with the percentage at each point of a fan curve.
pub open spec fn percent_problem(name: Seq<char>, points: Seq<FanPoint>) -> spec_fn(int) -> Problem {
    |at: int|
        if points[at].percent > 100 {
            Some(
                "curves."@ + name + " contains invalid fan percentage "@ + text::decimal(
                    points[at].percent as nat,
                ),
            )
        } else {
            None
        }
}

/// What is wrong with each fan curve.
pub open spec fn curve_problem(config: Config) -> spec_fn(int) -> Problem {
    |at: int|
        {
            let name = config.curves@[at].0;
            let points = config.curves@[at].1.points@;
            search::either(
                points_problem("curves."@ + name, fan_temps(points)),
                search::first(percent_problem(name, points), 0, points.len() as int),
            )
        }
}

/// The first problem among the fan curves.
pub open spec fn curves_problem(config: Config) -> Problem {
    search::first(curve_problem(config), 0, config.curves@.len() as int)
}

/// What is wrong with each color curve.
pub open spec fn color_curve_problem(config: Config) -> spec_fn(int) -> Problem {
    |at: int|
        points_problem(
            "color_curves."@ + config.color_curves@[at].0,
            color_temps(config.color_curves@[at].1.points@),
        )
}

/// The first problem among the color curves.
pub open spec fn color_curves_problem(config: Config) -> Problem {
    search::first(color_curve_problem(config), 0, config.color_curves@.len() as int)
}

/// What is wrong with one schedule.
pub open spec fn schedule_problem_of(name: Seq<char>, schedule: ScheduleConfig) -> Problem {
    match crate::config::time_of_day(schedule.start@) {
        Err(message) => Some("schedules."@ + name + ".start "@ + message),
        Ok(_) => match crate::config::time_of_day(schedule.end@) {
            Err(message) => Some("schedules."@ + name + ".end "@ + message),
            Ok(_) => None,
        },
    }
}

/// What is wrong with each schedule.
pub open spec fn schedule_problem(config: Config) -> spec_fn(int) -> Problem {
    |at: int| schedule_problem_of(config.schedules@[at].0, config.schedules@[at].1)
}

/// The first problem among the schedules.
pub open spec fn schedules_problem(config: Config) -> Problem {
    search::first(schedule_problem(config), 0, config.schedules@.len() as int)
}

fn validate_points(name: &str, temps: &Vec<Celsius>) -> (result: Result<()>)
    ensures
        crate::config::reports(result, points_problem(name@, temps@)),
{
    let mut at: usize = 0;
    while at < temps.len()
        invariant
            at <= temps@.len(),
            search::first(point_problem(name@, temps@), 0, temps@.len() as int) == search::first(
                point_problem(name@, temps@),
                at as int,
                temps@.len() as int,
            ),
        decreases temps@.len() - at,
    {
        if !temps[at].is_finite() {
            return fail(text::concat2(name, " temperatures must be finite"));
        }
        if at > 0 && temps[at].is_at_most(&temps[at - 1]) {
            return fail(text::concat2(name, " temperatures must increase from low to high"));
        }
        at += 1;
    }
    if temps.len() == 0 {
        return fail(text::concat2(name, ".points must not be empty"));
    }
    Ok(())
}

fn fan_point_temps(points: &Vec<FanPoint>) -> (temps: Vec<Celsius>)
    ensures
        temps@ == fan_temps(points@),
{
    let mut temps: Vec<Celsius> = Vec::new();
    let mut at: usize = 0;
    while at < points.len()
        invariant
            at <= points@.len(),
            temps@ =~= fan_temps(points@).take(at as int),
        decreases points@.len() - at,
    {
        temps.push(points[at].temp);
        at += 1;
    }
    assert(fan_temps(points@).take(at as int) =~= fan_temps(points@));
    temps
}

fn color_point_temps(points: &Vec<ColorPoint>) -> (temps: Vec<Celsius>)
    ensures
        temps@ == color_temps(points@),
{
    let mut temps: Vec<Celsius> = Vec::new();
    let mut at: usize = 0;
    while at < points.len()
        invariant
            at <= points@.len(),
            temps@ =~= color_temps(points@).take(at as int),
        decreases points@.len() - at,
    {
        temps.push(points[at].temp);
        at += 1;
    }
    assert(color_temps(points@).take(at as int) =~= color_temps(points@));
    temps
}

fn check_percents(name: &str, points: &Vec<FanPoint>) -> (result: Result<()>)
    ensures
        crate::config::reports(result, search::first(percent_problem(name@, points@), 0, points@.len() as int)),
{
    let mut at: usize = 0;
    while at < points.len()
        invariant
            at <= points@.len(),
            search::first(percent_problem(name@, points@), 0, points@.len() as int) == search::first(
                percent_problem(name@, points@),
                at as int,
                points@.len() as int,
            ),
        decreases points@.len() - at,
    {
        if points[at].percent > 100 {
            let mut message = text::concat3(
                "curves.",
                name,
                " contains invalid fan percentage ",
            );
            text::push_decimal(&mut message, points[at].percent as u64);
            return fail(message);
        }
        at += 1;
    }
    Ok(())
}

fn check_curves(config: &Config) -> (result: Result<()>)
    ensures
        crate::config::reports(result, curves_problem(*config)),
{
    let mut at: usize = 0;
    let count: usize = config.curves.len();
    while at < count
        invariant
            count == config.curves@.len(),
            at <= count,
            curves_problem(*config) == search::first(curve_problem(*config), at as int, count as int),
        decreases count - at,
    {
        let name = config.curves.key_at(at);
        let points = &config.curves.value_at(at).points;
        let temps = fan_point_temps(points);
        let label = text::concat2("curves.", name.as_str());
        validate_points(label.as_str(), &temps)?;
        check_percents(name.as_str(), points)?;
        at += 1;
    }
    Ok(())
}

fn check_color_curves(config: &Config) -> (result: Result<()>)
    ensures
        crate::config::reports(result, color_curves_problem(*config)),
{
    let mut at: usize = 0;
    let count: usize = config.color_curves.len();
    while at < count
        invariant
            count == config.color_curves@.len(),
            at <= count,
            color_curves_problem(*config) == search::first(
                color_curve_problem(*config),
                at as int,
                count as int,
            ),
        decreases count - at,
    {
        let temps = color_point_temps(&config.color_curves.value_at(at).points);
        let label = text::concat2("color_curves.", config.color_curves.key_at(at).as_str());
        validate_points(label.as_str(), &temps)?;
        at += 1;
    }
    Ok(())
}

fn check_schedules(config: &Config) -> (result: Result<()>)
    ensures
        crate::config::reports(result, schedules_problem(*config)),
{
    let mut at: usize = 0;
    let count: usize = config.schedules.len();
    while at < count
        invariant
            count == config.schedules@.len(),
            at <= count,
            schedules_problem(*config) == search::first(schedule_problem(*config), at as int, count as int),
        decreases count - at,
    {
        let name = config.schedules.key_at(at);
        let schedule = config.schedules.value_at(at);
        if let Err(message) = parse_time(schedule.start.as_str()) {
            return fail(
                text::concat4("schedules.", name.as_str(), ".start ", message.as_str()),
            );
        }
        if let Err(message) = parse_time(schedule.end.as_str()) {
            return fail(text::concat4("schedules.", name.as_str(), ".end ", message.as_str()));
        }
        at += 1;
    }
    Ok(())
}

// ---------------------------------------------------------------- outputs

/// The device that an output belongs to.
pub open spec fn device_of(output: OutputConfig) -> Seq<char> {
    match output {
        OutputConfig::Fan { device, .. } => device@,
        OutputConfig::Rgb { device, .. } => device@,
        OutputConfig::Display { device, .. } => device@,
    }
}

/// Whether the channel at `at` occurs before it.
pub open spec fn channel_repeats(channels: Seq<u32>, at: int) -> bool {
    exists|i: int| 0 <= i < at && #[trigger] channels[i] == channels[at]
}

/// A fan channel that was listed before.
pub open spec fn repeat_problem(name: Seq<char>, channels: Seq<u32>) -> spec_fn(int) -> Problem {
    |at: int|
        if channel_repeats(channels, at) {
            Some(
                "outputs."@ + name + ".channels contains duplicate channel "@ + text::decimal(
                    channels[at] as nat,
                ),
            )
        } else {
            None
        }
}

/// A fan channel that no Corsair hub has.
pub open spec fn wide_channel_problem(name: Seq<char>, channels: Seq<u32>) -> spec_fn(
    int,
) -> Problem {
    |at: int|
        if channels[at] > 255 {
            Some(
                "outputs."@ + name + ".channels contains Corsair channel "@ + text::decimal(
                    channels[at] as nat,
                ) + ", which is over 255"@,
            )
        } else {
            None
        }
}

/// A percentage over 100.
pub open spec fn over_hundred(name: Seq<char>, field: Seq<char>, value: u8) -> Problem {
    if value > 100 {
        Some("outputs."@ + name + "."@ + field + " must be at most 100"@)
    } else {
        None
    }
}

/// What is wrong with the settings of an output.
pub open spec fn output_field_problem(
    devices: names::Entries<DeviceConfig>,
    name: Seq<char>,
    output: OutputConfig,
) -> Problem {
    match output {
        OutputConfig::Fan {
            channels,
            minimum_percent,
            fail_safe_percent,
            hysteresis_percent,
            refresh_interval,
            ..
        } => {
            if minimum_percent > 100 {
                over_hundred(name, "minimum_percent"@, minimum_percent)
            } else if fail_safe_percent > 100 {
                over_hundred(name, "fail_safe_percent"@, fail_safe_percent)
            } else if hysteresis_percent > 100 {
                over_hundred(name, "hysteresis_percent"@, hysteresis_percent)
            } else if fail_safe_percent < minimum_percent {
                Some("outputs."@ + name + ".fail_safe_percent must be at least minimum_percent"@)
            } else if refresh_interval == 0 {
                Some("outputs."@ + name + ".refresh_interval must be greater than zero"@)
            } else {
                search::first(repeat_problem(name, channels@), 0, channels@.len() as int)
            }
        },
        OutputConfig::Rgb { device, led_count } => {
            if led_count == 0 {
                Some("outputs."@ + name + ".led_count must be greater than zero"@)
            } else if !is_corsair(devices, device@) {
                Some("outputs."@ + name + " requires a corsair-icue-link device"@)
            } else {
                None
            }
        },
        OutputConfig::Display { device, brightness_percent } => {
            if !(1 <= brightness_percent <= 100) {
                Some("outputs."@ + name + ".brightness_percent must be from 1 through 100"@)
            } else if !is_wireview(devices, device@) {
                Some("outputs."@ + name + " requires a wire-view-pro-ii device"@)
            } else {
                None
            }
        },
    }
}

/// What is wrong with the device of a fan output.
pub open spec fn fan_device_problem(
    devices: names::Entries<DeviceConfig>,
    name: Seq<char>,
    output: OutputConfig,
) -> Problem {
    match output {
        OutputConfig::Fan { device, channels, .. } => {
            if !is_corsair(devices, device@) && !is_nvidia(devices, device@) {
                Some("outputs."@ + name + " requires a fan-capable device"@)
            } else if is_corsair(devices, device@) {
                search::first(wide_channel_problem(name, channels@), 0, channels@.len() as int)
            } else {
                None
            }
        },
        _ => None,
    }
}

/// What is wrong with one output.
pub open spec fn output_problem_of(
    devices: names::Entries<DeviceConfig>,
    name: Seq<char>,
    output: OutputConfig,
) -> Problem {
    search::either(
        output_field_problem(devices, name, output),
        search::either(
            missing_key("device"@, name, device_of(output), devices),
            fan_device_problem(devices, name, output),
        ),
    )
}

/// What is wrong with each output.
pub open spec fn output_problem(config: Config) -> spec_fn(int) -> Problem {
    |at: int|
        output_problem_of(config.devices@, config.outputs@[at].0, config.outputs@[at].1)
}

/// The first problem among the outputs.
pub open spec fn outputs_problem(config: Config) -> Problem {
    search::first(output_problem(config), 0, config.outputs@.len() as int)
}

/// The device that an output belongs to.
pub fn output_device(output: &OutputConfig) -> (device: &str)
    ensures
        device@ == device_of(*output),
{
    match output {
        OutputConfig::Fan { device, .. } => device.as_str(),
        OutputConfig::Rgb { device, .. } => device.as_str(),
        OutputConfig::Display { device, .. } => device.as_str(),
    }
}

fn occurs_before(channels: &Vec<u32>, at: usize) -> (result: bool)
    requires
        at < channels@.len(),
    ensures
        result == channel_repeats(channels@, at as int),
{
    let mut i: usize = 0;
    while i < at
        invariant
            i <= at < channels@.len(),
            forall|j: int| 0 <= j < i ==> #[trigger] channels@[j] != channels@[at as int],
        decreases at - i,
    {
        if channels[i] == channels[at] {
            return true;
        }
        i += 1;
    }
    false
}

fn check_repeats(name: &str, channels: &Vec<u32>) -> (result: Result<()>)
    ensures
        crate::config::reports(result, search::first(repeat_problem(name@, channels@), 0, channels@.len() as int)),
{
    let mut at: usize = 0;
    while at < channels.len()
        invariant
            at <= channels@.len(),
            search::first(repeat_problem(name@, channels@), 0, channels@.len() as int) == search::first(
                repeat_problem(name@, channels@),
                at as int,
                channels@.len() as int,
            ),
        decreases channels@.len() - at,
    {
        if occurs_before(channels, at) {
            let mut message = text::concat3(
                "outputs.",
                name,
                ".channels contains duplicate channel ",
            );
            text::push_decimal(&mut message, channels[at] as u64);
            return fail(message);
        }
        at += 1;
    }
    Ok(())
}

fn check_wide_channels(name: &str, channels: &Vec<u32>) -> (result: Result<()>)
    ensures
        crate::config::reports(result, search::first(wide_channel_problem(name@, channels@), 0, channels@.len() as int)),
{
    let mut at: usize = 0;
    while at < channels.len()
        invariant
            at <= channels@.len(),
            search::first(wide_channel_problem(name@, channels@), 0, channels@.len() as int) == search::first(
                wide_channel_problem(name@, channels@),
                at as int,
                channels@.len() as int,
            ),
        decreases channels@.len() - at,
    {
        if channels[at] > 255 {
            let mut message = text::concat3(
                "outputs.",
                name,
                ".channels contains Corsair channel ",
            );
            text::push_decimal(&mut message, channels[at] as u64);
            message.append(", which is over 255");
            return fail(message);
        }
        at += 1;
    }
    Ok(())
}

fn check_hundred(name: &str, field: &str, value: u8) -> (result: Result<()>)
    ensures
        crate::config::reports(result, over_hundred(name@, field@, value)),
{
    if value > 100 {
        return fail(text::concat5("outputs.", name, ".", field, " must be at most 100"));
    }
    Ok(())
}

fn check_output_fields(
    devices: &NameMap<DeviceConfig>,
    name: &str,
    output: &OutputConfig,
) -> (result: Result<()>)
    ensures
        crate::config::reports(result, output_field_problem(devices@, name@, *output)),
{
    match output {
        OutputConfig::Fan {
            channels,
            minimum_percent,
            fail_safe_percent,
            hysteresis_percent,
            refresh_interval,
            ..
        } => {
            check_hundred(name, "minimum_percent", *minimum_percent)?;
            check_hundred(name, "fail_safe_percent", *fail_safe_percent)?;
            check_hundred(name, "hysteresis_percent", *hysteresis_percent)?;
            if *fail_safe_percent < *minimum_percent {
                return fail(
                    text::concat3(
                        "outputs.",
                        name,
                        ".fail_safe_percent must be at least minimum_percent",
                    ),
                );
            }
            if *refresh_interval == 0 {
                return fail(
                    text::concat3(
                        "outputs.",
                        name,
                        ".refresh_interval must be greater than zero",
                    ),
                );
            }
            check_repeats(name, channels)
        },
        OutputConfig::Rgb { device, led_count } => {
            if *led_count == 0 {
                return fail(
                    text::concat3("outputs.", name, ".led_count must be greater than zero"),
                );
            }
            if !names_corsair(devices, device.as_str()) {
                return fail(
                    text::concat3("outputs.", name, " requires a corsair-icue-link device"),
                );
            }
            Ok(())
        },
        OutputConfig::Display { device, brightness_percent } => {
            if *brightness_percent < 1 || *brightness_percent > 100 {
                return fail(
                    text::concat3(
                        "outputs.",
                        name,
                        ".brightness_percent must be from 1 through 100",
                    ),
                );
            }
            if !names_wireview(devices, device.as_str()) {
                return fail(
                    text::concat3("outputs.", name, " requires a wire-view-pro-ii device"),
                );
            }
            Ok(())
        },
    }
}

fn check_fan_device(
    devices: &NameMap<DeviceConfig>,
    name: &str,
    output: &OutputConfig,
) -> (result: Result<()>)
    ensures
        crate::config::reports(result, fan_device_problem(devices@, name@, *output)),
{
    match output {
        OutputConfig::Fan { device, channels, .. } => {
            let corsair = names_corsair(devices, device.as_str());
            if !corsair && !names_nvidia(devices, device.as_str()) {
                return fail(
                    text::concat3("outputs.", name, " requires a fan-capable device"),
                );
            }
            if corsair {
                check_wide_channels(name, channels)
            } else {
                Ok(())
            }
        },
        _ => Ok(()),
    }
}

fn check_outputs(config: &Config) -> (result: Result<()>)
    ensures
        crate::config::reports(result, outputs_problem(*config)),
{
    let mut at: usize = 0;
    let count: usize = config.outputs.len();
    while at < count
        invariant
            count == config.outputs@.len(),
            at <= count,
            outputs_problem(*config) == search::first(output_problem(*config), at as int, count as int),
        decreases count - at,
    {
        let name = config.outputs.key_at(at);
        let output = config.outputs.value_at(at);
        check_output_fields(&config.devices, name.as_str(), output)?;
        require_key("device", name.as_str(), output_device(output), &config.devices)?;
        check_fan_device(&config.devices, name.as_str(), output)?;
        at += 1;
    }
    Ok(())
}

// ---------------------------------------------------------------- hardware ownership

/// Outputs by name.
pub type Outputs = names::Entries<OutputConfig>;

/// The fan channels that an output lists, none for other outputs.
pub open spec fn channels_of(output: OutputConfig) -> Seq<u32> {
    match output {
        OutputConfig::Fan { channels, .. } => channels@,
        _ => Seq::empty(),
    }
}

/// Whether an output on `device` claims all fans.
pub open spec fn claims_all_fans(output: OutputConfig, device: Seq<char>) -> bool {
    device_of(output) == device && output is Fan && channels_of(output).len() == 0
}

/// The outputs on `device` that claim all fans.
pub open spec fn all_fans_at(outputs: Outputs, device: Seq<char>) -> spec_fn(int) -> Option<int> {
    |at: int|
        if claims_all_fans(outputs[at].1, device) {
            Some(at)
        } else {
            None
        }
}

/// The outputs on `device` that claim a fan channel.
pub open spec fn channel_at(outputs: Outputs, device: Seq<char>, channel: u32) -> spec_fn(
    int,
) -> Option<int> {
    |at: int|
        if device_of(outputs[at].1) == device && channels_of(outputs[at].1).contains(channel) {
            Some(at)
        } else {
            None
        }
}

/// The output before `at` that claims a fan channel of `device`.
pub open spec fn channel_owner(
    outputs: Outputs,
    device: Seq<char>,
    channel: u32,
    at: int,
) -> Option<int> {
    search::first(channel_at(outputs, device, channel), 0, at)
}

/// Whether `channel` is the lowest fan channel of `device` claimed before `at`.
pub open spec fn lowest_claimed(
    outputs: Outputs,
    device: Seq<char>,
    at: int,
    channel: u32,
) -> bool {
    &&& channel_owner(outputs, device, channel, at) is Some
    &&& forall|other: u32|
        (#[trigger] channel_owner(outputs, device, other, at)) is Some ==> channel <= other
}

/// The output before `at` that claims the lowest fan channel of `device`.
pub open spec fn lowest_owner(outputs: Outputs, device: Seq<char>, at: int) -> Option<int> {
    if exists|channel: u32| #[trigger] lowest_claimed(outputs, device, at, channel) {
        let channel = choose|channel: u32| #[trigger] lowest_claimed(outputs, device, at, channel);
        channel_owner(outputs, device, channel, at)
    } else {
        None
    }
}

/// The RGB outputs on `device`.
pub open spec fn rgb_at(outputs: Outputs, device: Seq<char>) -> spec_fn(int) -> Option<int> {
    |at: int|
        if device_of(outputs[at].1) == device && outputs[at].1 is Rgb {
            Some(at)
        } else {
            None
        }
}

/// The display outputs on `device`.
pub open spec fn display_at(outputs: Outputs, device: Seq<char>) -> spec_fn(int) -> Option<int> {
    |at: int|
        if device_of(outputs[at].1) == device && outputs[at].1 is Display {
            Some(at)
        } else {
            None
        }
}

/// Two outputs that claim the same thing on a device.
pub open spec fn clash(
    outputs: Outputs,
    device: Seq<char>,
    at: int,
    previous: Option<int>,
    claimed: Seq<char>,
) -> Problem {
    match previous {
        Some(other) => Some(
            "outputs."@ + outputs[at].0 + " and outputs."@ + outputs[other].0 + " both claim "@
                + claimed + " on device '"@ + device + "'"@,
        ),
        None => None,
    }
}

/// A fan channel of the output at `at` that an earlier output claims.
pub open spec fn channel_clash(outputs: Outputs, device: Seq<char>, at: int) -> spec_fn(
    int,
) -> Problem {
    |i: int|
        {
            let channel = channels_of(outputs[at].1)[i];
            clash(
                outputs,
                device,
                at,
                channel_owner(outputs, device, channel, at),
                "fan channel "@ + text::decimal(channel as nat),
            )
        }
}

/// What an output on `device` claims that an earlier output claims too.
pub open spec fn claim_problem_of(outputs: Outputs, device: Seq<char>, at: int) -> Problem {
    if device_of(outputs[at].1) != device {
        None
    } else {
        match outputs[at].1 {
            OutputConfig::Fan { .. } => search::either(
                clash(outputs, device, at, search::first(all_fans_at(outputs, device), 0, at), "fans"@),
                if channels_of(outputs[at].1).len() == 0 {
                    clash(outputs, device, at, lowest_owner(outputs, device, at), "fans"@)
                } else {
                    search::first(
                        channel_clash(outputs, device, at),
                        0,
                        channels_of(outputs[at].1).len() as int,
                    )
                },
            ),
            OutputConfig::Rgb { .. } => clash(
                outputs,
                device,
                at,
                search::first(rgb_at(outputs, device), 0, at),
                "RGB"@,
            ),
            OutputConfig::Display { .. } => clash(
                outputs,
                device,
                at,
                search::first(display_at(outputs, device), 0, at),
                "the display"@,
            ),
        }
    }
}

/// What each output on `device` claims twice.
pub open spec fn claim_problem(outputs: Outputs, device: Seq<char>) -> spec_fn(int) -> Problem {
    |at: int| claim_problem_of(outputs, device, at)
}

/// What is claimed twice on each device.
pub open spec fn device_claim_problem(config: Config) -> spec_fn(int) -> Problem {
    |at: int|
        search::first(
            claim_problem(config.outputs@, config.devices@[at].0),
            0,
            config.outputs@.len() as int,
        )
}

/// The first hardware that two outputs claim.
pub open spec fn claims_problem(config: Config) -> Problem {
    search::first(device_claim_problem(config), 0, config.devices@.len() as int)
}

fn contains_channel(channels: &Vec<u32>, channel: u32) -> (found: bool)
    ensures
        found == channels@.contains(channel),
{
    let mut i: usize = 0;
    while i < channels.len()
        invariant
            i <= channels@.len(),
            forall|j: int| 0 <= j < i ==> #[trigger] channels@[j] != channel,
        decreases channels@.len() - i,
    {
        if channels[i] == channel {
            return true;
        }
        i += 1;
    }
    false
}

/// Whether `found` is the position that `wanted` names.
spec fn is_position(found: Option<usize>, wanted: Option<int>) -> bool {
    match found {
        Some(at) => wanted == Some(at as int),
        None => wanted is None,
    }
}

fn find_channel_owner(
    outputs: &NameMap<OutputConfig>,
    device: &str,
    channel: u32,
    at: usize,
) -> (owner: Option<usize>)
    requires
        at <= outputs@.len(),
    ensures
        is_position(owner, channel_owner(outputs@, device@, channel, at as int)),
        owner is Some ==> owner->0 < at,
{
    let mut i: usize = 0;
    while i < at
        invariant
            i <= at <= outputs@.len(),
            channel_owner(outputs@, device@, channel, at as int) == search::first(
                channel_at(outputs@, device@, channel),
                i as int,
                at as int,
            ),
        decreases at - i,
    {
        let output = outputs.value_at(i);
        if let OutputConfig::Fan { channels, .. } = output {
            if text::same(output_device(output), device) && contains_channel(channels, channel) {
                return Some(i);
            }
        }
        i += 1;
    }
    None
}

fn find_all_fans(outputs: &NameMap<OutputConfig>, device: &str, at: usize) -> (owner: Option<usize>)
    requires
        at <= outputs@.len(),
    ensures
        is_position(owner, search::first(all_fans_at(outputs@, device@), 0, at as int)),
        owner is Some ==> owner->0 < at,
{
    let mut i: usize = 0;
    while i < at
        invariant
            i <= at <= outputs@.len(),
            search::first(all_fans_at(outputs@, device@), 0, at as int) == search::first(
                all_fans_at(outputs@, device@),
                i as int,
                at as int,
            ),
        decreases at - i,
    {
        let output = outputs.value_at(i);
        if let OutputConfig::Fan { channels, .. } = output {
            if text::same(output_device(output), device) && channels.len() == 0 {
                return Some(i);
            }
        }
        i += 1;
    }
    None
}

fn find_rgb(outputs: &NameMap<OutputConfig>, device: &str, at: usize) -> (owner: Option<usize>)
    requires
        at <= outputs@.len(),
    ensures
        is_position(owner, search::first(rgb_at(outputs@, device@), 0, at as int)),
        owner is Some ==> owner->0 < at,
{
    let mut i: usize = 0;
    while i < at
        invariant
            i <= at <= outputs@.len(),
            search::first(rgb_at(outputs@, device@), 0, at as int) == search::first(
                rgb_at(outputs@, device@),
                i as int,
                at as int,
            ),
        decreases at - i,
    {
        let output = outputs.value_at(i);
        if let OutputConfig::Rgb { .. } = output {
            if text::same(output_device(output), device) {
                return Some(i);
            }
        }
        i += 1;
    }
    None
}

fn find_display(outputs: &NameMap<OutputConfig>, device: &str, at: usize) -> (owner: Option<usize>)
    requires
        at <= outputs@.len(),
    ensures
        is_position(owner, search::first(display_at(outputs@, device@), 0, at as int)),
        owner is Some ==> owner->0 < at,
{
    let mut i: usize = 0;
    while i < at
        invariant
            i <= at <= outputs@.len(),
            search::first(display_at(outputs@, device@), 0, at as int) == search::first(
                display_at(outputs@, device@),
                i as int,
                at as int,
            ),
        decreases at - i,
    {
        let output = outputs.value_at(i);
        if let OutputConfig::Display { .. } = output {
            if text::same(output_device(output), device) {
                return Some(i);
            }
        }
        i += 1;
    }
    None
}

fn lowest_in(channels: &Vec<u32>, best: Option<u32>) -> (lowest: Option<u32>)
    ensures
        lowest is None <==> best is None && channels@.len() == 0,
        lowest is Some ==> (best == lowest || channels@.contains(lowest->0)),
        best is Some ==> lowest->0 <= best->0,
        forall|i: int| 0 <= i < channels@.len() ==> lowest->0 <= #[trigger] channels@[i],
{
    let mut lowest = best;
    let mut i: usize = 0;
    while i < channels.len()
        invariant
            i <= channels@.len(),
            lowest is None <==> best is None && i == 0,
            lowest is Some ==> (best == lowest || channels@.contains(lowest->0)),
            best is Some ==> lowest->0 <= best->0,
            forall|j: int| 0 <= j < i ==> lowest->0 <= #[trigger] channels@[j],
        decreases channels@.len() - i,
    {
        match lowest {
            Some(channel) => {
                if channels[i] < channel {
                    lowest = Some(channels[i]);
                    assert(channels@[i as int] == lowest->0);
                }
            },
            None => {
                lowest = Some(channels[i]);
                assert(channels@[i as int] == lowest->0);
            },
        }
        i += 1;
    }
    lowest
}

fn find_lowest_owner(
    outputs: &NameMap<OutputConfig>,
    device: &str,
    at: usize,
) -> (owner: Option<usize>)
    requires
        at <= outputs@.len(),
    ensures
        is_position(owner, lowest_owner(outputs@, device@, at as int)),
        owner is Some ==> owner->0 < at,
{
    let mut lowest: Option<u32> = None;
    let mut i: usize = 0;
    while i < at
        invariant
            i <= at <= outputs@.len(),
            lowest is Some ==> channel_owner(outputs@, device@, lowest->0, i as int) is Some,
            forall|other: u32|
                (#[trigger] channel_owner(outputs@, device@, other, i as int)) is Some
                    ==> lowest is Some && lowest->0 <= other,
        decreases at - i,
    {
        let output = outputs.value_at(i);
        let ghost before = lowest;
        if let OutputConfig::Fan { channels, .. } = output {
            if text::same(output_device(output), device) {
                lowest = lowest_in(channels, lowest);
            }
        }
        proof {
            assert forall|other: u32| (#[trigger] channel_owner(outputs@, device@, other, i + 1))
                is Some implies lowest is Some && lowest->0 <= other by {
                search::lemma_extend(channel_at(outputs@, device@, other), 0, i as int);
                if channel_owner(outputs@, device@, other, i as int) is None {
                    let list = channels_of(outputs@[i as int].1);
                    assert(list.contains(other));
                    let j = choose|j: int| 0 <= j < list.len() && list[j] == other;
                    assert(list[j] == other);
                }
            }
            if lowest is Some {
                search::lemma_extend(channel_at(outputs@, device@, lowest->0), 0, i as int);
            }
        }
        i += 1;
    }
    match lowest {
        Some(channel) => {
            proof {
                assert(lowest_claimed(outputs@, device@, at as int, channel));
                let chosen = choose|c: u32|
                    #[trigger] lowest_claimed(outputs@, device@, at as int, c);
                assert(chosen <= channel && channel <= chosen);
            }
            find_channel_owner(outputs, device, channel, at)
        },
        None => {
            proof {
                if exists|c: u32| #[trigger] lowest_claimed(outputs@, device@, at as int, c) {
                    let chosen = choose|c: u32|
                        #[trigger] lowest_claimed(outputs@, device@, at as int, c);
                    assert(channel_owner(outputs@, device@, chosen, at as int) is Some);
                }
            }
            None
        },
    }
}

fn check_clash(
    outputs: &NameMap<OutputConfig>,
    device: &str,
    at: usize,
    previous: Option<usize>,
    Ghost(wanted): Ghost<Option<int>>,
    claimed: &str,
) -> (result: Result<()>)
    requires
        at < outputs@.len(),
        is_position(previous, wanted),
        previous is Some ==> previous->0 < at,
    ensures
        crate::config::reports(result, clash(outputs@, device@, at as int, wanted, claimed@)),
{
    match previous {
        Some(other) => fail(
            text::concat9(
                "outputs.",
                outputs.key_at(at).as_str(),
                " and outputs.",
                outputs.key_at(other).as_str(),
                " both claim ",
                claimed,
                " on device '",
                device,
                "'",
            ),
        ),
        None => Ok(()),
    }
}

fn check_channel_clashes(
    outputs: &NameMap<OutputConfig>,
    device: &str,
    at: usize,
    channels: &Vec<u32>,
) -> (result: Result<()>)
    requires
        at < outputs@.len(),
        channels@ == channels_of(outputs@[at as int].1),
    ensures
        crate::config::reports(
            result,
            search::first(channel_clash(outputs@, device@, at as int), 0, channels@.len() as int),
        ),
{
    let mut i: usize = 0;
    while i < channels.len()
        invariant
            i <= channels@.len(),
            at < outputs@.len(),
            channels@ == channels_of(outputs@[at as int].1),
            search::first(channel_clash(outputs@, device@, at as int), 0, channels@.len() as int) == search::first(
                channel_clash(outputs@, device@, at as int),
                i as int,
                channels@.len() as int,
            ),
        decreases channels@.len() - i,
    {
        let owner = find_channel_owner(outputs, device, channels[i], at);
        let mut claimed = "fan channel ".to_owned();
        text::push_decimal(&mut claimed, channels[i] as u64);
        check_clash(
            outputs,
            device,
            at,
            owner,
            Ghost(channel_owner(outputs@, device@, channels@[i as int], at as int)),
            claimed.as_str(),
        )?;
        i += 1;
    }
    Ok(())
}

fn check_claim(outputs: &NameMap<OutputConfig>, device: &str, at: usize) -> (result: Result<()>)
    requires
        at < outputs@.len(),
    ensures
        crate::config::reports(result, claim_problem_of(outputs@, device@, at as int)),
{
    let output = outputs.value_at(at);
    if !text::same(output_device(output), device) {
        return Ok(());
    }
    match output {
        OutputConfig::Fan { channels, .. } => {
            check_clash(
                outputs,
                device,
                at,
                find_all_fans(outputs, device, at),
                Ghost(search::first(all_fans_at(outputs@, device@), 0, at as int)),
                "fans",
            )?;
            if channels.len() == 0 {
                check_clash(
                    outputs,
                    device,
                    at,
                    find_lowest_owner(outputs, device, at),
                    Ghost(lowest_owner(outputs@, device@, at as int)),
                    "fans",
                )
            } else {
                check_channel_clashes(outputs, device, at, channels)
            }
        },
        OutputConfig::Rgb { .. } => check_clash(
            outputs,
            device,
            at,
            find_rgb(outputs, device, at),
            Ghost(search::first(rgb_at(outputs@, device@), 0, at as int)),
            "RGB",
        ),
        OutputConfig::Display { .. } => check_clash(
            outputs,
            device,
            at,
            find_display(outputs, device, at),
            Ghost(search::first(display_at(outputs@, device@), 0, at as int)),
            "the display",
        ),
    }
}

fn check_device_claims(outputs: &NameMap<OutputConfig>, device: &str) -> (result: Result<()>)
    ensures
        crate::config::reports(result, search::first(claim_problem(outputs@, device@), 0, outputs@.len() as int)),
{
    let mut at: usize = 0;
    let count: usize = outputs.len();
    while at < count
        invariant
            count == outputs@.len(),
            at <= count,
            search::first(claim_problem(outputs@, device@), 0, count as int) == search::first(
                claim_problem(outputs@, device@),
                at as int,
                count as int,
            ),
        decreases count - at,
    {
        check_claim(outputs, device, at)?;
        at += 1;
    }
    Ok(())
}

fn check_claims(config: &Config) -> (result: Result<()>)
    ensures
        crate::config::reports(result, claims_problem(*config)),
{
    let mut at: usize = 0;
    let count: usize = config.devices.len();
    while at < count
        invariant
            count == config.devices@.len(),
            at <= count,
            claims_problem(*config) == search::first(
                device_claim_problem(*config),
                at as int,
                count as int,
            ),
        decreases count - at,
    {
        check_device_claims(&config.outputs, config.devices.key_at(at).as_str())?;
        at += 1;
    }
    Ok(())
}

// ---------------------------------------------------------------- profiles

/// How messages name the assignment of an output in a profile.
pub open spec fn assignment_label(profile: Seq<char>, output: Seq<char>) -> Seq<char> {
    "profiles."@ + profile + ".outputs."@ + output
}

/// A source of an assignment that is no sensor.
pub open spec fn source_problem(
    config: Config,
    label: Seq<char>,
    sources: Seq<String>,
) -> spec_fn(int) -> Problem {
    |at: int|
        if names::has(config.sensors@, sources[at]@) {
            None
        } else {
            Some(label + " references unknown sensor '"@ + sources[at]@ + "'"@)
        }
}

/// An off schedule that does not exist.
pub open spec fn off_schedule_problem(
    config: Config,
    label: Seq<char>,
    assignment: AssignmentConfig,
) -> Problem {
    match assignment.off_schedule {
        Some(schedule) => if names::has(config.schedules@, schedule@) {
            None
        } else {
            Some(label + " references unknown schedule '"@ + schedule@ + "'"@)
        },
        None => None,
    }
}

/// What is wrong with an assignment to a kind of output.
pub open spec fn assignment_kind_problem(
    config: Config,
    label: Seq<char>,
    output: OutputConfig,
    assignment: AssignmentConfig,
) -> Problem {
    match output {
        OutputConfig::Fan { .. } => {
            if assignment.sources@.len() == 0 {
                Some(label + ".sources must not be empty"@)
            } else if assignment.curve is None {
                Some(label + " requires curve"@)
            } else if !names::has(config.curves@, assignment.curve->0@) {
                Some(label + " references unknown curve '"@ + assignment.curve->0@ + "'"@)
            } else if assignment.color_curve is Some || assignment.off_schedule is Some {
                Some(label + " is a fan and cannot use color_curve or off_schedule"@)
            } else {
                None
            }
        },
        OutputConfig::Rgb { .. } => {
            if assignment.sources@.len() == 0 {
                Some(label + ".sources must not be empty"@)
            } else if assignment.color_curve is None {
                Some(label + " requires color_curve"@)
            } else if !names::has(config.color_curves@, assignment.color_curve->0@) {
                Some(
                    label + " references unknown color curve '"@ + assignment.color_curve->0@
                        + "'"@,
                )
            } else if assignment.curve is Some {
                Some(label + " is RGB and cannot use curve"@)
            } else {
                off_schedule_problem(config, label, assignment)
            }
        },
        OutputConfig::Display { .. } => {
            if assignment.sources@.len() != 0 || assignment.curve is Some
                || assignment.color_curve is Some {
                Some(label + " is a display and accepts only off_schedule"@)
            } else {
                off_schedule_problem(config, label, assignment)
            }
        },
    }
}

/// What is wrong with each assignment of a profile.
pub open spec fn assignment_problem(
    config: Config,
    profile: Seq<char>,
    assignments: names::Entries<AssignmentConfig>,
) -> spec_fn(int) -> Problem {
    |at: int|
        {
            let label = assignment_label(profile, assignments[at].0);
            let assignment = assignments[at].1;
            match names::find(config.outputs@, assignments[at].0) {
                None => Some(label + " references an unknown output"@),
                Some(output) => search::either(
                    search::first(
                        source_problem(config, label, assignment.sources@),
                        0,
                        assignment.sources@.len() as int,
                    ),
                    assignment_kind_problem(config, label, output, assignment),
                ),
            }
        }
}

/// The outputs on `device` that a profile assigns.
pub open spec fn assigned_at(
    outputs: Outputs,
    device: Seq<char>,
    assignments: names::Entries<AssignmentConfig>,
) -> spec_fn(int) -> Option<int> {
    |at: int|
        if device_of(outputs[at].1) == device && names::has(assignments, outputs[at].0) {
            Some(at)
        } else {
            None
        }
}

/// The outputs on `device` that a profile leaves out.
pub open spec fn missing_at(
    outputs: Outputs,
    device: Seq<char>,
    assignments: names::Entries<AssignmentConfig>,
) -> spec_fn(int) -> Option<int> {
    |at: int|
        if device_of(outputs[at].1) == device && !names::has(assignments, outputs[at].0) {
            Some(at)
        } else {
            None
        }
}

/// A device of which a profile assigns some outputs but not all.
pub open spec fn partial_problem(
    config: Config,
    profile: Seq<char>,
    assignments: names::Entries<AssignmentConfig>,
) -> spec_fn(int) -> Problem {
    |at: int|
        {
            let outputs = config.outputs@;
            let device = config.devices@[at].0;
            let count = outputs.len() as int;
            if search::first(assigned_at(outputs, device, assignments), 0, count) is None {
                None
            } else {
                match search::first(missing_at(outputs, device, assignments), 0, count) {
                    None => None,
                    Some(missing) => Some(
                        "profiles."@ + profile + " assigns only part of device '"@ + device
                            + "'; output '"@ + outputs[missing].0 + "' is missing"@,
                    ),
                }
            }
        }
}

/// What is wrong with each profile.
pub open spec fn profile_problem(config: Config) -> spec_fn(int) -> Problem {
    |at: int|
        {
            let name = config.profiles@[at].0;
            let assignments = config.profiles@[at].1.outputs@;
            if assignments.len() == 0 {
                Some("profiles."@ + name + ".outputs must not be empty"@)
            } else {
                search::either(
                    search::first(
                        assignment_problem(config, name, assignments),
                        0,
                        assignments.len() as int,
                    ),
                    search::first(
                        partial_problem(config, name, assignments),
                        0,
                        config.devices@.len() as int,
                    ),
                )
            }
        }
}

/// The first problem among the profiles.
pub open spec fn profiles_problem(config: Config) -> Problem {
    search::first(profile_problem(config), 0, config.profiles@.len() as int)
}

fn check_sources(config: &Config, label: &str, sources: &Vec<String>) -> (result: Result<()>)
    ensures
        crate::config::reports(
            result,
            search::first(source_problem(*config, label@, sources@), 0, sources@.len() as int),
        ),
{
    let mut at: usize = 0;
    while at < sources.len()
        invariant
            at <= sources@.len(),
            search::first(source_problem(*config, label@, sources@), 0, sources@.len() as int)
                == search::first(
                source_problem(*config, label@, sources@),
                at as int,
                sources@.len() as int,
            ),
        decreases sources@.len() - at,
    {
        if !config.sensors.contains_key(sources[at].as_str()) {
            return fail(
                text::concat4(label, " references unknown sensor '", sources[at].as_str(), "'"),
            );
        }
        at += 1;
    }
    Ok(())
}

fn check_off_schedule(
    config: &Config,
    label: &str,
    assignment: &AssignmentConfig,
) -> (result: Result<()>)
    ensures
        crate::config::reports(result, off_schedule_problem(*config, label@, *assignment)),
{
    if let Some(schedule) = &assignment.off_schedule {
        if !config.schedules.contains_key(schedule.as_str()) {
            return fail(
                text::concat4(label, " references unknown schedule '", schedule.as_str(), "'"),
            );
        }
    }
    Ok(())
}

fn check_assignment_kind(
    config: &Config,
    label: &str,
    output: &OutputConfig,
    assignment: &AssignmentConfig,
) -> (result: Result<()>)
    ensures
        crate::config::reports(
            result,
            assignment_kind_problem(*config, label@, *output, *assignment),
        ),
{
    match output {
        OutputConfig::Fan { .. } => {
            if assignment.sources.len() == 0 {
                return fail(text::concat2(label, ".sources must not be empty"));
            }
            match &assignment.curve {
                None => return fail(text::concat2(label, " requires curve")),
                Some(curve) => {
                    if !config.curves.contains_key(curve.as_str()) {
                        return fail(
                            text::concat4(
                                label,
                                " references unknown curve '",
                                curve.as_str(),
                                "'",
                            ),
                        );
                    }
                },
            }
            if assignment.color_curve.is_some() || assignment.off_schedule.is_some() {
                return fail(
                    text::concat2(
                        label,
                        " is a fan and cannot use color_curve or off_schedule",
                    ),
                );
            }
            Ok(())
        },
        OutputConfig::Rgb { .. } => {
            if assignment.sources.len() == 0 {
                return fail(text::concat2(label, ".sources must not be empty"));
            }
            match &assignment.color_curve {
                None => return fail(text::concat2(label, " requires color_curve")),
                Some(curve) => {
                    if !config.color_curves.contains_key(curve.as_str()) {
                        return fail(
                            text::concat4(
                                label,
                                " references unknown color curve '",
                                curve.as_str(),
                                "'",
                            ),
                        );
                    }
                },
            }
            if assignment.curve.is_some() {
                return fail(text::concat2(label, " is RGB and cannot use curve"));
            }
            check_off_schedule(config, label, assignment)
        },
        OutputConfig::Display { .. } => {
            if assignment.sources.len() != 0 || assignment.curve.is_some()
                || assignment.color_curve.is_some() {
                return fail(
                    text::concat2(label, " is a display and accepts only off_schedule"),
                );
            }
            check_off_schedule(config, label, assignment)
        },
    }
}

fn check_assignments(
    config: &Config,
    profile: &str,
    assignments: &NameMap<AssignmentConfig>,
) -> (result: Result<()>)
    ensures
        crate::config::reports(
            result,
            search::first(
                assignment_problem(*config, profile@, assignments@),
                0,
                assignments@.len() as int,
            ),
        ),
{
    let mut at: usize = 0;
    let count: usize = assignments.len();
    while at < count
        invariant
            count == assignments@.len(),
            at <= count,
            search::first(
                assignment_problem(*config, profile@, assignments@),
                0,
                count as int,
            ) == search::first(
                assignment_problem(*config, profile@, assignments@),
                at as int,
                count as int,
            ),
        decreases count - at,
    {
        let name = assignments.key_at(at);
        let assignment = assignments.value_at(at);
        let label = text::concat4("profiles.", profile, ".outputs.", name.as_str());
        match config.outputs.get(name.as_str()) {
            None => {
                return fail(text::concat2(label.as_str(), " references an unknown output"));
            },
            Some(output) => {
                check_sources(config, label.as_str(), &assignment.sources)?;
                check_assignment_kind(config, label.as_str(), output, assignment)?;
            },
        }
        at += 1;
    }
    Ok(())
}

fn assigns_any(
    outputs: &NameMap<OutputConfig>,
    device: &str,
    assignments: &NameMap<AssignmentConfig>,
) -> (found: bool)
    ensures
        found == (search::first(
            assigned_at(outputs@, device@, assignments@),
            0,
            outputs@.len() as int,
        ) is Some),
{
    let mut at: usize = 0;
    let count: usize = outputs.len();
    while at < count
        invariant
            count == outputs@.len(),
            at <= count,
            search::first(assigned_at(outputs@, device@, assignments@), 0, count as int)
                == search::first(
                assigned_at(outputs@, device@, assignments@),
                at as int,
                count as int,
            ),
        decreases count - at,
    {
        if text::same(output_device(outputs.value_at(at)), device) && assignments.contains_key(
            outputs.key_at(at).as_str(),
        ) {
            return true;
        }
        at += 1;
    }
    false
}

fn find_missing(
    outputs: &NameMap<OutputConfig>,
    device: &str,
    assignments: &NameMap<AssignmentConfig>,
) -> (missing: Option<usize>)
    ensures
        is_position(
            missing,
            search::first(
                missing_at(outputs@, device@, assignments@),
                0,
                outputs@.len() as int,
            ),
        ),
        missing is Some ==> missing->0 < outputs@.len(),
{
    let mut at: usize = 0;
    let count: usize = outputs.len();
    while at < count
        invariant
            count == outputs@.len(),
            at <= count,
            search::first(missing_at(outputs@, device@, assignments@), 0, count as int)
                == search::first(
                missing_at(outputs@, device@, assignments@),
                at as int,
                count as int,
            ),
        decreases count - at,
    {
        if text::same(output_device(outputs.value_at(at)), device) && !assignments.contains_key(
            outputs.key_at(at).as_str(),
        ) {
            return Some(at);
        }
        at += 1;
    }
    None
}

fn check_partial(
    config: &Config,
    profile: &str,
    assignments: &NameMap<AssignmentConfig>,
) -> (result: Result<()>)
    ensures
        crate::config::reports(
            result,
            search::first(
                partial_problem(*config, profile@, assignments@),
                0,
                config.devices@.len() as int,
            ),
        ),
{
    let mut at: usize = 0;
    let count: usize = config.devices.len();
    while at < count
        invariant
            count == config.devices@.len(),
            at <= count,
            search::first(partial_problem(*config, profile@, assignments@), 0, count as int)
                == search::first(
                partial_problem(*config, profile@, assignments@),
                at as int,
                count as int,
            ),
        decreases count - at,
    {
        let device = config.devices.key_at(at);
        if assigns_any(&config.outputs, device.as_str(), assignments) {
            if let Some(missing) = find_missing(&config.outputs, device.as_str(), assignments) {
                return fail(
                    text::concat7(
                        "profiles.",
                        profile,
                        " assigns only part of device '",
                        device.as_str(),
                        "'; output '",
                        config.outputs.key_at(missing).as_str(),
                        "' is missing",
                    ),
                );
            }
        }
        at += 1;
    }
    Ok(())
}

fn check_profiles(config: &Config) -> (result: Result<()>)
    ensures
        crate::config::reports(result, profiles_problem(*config)),
{
    let mut at: usize = 0;
    let count: usize = config.profiles.len();
    while at < count
        invariant
            count == config.profiles@.len(),
            at <= count,
            profiles_problem(*config) == search::first(
                profile_problem(*config),
                at as int,
                count as int,
            ),
        decreases count - at,
    {
        let name = config.profiles.key_at(at);
        let assignments = &config.profiles.value_at(at).outputs;
        if assignments.len() == 0 {
            return fail(
                text::concat3("profiles.", name.as_str(), ".outputs must not be empty"),
            );
        }
        check_assignments(config, name.as_str(), assignments)?;
        check_partial(config, name.as_str(), assignments)?;
        at += 1;
    }
    Ok(())
}

// ---------------------------------------------------------------- the whole configuration

/// The first rule that a configuration breaks.
pub open spec fn problem(config: Config) -> Problem {
    search::either(
        settings_problem(config),
        search::either(
            devices_problem(config.devices@),
            search::either(
                sensors_problem(config),
                search::either(
                    curves_problem(config),
                    search::either(
                        color_curves_problem(config),
                        search::either(
                            schedules_problem(config),
                            search::either(
                                outputs_problem(config),
                                search::either(claims_problem(config), profiles_problem(config)),
                            ),
                        ),
                    ),
                ),
            ),
        ),
    )
}

/// Whether a configuration breaks no rule.
pub open spec fn valid(config: Config) -> bool {
    problem(config) is None
}

impl Config {
    /// Checks schema versions, value ranges, references, and hardware ownership.
    ///
    /// # Errors
    ///
    /// Returns the first validation error found.
    pub fn validate(&self) -> (result: Result<()>)
        ensures
            crate::config::reports(result, problem(*self)),
    {
        check_settings(self)?;
        check_devices(&self.devices)?;
        check_sensors(self)?;
        check_curves(self)?;
        check_color_curves(self)?;
        check_schedules(self)?;
        check_outputs(self)?;
        check_claims(self)?;
        check_profiles(self)
    }
}

} // verus!
