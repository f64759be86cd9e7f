//! Versioned Feather configuration and reference validation.

use vstd::prelude::*;

use crate::celsius::Celsius;
use crate::error::FeatherError;
use crate::error::Result;
use crate::names::NameMap;
use crate::names;
use crate::text;

verus! {

/// Configuration schema accepted by this release.
pub const CONFIG_SCHEMA_VERSION: u32 = 1;

/// A span of time, or a point on the monotonic clock, in nanoseconds.
pub type Nanos = u128;

/// Nanoseconds in one second.
pub const NANOS_PER_SECOND: u128 = 1_000_000_000;

/// Complete daemon configuration.
#[derive(Debug)]
pub struct Config {
    /// Version of the configuration schema.
    pub schema_version: u32,
    /// Fallback profile used when no saved or current profile is available.
    pub default_profile: String,
    /// Polling, socket, and failure settings.
    pub daemon: DaemonConfig,
    /// Physical devices keyed by operator-defined aliases.
    pub devices: NameMap<DeviceConfig>,
    /// Temperature sources keyed by aliases.
    pub sensors: NameMap<SensorConfig>,
    /// Fan curves keyed by names.
    pub curves: NameMap<FanCurve>,
    /// RGB curves keyed by names.
    pub color_curves: NameMap<ColorCurve>,
    /// Local-time schedules keyed by names.
    pub schedules: NameMap<ScheduleConfig>,
    /// Controllable fan, RGB, and display outputs keyed by names.
    pub outputs: NameMap<OutputConfig>,
    /// Policy profiles keyed by names.
    pub profiles: NameMap<ProfileConfig>,
}

/// Daemon timing, socket, and failure settings.
#[derive(Clone, Debug)]
pub struct DaemonConfig {
    /// Interval between temperature reads.
    pub poll_interval: Nanos,
    /// Maximum age of a reading before its output enters fail-safe mode.
    pub stale_after: Nanos,
    /// Unix socket used by local clients.
    pub socket: String,
    /// Runtime state persisted across daemon restarts.
    pub state_file: String,
    /// Consecutive output failures that stop the daemon.
    pub failure_limit: u32,
    /// Maximum time allowed for an isolated hardware-driver request.
    pub driver_timeout: Nanos,
}

impl Default for DaemonConfig {
    fn default() -> (daemon: Self)
        ensures
            daemon.poll_interval == 3 * NANOS_PER_SECOND,
            daemon.stale_after == 10 * NANOS_PER_SECOND,
            daemon.socket@ == "/run/feather/feather.sock"@,
            daemon.state_file@ == "/var/lib/feather/state.json"@,
            daemon.failure_limit == 5,
            daemon.driver_timeout == 5 * NANOS_PER_SECOND,
    {
        DaemonConfig {
            poll_interval: 3 * NANOS_PER_SECOND,
            stale_after: 10 * NANOS_PER_SECOND,
            socket: "/run/feather/feather.sock".to_owned(),
            state_file: "/var/lib/feather/state.json".to_owned(),
            failure_limit: 5,
            driver_timeout: 5 * NANOS_PER_SECOND,
        }
    }
}

/// Stable selector for a physical output device.
#[derive(Clone, Debug)]
pub enum DeviceConfig {
    /// Corsair iCUE LINK System Hub selected through HID metadata.
    CorsairIcueLink {
        /// USB vendor ID.
        vendor_id: u16,
        /// USB product ID.
        product_id: u16,
        /// Optional HID serial used to distinguish multiple hubs.
        unique_id: Option<String>,
        /// HID interface number.
        interface: i32,
        /// Expected directly connected fan subdevices.
        ///
        /// A mismatch marks fan outputs on this hub as degraded while control
        /// continues for the channels the hub enumerated.
        expected_fan_count: Option<u8>,
    },
    /// NVIDIA GPU selected by its persistent NVML UUID.
    NvidiaNvml {
        /// UUID returned by NVML, including the `GPU-` prefix.
        uuid: String,
    },
    /// Thermal Grizzly WireView Pro II selected by its USB serial number.
    WireViewProIi {
        /// Stable USB serial shown by udev and `feather devices`.
        serial: String,
    },
}

/// USB vendor ID of a Corsair hub unless configured otherwise.
pub fn default_corsair_vendor() -> (id: u16)
    ensures
        id == 0x1b1c,
{
    0x1b1c
}

/// USB product ID of an iCUE LINK System Hub unless configured otherwise.
pub fn default_corsair_product() -> (id: u16)
    ensures
        id == 0x0c3f,
{
    0x0c3f
}

/// Driver and selector for a temperature source.
#[derive(Clone, Debug)]
pub enum SensorConfig {
    /// Linux hwmon temperature input.
    LinuxHwmon {
        /// Physical device path or stable path suffix.
        device: String,
        /// hwmon chip name.
        chip: String,
        /// hwmon temperature label.
        label: String,
    },
    /// NVIDIA core temperature from NVML.
    NvidiaNvml {
        /// Alias of an NVIDIA device.
        device: String,
    },
    /// Temperature channel reported by a Corsair hub.
    CorsairIcueLink {
        /// Alias of a Corsair device.
        device: String,
        /// Zero-based hub temperature channel.
        channel: u8,
    },
}

/// Piecewise-linear fan curve.
#[derive(Clone, Debug)]
pub struct FanCurve {
    /// Points sorted from low to high temperature.
    pub points: Vec<FanPoint>,
}

/// Temperature and fan-percentage pair.
#[derive(Clone, Copy, Debug, PartialEq, Eq, Structural)]
pub struct FanPoint {
    /// Temperature in degrees Celsius.
    pub temp: Celsius,
    /// Fan target from 0 through 100.
    pub percent: u8,
}

/// Piecewise-linear RGB curve.
#[derive(Clone, Debug)]
pub struct ColorCurve {
    /// Points sorted from low to high temperature.
    pub points: Vec<ColorPoint>,
}

/// Temperature and RGB color pair.
#[derive(Clone, Copy, Debug, PartialEq, Eq)]
pub struct ColorPoint {
    /// Temperature in degrees Celsius.
    pub temp: Celsius,
    /// Red, green, and blue channel values.
    pub rgb: [u8; 3],
}

/// Half-open local-time window used to turn RGB and display outputs off.
#[derive(Clone, Debug)]
pub struct ScheduleConfig {
    /// Start time in `HH:MM` form.
    pub start: String,
    /// End time in `HH:MM` form.
    pub end: String,
}

/// Physical output controlled by a policy assignment.
#[derive(Clone, Debug)]
pub enum OutputConfig {
    /// One or more fan channels on a configured device.
    Fan {
        /// Device alias.
        device: String,
        /// Fan indices. An empty list selects all eligible fans.
        channels: Vec<u32>,
        /// Floor applied after curve interpolation.
        minimum_percent: u8,
        /// Target used when a required sensor is stale or unavailable.
        fail_safe_percent: u8,
        /// Minimum target change before a new value is accepted.
        hysteresis_percent: u8,
        /// Maximum delay before the current target is written again when the
        /// hardware driver requires periodic refreshes.
        refresh_interval: Nanos,
    },
    /// RGB strip attached to a Corsair hub.
    Rgb {
        /// Device alias.
        device: String,
        /// Number of LEDs written by each update.
        led_count: u16,
    },
    /// Backlight on a Thermal Grizzly WireView Pro II display.
    Display {
        /// Device alias.
        device: String,
        /// Backlight percentage used outside the off schedule.
        brightness_percent: u8,
    },
}

/// Hysteresis of a fan output unless configured otherwise.
pub fn default_hysteresis() -> (percent: u8)
    ensures
        percent == 2,
{
    2
}

/// Refresh interval of a fan output unless configured otherwise.
pub fn default_refresh() -> (interval: Nanos)
    ensures
        interval == 2 * NANOS_PER_SECOND,
        interval == 2_000_000_000,
{
    2 * NANOS_PER_SECOND
}

/// Output assignments for one named operating profile.
#[derive(Debug)]
pub struct ProfileConfig {
    /// Assignments keyed by configured output names.
    pub outputs: NameMap<AssignmentConfig>,
}

impl Default for ProfileConfig {
    fn default() -> (profile: Self)
        ensures
            profile.outputs@.len() == 0,
    {
        ProfileConfig { outputs: NameMap::new() }
    }
}

/// Connects an output to required sensors and policy data.
#[derive(Clone, Debug)]
pub struct AssignmentConfig {
    /// Required sensor aliases.
    pub sources: Vec<String>,
    /// Method used to combine source temperatures.
    pub aggregate: Aggregation,
    /// Fan curve name for a fan output.
    pub curve: Option<String>,
    /// Color curve name for an RGB output.
    pub color_curve: Option<String>,
    /// Optional off-schedule name for an RGB or display output.
    pub off_schedule: Option<String>,
}

/// Method used to combine multiple sensor readings.
#[derive(Clone, Copy, Debug, PartialEq, Eq, Structural)]
pub enum Aggregation {
    /// Use the highest source temperature.
    Max,
}

impl Default for Aggregation {
    fn default() -> (aggregate: Self)
        ensures
            aggregate == Aggregation::Max,
    {
        Aggregation::Max
    }
}

impl View for DeviceConfig {
    type V = DeviceConfig;

    open spec fn view(&self) -> DeviceConfig {
        *self
    }
}

impl View for SensorConfig {
    type V = SensorConfig;

    open spec fn view(&self) -> SensorConfig {
        *self
    }
}

impl View for FanCurve {
    type V = FanCurve;

    open spec fn view(&self) -> FanCurve {
        *self
    }
}

impl View for ColorCurve {
    type V = ColorCurve;

    open spec fn view(&self) -> ColorCurve {
        *self
    }
}

impl View for ScheduleConfig {
    type V = ScheduleConfig;

    open spec fn view(&self) -> ScheduleConfig {
        *self
    }
}

impl View for OutputConfig {
    type V = OutputConfig;

    open spec fn view(&self) -> OutputConfig {
        *self
    }
}

impl View for ProfileConfig {
    type V = ProfileConfig;

    open spec fn view(&self) -> ProfileConfig {
        *self
    }
}

impl View for AssignmentConfig {
    type V = AssignmentConfig;

    open spec fn view(&self) -> AssignmentConfig {
        *self
    }
}

/// A message, when something is wrong.
pub type Problem = Option<Seq<char>>;

/// An outcome carries exactly the given problem, as a configuration error.
pub open spec fn reports(result: Result<()>, problem: Problem) -> bool {
    match result {
        Ok(_) => problem is None,
        Err(FeatherError::Config(message)) => problem == Some(message@),
        Err(_) => false,
    }
}

fn config_error(message: String) -> (error: FeatherError)
    ensures
        error == FeatherError::Config(message),
{
    FeatherError::Config(message)
}

/// The error of a configuration text that does not parse.
pub fn toml_error(reason: &str) -> (error: FeatherError)
    ensures
        error matches FeatherError::Config(message) && message@ == "invalid TOML: "@ + reason@,
{
    config_error(text::concat2("invalid TOML: ", reason))
}

/// The error of a configuration file that cannot be read.
pub fn read_error(path: &str, reason: &str) -> (error: FeatherError)
    ensures
        error matches FeatherError::Config(message) && message@ == "could not read "@ + path@
            + ": "@ + reason@,
{
    config_error(text::concat4("could not read ", path, ": ", reason))
}

/// Names the file that a configuration error comes from; other errors stay as they are.
pub fn with_path(error: FeatherError, path: &str) -> (result: FeatherError)
    ensures
        match error {
            FeatherError::Config(message) => result matches FeatherError::Config(located)
                && located@ == path@ + ": "@ + message@,
            other => result == other,
        },
{
    match error {
        FeatherError::Config(message) => config_error(text::concat3(path, ": ", message.as_str())),
        other => other,
    }
}

// ---------------------------------------------------------------- times of day

/// The value of a decimal digit.
pub open spec fn digit_value(c: char) -> Option<int> {
    if '0' <= c <= '9' {
        Some(c as int - '0' as int)
    } else {
        None
    }
}

/// The number written by two decimal digits.
pub open spec fn two_digits(tens: char, ones: char) -> Option<int> {
    match (digit_value(tens), digit_value(ones)) {
        (Some(high), Some(low)) => Some(10 * high + low),
        _ => None,
    }
}

/// The hour and minute of a time of day in `HH:MM` form, or what is wrong with it.
pub open spec fn time_of_day(value: Seq<char>) -> std::result::Result<(int, int), Seq<char>> {
    if value.len() == 5 && value[2] == ':' && two_digits(value[0], value[1]) is Some && two_digits(
        value[3],
        value[4],
    ) is Some {
        let hour = two_digits(value[0], value[1])->0;
        let minute = two_digits(value[3], value[4])->0;
        if hour > 23 || minute > 59 {
            Err("must be a valid 24-hour time"@)
        } else {
            Ok((hour, minute))
        }
    } else {
        Err("must use HH:MM format"@)
    }
}

fn parse_two(tens: char, ones: char) -> (number: Option<u8>)
    ensures
        match two_digits(tens, ones) {
            Some(value) => number == Some(value as u8) && 0 <= value <= 99,
            None => number is None,
        },
{
    if '0' <= tens && tens <= '9' && '0' <= ones && ones <= '9' {
        let high: u8 = (tens as u8) - 48;
        let low: u8 = (ones as u8) - 48;
        Some(10 * high + low)
    } else {
        None
    }
}

/// Parses a time of day in `HH:MM` form.
pub fn parse_time(value: &str) -> (time: std::result::Result<(u8, u8), String>)
    ensures
        match time_of_day(value@) {
            Ok((hour, minute)) => time == Ok::<(u8, u8), String>((hour as u8, minute as u8)) && 0
                <= hour <= 23 && 0 <= minute <= 59,
            Err(message) => time matches Err(reason) && reason@ == message,
        },
{
    let chars = text::to_chars(value);
    if chars.len() != 5 || chars[2] != ':' {
        return Err("must use HH:MM format".to_owned());
    }
    match (parse_two(chars[0], chars[1]), parse_two(chars[3], chars[4])) {
        (Some(hour), Some(minute)) => {
            if hour > 23 || minute > 59 {
                Err("must be a valid 24-hour time".to_owned())
            } else {
                Ok((hour, minute))
            }
        },
        _ => Err("must use HH:MM format".to_owned()),
    }
}

/// A time of the day is read from two digits, a colon, and two digits, and from nothing else.
pub proof fn law_times_are_read(value: Seq<char>)
    ensures
        time_of_day(value) is Ok <==> {
            &&& value.len() == 5
            &&& '0' <= value[0] <= '9' && '0' <= value[1] <= '9'
            &&& value[2] == ':'
            &&& '0' <= value[3] <= '9' && '0' <= value[4] <= '9'
            &&& 10 * (value[0] as int - 48) + (value[1] as int - 48) < 24
            &&& 10 * (value[3] as int - 48) + (value[4] as int - 48) < 60
        },
        time_of_day(value) matches Ok((hour, minute)) ==> {
            &&& hour == 10 * (value[0] as int - 48) + (value[1] as int - 48)
            &&& minute == 10 * (value[3] as int - 48) + (value[4] as int - 48)
        },
{
}

} // verus!
