//! Versioned status and discovery types shared by the daemon and client.

use vstd::prelude::*;

use crate::celsius::Celsius;
use crate::json::Json;
use crate::json::JsonView;
use crate::names;
use crate::names::NameMap;
use crate::views;

verus! {

/// Current local IPC protocol version.
pub const IPC_PROTOCOL_VERSION: u32 = 3;

/// Current JSON status document version.
pub const STATUS_SCHEMA_VERSION: u32 = 3;

/// Health state reported for the daemon, a sensor, or an output.
#[derive(Clone, Copy, Debug, PartialEq, Eq, Structural)]
pub enum Health {
    /// The component is operating without a known error.
    Healthy,
    /// The component is operating with a recoverable error or cached data.
    Degraded,
    /// The output uses its configured fail-safe value.
    FailSafe,
    /// `featherd` has returned the device to its hardware policy.
    Released,
    /// No valid reading or output state is available.
    Unavailable,
}

/// A device found by a hardware driver.
#[derive(Debug)]
pub struct DeviceDescriptor {
    /// Stable hardware identifier, such as a GPU UUID or HID unique ID.
    pub id: String,
    /// Driver name used to access the device.
    pub driver: String,
    /// Human-readable device name.
    pub name: String,
    /// Driver-specific discovery fields.
    pub details: NameMap<String>,
}

/// See [`DeviceDescriptor`].
pub ghost struct DescriptorView {
    /// See [`DeviceDescriptor::id`].
    pub id: Seq<char>,
    /// See [`DeviceDescriptor::driver`].
    pub driver: Seq<char>,
    /// See [`DeviceDescriptor::name`].
    pub name: Seq<char>,
    /// See [`DeviceDescriptor::details`].
    pub details: names::Entries<Seq<char>>,
}

impl View for DeviceDescriptor {
    type V = DescriptorView;

    open spec fn view(&self) -> DescriptorView {
        DescriptorView {
            id: self.id@,
            driver: self.driver@,
            name: self.name@,
            details: self.details@,
        }
    }
}

/// One temperature reading and its age.
#[derive(Clone, Copy, Debug, PartialEq, Eq, Structural)]
pub struct SensorReading {
    /// Temperature in degrees Celsius.
    pub celsius: Celsius,
    /// Milliseconds since the successful read.
    pub age_ms: u64,
}

/// Runtime state for a configured sensor.
#[derive(Debug)]
pub struct SensorStatus {
    /// Driver that owns the sensor.
    pub driver: String,
    /// Current sensor health.
    pub health: Health,
    /// Latest usable reading, when available.
    pub reading: Option<SensorReading>,
    /// Most recent read error, when present.
    pub error: Option<String>,
}

/// See [`SensorStatus`].
pub ghost struct SensorStatusView {
    /// See [`SensorStatus::driver`].
    pub driver: Seq<char>,
    /// See [`SensorStatus::health`].
    pub health: Health,
    /// See [`SensorStatus::reading`].
    pub reading: Option<SensorReading>,
    /// See [`SensorStatus::error`].
    pub error: Option<Seq<char>>,
}

impl View for SensorStatus {
    type V = SensorStatusView;

    open spec fn view(&self) -> SensorStatusView {
        SensorStatusView {
            driver: self.driver@,
            health: self.health,
            reading: self.reading,
            error: views::maybe(self.error),
        }
    }
}

/// Kind of physical output controlled by a policy.
#[derive(Clone, Copy, Debug, PartialEq, Eq, Structural)]
pub enum OutputKind {
    /// Fan duty output.
    Fan,
    /// RGB LED output.
    Rgb,
    /// Display power-state and brightness output.
    Display,
}

/// Runtime state for a configured output.
#[derive(Debug)]
pub struct OutputStatus {
    /// Fan, RGB, or display output type.
    pub kind: OutputKind,
    /// Current output health.
    pub health: Health,
    /// Value requested by the policy engine.
    pub target: Option<Json>,
    /// Value reported by the driver after a write.
    pub observed: Option<Json>,
    /// Most recent write error, when present.
    pub error: Option<String>,
}

/// See [`OutputStatus`].
pub ghost struct OutputStatusView {
    /// See [`OutputStatus::kind`].
    pub kind: OutputKind,
    /// See [`OutputStatus::health`].
    pub health: Health,
    /// See [`OutputStatus::target`].
    pub target: Option<JsonView>,
    /// See [`OutputStatus::observed`].
    pub observed: Option<JsonView>,
    /// See [`OutputStatus::error`].
    pub error: Option<Seq<char>>,
}

impl View for OutputStatus {
    type V = OutputStatusView;

    open spec fn view(&self) -> OutputStatusView {
        OutputStatusView {
            kind: self.kind,
            health: self.health,
            target: views::maybe(self.target),
            observed: views::maybe(self.observed),
            error: views::maybe(self.error),
        }
    }
}

/// Kind of temporary output override.
#[derive(Clone, Copy, Debug, PartialEq, Eq, Structural)]
pub enum OverrideKind {
    /// Fan duty override.
    Fan,
    /// RGB color override.
    Rgb,
    /// Display on/off override.
    Display,
}

/// Active temporary override reported by the daemon.
#[derive(Debug)]
pub struct OverrideStatus {
    /// Output alias receiving the override.
    pub output: String,
    /// Fan, RGB, or display override type.
    pub kind: OverrideKind,
    /// Requested fan percentage, RGB value, or display state.
    pub value: Json,
    /// Milliseconds until the override expires.
    pub remaining_ms: u64,
}

/// See [`OverrideStatus`].
pub ghost struct OverrideStatusView {
    /// See [`OverrideStatus::output`].
    pub output: Seq<char>,
    /// See [`OverrideStatus::kind`].
    pub kind: OverrideKind,
    /// See [`OverrideStatus::value`].
    pub value: JsonView,
    /// See [`OverrideStatus::remaining_ms`].
    pub remaining_ms: u64,
}

impl View for OverrideStatus {
    type V = OverrideStatusView;

    open spec fn view(&self) -> OverrideStatusView {
        OverrideStatusView {
            output: self.output@,
            kind: self.kind,
            value: self.value@,
            remaining_ms: self.remaining_ms,
        }
    }
}

/// Versioned daemon status returned by the `status` command.
#[derive(Debug)]
pub struct DaemonStatus {
    /// [`STATUS_SCHEMA_VERSION`] used to encode this document.
    pub schema_version: u32,
    /// Running `featherd` version.
    pub version: String,
    /// Profile currently driving output assignments.
    pub active_profile: String,
    /// Number of successfully activated configurations.
    pub config_generation: u64,
    /// Seconds since the daemon started.
    pub uptime_seconds: u64,
    /// Aggregate daemon health.
    pub health: Health,
    /// Sensor states keyed by configuration alias.
    pub sensors: NameMap<SensorStatus>,
    /// Output states keyed by configuration alias.
    pub outputs: NameMap<OutputStatus>,
    /// Temporary overrides that have not expired.
    pub overrides: Vec<OverrideStatus>,
    /// Latest driver errors keyed by sensor or output alias.
    pub driver_errors: NameMap<String>,
}

/// See [`DaemonStatus`].
pub ghost struct DaemonStatusView {
    /// See [`DaemonStatus::schema_version`].
    pub schema_version: u32,
    /// See [`DaemonStatus::version`].
    pub version: Seq<char>,
    /// See [`DaemonStatus::active_profile`].
    pub active_profile: Seq<char>,
    /// See [`DaemonStatus::config_generation`].
    pub config_generation: u64,
    /// See [`DaemonStatus::uptime_seconds`].
    pub uptime_seconds: u64,
    /// See [`DaemonStatus::health`].
    pub health: Health,
    /// See [`DaemonStatus::sensors`].
    pub sensors: names::Entries<SensorStatusView>,
    /// See [`DaemonStatus::outputs`].
    pub outputs: names::Entries<OutputStatusView>,
    /// See [`DaemonStatus::overrides`].
    pub overrides: Seq<OverrideStatusView>,
    /// See [`DaemonStatus::driver_errors`].
    pub driver_errors: names::Entries<Seq<char>>,
}

impl View for DaemonStatus {
    type V = DaemonStatusView;

    open spec fn view(&self) -> DaemonStatusView {
        DaemonStatusView {
            schema_version: self.schema_version,
            version: self.version@,
            active_profile: self.active_profile@,
            config_generation: self.config_generation,
            uptime_seconds: self.uptime_seconds,
            health: self.health,
            sensors: self.sensors@,
            outputs: self.outputs@,
            overrides: views::list(self.overrides@),
            driver_errors: self.driver_errors@,
        }
    }
}

/// The same names and texts again.
pub fn copy_texts(map: &NameMap<String>) -> (result: NameMap<String>)
    ensures
        result@ == map@,
{
    let mut result: NameMap<String> = NameMap::new();
    let mut at: usize = 0;
    let count: usize = map.len();
    while at < count
        invariant
            count == map@.len(),
            at <= count,
            names::sorted(map@),
            result@ == map@.take(at as int),
        decreases count - at,
    {
        proof {
            names::lemma_append_last(map@, at as int);
        }
        result.insert(map.key_at(at).clone(), map.value_at(at).clone());
        at += 1;
    }
    assert(map@.take(count as int) =~= map@);
    result
}

impl DeviceDescriptor {
    /// The same description again.
    pub fn copy(&self) -> (result: DeviceDescriptor)
        ensures
            result@ == self@,
    {
        DeviceDescriptor {
            id: self.id.clone(),
            driver: self.driver.clone(),
            name: self.name.clone(),
            details: copy_texts(&self.details),
        }
    }
}

/// The same descriptions again.
pub fn copy_descriptors(list: &Vec<DeviceDescriptor>) -> (result: Vec<DeviceDescriptor>)
    ensures
        views::list(result@) == views::list(list@),
{
    let mut result: Vec<DeviceDescriptor> = Vec::new();
    let mut at: usize = 0;
    while at < list.len()
        invariant
            at <= list@.len(),
            result@.len() == at,
            forall|i: int| 0 <= i < at ==> (#[trigger] result@[i])@ == list@[i]@,
        decreases list@.len() - at,
    {
        result.push(list[at].copy());
        at += 1;
    }
    assert(views::list(result@) =~= views::list(list@));
    result
}

} // verus!
