//! Hardware abstraction and platform-specific driver routing.

use vstd::prelude::*;

use crate::celsius::Celsius;
use crate::config::Config;
use crate::config::DeviceConfig;
use crate::config::OutputConfig;
use crate::config::SensorConfig;
use crate::error::ErrorView;
use crate::error::FeatherError;
use crate::error::Result;
use crate::json::Json;
use crate::json::JsonView;
use crate::names;
use crate::names::NameMap;
use crate::text;
use crate::types::DescriptorView;
use crate::types::DeviceDescriptor;
use crate::validation;
use crate::views;

pub mod corsair;
pub mod diagnostics;
pub mod effects;
pub mod helper;
pub mod hub;
pub mod hwmon;
pub mod nvidia;
pub mod system;
pub mod unsupported;
pub mod wire;
pub mod wireview;

verus! {

/// What a driver reports of an accepted fan write.
#[derive(Debug)]
pub struct FanWrite {
    /// Data read back from the device.
    pub observed: Json,
    /// A problem that did not stop the write.
    pub warning: Option<String>,
}

/// See [`FanWrite`].
pub ghost struct FanWriteView {
    /// See [`FanWrite::observed`].
    pub observed: JsonView,
    /// See [`FanWrite::warning`].
    pub warning: Option<Seq<char>>,
}

impl View for FanWrite {
    type V = FanWriteView;

    open spec fn view(&self) -> FanWriteView {
        FanWriteView { observed: self.observed@, warning: views::maybe(self.warning) }
    }
}

impl FanWrite {
    /// A write without a warning.
    pub fn healthy(observed: Json) -> (write: Self)
        ensures
            write@ == (FanWriteView { observed: observed@, warning: None }),
    {
        FanWrite { observed, warning: None }
    }
}

/// The state that a display is put in.
#[derive(Clone, Copy, Debug, PartialEq, Eq, Structural)]
pub enum DisplayTarget {
    /// The backlight is on.
    Awake {
        /// Backlight percentage.
        brightness_percent: u8,
    },
    /// The display is off.
    Sleep,
}

/// A temperature as a driver read it.
#[derive(Debug)]
pub struct Sample {
    /// The temperature.
    pub celsius: Celsius,
    /// The temperature in decimal, for messages.
    pub text: String,
}

/// See [`Sample`].
pub ghost struct SampleView {
    /// See [`Sample::celsius`].
    pub celsius: Celsius,
    /// See [`Sample::text`].
    pub text: Seq<char>,
}

impl View for Sample {
    type V = SampleView;

    open spec fn view(&self) -> SampleView {
        SampleView { celsius: self.celsius, text: self.text@ }
    }
}

/// An answer of the hardware.
pub type Reply<T> = std::result::Result<T, ErrorView>;

/// One request to the hardware with its answer.
pub ghost enum Call {
    /// [`Hardware::preflight`].
    Preflight {
        /// The configuration to check.
        config: Config,
        /// The selected devices.
        reply: Reply<Seq<DescriptorView>>,
    },
    /// [`Hardware::commit_config`].
    Commit {
        /// The configuration to activate.
        config: Config,
    },
    /// [`Hardware::discover`].
    Discover {
        /// The devices found.
        reply: Reply<Seq<DescriptorView>>,
    },
    /// [`Hardware::read_sensor`].
    ReadSensor {
        /// Sensor alias.
        alias: Seq<char>,
        /// Sensor selector.
        config: SensorConfig,
        /// The temperature read.
        reply: Reply<SampleView>,
    },
    /// [`Hardware::set_fan`].
    SetFan {
        /// Output alias.
        alias: Seq<char>,
        /// Output settings.
        config: OutputConfig,
        /// Requested duty.
        percent: u8,
        /// What the driver reports.
        reply: Reply<FanWriteView>,
    },
    /// [`Hardware::set_rgb`].
    SetRgb {
        /// Output alias.
        alias: Seq<char>,
        /// Output settings.
        config: OutputConfig,
        /// Requested color.
        rgb: [u8; 3],
        /// What the driver reports.
        reply: Reply<JsonView>,
    },
    /// [`Hardware::set_display`].
    SetDisplay {
        /// Output alias.
        alias: Seq<char>,
        /// Output settings.
        config: OutputConfig,
        /// Requested state.
        target: DisplayTarget,
        /// What the driver reports.
        reply: Reply<JsonView>,
    },
    /// [`Hardware::release`].
    Release {
        /// Output alias.
        alias: Seq<char>,
        /// Output settings.
        config: OutputConfig,
        /// Whether the device was restored.
        reply: Reply<()>,
    },
    /// [`Hardware::debug_hid_dump`].
    Dump {
        /// Device alias.
        device: Seq<char>,
        /// The diagnostic text.
        reply: Reply<Seq<char>>,
    },
    /// [`Hardware::shutdown`].
    Shutdown,
}

/// The devices of a successful answer.
pub open spec fn descriptors(result: Result<Vec<DeviceDescriptor>>) -> Reply<Seq<DescriptorView>> {
    match result {
        Ok(devices) => Ok(views::list(devices@)),
        Err(error) => Err(error@),
    }
}

/// The outcome of an operation that returns nothing.
pub open spec fn done(result: Result<()>) -> Reply<()> {
    match result {
        Ok(_) => Ok(()),
        Err(error) => Err(error@),
    }
}

/// Hardware operations used by the policy engine.
///
/// Nothing is promised of an answer; each operation only adds itself and its answer to the
/// calls made so far.
pub trait Hardware: Sized {
    /// The calls made so far, in order.
    open spec fn calls(&self) -> Seq<Call> {
        Seq::empty()
    }

    /// Whether unchanged fan targets of an output are written again from time to time.
    open spec fn refreshes(&self, config: OutputConfig) -> bool {
        true
    }

    /// The known failure of the device behind a fan output, if there is one.
    open spec fn fan_fault(&self, config: OutputConfig) -> Option<ErrorView> {
        None
    }

    /// Whether failures of a fan output leave the rest of the system controllable.
    open spec fn isolated(&self, config: OutputConfig) -> bool {
        false
    }

    /// Validates configured selectors and returns the selected devices.
    ///
    /// # Errors
    ///
    /// Returns an error when a selector is ambiguous, a configured device is
    /// missing, or a driver cannot initialize.
    fn preflight(&mut self, config: &Config) -> (result: Result<Vec<DeviceDescriptor>>)
        ensures
            final(self).calls() == old(self).calls().push(
                Call::Preflight { config: *config, reply: descriptors(result) },
            ),
    ;

    /// Activates a configuration that already passed [`Hardware::preflight`].
    fn commit_config(&mut self, config: &Config)
        ensures
            final(self).calls() == old(self).calls().push(Call::Commit { config: *config }),
    ;

    /// Discovers supported devices without applying a configuration.
    ///
    /// # Errors
    ///
    /// Returns an error when no driver can complete discovery.
    fn discover(&mut self) -> (result: Result<Vec<DeviceDescriptor>>)
        ensures
            final(self).calls() == old(self).calls().push(
                Call::Discover { reply: descriptors(result) },
            ),
    ;

    /// Reads one configured temperature sensor in degrees Celsius.
    ///
    /// # Errors
    ///
    /// Returns an error when the sensor cannot be resolved or read.
    fn read_sensor(&mut self, alias: &str, config: &SensorConfig) -> (result: Result<Sample>)
        ensures
            final(self).calls() == old(self).calls().push(
                Call::ReadSensor { alias: alias@, config: *config, reply: views::outcome(result) },
            ),
    ;

    /// Sets the duty for a configured fan output and returns observed data.
    ///
    /// # Errors
    ///
    /// Returns an error when the output is not a fan or its driver rejects the write.
    fn set_fan(&mut self, alias: &str, config: &OutputConfig, percent: u8) -> (result: Result<
        FanWrite,
    >)
        ensures
            final(self).calls() == old(self).calls().push(
                Call::SetFan {
                    alias: alias@,
                    config: *config,
                    percent,
                    reply: views::outcome(result),
                },
            ),
    ;

    /// Whether an unchanged fan target must be periodically written again.
    ///
    /// Stateful controllers may require refreshes. NVIDIA's manual fan policy
    /// retains its target, so avoiding unchanged writes materially reduces
    /// synchronous NVML traffic.
    fn fan_needs_periodic_refresh(&self, config: &OutputConfig) -> (result: bool)
        ensures
            result == self.refreshes(*config),
    ;

    /// Reports a known driver failure before an otherwise unnecessary fan write.
    ///
    /// This is a local health check and must not perform hardware I/O.
    fn check_fan_health(&self, config: &OutputConfig) -> (result: Result<()>)
        ensures
            match result {
                Ok(_) => self.fan_fault(*config) is None,
                Err(error) => self.fan_fault(*config) == Some(error@),
            },
    ;

    /// Whether failures of a fan output are confined to it, so that they do not count towards
    /// stopping the daemon.
    fn fan_failure_is_isolated(&self, config: &OutputConfig) -> (result: bool)
        ensures
            result == self.isolated(*config),
    ;

    /// Sets a configured RGB output and returns observed data.
    ///
    /// # Errors
    ///
    /// Returns an error when the output is not RGB or its driver rejects the write.
    fn set_rgb(&mut self, alias: &str, config: &OutputConfig, rgb: [u8; 3]) -> (result: Result<
        Json,
    >)
        ensures
            final(self).calls() == old(self).calls().push(
                Call::SetRgb { alias: alias@, config: *config, rgb, reply: views::outcome(result) },
            ),
    ;

    /// Sets a configured display state and returns observed data.
    ///
    /// # Errors
    ///
    /// Returns an error when the output is not a display or its driver rejects the write.
    fn set_display(
        &mut self,
        alias: &str,
        config: &OutputConfig,
        target: DisplayTarget,
    ) -> (result: Result<Json>)
        ensures
            final(self).calls() == old(self).calls().push(
                Call::SetDisplay {
                    alias: alias@,
                    config: *config,
                    target,
                    reply: views::outcome(result),
                },
            ),
    ;

    /// Restores the hardware policy for the physical device owning an output.
    ///
    /// # Errors
    ///
    /// Returns an error when the output cannot be resolved or restored.
    fn release(&mut self, alias: &str, config: &OutputConfig) -> (result: Result<()>)
        ensures
            final(self).calls() == old(self).calls().push(
                Call::Release { alias: alias@, config: *config, reply: done(result) },
            ),
    ;

    /// Reads diagnostic HID data from a configured device.
    ///
    /// # Errors
    ///
    /// Returns an error when the device is not a supported HID device or cannot be read.
    fn debug_hid_dump(&mut self, device_alias: &str) -> (result: Result<String>)
        ensures
            final(self).calls() == old(self).calls().push(
                Call::Dump { device: device_alias@, reply: views::outcome(result) },
            ),
    ;

    /// Restores every controlled device before the hardware worker exits.
    fn shutdown(&mut self)
        ensures
            final(self).calls() == old(self).calls().push(Call::Shutdown),
    ;
}

// ---------------------------------------------------------------- routing

/// Driver routing by device alias for Corsair HID, hwmon, NVIDIA NVML, and WireView devices.
#[derive(Debug)]
pub struct DeviceRouter {
    /// The devices of the active configuration.
    pub devices: NameMap<DeviceConfig>,
}

/// Where a fan write goes.
#[derive(Debug)]
pub enum FanRoute<'a> {
    /// To a Corsair hub.
    Corsair {
        /// Device alias.
        device: &'a str,
        /// Device selector.
        config: &'a DeviceConfig,
        /// Selected fan channels.
        channels: &'a Vec<u32>,
        /// Expected fan subdevices.
        expected_fan_count: Option<u8>,
    },
    /// To an NVIDIA GPU.
    Nvidia {
        /// Device alias.
        device: &'a str,
        /// Device selector.
        config: &'a DeviceConfig,
        /// Selected fan channels.
        channels: &'a Vec<u32>,
    },
}

/// See [`FanRoute`].
pub ghost enum FanRouteView {
    /// See [`FanRoute::Corsair`].
    Corsair {
        /// Device alias.
        device: Seq<char>,
        /// Device selector.
        config: DeviceConfig,
        /// Selected fan channels.
        channels: Seq<u32>,
        /// Expected fan subdevices.
        expected_fan_count: Option<u8>,
    },
    /// See [`FanRoute::Nvidia`].
    Nvidia {
        /// Device alias.
        device: Seq<char>,
        /// Device selector.
        config: DeviceConfig,
        /// Selected fan channels.
        channels: Seq<u32>,
    },
}

impl<'a> View for FanRoute<'a> {
    type V = FanRouteView;

    open spec fn view(&self) -> FanRouteView {
        match *self {
            FanRoute::Corsair { device, config, channels, expected_fan_count } => {
                FanRouteView::Corsair {
                    device: device@,
                    config: *config,
                    channels: channels@,
                    expected_fan_count,
                }
            },
            FanRoute::Nvidia { device, config, channels } => {
                FanRouteView::Nvidia { device: device@, config: *config, channels: channels@ }
            },
        }
    }
}

/// A device and its selector.
#[derive(Debug)]
pub struct DeviceRoute<'a> {
    /// Device alias.
    pub device: &'a str,
    /// Device selector.
    pub config: &'a DeviceConfig,
}

/// See [`DeviceRoute`].
pub ghost struct DeviceRouteView {
    /// See [`DeviceRoute::device`].
    pub device: Seq<char>,
    /// See [`DeviceRoute::config`].
    pub config: DeviceConfig,
}

impl<'a> View for DeviceRoute<'a> {
    type V = DeviceRouteView;

    open spec fn view(&self) -> DeviceRouteView {
        DeviceRouteView { device: self.device@, config: *self.config }
    }
}

/// How a device is given back to its hardware policy.
#[derive(Debug)]
pub enum ReleaseRoute<'a> {
    /// A Corsair hub returns to hardware mode.
    Corsair(DeviceRoute<'a>),
    /// An NVIDIA GPU returns to automatic fan control.
    Nvidia(DeviceRoute<'a>),
    /// A WireView display wakes with its configured brightness.
    WireView(DeviceRoute<'a>, u8),
}

/// See [`ReleaseRoute`].
pub ghost enum ReleaseRouteView {
    /// See [`ReleaseRoute::Corsair`].
    Corsair(DeviceRouteView),
    /// See [`ReleaseRoute::Nvidia`].
    Nvidia(DeviceRouteView),
    /// See [`ReleaseRoute::WireView`].
    WireView(DeviceRouteView, u8),
}

impl<'a> View for ReleaseRoute<'a> {
    type V = ReleaseRouteView;

    open spec fn view(&self) -> ReleaseRouteView {
        match *self {
            ReleaseRoute::Corsair(route) => ReleaseRouteView::Corsair(route@),
            ReleaseRoute::Nvidia(route) => ReleaseRouteView::Nvidia(route@),
            ReleaseRoute::WireView(route, brightness) => ReleaseRouteView::WireView(
                route@,
                brightness,
            ),
        }
    }
}

/// Which driver reads a sensor.
#[derive(Debug)]
pub enum SensorRoute<'a> {
    /// The hwmon files of the host.
    Hwmon,
    /// An NVIDIA GPU.
    Nvidia(DeviceRoute<'a>),
    /// A temperature channel of a Corsair hub.
    Corsair(DeviceRoute<'a>, u8),
}

/// See [`SensorRoute`].
pub ghost enum SensorRouteView {
    /// See [`SensorRoute::Hwmon`].
    Hwmon,
    /// See [`SensorRoute::Nvidia`].
    Nvidia(DeviceRouteView),
    /// See [`SensorRoute::Corsair`].
    Corsair(DeviceRouteView, u8),
}

impl<'a> View for SensorRoute<'a> {
    type V = SensorRouteView;

    open spec fn view(&self) -> SensorRouteView {
        match *self {
            SensorRoute::Hwmon => SensorRouteView::Hwmon,
            SensorRoute::Nvidia(route) => SensorRouteView::Nvidia(route@),
            SensorRoute::Corsair(route, channel) => SensorRouteView::Corsair(route@, channel),
        }
    }
}

/// Configured devices by alias.
pub type Devices = names::Entries<DeviceConfig>;

/// The selector of a device alias.
pub open spec fn device_named(devices: Devices, alias: Seq<char>) -> Reply<DeviceConfig> {
    match names::find(devices, alias) {
        Some(config) => Ok(config),
        None => Err(
            ErrorView::Driver("device alias '"@ + alias + "' is not configured"@),
        ),
    }
}

/// Where a fan write goes.
pub open spec fn fan_route(devices: Devices, alias: Seq<char>, output: OutputConfig) -> Reply<
    FanRouteView,
> {
    match output {
        OutputConfig::Fan { device, channels, .. } => match device_named(devices, device@) {
            Err(error) => Err(error),
            Ok(config) => match config {
                DeviceConfig::CorsairIcueLink { expected_fan_count, .. } => Ok(
                    FanRouteView::Corsair {
                        device: device@,
                        config,
                        channels: channels@,
                        expected_fan_count,
                    },
                ),
                DeviceConfig::NvidiaNvml { .. } => Ok(
                    FanRouteView::Nvidia { device: device@, config, channels: channels@ },
                ),
                DeviceConfig::WireViewProIi { .. } => Err(
                    ErrorView::Driver("WireView devices do not expose system fan control"@),
                ),
            },
        },
        _ => Err(ErrorView::Driver("output '"@ + alias + "' is not a fan"@)),
    }
}

/// Where a color write goes, with the number of LEDs.
pub open spec fn rgb_route(devices: Devices, alias: Seq<char>, output: OutputConfig) -> Reply<
    (DeviceRouteView, u16),
> {
    match output {
        OutputConfig::Rgb { device, led_count } => match device_named(devices, device@) {
            Err(error) => Err(error),
            Ok(config) => match config {
                DeviceConfig::CorsairIcueLink { .. } => Ok(
                    (DeviceRouteView { device: device@, config }, led_count),
                ),
                DeviceConfig::NvidiaNvml { .. } => Err(
                    ErrorView::Driver("NVIDIA devices do not expose RGB control"@),
                ),
                DeviceConfig::WireViewProIi { .. } => Err(
                    ErrorView::Driver("WireView devices do not expose RGB control"@),
                ),
            },
        },
        _ => Err(ErrorView::Driver("output '"@ + alias + "' is not RGB"@)),
    }
}

/// Where a display write goes.
pub open spec fn display_route(devices: Devices, alias: Seq<char>, output: OutputConfig) -> Reply<
    DeviceRouteView,
> {
    match output {
        OutputConfig::Display { device, .. } => match device_named(devices, device@) {
            Err(error) => Err(error),
            Ok(config) => match config {
                DeviceConfig::WireViewProIi { .. } => Ok(
                    DeviceRouteView { device: device@, config },
                ),
                _ => Err(
                    ErrorView::Driver("device '"@ + device@ + "' has no display output"@),
                ),
            },
        },
        _ => Err(ErrorView::Driver("output '"@ + alias + "' is not a display"@)),
    }
}

/// How the device behind an output is given back.
pub open spec fn release_route(devices: Devices, output: OutputConfig) -> Reply<
    ReleaseRouteView,
> {
    let device = validation::device_of(output);
    match device_named(devices, device) {
        Err(error) => Err(error),
        Ok(config) => {
            let route = DeviceRouteView { device, config };
            match config {
                DeviceConfig::CorsairIcueLink { .. } => Ok(ReleaseRouteView::Corsair(route)),
                DeviceConfig::NvidiaNvml { .. } => Ok(ReleaseRouteView::Nvidia(route)),
                DeviceConfig::WireViewProIi { .. } => match output {
                    OutputConfig::Display { brightness_percent, .. } => Ok(
                        ReleaseRouteView::WireView(route, brightness_percent),
                    ),
                    _ => Err(
                        ErrorView::Driver(
                            "device '"@ + device + "' has an incompatible output"@,
                        ),
                    ),
                },
            }
        },
    }
}

/// Which driver reads a sensor.
pub open spec fn sensor_route(devices: Devices, sensor: SensorConfig) -> Reply<SensorRouteView> {
    match sensor {
        SensorConfig::LinuxHwmon { .. } => Ok(SensorRouteView::Hwmon),
        SensorConfig::NvidiaNvml { device } => match device_named(devices, device@) {
            Err(error) => Err(error),
            Ok(config) => Ok(
                SensorRouteView::Nvidia(DeviceRouteView { device: device@, config }),
            ),
        },
        SensorConfig::CorsairIcueLink { device, channel } => match device_named(
            devices,
            device@,
        ) {
            Err(error) => Err(error),
            Ok(config) => Ok(
                SensorRouteView::Corsair(DeviceRouteView { device: device@, config }, channel),
            ),
        },
    }
}

/// A device that does not exist.
pub open spec fn unknown_device(alias: Seq<char>) -> ErrorView {
    ErrorView::Daemon("unknown device '"@ + alias + "'"@)
}

/// The Corsair hub behind a device alias, which alone has HID data to dump.
pub open spec fn dump_route(devices: Devices, alias: Seq<char>) -> Reply<DeviceRouteView> {
    match names::find(devices, alias) {
        None => Err(unknown_device(alias)),
        Some(config) => match config {
            DeviceConfig::CorsairIcueLink { .. } => Ok(DeviceRouteView { device: alias, config }),
            _ => Err(ErrorView::Driver("device '"@ + alias + "' is not a HID device"@)),
        },
    }
}

/// Whether unchanged targets of a fan output are written again: NVIDIA's manual policy keeps
/// its target, and other outputs have none.
pub open spec fn refresh_needed(devices: Devices, output: OutputConfig) -> bool {
    match output {
        OutputConfig::Fan { device, .. } => !validation::is_nvidia(devices, device@),
        _ => false,
    }
}

/// The NVIDIA GPU behind a fan output, whose helper can be out of service.
pub open spec fn nvidia_fan_device(devices: Devices, output: OutputConfig) -> Option<DeviceConfig> {
    match output {
        OutputConfig::Fan { device, .. } => match names::find(devices, device@) {
            Some(config) => match config {
                DeviceConfig::NvidiaNvml { .. } => Some(config),
                _ => None,
            },
            None => None,
        },
        _ => None,
    }
}

fn driver_error(message: String) -> (error: FeatherError)
    ensures
        error@ == ErrorView::Driver(message@),
{
    FeatherError::Driver(message)
}

/// The error of a device that does not exist.
pub fn unknown_device_error(alias: &str) -> (error: FeatherError)
    ensures
        error@ == unknown_device(alias@),
{
    FeatherError::Daemon(text::concat3("unknown device '", alias, "'"))
}

impl DeviceConfig {
    /// The same selector again.
    pub fn copy(&self) -> (result: DeviceConfig)
        ensures
            result == *self,
    {
        match self {
            DeviceConfig::CorsairIcueLink {
                vendor_id,
                product_id,
                unique_id,
                interface,
                expected_fan_count,
            } => DeviceConfig::CorsairIcueLink {
                vendor_id: *vendor_id,
                product_id: *product_id,
                unique_id: match unique_id {
                    Some(id) => Some(id.clone()),
                    None => None,
                },
                interface: *interface,
                expected_fan_count: *expected_fan_count,
            },
            DeviceConfig::NvidiaNvml { uuid } => DeviceConfig::NvidiaNvml { uuid: uuid.clone() },
            DeviceConfig::WireViewProIi { serial } => DeviceConfig::WireViewProIi {
                serial: serial.clone(),
            },
        }
    }
}

/// The same devices again.
pub fn copy_devices(devices: &NameMap<DeviceConfig>) -> (result: NameMap<DeviceConfig>)
    ensures
        result@ == devices@,
{
    let mut result: NameMap<DeviceConfig> = NameMap::new();
    let mut at: usize = 0;
    let count: usize = devices.len();
    while at < count
        invariant
            count == devices@.len(),
            at <= count,
            names::sorted(devices@),
            result@ == devices@.take(at as int),
        decreases count - at,
    {
        proof {
            names::lemma_append_last(devices@, at as int);
        }
        result.insert(devices.key_at(at).clone(), devices.value_at(at).copy());
        at += 1;
    }
    assert(devices@.take(count as int) =~= devices@);
    result
}

impl DeviceRouter {
    /// Creates a router with no selected devices.
    pub fn new() -> (router: Self)
        ensures
            router.devices@.len() == 0,
    {
        DeviceRouter { devices: NameMap::new() }
    }

    /// Selects the devices of a configuration.
    pub fn commit_config(&mut self, config: &Config)
        ensures
            final(self).devices@ == config.devices@,
    {
        self.devices = copy_devices(&config.devices);
    }

    fn device(&self, alias: &str) -> (result: Result<&DeviceConfig>)
        ensures
            match result {
                Ok(config) => device_named(self.devices@, alias@) == Ok::<DeviceConfig, ErrorView>(
                    *config,
                ),
                Err(error) => device_named(self.devices@, alias@) == Err::<DeviceConfig, ErrorView>(
                    error@,
                ),
            },
    {
        match self.devices.get(alias) {
            Some(config) => Ok(config),
            None => Err(
                driver_error(text::concat3("device alias '", alias, "' is not configured")),
            ),
        }
    }

    /// Finds where a fan write goes.
    ///
    /// # Errors
    ///
    /// Returns an error when the output is not a fan or its device has no fan control.
    pub fn route_fan<'a>(&'a self, alias: &str, config: &'a OutputConfig) -> (route: Result<
        FanRoute<'a>,
    >)
        ensures
            views::outcome(route) == fan_route(self.devices@, alias@, *config),
    {
        match config {
            OutputConfig::Fan { device, channels, .. } => {
                let device_config = self.device(device.as_str())?;
                match device_config {
                    DeviceConfig::CorsairIcueLink { expected_fan_count, .. } => Ok(
                        FanRoute::Corsair {
                            device: device.as_str(),
                            config: device_config,
                            channels,
                            expected_fan_count: *expected_fan_count,
                        },
                    ),
                    DeviceConfig::NvidiaNvml { .. } => Ok(
                        FanRoute::Nvidia {
                            device: device.as_str(),
                            config: device_config,
                            channels,
                        },
                    ),
                    DeviceConfig::WireViewProIi { .. } => Err(
                        driver_error(
                            "WireView devices do not expose system fan control".to_owned(),
                        ),
                    ),
                }
            },
            _ => Err(driver_error(text::concat3("output '", alias, "' is not a fan"))),
        }
    }

    /// Whether an unchanged target of a fan output must be periodically written again.
    pub fn needs_periodic_refresh(&self, config: &OutputConfig) -> (result: bool)
        ensures
            result == refresh_needed(self.devices@, *config),
    {
        match config {
            OutputConfig::Fan { device, .. } => match self.devices.get(device.as_str()) {
                Some(DeviceConfig::NvidiaNvml { .. }) => false,
                _ => true,
            },
            _ => false,
        }
    }

    /// The NVIDIA GPU behind a fan output, whose helper decides its health.
    pub fn health_device<'a>(&'a self, config: &OutputConfig) -> (device: Option<&'a DeviceConfig>)
        ensures
            match device {
                Some(found) => nvidia_fan_device(self.devices@, *config) == Some(*found),
                None => nvidia_fan_device(self.devices@, *config) is None,
            },
    {
        match config {
            OutputConfig::Fan { device, .. } => match self.devices.get(device.as_str()) {
                Some(found) => match found {
                    DeviceConfig::NvidiaNvml { .. } => Some(found),
                    _ => None,
                },
                None => None,
            },
            _ => None,
        }
    }

    /// Finds where a color write goes, with the number of LEDs.
    ///
    /// # Errors
    ///
    /// Returns an error when the output is not RGB or its device has no lights.
    pub fn route_rgb<'a>(&'a self, alias: &str, config: &'a OutputConfig) -> (route: Result<
        (DeviceRoute<'a>, u16),
    >)
        ensures
            views::outcome(route) == rgb_route(self.devices@, alias@, *config),
    {
        match config {
            OutputConfig::Rgb { device, led_count } => {
                let device_config = self.device(device.as_str())?;
                match device_config {
                    DeviceConfig::CorsairIcueLink { .. } => Ok(
                        (
                            DeviceRoute { device: device.as_str(), config: device_config },
                            *led_count,
                        ),
                    ),
                    DeviceConfig::NvidiaNvml { .. } => Err(
                        driver_error("NVIDIA devices do not expose RGB control".to_owned()),
                    ),
                    DeviceConfig::WireViewProIi { .. } => Err(
                        driver_error("WireView devices do not expose RGB control".to_owned()),
                    ),
                }
            },
            _ => Err(driver_error(text::concat3("output '", alias, "' is not RGB"))),
        }
    }

    /// Finds where a display write goes.
    ///
    /// # Errors
    ///
    /// Returns an error when the output is not a display or its device has none.
    pub fn route_display<'a>(&'a self, alias: &str, config: &'a OutputConfig) -> (route: Result<
        DeviceRoute<'a>,
    >)
        ensures
            views::outcome(route) == display_route(self.devices@, alias@, *config),
    {
        match config {
            OutputConfig::Display { device, .. } => {
                let device_config = self.device(device.as_str())?;
                match device_config {
                    DeviceConfig::WireViewProIi { .. } => Ok(
                        DeviceRoute { device: device.as_str(), config: device_config },
                    ),
                    _ => Err(
                        driver_error(
                            text::concat3("device '", device.as_str(), "' has no display output"),
                        ),
                    ),
                }
            },
            _ => Err(driver_error(text::concat3("output '", alias, "' is not a display"))),
        }
    }

    /// Finds how the device behind an output is given back to its hardware policy.
    ///
    /// # Errors
    ///
    /// Returns an error when the device is not configured or does not fit the output.
    pub fn route_release<'a>(&'a self, config: &'a OutputConfig) -> (route: Result<
        ReleaseRoute<'a>,
    >)
        ensures
            views::outcome(route) == release_route(self.devices@, *config),
    {
        let device = validation::output_device(config);
        let device_config = self.device(device)?;
        let route = DeviceRoute { device, config: device_config };
        match device_config {
            DeviceConfig::CorsairIcueLink { .. } => Ok(ReleaseRoute::Corsair(route)),
            DeviceConfig::NvidiaNvml { .. } => Ok(ReleaseRoute::Nvidia(route)),
            DeviceConfig::WireViewProIi { .. } => match config {
                OutputConfig::Display { brightness_percent, .. } => Ok(
                    ReleaseRoute::WireView(route, *brightness_percent),
                ),
                _ => Err(
                    driver_error(
                        text::concat3("device '", device, "' has an incompatible output"),
                    ),
                ),
            },
        }
    }

    /// Finds which driver reads a sensor.
    ///
    /// # Errors
    ///
    /// Returns an error when the device of the sensor is not configured.
    pub fn route_sensor<'a>(&'a self, config: &'a SensorConfig) -> (route: Result<SensorRoute<'a>>)
        ensures
            views::outcome(route) == sensor_route(self.devices@, *config),
    {
        match config {
            SensorConfig::LinuxHwmon { .. } => Ok(SensorRoute::Hwmon),
            SensorConfig::NvidiaNvml { device } => {
                let device_config = self.device(device.as_str())?;
                Ok(
                    SensorRoute::Nvidia(
                        DeviceRoute { device: device.as_str(), config: device_config },
                    ),
                )
            },
            SensorConfig::CorsairIcueLink { device, channel } => {
                let device_config = self.device(device.as_str())?;
                Ok(
                    SensorRoute::Corsair(
                        DeviceRoute { device: device.as_str(), config: device_config },
                        *channel,
                    ),
                )
            },
        }
    }

    /// Finds the Corsair hub whose HID data a dump reads.
    ///
    /// # Errors
    ///
    /// Returns an error when the device is not configured or is no HID device.
    pub fn route_dump<'a>(&'a self, alias: &'a str) -> (route: Result<DeviceRoute<'a>>)
        ensures
            views::outcome(route) == dump_route(self.devices@, alias@),
    {
        match self.devices.get(alias) {
            None => Err(unknown_device_error(alias)),
            Some(device_config) => match device_config {
                DeviceConfig::CorsairIcueLink { .. } => Ok(
                    DeviceRoute { device: alias, config: device_config },
                ),
                _ => Err(driver_error(text::concat3("device '", alias, "' is not a HID device"))),
            },
        }
    }
}

// ---------------------------------------------------------------- discovery

/// The devices that a driver found, none if it failed.
pub open spec fn found(reply: Reply<Seq<DescriptorView>>) -> Seq<DescriptorView> {
    match reply {
        Ok(devices) => devices,
        Err(_) => Seq::empty(),
    }
}

/// The failure of a driver in words, nothing if it succeeded.
pub open spec fn failures(reply: Reply<Seq<DescriptorView>>) -> Seq<Seq<char>> {
    match reply {
        Ok(_) => Seq::empty(),
        Err(error) => seq![crate::error::described(error)],
    }
}

/// What discovery by several drivers finds: everything that any of them found, or all their
/// failures if there is nothing and at least one failed.
pub open spec fn discovered(
    corsair: Reply<Seq<DescriptorView>>,
    nvidia: Reply<Seq<DescriptorView>>,
    hwmon: Reply<Seq<DescriptorView>>,
    wireview: Reply<Seq<DescriptorView>>,
) -> Reply<Seq<DescriptorView>> {
    let devices = found(corsair) + found(nvidia) + found(hwmon) + found(wireview);
    let errors = failures(corsair) + failures(nvidia) + failures(hwmon) + failures(wireview);
    if devices.len() == 0 && errors.len() > 0 {
        Err(ErrorView::Driver(text::joined(errors, "; "@)))
    } else {
        Ok(devices)
    }
}

fn collect(
    devices: &mut Vec<DeviceDescriptor>,
    errors: &mut Vec<String>,
    answer: Result<Vec<DeviceDescriptor>>,
)
    ensures
        views::list(final(devices)@) == views::list(old(devices)@) + found(descriptors(answer)),
        text::texts(final(errors)@) == text::texts(old(errors)@) + failures(descriptors(answer)),
{
    match answer {
        Ok(mut more) => {
            devices.append(&mut more);
            assert(views::list(devices@) =~= views::list(old(devices)@) + found(
                descriptors(answer),
            ));
            assert(text::texts(errors@) =~= text::texts(old(errors)@) + failures(
                descriptors(answer),
            ));
        },
        Err(error) => {
            let message = error.to_text();
            errors.push(message);
            assert(views::list(devices@) =~= views::list(old(devices)@) + found(
                descriptors(answer),
            ));
            assert(text::texts(errors@) =~= text::texts(old(errors)@) + failures(
                descriptors(answer),
            ));
        },
    }
}

/// Combines what each driver discovered, without starting the daemon or changing outputs.
///
/// # Errors
///
/// Returns an error when no hardware driver can complete discovery.
pub fn discover_devices(
    corsair: Result<Vec<DeviceDescriptor>>,
    nvidia: Result<Vec<DeviceDescriptor>>,
    hwmon: Result<Vec<DeviceDescriptor>>,
    wireview: Result<Vec<DeviceDescriptor>>,
) -> (result: Result<Vec<DeviceDescriptor>>)
    ensures
        descriptors(result) == discovered(
            descriptors(corsair),
            descriptors(nvidia),
            descriptors(hwmon),
            descriptors(wireview),
        ),
{
    let mut devices: Vec<DeviceDescriptor> = Vec::new();
    let mut errors: Vec<String> = Vec::new();
    assert(views::list(devices@) + found(descriptors(corsair)) =~= found(descriptors(corsair)));
    assert(text::texts(errors@) + failures(descriptors(corsair)) =~= failures(
        descriptors(corsair),
    ));
    collect(&mut devices, &mut errors, corsair);
    collect(&mut devices, &mut errors, nvidia);
    collect(&mut devices, &mut errors, hwmon);
    collect(&mut devices, &mut errors, wireview);
    assert(views::list(devices@).len() == devices@.len());
    assert(text::texts(errors@).len() == errors@.len());
    if devices.len() == 0 && errors.len() > 0 {
        return Err(driver_error(text::join(&errors, "; ")));
    }
    Ok(devices)
}

/// The alias that a driver noted on a device, if any.
pub open spec fn alias_of(device: DescriptorView) -> Option<Seq<char>> {
    names::find(device.details, "alias"@)
}

/// The alias of a device for messages.
pub open spec fn alias_label(device: DescriptorView) -> Seq<char> {
    match alias_of(device) {
        Some(alias) => alias,
        None => "unknown"@,
    }
}

/// The alias of the last of the first `count` devices with an identifier.
pub open spec fn claimant(devices: Seq<DescriptorView>, id: Seq<char>, count: int) -> Option<
    Seq<char>,
>
    decreases count,
{
    if count <= 0 {
        None
    } else if devices[count - 1].id == id {
        Some(alias_label(devices[count - 1]))
    } else {
        claimant(devices, id, count - 1)
    }
}

/// One message for each of the first `count` devices that an earlier one duplicates.
pub open spec fn duplicate_messages(devices: Seq<DescriptorView>, count: int) -> Seq<Seq<char>>
    decreases count,
{
    if count <= 0 {
        Seq::empty()
    } else {
        let earlier = duplicate_messages(devices, count - 1);
        match claimant(devices, devices[count - 1].id, count - 1) {
            Some(previous) => earlier.push(
                "device aliases '"@ + previous + "' and '"@ + alias_label(devices[count - 1])
                    + "' select the same hardware"@,
            ),
            None => earlier,
        }
    }
}

/// Whether some device carries an alias.
pub open spec fn alias_found(devices: Seq<DescriptorView>, alias: Seq<char>) -> bool {
    exists|i: int| 0 <= i < devices.len() && alias_of(#[trigger] devices[i]) == Some(alias)
}

/// One message for each of the first `count` configured devices that was not found.
pub open spec fn missing_messages(
    configured: Devices,
    devices: Seq<DescriptorView>,
    count: int,
) -> Seq<Seq<char>>
    decreases count,
{
    if count <= 0 {
        Seq::empty()
    } else {
        let earlier = missing_messages(configured, devices, count - 1);
        if alias_found(devices, configured[count - 1].0) {
            earlier
        } else {
            earlier.push("configured device '"@ + configured[count - 1].0 + "' was not found"@)
        }
    }
}

/// What a check of a configuration against the hardware gives: the selected devices, or why
/// they cannot be used.
pub open spec fn preflighted(
    configured: Devices,
    corsair: Reply<Seq<DescriptorView>>,
    nvidia: Reply<Seq<DescriptorView>>,
    wireview: Reply<Seq<DescriptorView>>,
    sensors: Reply<()>,
) -> Reply<Seq<DescriptorView>> {
    let devices = found(corsair) + found(nvidia) + found(wireview);
    let errors = failures(corsair) + failures(nvidia) + failures(wireview) + duplicate_messages(
        devices,
        devices.len() as int,
    ) + missing_messages(configured, devices, configured.len() as int);
    match sensors {
        Err(error) => Err(error),
        Ok(_) => if errors.len() > 0 {
            Err(ErrorView::Driver(text::joined(errors, "; "@)))
        } else {
            Ok(devices)
        },
    }
}

fn label_of(device: &DeviceDescriptor) -> (label: &str)
    ensures
        label@ == alias_label(device@),
{
    match device.details.get("alias") {
        Some(alias) => alias.as_str(),
        None => "unknown",
    }
}

fn find_claimant(devices: &Vec<DeviceDescriptor>, count: usize, id: &str) -> (found: Option<usize>)
    requires
        count <= devices@.len(),
    ensures
        match found {
            Some(at) => at < count && claimant(views::list(devices@), id@, count as int) == Some(
                alias_label(devices@[at as int]@),
            ),
            None => claimant(views::list(devices@), id@, count as int) is None,
        },
{
    let mut at: usize = count;
    while at > 0
        invariant
            at <= count <= devices@.len(),
            claimant(views::list(devices@), id@, count as int) == claimant(
                views::list(devices@),
                id@,
                at as int,
            ),
        decreases at,
    {
        if text::same(devices[at - 1].id.as_str(), id) {
            return Some(at - 1);
        }
        at -= 1;
    }
    None
}

fn push_text(list: &mut Vec<String>, message: String)
    ensures
        text::texts(final(list)@) == text::texts(old(list)@).push(message@),
{
    list.push(message);
    assert(text::texts(list@) =~= text::texts(old(list)@).push(message@));
}

fn collect_duplicates(devices: &Vec<DeviceDescriptor>, errors: &mut Vec<String>)
    ensures
        text::texts(final(errors)@) == text::texts(old(errors)@) + duplicate_messages(
            views::list(devices@),
            devices@.len() as int,
        ),
{
    let mut at: usize = 0;
    assert(text::texts(errors@) =~= text::texts(old(errors)@) + duplicate_messages(
        views::list(devices@),
        0,
    ));
    while at < devices.len()
        invariant
            at <= devices@.len(),
            text::texts(errors@) =~= text::texts(old(errors)@) + duplicate_messages(
                views::list(devices@),
                at as int,
            ),
        decreases devices@.len() - at,
    {
        if let Some(previous) = find_claimant(devices, at, devices[at].id.as_str()) {
            push_text(
                errors,
                text::concat5(
                    "device aliases '",
                    label_of(&devices[previous]),
                    "' and '",
                    label_of(&devices[at]),
                    "' select the same hardware",
                ),
            );
        }
        at += 1;
    }
}

fn has_alias(devices: &Vec<DeviceDescriptor>, alias: &str) -> (result: bool)
    ensures
        result == alias_found(views::list(devices@), alias@),
{
    let mut at: usize = 0;
    while at < devices.len()
        invariant
            at <= devices@.len(),
            forall|i: int| 0 <= i < at ==> alias_of((#[trigger] devices@[i])@) != Some(alias@),
        decreases devices@.len() - at,
    {
        if let Some(found) = devices[at].details.get("alias") {
            if text::same(found.as_str(), alias) {
                assert(alias_of(views::list(devices@)[at as int]) == Some(alias@));
                return true;
            }
        }
        at += 1;
    }
    assert forall|i: int| 0 <= i < views::list(devices@).len() implies alias_of(
        #[trigger] views::list(devices@)[i],
    ) != Some(alias@) by {
        assert(alias_of(devices@[i]@) != Some(alias@));
    }
    false
}

fn collect_missing(
    configured: &NameMap<DeviceConfig>,
    devices: &Vec<DeviceDescriptor>,
    errors: &mut Vec<String>,
)
    ensures
        text::texts(final(errors)@) == text::texts(old(errors)@) + missing_messages(
            configured@,
            views::list(devices@),
            configured@.len() as int,
        ),
{
    let mut at: usize = 0;
    let count: usize = configured.len();
    assert(text::texts(errors@) =~= text::texts(old(errors)@) + missing_messages(
        configured@,
        views::list(devices@),
        0,
    ));
    while at < count
        invariant
            count == configured@.len(),
            at <= count,
            text::texts(errors@) =~= text::texts(old(errors)@) + missing_messages(
                configured@,
                views::list(devices@),
                at as int,
            ),
        decreases count - at,
    {
        let alias = configured.key_at(at);
        if !has_alias(devices, alias.as_str()) {
            push_text(
                errors,
                text::concat3("configured device '", alias.as_str(), "' was not found"),
            );
        }
        at += 1;
    }
}

/// Combines the answers of the drivers to a check of a configuration.
///
/// # Errors
///
/// Returns an error when a driver failed, two aliases select the same hardware, or a
/// configured device was not found.
pub fn combine_preflight(
    configured: &NameMap<DeviceConfig>,
    corsair: Result<Vec<DeviceDescriptor>>,
    nvidia: Result<Vec<DeviceDescriptor>>,
    wireview: Result<Vec<DeviceDescriptor>>,
    sensors: Result<()>,
) -> (result: Result<Vec<DeviceDescriptor>>)
    ensures
        descriptors(result) == preflighted(
            configured@,
            descriptors(corsair),
            descriptors(nvidia),
            descriptors(wireview),
            done(sensors),
        ),
{
    sensors?;
    let mut devices: Vec<DeviceDescriptor> = Vec::new();
    let mut errors: Vec<String> = Vec::new();
    assert(views::list(devices@) + found(descriptors(corsair)) =~= found(descriptors(corsair)));
    assert(text::texts(errors@) + failures(descriptors(corsair)) =~= failures(
        descriptors(corsair),
    ));
    collect(&mut devices, &mut errors, corsair);
    collect(&mut devices, &mut errors, nvidia);
    collect(&mut devices, &mut errors, wireview);
    collect_duplicates(&devices, &mut errors);
    collect_missing(configured, &devices, &mut errors);
    assert(text::texts(errors@).len() == errors@.len());
    assert(views::list(devices@).len() == devices@.len());
    if errors.len() > 0 {
        return Err(driver_error(text::join(&errors, "; ")));
    }
    Ok(devices)
}

// ---------------------------------------------------------------- retry

/// Milliseconds before an operation that failed is tried again.
pub const RETRY_DELAY_MS: u64 = 100;

/// How long to wait before an operation that failed is tried again with a new connection, if it
/// is: an operation is tried again once.
pub fn retry_delay_ms(failures: u32) -> (delay: Option<u64>)
    ensures
        delay == Some(100u64) <==> failures == 1,
        delay == (if failures == 1 {
            Some(RETRY_DELAY_MS)
        } else {
            None
        }),
{
    if failures == 1 {
        Some(RETRY_DELAY_MS)
    } else {
        None
    }
}

// ---------------------------------------------------------------- laws

/// Discovery tells every device that some driver found. It fails only where no driver found any
/// and one of them failed.
pub proof fn law_discovery_tells_every_device(
    corsair: Reply<Seq<DescriptorView>>,
    nvidia: Reply<Seq<DescriptorView>>,
    hwmon: Reply<Seq<DescriptorView>>,
    wireview: Reply<Seq<DescriptorView>>,
    device: DescriptorView,
)
    ensures
        discovered(corsair, nvidia, hwmon, wireview) is Err <==> {
            &&& corsair is Err || nvidia is Err || hwmon is Err || wireview is Err
            &&& corsair matches Ok(list) ==> list.len() == 0
            &&& nvidia matches Ok(list) ==> list.len() == 0
            &&& hwmon matches Ok(list) ==> list.len() == 0
            &&& wireview matches Ok(list) ==> list.len() == 0
        },
        discovered(corsair, nvidia, hwmon, wireview) matches Ok(devices) ==> (devices.contains(
            device,
        ) <==> {
            ||| corsair matches Ok(list) && list.contains(device)
            ||| nvidia matches Ok(list) && list.contains(device)
            ||| hwmon matches Ok(list) && list.contains(device)
            ||| wireview matches Ok(list) && list.contains(device)
        }),
{
    let (a, b, c, d) = (found(corsair), found(nvidia), found(hwmon), found(wireview));
    lemma_joined_contains(a + b + c, d, device);
    lemma_joined_contains(a + b, c, device);
    lemma_joined_contains(a, b, device);
}

proof fn lemma_joined_contains(
    left: Seq<DescriptorView>,
    right: Seq<DescriptorView>,
    device: DescriptorView,
)
    ensures
        (left + right).contains(device) <==> left.contains(device) || right.contains(device),
{
    let both = left + right;
    if left.contains(device) {
        let i = choose|i: int| 0 <= i < left.len() && left[i] == device;
        assert(both[i] == device);
    }
    if right.contains(device) {
        let i = choose|i: int| 0 <= i < right.len() && right[i] == device;
        assert(both[left.len() + i] == device);
    }
    if both.contains(device) {
        let i = choose|i: int| 0 <= i < both.len() && both[i] == device;
        if i < left.len() {
            assert(left[i] == device);
        } else {
            assert(right[i - left.len()] == device);
        }
    }
}

proof fn lemma_claimed(devices: Seq<DescriptorView>, id: Seq<char>, count: int)
    requires
        0 <= count <= devices.len(),
    ensures
        claimant(devices, id, count) is None <==> forall|i: int|
            0 <= i < count ==> (#[trigger] devices[i]).id != id,
    decreases count,
{
    if count > 0 {
        lemma_claimed(devices, id, count - 1);
    }
}

proof fn lemma_distinct(devices: Seq<DescriptorView>, count: int)
    requires
        0 <= count <= devices.len(),
    ensures
        duplicate_messages(devices, count).len() == 0 <==> forall|i: int, j: int|
            0 <= i < j < count ==> (#[trigger] devices[i]).id != (#[trigger] devices[j]).id,
    decreases count,
{
    if count > 0 {
        lemma_distinct(devices, count - 1);
        lemma_claimed(devices, devices[count - 1].id, count - 1);
        if duplicate_messages(devices, count).len() != 0 && duplicate_messages(
            devices,
            count - 1,
        ).len() == 0 {
            let i = choose|i: int|
                0 <= i < count - 1 && (#[trigger] devices[i]).id == devices[count - 1].id;
            assert(devices[i].id == devices[count - 1].id);
        }
    }
}

proof fn lemma_all_found(configured: Devices, devices: Seq<DescriptorView>, count: int)
    requires
        0 <= count <= configured.len(),
    ensures
        missing_messages(configured, devices, count).len() == 0 <==> forall|k: int|
            0 <= k < count ==> alias_found(devices, (#[trigger] configured[k]).0),
    decreases count,
{
    if count > 0 {
        lemma_all_found(configured, devices, count - 1);
    }
}

/// A configuration is accepted by the hardware exactly where every driver could look, its sensors
/// are there, each configured device was found, and no two of them are the same.
pub proof fn law_accepted_hardware_is_complete(
    configured: Devices,
    corsair: Reply<Seq<DescriptorView>>,
    nvidia: Reply<Seq<DescriptorView>>,
    wireview: Reply<Seq<DescriptorView>>,
    sensors: Reply<()>,
)
    ensures
        preflighted(configured, corsair, nvidia, wireview, sensors) is Ok <==> {
            &&& corsair is Ok && nvidia is Ok && wireview is Ok && sensors is Ok
            &&& ({
                let devices = corsair->Ok_0 + nvidia->Ok_0 + wireview->Ok_0;
                &&& forall|k: int|
                    0 <= k < configured.len() ==> exists|i: int|
                        0 <= i < devices.len() && names::find(
                            (#[trigger] devices[i]).details,
                            "alias"@,
                        ) == Some((#[trigger] configured[k]).0)
                &&& forall|i: int, j: int|
                    0 <= i < j < devices.len() ==> (#[trigger] devices[i]).id != (
                    #[trigger] devices[j]).id
            })
        },
        preflighted(configured, corsair, nvidia, wireview, sensors) matches Ok(devices) ==> devices
            == corsair->Ok_0 + nvidia->Ok_0 + wireview->Ok_0,
{
    let devices = found(corsair) + found(nvidia) + found(wireview);
    lemma_distinct(devices, devices.len() as int);
    lemma_all_found(configured, devices, configured.len() as int);
    assert forall|k: int| 0 <= k < configured.len() implies alias_found(
        devices,
        (#[trigger] configured[k]).0,
    ) == (exists|i: int|
        0 <= i < devices.len() && names::find((#[trigger] devices[i]).details, "alias"@) == Some(
            configured[k].0,
        )) by {
        if alias_found(devices, configured[k].0) {
            let i = choose|i: int|
                0 <= i < devices.len() && alias_of(#[trigger] devices[i]) == Some(configured[k].0);
            assert(names::find(devices[i].details, "alias"@) == Some(configured[k].0));
        }
        if exists|i: int|
            0 <= i < devices.len() && names::find((#[trigger] devices[i]).details, "alias"@)
                == Some(configured[k].0) {
            let i = choose|i: int|
                0 <= i < devices.len() && names::find((#[trigger] devices[i]).details, "alias"@)
                    == Some(configured[k].0);
            assert(alias_of(devices[i]) == Some(configured[k].0));
        }
    }
}

/// A request goes to the device that the output or the sensor names, and only where that is
/// configured and of a kind that can do it.
pub proof fn law_requests_go_to_the_named_device(
    devices: Devices,
    alias: Seq<char>,
    output: OutputConfig,
    sensor: SensorConfig,
)
    ensures
        fan_route(devices, alias, output) is Ok <==> (output is Fan && (names::find(
            devices,
            output->Fan_device@,
        ) matches Some(device) && !(device is WireViewProIi))),
        fan_route(devices, alias, output) matches Ok(FanRouteView::Corsair {
            device,
            config,
            channels,
            expected_fan_count,
        }) ==> {
            &&& device == output->Fan_device@ && channels == output->Fan_channels@
            &&& names::find(devices, device) == Some(config) && config is CorsairIcueLink
            &&& expected_fan_count == config->expected_fan_count
        },
        fan_route(devices, alias, output) matches Ok(FanRouteView::Nvidia {
            device,
            config,
            channels,
        }) ==> {
            &&& device == output->Fan_device@ && channels == output->Fan_channels@
            &&& names::find(devices, device) == Some(config) && config is NvidiaNvml
        },
        rgb_route(devices, alias, output) is Ok <==> (output is Rgb && (names::find(
            devices,
            output->Rgb_device@,
        ) matches Some(device) && device is CorsairIcueLink)),
        rgb_route(devices, alias, output) matches Ok((route, led_count)) ==> {
            &&& route.device == output->Rgb_device@ && led_count == output->led_count
            &&& names::find(devices, route.device) == Some(route.config)
        },
        display_route(devices, alias, output) is Ok <==> (output is Display && (names::find(
            devices,
            output->Display_device@,
        ) matches Some(device) && device is WireViewProIi)),
        display_route(devices, alias, output) matches Ok(route) ==> route.device
            == output->Display_device@ && names::find(devices, route.device) == Some(route.config),
        sensor_route(devices, sensor) matches Ok(SensorRouteView::Corsair(route, channel)) ==> (
        sensor matches SensorConfig::CorsairIcueLink { device, channel: own } && own == channel
            && route.device == device@ && names::find(devices, device@) == Some(route.config)),
        sensor_route(devices, sensor) matches Ok(SensorRouteView::Nvidia(route)) ==> (
        sensor matches SensorConfig::NvidiaNvml { device } && route.device == device@
            && names::find(devices, device@) == Some(route.config)),
        sensor_route(devices, sensor) matches Ok(SensorRouteView::Hwmon) ==> sensor is LinuxHwmon,
{
}

/// An output is given back by the device that it is on: a hub or a GPU as a whole, and a display
/// by waking it at its own brightness.
pub proof fn law_outputs_are_given_back_by_their_device(devices: Devices, output: OutputConfig)
    ensures
        ({
            let name = match output {
                OutputConfig::Fan { device, .. } => device@,
                OutputConfig::Rgb { device, .. } => device@,
                OutputConfig::Display { device, .. } => device@,
            };
            match names::find(devices, name) {
                None => release_route(devices, output) is Err,
                Some(config) => match config {
                    DeviceConfig::CorsairIcueLink { .. } => release_route(devices, output) == Ok::<
                        ReleaseRouteView,
                        ErrorView,
                    >(ReleaseRouteView::Corsair(DeviceRouteView { device: name, config })),
                    DeviceConfig::NvidiaNvml { .. } => release_route(devices, output) == Ok::<
                        ReleaseRouteView,
                        ErrorView,
                    >(ReleaseRouteView::Nvidia(DeviceRouteView { device: name, config })),
                    DeviceConfig::WireViewProIi { .. } => match output {
                        OutputConfig::Display { brightness_percent, .. } => release_route(
                            devices,
                            output,
                        ) == Ok::<ReleaseRouteView, ErrorView>(
                            ReleaseRouteView::WireView(
                                DeviceRouteView { device: name, config },
                                brightness_percent,
                            ),
                        ),
                        _ => release_route(devices, output) is Err,
                    },
                },
            }
        }),
{
}

/// A sensor on a device can be read where the device is configured, and one of the machine itself
/// always.
pub proof fn law_sensors_are_read_by_their_device(devices: Devices, sensor: SensorConfig)
    ensures
        match sensor {
            SensorConfig::LinuxHwmon { .. } => sensor_route(devices, sensor) == Ok::<
                SensorRouteView,
                ErrorView,
            >(SensorRouteView::Hwmon),
            SensorConfig::NvidiaNvml { device } => (sensor_route(devices, sensor) matches Ok(
                SensorRouteView::Nvidia(_),
            )) <==> names::has(devices, device@),
            SensorConfig::CorsairIcueLink { device, .. } => (sensor_route(
                devices,
                sensor,
            ) matches Ok(SensorRouteView::Corsair(_, _))) <==> names::has(devices, device@),
        },
{
}

/// Fans are told their duty again but for those of a GPU, which keeps it.
pub proof fn law_fans_of_gpus_are_not_refreshed(devices: Devices, output: OutputConfig)
    ensures
        refresh_needed(devices, output) <==> output is Fan && !(names::find(
            devices,
            output->Fan_device@,
        ) matches Some(device) && device is NvidiaNvml),
        nvidia_fan_device(devices, output) matches Some(gpu) ==> output is Fan && names::find(
            devices,
            output->Fan_device@,
        ) == Some(gpu) && gpu is NvidiaNvml,
        output is Fan && (names::find(devices, output->Fan_device@) matches Some(device) && device
            is NvidiaNvml) ==> nvidia_fan_device(devices, output) is Some,
        nvidia_fan_device(devices, output) is Some ==> !refresh_needed(devices, output),
{
}

} // verus!
