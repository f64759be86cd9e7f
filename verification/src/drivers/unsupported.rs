//! A host whose hardware Feather cannot reach.

use vstd::prelude::*;

use crate::celsius::Celsius;
use crate::config::Config;
use crate::config::Nanos;
use crate::config::OutputConfig;
use crate::config::SensorConfig;
use crate::drivers;
use crate::drivers::helper;
use crate::drivers::helper::Answer;
use crate::drivers::helper::GpuCall;
use crate::drivers::helper::GpuFault;
use crate::drivers::helper::Gpus;
use crate::drivers::hub::HidInfo;
use crate::drivers::hwmon::HwmonListing;
use crate::drivers::nvidia::CallOutcome;
use crate::drivers::nvidia::GpuInfo;
use crate::drivers::nvidia::HelperRequest;
use crate::drivers::nvidia::HelperResult;
use crate::drivers::system;
use crate::drivers::system::Drivers;
use crate::drivers::system::Work;
use crate::drivers::wireview::PortAction;
use crate::drivers::wireview::PortEvent;
use crate::drivers::wireview::PortStep;
use crate::drivers::wireview::SerialPortInfo;
use crate::drivers::Call;
use crate::drivers::DisplayTarget;
use crate::drivers::FanWrite;
use crate::drivers::Hardware;
use crate::drivers::Sample;
use crate::error::ErrorView;
use crate::error::FeatherError;
use crate::error::Result;
use crate::json::Json;
use crate::types::DeviceDescriptor;
use crate::views;

verus! {

/// The drivers and the GPU library of a host that is not Linux: nothing is found, and whatever
/// can fail does.
pub struct Unsupported {
    /// What the drivers were asked.
    pub asked: Ghost<Seq<Work>>,
    /// What the GPU library was asked.
    pub called: Ghost<Seq<GpuCall>>,
}

/// Why nothing works here.
pub const LINUX_REQUIRED: &'static str = "Linux host required";

/// An operation failed because the host is not Linux.
pub open spec fn refused<T>(result: Result<T>) -> bool {
    result matches Err(error) && error@ == ErrorView::Driver(LINUX_REQUIRED@)
}

/// A call of the GPU library failed because the host is not Linux.
pub open spec fn declined<T>(answer: Answer<T>) -> bool {
    answer matches Err(reason) && reason@ == LINUX_REQUIRED@
}

fn refusal() -> (error: FeatherError)
    ensures
        error@ == ErrorView::Driver(LINUX_REQUIRED@),
{
    FeatherError::Driver(LINUX_REQUIRED.to_owned())
}

impl Unsupported {
    /// A host that was not asked anything yet.
    pub fn new() -> (host: Self)
        ensures
            host.work() == Seq::<Work>::empty(),
            host.calls() == Seq::<GpuCall>::empty(),
    {
        Unsupported { asked: Ghost(Seq::empty()), called: Ghost(Seq::empty()) }
    }
}

impl Drivers for Unsupported {
    open spec fn work(&self) -> Seq<Work> {
        self.asked@
    }

    fn list_hids(&mut self) -> (result: Result<Vec<HidInfo>>)
        ensures
            refused(result),
    {
        let result = Err(refusal());
        self.asked = Ghost(self.asked@.push(Work::ListHids { reply: system::items(result) }));
        result
    }

    fn list_ports(&mut self) -> (result: Result<Vec<SerialPortInfo>>)
        ensures
            refused(result),
    {
        let result = Err(refusal());
        self.asked = Ghost(self.asked@.push(Work::ListPorts { reply: system::items(result) }));
        result
    }

    fn list_hwmon(&mut self) -> (listing: HwmonListing)
        ensures
            listing.directories matches Err(reason) && reason@ == LINUX_REQUIRED@,
    {
        let listing = HwmonListing {
            base: "/sys/class/hwmon".to_owned(),
            directories: Err(LINUX_REQUIRED.to_owned()),
        };
        self.asked = Ghost(self.asked@.push(Work::ListHwmon { listing }));
        listing
    }

    fn read_input(&mut self, path: &str) -> (result: Result<Sample>)
        ensures
            refused(result),
    {
        let result = Err(refusal());
        self.asked = Ghost(
            self.asked@.push(Work::ReadInput { path: path@, reply: views::outcome(result) }),
        );
        result
    }

    fn open_hub(&mut self, alias: &str, path: &str) -> (result: Result<()>)
        ensures
            refused(result),
    {
        let result = Err(refusal());
        self.asked = Ghost(
            self.asked@.push(
                Work::OpenHub { alias: alias@, path: path@, reply: drivers::done(result) },
            ),
        );
        result
    }

    fn transfer(&mut self, alias: &str, packet: &Vec<u8>) -> (result: Result<Vec<u8>>)
        ensures
            refused(result),
    {
        let result = Err(refusal());
        self.asked = Ghost(
            self.asked@.push(
                Work::Transfer { alias: alias@, packet: packet@, reply: system::items(result) },
            ),
        );
        result
    }

    fn close_hub(&mut self, alias: &str) {
        self.asked = Ghost(self.asked@.push(Work::CloseHub { alias: alias@ }));
    }

    fn open_port(&mut self, alias: &str, path: &str) -> (result: Result<()>)
        ensures
            refused(result),
    {
        let result = Err(refusal());
        self.asked = Ghost(
            self.asked@.push(
                Work::OpenPort { alias: alias@, path: path@, reply: drivers::done(result) },
            ),
        );
        result
    }

    fn perform(&mut self, action: PortAction) -> (event: PortEvent)
        ensures
            event matches PortEvent::Failed { step, reason } && step == PortStep::ClearInput
                && reason@ == LINUX_REQUIRED@,
    {
        let event = PortEvent::Failed {
            step: PortStep::ClearInput,
            reason: LINUX_REQUIRED.to_owned(),
        };
        self.asked = Ghost(
            self.asked@.push(Work::Perform { action: action@, event: event@ }),
        );
        event
    }

    fn close_port(&mut self) {
        self.asked = Ghost(self.asked@.push(Work::ClosePort));
    }

    fn pause(&mut self, milliseconds: u64) {
        self.asked = Ghost(self.asked@.push(Work::Pause { milliseconds }));
    }

    fn spawn_helper(&mut self, label: &str) -> (result: Result<()>)
        ensures
            refused(result),
    {
        let result = Err(refusal());
        self.asked = Ghost(
            self.asked@.push(Work::SpawnHelper { label: label@, reply: drivers::done(result) }),
        );
        result
    }

    fn exchange(&mut self, label: &str, request: HelperRequest, timeout: Nanos) -> (outcome:
        CallOutcome)
        ensures
            outcome is Refused,
    {
        let outcome = CallOutcome::Refused;
        self.asked = Ghost(
            self.asked@.push(
                Work::Exchange { label: label@, request: request@, timeout, outcome },
            ),
        );
        outcome
    }

    fn drop_helper(&mut self, label: &str) {
        self.asked = Ghost(self.asked@.push(Work::DropHelper { label: label@ }));
    }

    fn describe(&mut self, result: &HelperResult) -> (words: String)
        ensures
            words@ == LINUX_REQUIRED@,
    {
        let words = LINUX_REQUIRED.to_owned();
        self.asked = Ghost(
            self.asked@.push(Work::Describe { result: *result, words: words@ }),
        );
        words
    }

    fn decimal(&mut self, celsius: Celsius) -> (words: String)
        ensures
            words@ == LINUX_REQUIRED@,
    {
        let words = LINUX_REQUIRED.to_owned();
        self.asked = Ghost(self.asked@.push(Work::Decimal { celsius, words: words@ }));
        words
    }

    fn from_tenths(&mut self, tenths: i16) -> (sample: Sample)
        ensures
            sample.celsius.nan(),
    {
        let sample = Sample {
            celsius: Celsius { bits: 0x7ff8_0000_0000_0000 },
            text: LINUX_REQUIRED.to_owned(),
        };
        self.asked = Ghost(self.asked@.push(Work::FromTenths { tenths, sample: sample@ }));
        sample
    }
}

impl Gpus for Unsupported {
    open spec fn calls(&self) -> Seq<GpuCall> {
        self.called@
    }

    fn load(&mut self) -> (answer: Answer<()>)
        ensures
            declined(answer),
    {
        let answer = Err(LINUX_REQUIRED.to_owned());
        self.called = Ghost(self.called@.push(GpuCall::Load { answer: helper::said(answer) }));
        answer
    }

    fn unload(&mut self) {
        self.called = Ghost(self.called@.push(GpuCall::Unload));
    }

    fn count(&mut self) -> (answer: Answer<u32>)
        ensures
            declined(answer),
    {
        let answer = Err(LINUX_REQUIRED.to_owned());
        self.called = Ghost(self.called@.push(GpuCall::Count { answer: helper::said(answer) }));
        answer
    }

    fn read(&mut self, index: u32) -> (answer: std::result::Result<GpuInfo, GpuFault>)
        ensures
            answer matches Err(GpuFault::Open(reason)) && reason@ == LINUX_REQUIRED@,
    {
        let answer = Err(GpuFault::Open(LINUX_REQUIRED.to_owned()));
        self.called = Ghost(self.called@.push(GpuCall::Read { index, answer }));
        answer
    }

    fn find(&mut self, uuid: &str) -> (answer: Answer<()>)
        ensures
            declined(answer),
    {
        let answer = Err(LINUX_REQUIRED.to_owned());
        self.called = Ghost(
            self.called@.push(GpuCall::Find { uuid: uuid@, answer: helper::said(answer) }),
        );
        answer
    }

    fn temperature(&mut self, uuid: &str) -> (answer: Answer<Celsius>)
        ensures
            declined(answer),
    {
        let answer = Err(LINUX_REQUIRED.to_owned());
        self.called = Ghost(
            self.called@.push(GpuCall::Temperature { uuid: uuid@, answer: helper::said(answer) }),
        );
        answer
    }

    fn count_fans(&mut self, uuid: &str) -> (answer: Answer<u32>)
        ensures
            declined(answer),
    {
        let answer = Err(LINUX_REQUIRED.to_owned());
        self.called = Ghost(
            self.called@.push(GpuCall::CountFans { uuid: uuid@, answer: helper::said(answer) }),
        );
        answer
    }

    fn fan_range(&mut self, uuid: &str) -> (answer: Option<(u32, u32)>)
        ensures
            answer is None,
    {
        let answer = None;
        self.called = Ghost(self.called@.push(GpuCall::FanRange { uuid: uuid@, answer }));
        answer
    }

    fn set_fan(&mut self, uuid: &str, fan: u32, duty: u32) -> (answer: Answer<()>)
        ensures
            declined(answer),
    {
        let answer = Err(LINUX_REQUIRED.to_owned());
        self.called = Ghost(
            self.called@.push(
                GpuCall::SetFan { uuid: uuid@, fan, duty, answer: helper::said(answer) },
            ),
        );
        answer
    }

    fn reset_fan(&mut self, uuid: &str, fan: u32) -> (answer: Answer<()>)
        ensures
            declined(answer),
    {
        let answer = Err(LINUX_REQUIRED.to_owned());
        self.called = Ghost(
            self.called@.push(
                GpuCall::ResetFan { uuid: uuid@, fan, answer: helper::said(answer) },
            ),
        );
        answer
    }
}

/// The hardware of a host that is not Linux, for configuration and client work there: nothing can
/// be controlled, and there is nothing to restore.
pub struct UnsupportedHardware {
    /// The calls made so far.
    pub asked: Ghost<Seq<Call>>,
}

/// Why no configuration is accepted here.
pub const NO_CONTROL: &'static str = "hardware control is supported only on Linux";

/// Why no device is found here.
pub const NO_DISCOVERY: &'static str = "hardware discovery is supported only on Linux";

impl UnsupportedHardware {
    /// Hardware that was not asked anything yet.
    pub fn new() -> (hardware: Self)
        ensures
            hardware.calls() == Seq::<Call>::empty(),
    {
        UnsupportedHardware { asked: Ghost(Seq::empty()) }
    }
}

impl Hardware for UnsupportedHardware {
    open spec fn calls(&self) -> Seq<Call> {
        self.asked@
    }

    fn preflight(&mut self, config: &Config) -> (result: Result<Vec<DeviceDescriptor>>)
        ensures
            result matches Err(error) && error@ == ErrorView::Driver(NO_CONTROL@),
    {
        let result = Err(FeatherError::Driver(NO_CONTROL.to_owned()));
        self.asked = Ghost(
            self.asked@.push(
                Call::Preflight { config: *config, reply: drivers::descriptors(result) },
            ),
        );
        result
    }

    fn commit_config(&mut self, config: &Config) {
        self.asked = Ghost(self.asked@.push(Call::Commit { config: *config }));
    }

    fn discover(&mut self) -> (result: Result<Vec<DeviceDescriptor>>)
        ensures
            result matches Err(error) && error@ == ErrorView::Driver(NO_DISCOVERY@),
    {
        let result = Err(FeatherError::Driver(NO_DISCOVERY.to_owned()));
        self.asked = Ghost(
            self.asked@.push(
                Call::Discover { reply: drivers::descriptors(result) },
            ),
        );
        result
    }

    fn read_sensor(&mut self, alias: &str, config: &SensorConfig) -> (result: Result<Sample>)
        ensures
            refused(result),
    {
        let result = Err(refusal());
        self.asked = Ghost(
            self.asked@.push(
                Call::ReadSensor { alias: alias@, config: *config, reply: views::outcome(result) },
            ),
        );
        result
    }

    fn set_fan(&mut self, alias: &str, config: &OutputConfig, percent: u8) -> (result: Result<
        FanWrite,
    >)
        ensures
            refused(result),
    {
        let result = Err(refusal());
        self.asked = Ghost(
            self.asked@.push(
                Call::SetFan {
                    alias: alias@,
                    config: *config,
                    percent,
                    reply: views::outcome(result),
                },
            ),
        );
        result
    }

    fn fan_needs_periodic_refresh(&self, config: &OutputConfig) -> (result: bool)
        ensures
            result,
    {
        true
    }

    fn check_fan_health(&self, config: &OutputConfig) -> (result: Result<()>)
        ensures
            result is Ok,
    {
        Ok(())
    }

    fn fan_failure_is_isolated(&self, config: &OutputConfig) -> (result: bool)
        ensures
            !result,
    {
        false
    }

    fn set_rgb(&mut self, alias: &str, config: &OutputConfig, rgb: [u8; 3]) -> (result: Result<
        Json,
    >)
        ensures
            refused(result),
    {
        let result = Err(refusal());
        self.asked = Ghost(
            self.asked@.push(
                Call::SetRgb { alias: alias@, config: *config, rgb, reply: views::outcome(result) },
            ),
        );
        result
    }

    fn set_display(
        &mut self,
        alias: &str,
        config: &OutputConfig,
        target: DisplayTarget,
    ) -> (result: Result<Json>)
        ensures
            refused(result),
    {
        let result = Err(refusal());
        self.asked = Ghost(
            self.asked@.push(
                Call::SetDisplay {
                    alias: alias@,
                    config: *config,
                    target,
                    reply: views::outcome(result),
                },
            ),
        );
        result
    }

    fn release(&mut self, alias: &str, config: &OutputConfig) -> (result: Result<()>)
        ensures
            result is Ok,
    {
        let result = Ok(());
        self.asked = Ghost(
            self.asked@.push(
                Call::Release { alias: alias@, config: *config, reply: drivers::done(result) },
            ),
        );
        result
    }

    fn debug_hid_dump(&mut self, device_alias: &str) -> (result: Result<String>)
        ensures
            refused(result),
    {
        let result = Err(refusal());
        self.asked = Ghost(
            self.asked@.push(
                Call::Dump { device: device_alias@, reply: views::outcome(result) },
            ),
        );
        result
    }

    fn shutdown(&mut self) {
        self.asked = Ghost(self.asked@.push(Call::Shutdown));
    }
}

} // verus!
