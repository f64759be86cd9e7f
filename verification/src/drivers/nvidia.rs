//! Supervision of the NVIDIA helper processes, and the decisions that a helper makes.
//!
//! Runtime requests use one helper process per GPU, so that a wedged driver call for one
//! device cannot block the other drivers or GPUs.

use vstd::prelude::*;

use crate::celsius::Celsius;
use crate::config::DeviceConfig;
use crate::drivers::wireview;
use crate::drivers::Reply;
use crate::error;
use crate::error::ErrorView;
use crate::error::FeatherError;
use crate::error::Result;
use crate::json;
use crate::json::Json;
use crate::json::JsonView;
use crate::names;
use crate::names::NameMap;
use crate::search;
use crate::text;
use crate::types::DescriptorView;
use crate::types::DeviceDescriptor;
use crate::views;

verus! {

/// Nanoseconds that a helper request may take unless configured otherwise.
pub const DEFAULT_REQUEST_TIMEOUT: u128 = 5_000_000_000;

/// Milliseconds that a reply is waited for beyond the timeout of its request.
pub const HELPER_REPLY_GRACE_MS: u64 = 1_000;

fn driver_error(message: String) -> (error: FeatherError)
    ensures
        error@ == ErrorView::Driver(message@),
{
    FeatherError::Driver(message)
}

// ---------------------------------------------------------------- protocol

/// A request to a helper.
#[derive(Debug)]
pub enum HelperRequest {
    /// List all GPUs.
    DiscoverAll,
    /// Read the core temperature of a GPU.
    ReadTemperature {
        /// Sensor alias.
        alias: String,
        /// GPU UUID.
        uuid: String,
    },
    /// Set fans of a GPU.
    SetFans {
        /// Device alias.
        alias: String,
        /// GPU UUID.
        uuid: String,
        /// Fan indices, or none for all.
        channels: Vec<u32>,
        /// Duty.
        percent: u8,
    },
    /// Give the fans of a GPU back.
    Release {
        /// Output alias.
        alias: String,
        /// GPU UUID.
        uuid: String,
    },
    /// Give everything back and end.
    Shutdown,
    /// End at once.
    Stop,
}

/// See [`HelperRequest`].
pub ghost enum RequestView {
    /// See [`HelperRequest::DiscoverAll`].
    DiscoverAll,
    /// See [`HelperRequest::ReadTemperature`].
    ReadTemperature {
        /// Sensor alias.
        alias: Seq<char>,
        /// GPU UUID.
        uuid: Seq<char>,
    },
    /// See [`HelperRequest::SetFans`].
    SetFans {
        /// Device alias.
        alias: Seq<char>,
        /// GPU UUID.
        uuid: Seq<char>,
        /// Fan indices, or none for all.
        channels: Seq<u32>,
        /// Duty.
        percent: u8,
    },
    /// See [`HelperRequest::Release`].
    Release {
        /// Output alias.
        alias: Seq<char>,
        /// GPU UUID.
        uuid: Seq<char>,
    },
    /// See [`HelperRequest::Shutdown`].
    Shutdown,
    /// See [`HelperRequest::Stop`].
    Stop,
}

impl View for HelperRequest {
    type V = RequestView;

    open spec fn view(&self) -> RequestView {
        match *self {
            HelperRequest::DiscoverAll => RequestView::DiscoverAll,
            HelperRequest::ReadTemperature { alias, uuid } => RequestView::ReadTemperature {
                alias: alias@,
                uuid: uuid@,
            },
            HelperRequest::SetFans { alias, uuid, channels, percent } => RequestView::SetFans {
                alias: alias@,
                uuid: uuid@,
                channels: channels@,
                percent,
            },
            HelperRequest::Release { alias, uuid } => RequestView::Release {
                alias: alias@,
                uuid: uuid@,
            },
            HelperRequest::Shutdown => RequestView::Shutdown,
            HelperRequest::Stop => RequestView::Stop,
        }
    }
}

/// What a helper gives back.
#[derive(Debug)]
pub enum HelperResult {
    /// GPUs.
    Devices(Vec<DeviceDescriptor>),
    /// A temperature.
    Temperature(Celsius),
    /// A report.
    Value(Json),
    /// Nothing.
    Unit,
}

/// The answer of a helper.
#[derive(Debug)]
pub enum HelperResponse {
    /// The request succeeded.
    Success {
        /// What it gives back.
        result: HelperResult,
    },
    /// The request failed.
    Error {
        /// Why.
        message: String,
    },
}

impl View for HelperResult {
    type V = HelperResult;

    open spec fn view(&self) -> HelperResult {
        *self
    }
}

impl HelperRequest {
    /// Whether a helper ends after this request.
    pub fn is_last(&self) -> (result: bool)
        ensures
            result == (self is Shutdown || self is Stop),
    {
        match self {
            HelperRequest::Shutdown => true,
            HelperRequest::Stop => true,
            _ => false,
        }
    }
}

/// The answer of a helper to a request that had an outcome.
pub fn helper_response(outcome: Result<HelperResult>) -> (response: HelperResponse)
    ensures
        match outcome {
            Ok(result) => response == (HelperResponse::Success { result }),
            Err(failure) => response matches HelperResponse::Error { message } && message@
                == error::described(failure@),
        },
{
    match outcome {
        Ok(result) => HelperResponse::Success { result },
        Err(failure) => HelperResponse::Error { message: failure.to_text() },
    }
}

/// The answer of a helper to a request that it cannot decode.
pub fn invalid_request(reason: &str) -> (response: HelperResponse)
    ensures
        response matches HelperResponse::Error { message } && message@
            == "invalid NVIDIA helper request: "@ + reason@,
{
    HelperResponse::Error { message: text::concat2("invalid NVIDIA helper request: ", reason) }
}

/// An answer that does not fit its request.
pub open spec fn unexpected(operation: Seq<char>, shown: Seq<char>) -> ErrorView {
    ErrorView::Driver(
        "NVIDIA helper returned an unexpected response for "@ + operation + ": "@ + shown,
    )
}

fn unexpected_response(operation: &str, shown: &str) -> (error: FeatherError)
    ensures
        error@ == unexpected(operation@, shown@),
{
    driver_error(
        text::concat4(
            "NVIDIA helper returned an unexpected response for ",
            operation,
            ": ",
            shown,
        ),
    )
}

/// Takes the GPUs out of an answer; `shown` is the answer in words.
///
/// # Errors
///
/// Returns an error for any other answer.
pub fn expect_devices(result: HelperResult, shown: &str) -> (outcome: Result<Vec<DeviceDescriptor>>)
    ensures
        match result {
            HelperResult::Devices(devices) => outcome == Ok::<Vec<DeviceDescriptor>, FeatherError>(
                devices,
            ),
            _ => outcome matches Err(e) && e@ == unexpected("device discovery"@, shown@),
        },
{
    match result {
        HelperResult::Devices(devices) => Ok(devices),
        _ => Err(unexpected_response("device discovery", shown)),
    }
}

/// Takes the temperature out of an answer; `shown` is the answer in words.
///
/// # Errors
///
/// Returns an error for any other answer.
pub fn expect_temperature(result: HelperResult, shown: &str) -> (outcome: Result<Celsius>)
    ensures
        match result {
            HelperResult::Temperature(value) => outcome == Ok::<Celsius, FeatherError>(value),
            _ => outcome matches Err(e) && e@ == unexpected("temperature read"@, shown@),
        },
{
    match result {
        HelperResult::Temperature(value) => Ok(value),
        _ => Err(unexpected_response("temperature read", shown)),
    }
}

/// Takes the report of a fan write out of an answer; `shown` is the answer in words.
///
/// # Errors
///
/// Returns an error for any other answer.
pub fn expect_value(result: HelperResult, shown: &str) -> (outcome: Result<Json>)
    ensures
        match result {
            HelperResult::Value(value) => outcome == Ok::<Json, FeatherError>(value),
            _ => outcome matches Err(e) && e@ == unexpected("fan write"@, shown@),
        },
{
    match result {
        HelperResult::Value(value) => Ok(value),
        _ => Err(unexpected_response("fan write", shown)),
    }
}

/// Accepts an answer to a release; `shown` is the answer in words.
///
/// # Errors
///
/// Returns an error for an answer that gives something back.
pub fn expect_unit(result: HelperResult, shown: &str) -> (outcome: Result<()>)
    ensures
        match result {
            HelperResult::Unit => outcome is Ok,
            _ => outcome matches Err(e) && e@ == unexpected("fan release"@, shown@),
        },
{
    match result {
        HelperResult::Unit => Ok(()),
        _ => Err(unexpected_response("fan release", shown)),
    }
}

// ---------------------------------------------------------------- selection

/// The UUID of an NVIDIA selector.
///
/// # Errors
///
/// Returns an error when the selector is for another device type.
pub fn uuid(config: &DeviceConfig) -> (result: Result<&str>)
    ensures
        match *config {
            DeviceConfig::NvidiaNvml { uuid } => result matches Ok(found) && found@ == uuid@,
            _ => result matches Err(e) && e@ == ErrorView::Driver(
                "configured device is not an NVIDIA GPU"@,
            ),
        },
{
    match config {
        DeviceConfig::NvidiaNvml { uuid } => Ok(uuid.as_str()),
        _ => Err(driver_error("configured device is not an NVIDIA GPU".to_owned())),
    }
}

/// Whether some device selects a GPU.
pub open spec fn selects(configured: names::Entries<DeviceConfig>, uuid: Seq<char>) -> bool {
    exists|i: int|
        0 <= i < configured.len() && ((#[trigger] configured[i]).1 matches DeviceConfig::NvidiaNvml {
            uuid: own,
        } && own@ == uuid)
}

/// Whether some device is a GPU.
pub open spec fn any_nvidia(configured: names::Entries<DeviceConfig>) -> bool {
    exists|i: int| 0 <= i < configured.len() && ((#[trigger] configured[i]).1 is NvidiaNvml)
}

/// Whether a configuration has any GPU, so that GPUs need listing.
pub fn needs_nvml(configured: &NameMap<DeviceConfig>) -> (result: bool)
    ensures
        result == any_nvidia(configured@),
{
    let mut at: usize = 0;
    let count: usize = configured.len();
    while at < count
        invariant
            count == configured@.len(),
            at <= count,
            forall|i: int| 0 <= i < at ==> !((#[trigger] configured@[i]).1 is NvidiaNvml),
        decreases count - at,
    {
        if let DeviceConfig::NvidiaNvml { .. } = configured.value_at(at) {
            assert(configured@[at as int].1 is NvidiaNvml);
            return true;
        }
        at += 1;
    }
    false
}

fn is_selected(configured: &NameMap<DeviceConfig>, uuid: &str) -> (result: bool)
    ensures
        result == selects(configured@, uuid@),
{
    let mut at: usize = 0;
    let count: usize = configured.len();
    while at < count
        invariant
            count == configured@.len(),
            at <= count,
            forall|i: int|
                0 <= i < at ==> !((#[trigger] configured@[i]).1 matches DeviceConfig::NvidiaNvml {
                    uuid: own,
                } && own@ == uuid@),
        decreases count - at,
    {
        if let DeviceConfig::NvidiaNvml { uuid: own } = configured.value_at(at) {
            if text::same(own.as_str(), uuid) {
                assert(configured@[at as int].1 matches DeviceConfig::NvidiaNvml { uuid: found }
                    && found@ == uuid@);
                return true;
            }
        }
        at += 1;
    }
    false
}

/// The helpers among the first `count` whose GPU no device selects.
pub open spec fn unselected(
    helpers: Seq<Seq<char>>,
    configured: names::Entries<DeviceConfig>,
    count: int,
) -> Seq<Seq<char>>
    decreases count,
{
    if count <= 0 {
        Seq::empty()
    } else if selects(configured, helpers[count - 1]) {
        unselected(helpers, configured, count - 1)
    } else {
        unselected(helpers, configured, count - 1).push(helpers[count - 1])
    }
}

/// The helpers to stop once a configuration is active, by the UUID of their GPU.
pub fn helpers_to_stop(helpers: &Vec<String>, configured: &NameMap<DeviceConfig>) -> (stopped: Vec<
    String,
>)
    ensures
        text::texts(stopped@) == unselected(
            text::texts(helpers@),
            configured@,
            helpers@.len() as int,
        ),
{
    let mut stopped: Vec<String> = Vec::new();
    let mut at: usize = 0;
    let ghost all = text::texts(helpers@);
    assert(text::texts(stopped@) =~= unselected(all, configured@, 0));
    while at < helpers.len()
        invariant
            at <= helpers@.len(),
            all == text::texts(helpers@),
            text::texts(stopped@) == unselected(all, configured@, at as int),
        decreases helpers@.len() - at,
    {
        if !is_selected(configured, helpers[at].as_str()) {
            let copy = helpers[at].clone();
            let ghost before = stopped@;
            stopped.push(copy);
            assert(text::texts(stopped@) =~= text::texts(before).push(copy@));
        }
        at += 1;
    }
    stopped
}

/// The GPUs with an identifier.
pub open spec fn gpu_at(devices: Seq<DescriptorView>, uuid: Seq<char>) -> spec_fn(int) -> Option<
    int,
> {
    |at: int|
        if devices[at].id == uuid {
            Some(at)
        } else {
            None
        }
}

/// The configured GPUs among the first `count` devices that were found.
pub open spec fn configured_gpus(
    configured: names::Entries<DeviceConfig>,
    devices: Seq<DescriptorView>,
    count: int,
) -> Seq<DescriptorView>
    decreases count,
{
    if count <= 0 {
        Seq::empty()
    } else {
        let earlier = configured_gpus(configured, devices, count - 1);
        match configured[count - 1].1 {
            DeviceConfig::NvidiaNvml { uuid } => match search::first(
                gpu_at(devices, uuid@),
                0,
                devices.len() as int,
            ) {
                Some(at) => earlier.push(
                    wireview::with_alias(devices[at], configured[count - 1].0),
                ),
                None => earlier,
            },
            _ => earlier,
        }
    }
}

fn find_gpu(devices: &Vec<DeviceDescriptor>, uuid: &str) -> (found: Option<usize>)
    ensures
        match search::first(gpu_at(views::list(devices@), uuid@), 0, devices@.len() as int) {
            Some(at) => found is Some && found->0 == at && 0 <= at < devices@.len(),
            None => found is None,
        },
{
    let mut at: usize = 0;
    let ghost check = gpu_at(views::list(devices@), uuid@);
    while at < devices.len()
        invariant
            at <= devices@.len(),
            check == gpu_at(views::list(devices@), uuid@),
            search::first(check, 0, devices@.len() as int) == search::first(
                check,
                at as int,
                devices@.len() as int,
            ),
        decreases devices@.len() - at,
    {
        assert(views::list(devices@)[at as int] == devices@[at as int]@);
        if text::same(devices[at].id.as_str(), uuid) {
            assert(check(at as int) == Some(at as int));
            return Some(at);
        }
        at += 1;
    }
    None
}

/// Describes the configured GPUs that were found.
pub fn discover_configured(
    configured: &NameMap<DeviceConfig>,
    devices: &Vec<DeviceDescriptor>,
) -> (found: Vec<DeviceDescriptor>)
    ensures
        views::list(found@) == configured_gpus(
            configured@,
            views::list(devices@),
            configured@.len() as int,
        ),
{
    let mut found: Vec<DeviceDescriptor> = Vec::new();
    let mut at: usize = 0;
    let count: usize = configured.len();
    assert(views::list(found@) =~= configured_gpus(configured@, views::list(devices@), 0));
    while at < count
        invariant
            count == configured@.len(),
            at <= count,
            views::list(found@) == configured_gpus(configured@, views::list(devices@), at as int),
        decreases count - at,
    {
        if let DeviceConfig::NvidiaNvml { uuid } = configured.value_at(at) {
            if let Some(gpu) = find_gpu(devices, uuid.as_str()) {
                let mut device = devices[gpu].copy();
                device.details.insert("alias".to_owned(), configured.key_at(at).clone());
                let ghost before = found@;
                found.push(device);
                assert(views::list(found@) =~= views::list(before).push(device@));
            }
        }
        at += 1;
    }
    found
}

// ---------------------------------------------------------------- supervision

/// Whether the driver says that a GPU cannot be used before a reset.
pub open spec fn terminal(message: Seq<char>) -> bool {
    let lowered = text::lower(message);
    ||| text::contains_text(lowered, "requires a reset"@)
    ||| text::contains_text(lowered, "reset required"@)
    ||| text::contains_text(lowered, "gpu is lost"@)
    ||| text::contains_text(lowered, "gpu has fallen off"@)
    ||| text::contains_text(lowered, "fallen off the bus"@)
    ||| text::contains_text(lowered, "fell off the bus"@)
}

/// Whether the driver says that a GPU cannot be used before a reset.
pub fn terminal_nvidia_error(message: &str) -> (result: bool)
    ensures
        result == terminal(message@),
{
    let lowered = text::to_lower(message);
    let lowered = lowered.as_str();
    text::contains(lowered, "requires a reset") || text::contains(lowered, "reset required")
        || text::contains(lowered, "gpu is lost") || text::contains(lowered, "gpu has fallen off")
        || text::contains(lowered, "fallen off the bus") || text::contains(
        lowered,
        "fell off the bus",
    )
}

/// The error of a helper that is out of service.
pub open spec fn quarantined(label: Seq<char>, reason: Seq<char>) -> ErrorView {
    ErrorView::Driver(
        "NVIDIA helper for "@ + label + " is quarantined: "@ + reason
            + "; reset the GPU and restart featherd"@,
    )
}

fn quarantined_error(label: &str, reason: &str) -> (error: FeatherError)
    ensures
        error@ == quarantined(label@, reason@),
{
    driver_error(
        text::concat5(
            "NVIDIA helper for ",
            label,
            " is quarantined: ",
            reason,
            "; reset the GPU and restart featherd",
        ),
    )
}

/// A helper process as its supervisor knows it.
#[derive(Debug)]
pub struct HelperState {
    /// What the helper is for.
    pub label: String,
    /// Whether it still takes requests.
    pub running: bool,
    /// Why it is out of service.
    pub quarantined: Option<String>,
}

/// See [`HelperState`].
pub ghost struct HelperView {
    /// See [`HelperState::label`].
    pub label: Seq<char>,
    /// See [`HelperState::running`].
    pub running: bool,
    /// See [`HelperState::quarantined`].
    pub quarantined: Option<Seq<char>>,
}

impl View for HelperState {
    type V = HelperView;

    open spec fn view(&self) -> HelperView {
        HelperView {
            label: self.label@,
            running: self.running,
            quarantined: views::maybe(self.quarantined),
        }
    }
}

/// What came of a request that was sent to a helper.
#[derive(Debug)]
pub enum CallOutcome {
    /// The supervisor did not take it.
    Refused,
    /// No reply came in time; the limit is given in words.
    TimedOut(String),
    /// The supervisor ended before it replied.
    Disconnected,
    /// The helper answered.
    Answered(HelperResponse),
    /// The helper could not be reached.
    Broken(String),
}

/// Why a helper takes no request, if it does not.
pub open spec fn refusal(helper: HelperView) -> Option<ErrorView> {
    match helper.quarantined {
        Some(reason) => Some(quarantined(helper.label, reason)),
        None => if helper.running {
            None
        } else {
            Some(quarantined(helper.label, "helper is not running"@))
        },
    }
}

/// A helper out of service for a reason.
pub open spec fn isolated(helper: HelperView, reason: Seq<char>) -> HelperView {
    HelperView { running: false, quarantined: Some(reason), ..helper }
}

/// Why an outcome takes a helper out of service, if it does.
pub open spec fn fatal_reason(outcome: CallOutcome) -> Option<Seq<char>> {
    match outcome {
        CallOutcome::Refused => Some("supervisor stopped before accepting the request"@),
        CallOutcome::TimedOut(limit) => Some("request exceeded "@ + limit@),
        CallOutcome::Disconnected => Some("supervisor stopped before replying"@),
        CallOutcome::Broken(reason) => Some(reason@),
        CallOutcome::Answered(response) => match response {
            HelperResponse::Success { .. } => None,
            HelperResponse::Error { message } => if terminal(message@) {
                Some(message@)
            } else {
                None
            },
        },
    }
}

/// A helper that was just started.
pub open spec fn fresh(label: Seq<char>) -> HelperView {
    HelperView { label, running: true, quarantined: None }
}

/// A helper after what came of a request: a fatal outcome takes it out of service, and a
/// shutdown ends it.
pub open spec fn settled(helper: HelperView, shutdown: bool, outcome: CallOutcome) -> HelperView {
    match fatal_reason(outcome) {
        Some(reason) => isolated(helper, reason),
        None => HelperView { running: helper.running && !shutdown, ..helper },
    }
}

/// What a request gives back.
pub open spec fn settled_reply(helper: HelperView, outcome: CallOutcome) -> Reply<HelperResult> {
    match fatal_reason(outcome) {
        Some(reason) => Err(quarantined(helper.label, reason)),
        None => match outcome->Answered_0 {
            HelperResponse::Success { result } => Ok(result),
            HelperResponse::Error { message } => Err(ErrorView::Driver(message@)),
        },
    }
}

impl HelperState {
    /// A helper that was just started.
    pub fn new(label: &str) -> (helper: Self)
        ensures
            helper@ == fresh(label@),
    {
        HelperState { label: label.to_owned(), running: true, quarantined: None }
    }

    /// Accepts a request unless the helper is out of service or has ended.
    ///
    /// # Errors
    ///
    /// Returns why the helper takes no request.
    pub fn accept(&self) -> (result: Result<()>)
        ensures
            match refusal(self@) {
                None => result is Ok,
                Some(reason) => result matches Err(e) && e@ == reason,
            },
    {
        if let Some(reason) = &self.quarantined {
            return Err(quarantined_error(self.label.as_str(), reason.as_str()));
        }
        if !self.running {
            return Err(quarantined_error(self.label.as_str(), "helper is not running"));
        }
        Ok(())
    }

    /// Reports a helper that is out of service, without asking it anything.
    ///
    /// # Errors
    ///
    /// Returns why the helper is out of service.
    pub fn check_health(&self) -> (result: Result<()>)
        ensures
            match self@.quarantined {
                None => result is Ok,
                Some(reason) => result matches Err(e) && e@ == quarantined(self@.label, reason),
            },
    {
        match &self.quarantined {
            None => Ok(()),
            Some(reason) => Err(quarantined_error(self.label.as_str(), reason.as_str())),
        }
    }

    /// Whether the helper is out of service, so that its failures stay with its GPU.
    pub fn is_quarantined(&self) -> (result: bool)
        ensures
            result == (self@.quarantined is Some),
    {
        self.quarantined.is_some()
    }

    /// Whether the helper is still asked to shut down.
    pub fn needs_shutdown(&self) -> (result: bool)
        ensures
            result == (self@.quarantined is None && self@.running),
    {
        self.quarantined.is_none() && self.running
    }

    fn quarantine(&mut self, reason: String) -> (error: FeatherError)
        ensures
            final(self)@ == isolated(old(self)@, reason@),
            error@ == quarantined(old(self)@.label, reason@),
    {
        let error = quarantined_error(self.label.as_str(), reason.as_str());
        self.running = false;
        self.quarantined = Some(reason);
        error
    }

    /// Takes what came of a request. A helper that cannot be relied on any more, or whose GPU
    /// needs a reset, goes out of service.
    ///
    /// # Errors
    ///
    /// Returns the error of the helper, or why it is out of service.
    pub fn settle(&mut self, shutdown: bool, outcome: CallOutcome) -> (result: Result<HelperResult>)
        ensures
            final(self)@ == settled(old(self)@, shutdown, outcome),
            views::outcome(result) == settled_reply(old(self)@, outcome),
    {
        match outcome {
            CallOutcome::Refused => Err(
                self.quarantine("supervisor stopped before accepting the request".to_owned()),
            ),
            CallOutcome::TimedOut(limit) => Err(
                self.quarantine(text::concat2("request exceeded ", limit.as_str())),
            ),
            CallOutcome::Disconnected => Err(
                self.quarantine("supervisor stopped before replying".to_owned()),
            ),
            CallOutcome::Broken(reason) => Err(self.quarantine(reason)),
            CallOutcome::Answered(response) => {
                match response {
                    HelperResponse::Success { result } => {
                        if shutdown {
                            self.running = false;
                        }
                        Ok(result)
                    },
                    HelperResponse::Error { message } => {
                        if terminal_nvidia_error(message.as_str()) {
                            return Err(self.quarantine(message));
                        }
                        if shutdown {
                            self.running = false;
                        }
                        Err(FeatherError::Driver(message))
                    },
                }
            },
        }
    }
}

/// A helper that went out of service stays out of service: it takes no request.
pub proof fn law_quarantine_is_final(helper: HelperView)
    requires
        helper.quarantined is Some,
    ensures
        refusal(helper) == Some(quarantined(helper.label, helper.quarantined->0)),
{
}

// ---------------------------------------------------------------- supervision

/// What a request means for the process that gets it.
#[derive(Clone, Copy, Debug, PartialEq, Eq, Structural)]
pub enum RequestRole {
    /// The process goes on after it.
    Ordinary,
    /// The process ends by itself after it.
    Last,
    /// The process is ended without being asked.
    Kill,
}

/// What a request means for the process that gets it.
pub open spec fn role_of(request: RequestView) -> RequestRole {
    match request {
        RequestView::Stop => RequestRole::Kill,
        RequestView::Shutdown => RequestRole::Last,
        _ => RequestRole::Ordinary,
    }
}

impl HelperRequest {
    /// What the request means for the process that gets it.
    pub fn role(&self) -> (role: RequestRole)
        ensures
            role == role_of(self@),
    {
        match self {
            HelperRequest::Stop => RequestRole::Kill,
            HelperRequest::Shutdown => RequestRole::Last,
            _ => RequestRole::Ordinary,
        }
    }
}

/// What the supervisor of a helper process does next.
#[derive(Clone, Copy, Debug, PartialEq, Eq, Structural)]
pub enum SupervisorStep {
    /// It passes the request on and waits for the reply.
    Exchange,
    /// It kills the process and ends.
    Kill,
    /// It lets the process end, and ends.
    End,
    /// It waits for the next request.
    Next,
}

/// What a supervisor does with a request.
pub fn supervisor_takes(role: RequestRole) -> (step: SupervisorStep)
    ensures
        step == (if role == RequestRole::Kill {
            SupervisorStep::Kill
        } else {
            SupervisorStep::Exchange
        }),
{
    match role {
        RequestRole::Kill => SupervisorStep::Kill,
        _ => SupervisorStep::Exchange,
    }
}

/// What a supervisor does once a request was passed on, and a reply came or did not.
pub fn supervisor_follows(role: RequestRole, replied: bool) -> (step: SupervisorStep)
    ensures
        step == (if !replied {
            SupervisorStep::Kill
        } else if role == RequestRole::Ordinary {
            SupervisorStep::Next
        } else {
            SupervisorStep::End
        }),
{
    if !replied {
        return SupervisorStep::Kill;
    }
    match role {
        RequestRole::Ordinary => SupervisorStep::Next,
        _ => SupervisorStep::End,
    }
}

/// Why no reply of a helper process came.
#[derive(Debug)]
pub enum ReplyLoss {
    /// The request could not be encoded.
    Unencoded(String),
    /// The request could not be written.
    Unwritten(String),
    /// No reply came in time; the limit is given in words.
    TimedOut(String),
    /// The process closed its output.
    Closed,
    /// The process ended.
    Exited,
    /// The reply could not be read.
    Unread(String),
    /// The reply could not be decoded.
    Undecoded(String),
}

/// A lost reply in words.
pub open spec fn loss_words(label: Seq<char>, loss: ReplyLoss) -> Seq<char> {
    match loss {
        ReplyLoss::Unencoded(reason) => "could not encode NVIDIA helper request: "@ + reason@,
        ReplyLoss::Unwritten(reason) => "could not write NVIDIA helper request: "@ + reason@,
        ReplyLoss::TimedOut(limit) => "NVIDIA helper for "@ + label + " timed out after "@ + limit@,
        ReplyLoss::Closed => "NVIDIA helper for "@ + label + " closed its output"@,
        ReplyLoss::Exited => "NVIDIA helper for "@ + label + " exited"@,
        ReplyLoss::Unread(reason) => "could not read NVIDIA helper response: "@ + reason@,
        ReplyLoss::Undecoded(reason) => "could not decode NVIDIA helper response: "@ + reason@,
    }
}

/// Puts a lost reply in words.
pub fn lost_reply(label: &str, loss: &ReplyLoss) -> (words: String)
    ensures
        words@ == loss_words(label@, *loss),
{
    match loss {
        ReplyLoss::Unencoded(reason) => text::concat2(
            "could not encode NVIDIA helper request: ",
            reason.as_str(),
        ),
        ReplyLoss::Unwritten(reason) => text::concat2(
            "could not write NVIDIA helper request: ",
            reason.as_str(),
        ),
        ReplyLoss::TimedOut(limit) => text::concat4(
            "NVIDIA helper for ",
            label,
            " timed out after ",
            limit.as_str(),
        ),
        ReplyLoss::Closed => text::concat3("NVIDIA helper for ", label, " closed its output"),
        ReplyLoss::Exited => text::concat3("NVIDIA helper for ", label, " exited"),
        ReplyLoss::Unread(reason) => text::concat2(
            "could not read NVIDIA helper response: ",
            reason.as_str(),
        ),
        ReplyLoss::Undecoded(reason) => text::concat2(
            "could not decode NVIDIA helper response: ",
            reason.as_str(),
        ),
    }
}

// ---------------------------------------------------------------- fans of a GPU

/// What the fans of a GPU can do.
#[derive(Clone, Copy, Debug, PartialEq, Eq, Structural)]
pub struct FanCapabilities {
    /// Number of fans.
    pub count: u32,
    /// Lowest duty.
    pub minimum: u32,
    /// Highest duty.
    pub maximum: u32,
}

impl View for FanCapabilities {
    type V = FanCapabilities;

    open spec fn view(&self) -> FanCapabilities {
        *self
    }
}

/// What the fans of a GPU can do, with the full range where the driver does not tell one.
pub open spec fn capabilities_of(count: u32, range: Option<(u32, u32)>) -> FanCapabilities {
    match range {
        Some((minimum, maximum)) => FanCapabilities { count, minimum, maximum },
        None => FanCapabilities { count, minimum: 0, maximum: 100 },
    }
}

/// What the fans of a GPU can do, with the full range where the driver does not tell one.
pub fn fan_capabilities(count: u32, range: Option<(u32, u32)>) -> (result: FanCapabilities)
    ensures
        result == capabilities_of(count, range),
{
    match range {
        Some((minimum, maximum)) => FanCapabilities { count, minimum, maximum },
        None => FanCapabilities { count, minimum: 0, maximum: 100 },
    }
}

/// A fan that a GPU does not have.
pub open spec fn absent_fan(channels: Seq<u32>, fan_count: u32, alias: Seq<char>) -> spec_fn(
    int,
) -> Option<ErrorView> {
    |at: int|
        if channels[at] >= fan_count {
            Some(
                ErrorView::Driver(
                    "fan "@ + text::decimal(channels[at] as nat) + " does not exist on '"@ + alias
                        + "'"@,
                ),
            )
        } else {
            None
        }
}

/// The fans that a write goes to: those listed, or all of them.
pub open spec fn fan_selection(channels: Seq<u32>, fan_count: u32, alias: Seq<char>) -> Reply<
    Seq<u32>,
> {
    if fan_count == 0 {
        Err(ErrorView::Driver("device '"@ + alias + "' reports no controllable fans"@))
    } else if channels.len() == 0 {
        Ok(Seq::new(fan_count as nat, |i: int| i as u32))
    } else {
        match search::first(absent_fan(channels, fan_count, alias), 0, channels.len() as int) {
            Some(error) => Err(error),
            None => Ok(channels),
        }
    }
}

/// The fans of a selection.
pub open spec fn fans_outcome(result: Result<Vec<u32>>) -> Reply<Seq<u32>> {
    match result {
        Ok(fans) => Ok(fans@),
        Err(error) => Err(error@),
    }
}

/// Selects the fans that a write goes to.
///
/// # Errors
///
/// Returns an error when the GPU has no fans, or not one that is listed.
pub fn selected_channels(channels: &Vec<u32>, fan_count: u32, alias: &str) -> (result: Result<
    Vec<u32>,
>)
    ensures
        fans_outcome(result) == fan_selection(channels@, fan_count, alias@),
{
    if fan_count == 0 {
        return Err(
            driver_error(text::concat3("device '", alias, "' reports no controllable fans")),
        );
    }
    let mut fans: Vec<u32> = Vec::new();
    if channels.len() == 0 {
        let mut fan: u32 = 0;
        while fan < fan_count
            invariant
                fan <= fan_count,
                fans@ =~= Seq::new(fan as nat, |i: int| i as u32),
            decreases fan_count - fan,
        {
            fans.push(fan);
            fan += 1;
        }
        return Ok(fans);
    }
    let mut at: usize = 0;
    let ghost check = absent_fan(channels@, fan_count, alias@);
    while at < channels.len()
        invariant
            at <= channels@.len(),
            channels@.len() > 0,
            fan_count > 0,
            check == absent_fan(channels@, fan_count, alias@),
            search::first(check, 0, channels@.len() as int) == search::first(
                check,
                at as int,
                channels@.len() as int,
            ),
            fans@ =~= channels@.take(at as int),
        decreases channels@.len() - at,
    {
        if channels[at] >= fan_count {
            let mut message = "fan ".to_owned();
            text::push_decimal(&mut message, channels[at] as u64);
            message.append(" does not exist on '");
            message.append(alias);
            message.append("'");
            return Err(driver_error(message));
        }
        fans.push(channels[at]);
        at += 1;
    }
    assert(channels@.take(at as int) =~= channels@);
    Ok(fans)
}

/// A duty within the range of a GPU.
pub open spec fn clamped(percent: u8, capabilities: FanCapabilities) -> u32 {
    if percent < capabilities.minimum {
        capabilities.minimum
    } else if percent > capabilities.maximum {
        capabilities.maximum
    } else {
        percent as u32
    }
}

/// A duty within the range of a GPU.
pub fn clamp_percent(percent: u8, capabilities: FanCapabilities) -> (target: u32)
    requires
        capabilities.minimum <= capabilities.maximum,
    ensures
        target == clamped(percent, capabilities),
        capabilities.minimum <= target <= capabilities.maximum,
{
    let wanted: u32 = percent as u32;
    if wanted < capabilities.minimum {
        capabilities.minimum
    } else if wanted > capabilities.maximum {
        capabilities.maximum
    } else {
        wanted
    }
}

/// The duties of the first `count` fans by index.
pub open spec fn fan_targets(fans: Seq<u32>, target: u32, count: int) -> names::Entries<u32>
    decreases count,
{
    if count <= 0 {
        Seq::empty()
    } else {
        names::inserted(
            fan_targets(fans, target, count - 1),
            text::decimal(fans[count - 1] as nat),
            target,
        )
    }
}

/// What is reported of a fan write.
pub open spec fn fan_report(fans: Seq<u32>, target: u32, capabilities: FanCapabilities) -> JsonView {
    let targets = fan_targets(fans, target, fans.len() as int);
    JsonView::Object(
        seq![
            ("percent"@, json::number_view(target as nat)),
            (
                "fans"@,
                JsonView::Object(
                    Seq::new(
                        targets.len(),
                        |i: int| (targets[i].0, json::number_view(targets[i].1 as nat)),
                    ),
                ),
            ),
            (
                "range"@,
                JsonView::List(
                    seq![
                        json::number_view(capabilities.minimum as nat),
                        json::number_view(capabilities.maximum as nat),
                    ],
                ),
            ),
        ],
    )
}

/// Reports a fan write.
pub fn fan_write_report(fans: &Vec<u32>, target: u32, capabilities: FanCapabilities) -> (report:
    Json)
    ensures
        report@ == fan_report(fans@, target, capabilities),
{
    let mut targets: NameMap<u32> = NameMap::new();
    let mut at: usize = 0;
    while at < fans.len()
        invariant
            at <= fans@.len(),
            targets@ == fan_targets(fans@, target, at as int),
        decreases fans@.len() - at,
    {
        let mut name = String::new();
        text::push_decimal(&mut name, fans[at] as u64);
        assert(name@ =~= text::decimal(fans@[at as int] as nat));
        targets.insert(name, target);
        at += 1;
    }
    let mut duties: Vec<(String, Json)> = Vec::new();
    let count: usize = targets.len();
    let mut at: usize = 0;
    let ghost all = Seq::new(
        targets@.len(),
        |i: int| (targets@[i].0, json::number_view(targets@[i].1 as nat)),
    );
    assert(json::fields_view(duties@) =~= all.take(0));
    while at < count
        invariant
            count == targets@.len(),
            at <= count,
            all == Seq::new(
                targets@.len(),
                |i: int| (targets@[i].0, json::number_view(targets@[i].1 as nat)),
            ),
            json::fields_view(duties@) == all.take(at as int),
        decreases count - at,
    {
        json::push_field(
            &mut duties,
            targets.key_at(at).as_str(),
            Json::number(*targets.value_at(at) as u64),
        );
        assert(all.take(at + 1) =~= all.take(at as int).push(all[at as int]));
        at += 1;
    }
    assert(all.take(count as int) =~= all);
    let mut range: Vec<Json> = Vec::new();
    range.push(Json::number(capabilities.minimum as u64));
    range.push(Json::number(capabilities.maximum as u64));
    proof {
        json::lemma_list_view(range@);
        assert(json::list_view(range@) =~= seq![
            json::number_view(capabilities.minimum as nat),
            json::number_view(capabilities.maximum as nat),
        ]);
    }
    let mut fields: Vec<(String, Json)> = Vec::new();
    json::push_field(&mut fields, "percent", Json::number(target as u64));
    json::push_field(&mut fields, "fans", Json::Object(duties));
    json::push_field(&mut fields, "range", Json::List(range));
    assert(json::fields_view(fields@) =~= fan_report(fans@, target, capabilities)->Object_0);
    Json::Object(fields)
}

/// What the fans that could not be given back failed with, if any.
pub open spec fn restore_failure(alias: Seq<char>, failures: Seq<Seq<char>>) -> Option<ErrorView> {
    if failures.len() == 0 {
        None
    } else {
        Some(
            ErrorView::Driver(
                "could not restore '"@ + alias + "' automatic fan policy: "@ + text::joined(
                    failures,
                    ", "@,
                ),
            ),
        )
    }
}

/// The GPUs that a helper controls, and what it knows of their fans.
#[derive(Debug)]
pub struct HelperFans {
    /// GPUs whose fans were set.
    pub controlled: NameMap<()>,
    /// What the fans of a GPU can do.
    pub capabilities: NameMap<FanCapabilities>,
}

impl HelperFans {
    /// Nothing is known yet.
    pub fn new() -> (fans: Self)
        ensures
            fans.controlled@.len() == 0,
            fans.capabilities@.len() == 0,
    {
        HelperFans { controlled: NameMap::new(), capabilities: NameMap::new() }
    }

    /// Notes that the fans of a GPU are being set.
    pub fn take_control(&mut self, uuid: &str)
        ensures
            final(self).controlled@ == names::inserted(old(self).controlled@, uuid@, ()),
            final(self).capabilities@ == old(self).capabilities@,
    {
        self.controlled.insert(uuid.to_owned(), ());
    }

    /// What is known of the fans of a GPU.
    pub fn cached(&self, uuid: &str) -> (result: Option<FanCapabilities>)
        ensures
            result == names::find(self.capabilities@, uuid@),
    {
        match self.capabilities.get(uuid) {
            Some(known) => Some(*known),
            None => None,
        }
    }

    /// Notes what the fans of a GPU can do.
    pub fn remember(&mut self, uuid: &str, capabilities: FanCapabilities)
        ensures
            final(self).capabilities@ == names::inserted(
                old(self).capabilities@,
                uuid@,
                capabilities,
            ),
            final(self).controlled@ == old(self).controlled@,
    {
        self.capabilities.insert(uuid.to_owned(), capabilities);
    }

    /// Takes what came of giving the fans of a GPU back: one message for each that failed.
    ///
    /// # Errors
    ///
    /// Returns the failures; the GPU then stays under control.
    pub fn released(&mut self, alias: &str, uuid: &str, failures: &Vec<String>) -> (result: Result<
        (),
    >)
        ensures
            final(self).capabilities@ == old(self).capabilities@,
            match restore_failure(alias@, text::texts(failures@)) {
                None => result is Ok && final(self).controlled@ == names::removed(
                    old(self).controlled@,
                    uuid@,
                ),
                Some(error) => {
                    &&& result matches Err(e) && e@ == error
                    &&& final(self).controlled@ == old(self).controlled@
                },
            },
    {
        assert(text::texts(failures@).len() == failures@.len());
        if failures.len() == 0 {
            let _ = self.controlled.remove(uuid);
            return Ok(());
        }
        let list = text::join(failures, ", ");
        Err(
            driver_error(
                text::concat4(
                    "could not restore '",
                    alias,
                    "' automatic fan policy: ",
                    list.as_str(),
                ),
            ),
        )
    }
}

// ---------------------------------------------------------------- discovery

/// A fan as the driver reports it.
#[derive(Debug)]
pub struct FanInfo {
    /// Current duty.
    pub percent: Option<u32>,
    /// Current control policy in words.
    pub policy: Option<String>,
}

/// A GPU as the driver reports it.
#[derive(Debug)]
pub struct GpuInfo {
    /// Current index.
    pub index: u32,
    /// Persistent UUID.
    pub uuid: String,
    /// Product name.
    pub name: Option<String>,
    /// Lowest and highest duty of its fans.
    pub fan_range: Option<(u32, u32)>,
    /// Core temperature in degrees.
    pub temperature: Option<u32>,
    /// Its fans.
    pub fans: Vec<FanInfo>,
}

/// The details on the first `count` fans, added to others.
pub open spec fn fan_details(
    details: names::Entries<Seq<char>>,
    fans: Seq<FanInfo>,
    count: int,
) -> names::Entries<Seq<char>>
    decreases count,
{
    if count <= 0 {
        details
    } else {
        let earlier = fan_details(details, fans, count - 1);
        let fan = fans[count - 1];
        let label = "fan"@ + text::decimal((count - 1) as nat);
        let percent = match fan.percent {
            Some(duty) => names::inserted(
                earlier,
                label + "_percent"@,
                text::decimal(duty as nat),
            ),
            None => earlier,
        };
        match fan.policy {
            Some(policy) => names::inserted(percent, label + "_policy"@, policy@),
            None => percent,
        }
    }
}

/// How a GPU is described.
pub open spec fn described_gpu(gpu: GpuInfo) -> DescriptorView {
    let details = Seq::<(Seq<char>, Seq<char>)>::empty();
    let details = names::inserted(details, "index"@, text::decimal(gpu.index as nat));
    let details = names::inserted(details, "uuid"@, gpu.uuid@);
    let details = names::inserted(details, "fan_count"@, text::decimal(gpu.fans@.len()));
    let details = match gpu.fan_range {
        Some((minimum, maximum)) => names::inserted(
            details,
            "fan_range"@,
            text::decimal(minimum as nat) + "-"@ + text::decimal(maximum as nat),
        ),
        None => details,
    };
    let details = match gpu.temperature {
        Some(degrees) => names::inserted(
            details,
            "temperature_c"@,
            text::decimal(degrees as nat),
        ),
        None => details,
    };
    DescriptorView {
        id: gpu.uuid@,
        driver: "nvidia-nvml"@,
        name: match gpu.name {
            Some(name) => name@,
            None => "NVIDIA GPU "@ + text::decimal(gpu.index as nat),
        },
        details: fan_details(details, gpu.fans@, gpu.fans@.len() as int),
    }
}

fn decimal_text(value: u64) -> (result: String)
    ensures
        result@ == text::decimal(value as nat),
{
    let mut result = String::new();
    text::push_decimal(&mut result, value);
    assert(result@ =~= text::decimal(value as nat));
    result
}

/// Describes a GPU.
pub fn describe_gpu(gpu: &GpuInfo) -> (result: DeviceDescriptor)
    ensures
        result@ == described_gpu(*gpu),
{
    let mut details: NameMap<String> = NameMap::new();
    details.insert("index".to_owned(), decimal_text(gpu.index as u64));
    details.insert("uuid".to_owned(), gpu.uuid.clone());
    details.insert("fan_count".to_owned(), decimal_text(gpu.fans.len() as u64));
    if let Some((minimum, maximum)) = gpu.fan_range {
        let low = decimal_text(minimum as u64);
        let high = decimal_text(maximum as u64);
        details.insert(
            "fan_range".to_owned(),
            text::concat3(low.as_str(), "-", high.as_str()),
        );
    }
    if let Some(degrees) = gpu.temperature {
        details.insert("temperature_c".to_owned(), decimal_text(degrees as u64));
    }
    let ghost start = details@;
    let mut at: usize = 0;
    while at < gpu.fans.len()
        invariant
            at <= gpu.fans@.len(),
            details@ == fan_details(start, gpu.fans@, at as int),
        decreases gpu.fans@.len() - at,
    {
        let number = decimal_text(at as u64);
        if let Some(duty) = gpu.fans[at].percent {
            details.insert(
                text::concat3("fan", number.as_str(), "_percent"),
                decimal_text(duty as u64),
            );
        }
        if let Some(policy) = &gpu.fans[at].policy {
            details.insert(text::concat3("fan", number.as_str(), "_policy"), policy.clone());
        }
        at += 1;
    }
    DeviceDescriptor {
        id: gpu.uuid.clone(),
        driver: "nvidia-nvml".to_owned(),
        name: match &gpu.name {
            Some(name) => name.clone(),
            None => {
                let number = decimal_text(gpu.index as u64);
                text::concat2("NVIDIA GPU ", number.as_str())
            },
        },
        details,
    }
}

/// The error of a driver call.
pub fn nvidia_error(context: &str, reason: &str) -> (error: FeatherError)
    ensures
        error@ == ErrorView::Driver(context@ + ": "@ + reason@),
{
    driver_error(text::concat3(context, ": ", reason))
}

// ---------------------------------------------------------------- laws

/// A duty stays within the range of the fans: it is kept where it is inside, and moved to the
/// nearer end where it is not. A higher duty never becomes a lower one.
pub proof fn law_duty_is_kept_in_range(low: u8, high: u8, capabilities: FanCapabilities)
    requires
        capabilities.minimum <= capabilities.maximum,
        low <= high,
    ensures
        capabilities.minimum <= clamped(low, capabilities) <= clamped(high, capabilities)
            <= capabilities.maximum,
        capabilities.minimum <= low <= capabilities.maximum ==> clamped(low, capabilities) == low,
        low <= capabilities.minimum ==> clamped(low, capabilities) == capabilities.minimum,
        low >= capabilities.maximum ==> clamped(low, capabilities) == capabilities.maximum,
{
}

/// Fans whose range a GPU tells are driven within it, and fans whose range it does not tell from
/// 0 through 100.
pub proof fn law_range_is_that_of_the_gpu(count: u32, range: Option<(u32, u32)>)
    ensures
        capabilities_of(count, range).count == count,
        range matches Some((minimum, maximum)) ==> capabilities_of(count, range).minimum == minimum
            && capabilities_of(count, range).maximum == maximum,
        range is None ==> capabilities_of(count, range).minimum == 0 && capabilities_of(
            count,
            range,
        ).maximum == 100,
{
}

/// Without listed channels every fan of a GPU is selected, and with them exactly those, unless
/// one of them is no fan of it. A GPU without fans has none to select.
pub proof fn law_gpu_fans_are_selected(channels: Seq<u32>, fan_count: u32, alias: Seq<char>)
    ensures
        fan_count == 0 ==> fan_selection(channels, fan_count, alias) is Err,
        fan_count > 0 && channels.len() == 0 ==> (fan_selection(
            channels,
            fan_count,
            alias,
        ) matches Ok(fans) && fans.len() == fan_count && (forall|i: int|
            0 <= i < fan_count ==> #[trigger] fans[i] == i)),
        fan_count > 0 && channels.len() > 0 ==> {
            &&& fan_selection(channels, fan_count, alias) is Ok <==> forall|i: int|
                0 <= i < channels.len() ==> #[trigger] channels[i] < fan_count
            &&& fan_selection(channels, fan_count, alias) matches Ok(fans) ==> fans == channels
        },
{
    let check = absent_fan(channels, fan_count, alias);
    if fan_count > 0 && channels.len() > 0 {
        if search::first(check, 0, channels.len() as int) is Some {
            let at = search::lemma_some(check, 0, channels.len() as int);
            assert(channels[at] >= fan_count);
        } else {
            search::lemma_none(check, 0, channels.len() as int);
            assert forall|i: int| 0 <= i < channels.len() implies #[trigger] channels[i]
                < fan_count by {
                assert(check(i) is None);
            }
        }
    }
}

proof fn lemma_targets(fans: Seq<u32>, target: u32, count: int, fan: u32)
    requires
        0 <= count <= fans.len(),
    ensures
        names::sorted(fan_targets(fans, target, count)),
        names::find(fan_targets(fans, target, count), text::decimal(fan as nat)) == (
        if fans.take(count).contains(fan) {
            Some(target)
        } else {
            None
        }),
    decreases count,
{
    if count > 0 {
        lemma_targets(fans, target, count - 1, fan);
        let earlier = fan_targets(fans, target, count - 1);
        let last = fans[count - 1];
        let name = text::decimal(last as nat);
        names::lemma_inserted_sorted(earlier, name, target);
        names::lemma_find_inserted(earlier, name, target, text::decimal(fan as nat));
        let listed = fans.take(count);
        assert(listed =~= fans.take(count - 1).push(last));
        if fans.take(count - 1).contains(fan) {
            let front = fans.take(count - 1);
            let at = choose|i: int| 0 <= i < front.len() && front[i] == fan;
            assert(listed[at] == fan);
        }
        if last == fan {
            assert(listed[count - 1] == fan);
        }
        if name == text::decimal(fan as nat) {
            text::law_decimals_differ(last as nat, fan as nat);
        }
    } else {
        assert(fans.take(0) =~= Seq::empty());
    }
}

/// The report of a write shows the duty, each written fan with it, and the range.
pub proof fn law_gpu_report_shows_the_write(
    fans: Seq<u32>,
    target: u32,
    capabilities: FanCapabilities,
    at: int,
)
    requires
        0 <= at < fans.len(),
    ensures
        fan_report(fans, target, capabilities) matches JsonView::Object(fields) && {
            &&& fields[0].0 == "percent"@ && fields[0].1 == JsonView::Number(
                json::Number::Positive(target as u64),
            )
            &&& fields[1].0 == "fans"@ && (fields[1].1 matches JsonView::Object(duties)
                && exists|i: int|
                0 <= i < duties.len() && (#[trigger] duties[i]).0 == text::decimal(fans[at] as nat)
                    && duties[i].1 == JsonView::Number(json::Number::Positive(target as u64)))
            &&& fields[2].0 == "range"@ && (fields[2].1 matches JsonView::List(range)
                && range.len() == 2 && range[0] == JsonView::Number(
                json::Number::Positive(capabilities.minimum as u64),
            ) && range[1] == JsonView::Number(
                json::Number::Positive(capabilities.maximum as u64),
            ))
        },
{
    let count = fans.len() as int;
    lemma_targets(fans, target, count, fans[at]);
    assert(fans.take(count) =~= fans);
    let targets = fan_targets(fans, target, count);
    let name = text::decimal(fans[at] as nat);
    names::lemma_slot(targets, name);
    let slot = names::slot(targets, name) as int;
    let duties = fan_report(fans, target, capabilities)->Object_0[1].1->Object_0;
    assert(duties[slot].0 == name);
}

/// A helper that does not answer, or whose GPU is lost, is out of service from then on: the
/// request fails, and so does every later one, without reaching it.
pub proof fn law_lost_gpu_is_out_of_service(helper: HelperView, shutdown: bool, outcome: CallOutcome)
    requires
        match outcome {
            CallOutcome::Answered(response) => response matches HelperResponse::Error { message }
                && {
                ||| text::contains_text(text::lower(message@), "requires a reset"@)
                ||| text::contains_text(text::lower(message@), "reset required"@)
                ||| text::contains_text(text::lower(message@), "gpu is lost"@)
                ||| text::contains_text(text::lower(message@), "gpu has fallen off"@)
                ||| text::contains_text(text::lower(message@), "fallen off the bus"@)
                ||| text::contains_text(text::lower(message@), "fell off the bus"@)
            },
            _ => true,
        },
    ensures
        settled_reply(helper, outcome) is Err,
        refusal(settled(helper, shutdown, outcome)) is Some,
        settled(helper, shutdown, outcome).quarantined is Some,
        !settled(helper, shutdown, outcome).running,
{
}

/// Any other answer is handed on as it is, and leaves the helper in service unless it was the last.
pub proof fn law_answers_are_handed_on(helper: HelperView, shutdown: bool, response: HelperResponse)
    requires
        helper.running,
        helper.quarantined is None,
        response matches HelperResponse::Error { message } ==> !terminal(message@),
    ensures
        settled(helper, shutdown, CallOutcome::Answered(response)).quarantined is None,
        settled(helper, shutdown, CallOutcome::Answered(response)).running == !shutdown,
        settled_reply(helper, CallOutcome::Answered(response)) == (match response {
            HelperResponse::Success { result } => Ok::<HelperResult, ErrorView>(result),
            HelperResponse::Error { message } => Err(ErrorView::Driver(message@)),
        }),
        refusal(helper) is None,
{
}

proof fn lemma_gpus_found(
    configured: names::Entries<DeviceConfig>,
    devices: Seq<DescriptorView>,
    count: int,
    which: int,
    at: int,
)
    requires
        0 <= which < count <= configured.len(),
        configured[which].1 is NvidiaNvml,
        search::first(
            gpu_at(devices, configured[which].1->uuid@),
            0,
            devices.len() as int,
        ) == Some(at),
    ensures
        configured_gpus(configured, devices, count).contains(
            wireview::with_alias(devices[at], configured[which].0),
        ),
    decreases count,
{
    let list = configured_gpus(configured, devices, count);
    if which == count - 1 {
        assert(list[list.len() - 1] == list.last());
    } else {
        lemma_gpus_found(configured, devices, count - 1, which, at);
        let earlier = configured_gpus(configured, devices, count - 1);
        let device = wireview::with_alias(devices[at], configured[which].0);
        let i = choose|i: int| 0 <= i < earlier.len() && earlier[i] == device;
        assert(list[i] == device);
    }
}

/// Each configured GPU that is there is found by its UUID, under its alias.
pub proof fn law_configured_gpus_are_found(
    configured: names::Entries<DeviceConfig>,
    devices: Seq<DescriptorView>,
    which: int,
    gpu: int,
)
    requires
        0 <= which < configured.len(),
        configured[which].1 is NvidiaNvml,
        0 <= gpu < devices.len(),
        devices[gpu].id == configured[which].1->uuid@,
    ensures
        exists|i: int|
            {
                &&& 0 <= i < devices.len()
                &&& (#[trigger] devices[i]).id == configured[which].1->uuid@
                &&& configured_gpus(configured, devices, configured.len() as int).contains(
                    wireview::with_alias(devices[i], configured[which].0),
                )
            },
{
    let check = gpu_at(devices, configured[which].1->uuid@);
    let count = devices.len() as int;
    if search::first(check, 0, count) is None {
        search::lemma_none(check, 0, count);
        assert(check(gpu) is None);
    } else {
        let at = search::lemma_some(check, 0, count);
        lemma_gpus_found(configured, devices, configured.len() as int, which, at);
        assert(devices[at].id == configured[which].1->uuid@);
    }
}

/// A GPU is described by its UUID.
pub proof fn law_gpu_is_described_by_its_uuid(gpu: GpuInfo)
    ensures
        described_gpu(gpu).id == gpu.uuid@,
        described_gpu(gpu).driver == "nvidia-nvml"@,
{
}

/// A helper is given up for an error just where its words tell that the GPU is lost or needs a
/// reset, in whatever case.
pub proof fn law_only_lost_gpus_are_given_up(message: Seq<char>)
    ensures
        terminal(message) <==> {
            let words = text::lower(message);
            ||| text::contains_text(words, "requires a reset"@)
            ||| text::contains_text(words, "reset required"@)
            ||| text::contains_text(words, "gpu is lost"@)
            ||| text::contains_text(words, "gpu has fallen off"@)
            ||| text::contains_text(words, "fallen off the bus"@)
            ||| text::contains_text(words, "fell off the bus"@)
        },
{
}

/// The helpers that a configuration no longer needs are just those of GPUs that it does not select.
pub proof fn law_helpers_of_other_gpus_are_not_needed(
    helpers: Seq<Seq<char>>,
    configured: names::Entries<DeviceConfig>,
    count: int,
    uuid: Seq<char>,
)
    requires
        0 <= count <= helpers.len(),
    ensures
        unselected(helpers, configured, count).contains(uuid) <==> (exists|i: int|
            0 <= i < count && #[trigger] helpers[i] == uuid) && (forall|i: int|
            0 <= i < configured.len() && (#[trigger] configured[i]).1 is NvidiaNvml
                ==> configured[i].1->uuid@ != uuid),
    decreases count,
{
    if selects(configured, uuid) {
        let i = choose|i: int|
            0 <= i < configured.len() && ((#[trigger] configured[i]).1 matches DeviceConfig::NvidiaNvml {
                uuid: own,
            } && own@ == uuid);
        assert(configured[i].1 is NvidiaNvml);
    }
    if count > 0 {
        law_helpers_of_other_gpus_are_not_needed(helpers, configured, count - 1, uuid);
        let earlier = unselected(helpers, configured, count - 1);
        let list = unselected(helpers, configured, count);
        let last = helpers[count - 1];
        if !selects(configured, last) {
            assert(list == earlier.push(last));
            if list.contains(uuid) {
                let at = choose|at: int| 0 <= at < list.len() && list[at] == uuid;
                if at < earlier.len() {
                    assert(earlier[at] == uuid);
                    assert(earlier.contains(uuid));
                } else {
                    assert(helpers[count - 1] == uuid);
                }
            }
            if earlier.contains(uuid) {
                let at = choose|at: int| 0 <= at < earlier.len() && earlier[at] == uuid;
                assert(list[at] == uuid);
            }
            if last == uuid {
                assert(list[earlier.len() as int] == uuid);
            }
        }
    }
}

} // verus!
