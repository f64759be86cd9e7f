//! Decisions of the `featherd` process: command dispatch, the saved profile, the socket path, and
//! the schedule of the hardware worker.

use vstd::prelude::*;

use crate::celsius::Celsius;
use crate::config::ColorPoint;
use crate::config::Config;
use crate::config::DaemonConfig;
use crate::config::FanPoint;
use crate::config::Nanos;
use crate::control;
use crate::drivers;
use crate::drivers::Call;
use crate::drivers::Hardware;
use crate::drivers::Reply;
use crate::engine;
use crate::engine::Engine;
use crate::error;
use crate::error::ErrorView;
use crate::error::FeatherError;
use crate::error::Result;
use crate::ipc;
use crate::ipc::Command;
use crate::ipc::ErrorCode;
use crate::json;
use crate::json::Json;
use crate::json::JsonView;
use crate::names;
use crate::policy;
use crate::policy::Blends;
use crate::policy::EngineModel;
use crate::policy::OverrideValue;
use crate::status;
use crate::text;
use crate::types::DaemonStatus;
use crate::types::DaemonStatusView;
use crate::types::DescriptorView;
use crate::types::DeviceDescriptor;
use crate::views;

verus! {

/// Number of commands that may wait for the hardware worker.
pub const ENGINE_QUEUE_CAPACITY: usize = 64;

/// Number of clients that are served at a time.
pub const MAX_CONNECTIONS: usize = 32;

/// Milliseconds that an exchange with a client may take.
pub const SERVER_IO_TIMEOUT_MS: u64 = 10_000;

/// Version of the file that holds the saved profile.
pub const STATE_SCHEMA_VERSION: u32 = 1;

/// Largest size of the file that holds the saved profile.
pub const MAX_STATE_BYTES: usize = 65_536;

/// Nanoseconds in a millisecond.
pub const NANOS_PER_MILLI: u128 = 1_000_000;

// ---------------------------------------------------------------- state

/// What the hardware worker holds.
pub struct DaemonState<H> {
    /// The policy engine.
    pub engine: Engine<H>,
    /// Path of the socket in use.
    pub socket_path: String,
    /// Path of the file that holds the saved profile.
    pub state_path: String,
    /// The saved profile.
    pub persisted_profile: Option<String>,
}

/// The data that a command is answered with.
#[derive(Debug)]
pub enum CommandReply {
    /// The status document.
    Status(DaemonStatus),
    /// Devices.
    Devices(Vec<DeviceDescriptor>),
    /// Any other value.
    Data(Json),
}

/// See [`CommandReply`].
pub ghost enum ReplyView {
    /// See [`CommandReply::Status`].
    Status(DaemonStatusView),
    /// See [`CommandReply::Devices`].
    Devices(Seq<DescriptorView>),
    /// See [`CommandReply::Data`].
    Data(JsonView),
}

impl View for CommandReply {
    type V = ReplyView;

    open spec fn view(&self) -> ReplyView {
        match *self {
            CommandReply::Status(status) => ReplyView::Status(status@),
            CommandReply::Devices(devices) => ReplyView::Devices(views::list(devices@)),
            CommandReply::Data(data) => ReplyView::Data(data@),
        }
    }
}

/// What is left to do for a command.
#[derive(Debug)]
pub enum Progress {
    /// Nothing: this is its outcome.
    Done(Result<CommandReply>),
    /// Read the configuration file, then call [`DaemonState::finish_reload`].
    ReadConfiguration,
    /// Save this profile, then call [`DaemonState::finish_profile`].
    SaveProfile(String),
}

/// See [`Progress`].
pub ghost enum ProgressView {
    /// See [`Progress::Done`].
    Done(Reply<ReplyView>),
    /// See [`Progress::ReadConfiguration`].
    ReadConfiguration,
    /// See [`Progress::SaveProfile`].
    SaveProfile(Seq<char>),
}

impl View for Progress {
    type V = ProgressView;

    open spec fn view(&self) -> ProgressView {
        match *self {
            Progress::Done(result) => ProgressView::Done(views::outcome(result)),
            Progress::ReadConfiguration => ProgressView::ReadConfiguration,
            Progress::SaveProfile(profile) => ProgressView::SaveProfile(profile@),
        }
    }
}

// ---------------------------------------------------------------- data

/// A name, or null.
pub open spec fn optional_view(name: Option<Seq<char>>) -> JsonView {
    match name {
        Some(name) => JsonView::Text(name),
        None => JsonView::Null,
    }
}

/// The data of the list of profiles.
pub open spec fn profile_list(model: EngineModel, persisted: Option<Seq<char>>) -> JsonView {
    JsonView::Object(
        seq![
            ("profiles"@, json::texts_view(names::names(model.config.profiles@))),
            ("active_profile"@, JsonView::Text(model.active_profile)),
            ("persisted_profile"@, optional_view(persisted)),
        ],
    )
}

/// The data of a change of profile.
pub open spec fn profile_changed(
    profile: Seq<char>,
    persist: bool,
    persisted: Option<Seq<char>>,
) -> JsonView {
    JsonView::Object(
        seq![
            ("active_profile"@, JsonView::Text(profile)),
            ("persisted"@, JsonView::Bool(persist)),
            ("persisted_profile"@, optional_view(persisted)),
        ],
    )
}

/// The data of an override.
pub open spec fn override_set(output: Seq<char>, duration_ms: u64) -> JsonView {
    JsonView::Object(
        seq![
            ("output"@, JsonView::Text(output)),
            ("expires_in_ms"@, json::number_view(duration_ms as nat)),
        ],
    )
}

/// The data of a display override.
pub open spec fn display_set(output: Seq<char>, enabled: bool, duration_ms: u64) -> JsonView {
    JsonView::Object(
        seq![
            ("output"@, JsonView::Text(output)),
            ("enabled"@, JsonView::Bool(enabled)),
            ("expires_in_ms"@, json::number_view(duration_ms as nat)),
        ],
    )
}

/// The data of a list of outputs, under a name.
pub open spec fn output_list(name: Seq<char>, outputs: Seq<Seq<char>>) -> JsonView {
    JsonView::Object(seq![(name, json::texts_view(outputs))])
}

/// The data of a dump.
pub open spec fn dump_data(device: Seq<char>, dump: Seq<char>) -> JsonView {
    JsonView::Object(
        seq![("device"@, JsonView::Text(device)), ("dump"@, JsonView::Text(dump))],
    )
}

/// The data of a reload.
pub open spec fn reload_data(model: EngineModel) -> JsonView {
    JsonView::Object(
        seq![
            ("generation"@, json::number_view(model.generation as nat)),
            ("active_profile"@, JsonView::Text(model.active_profile)),
        ],
    )
}

/// The outcome of a command that lists outputs.
pub open spec fn listed(name: Seq<char>, result: Reply<Seq<Seq<char>>>) -> Reply<ReplyView> {
    match result {
        Ok(outputs) => Ok(ReplyView::Data(output_list(name, outputs))),
        Err(error) => Err(error),
    }
}

fn optional_json(name: &Option<String>) -> (result: Json)
    ensures
        result@ == optional_view(views::maybe(*name)),
{
    match name {
        Some(name) => Json::string(name.as_str()),
        None => Json::Null,
    }
}

// ---------------------------------------------------------------- commands

/// The lifetime of an override.
pub open spec fn lifetime(duration_ms: u64) -> Nanos {
    (duration_ms * NANOS_PER_MILLI) as u128
}

fn nanos_of(duration_ms: u64) -> (ttl: Nanos)
    ensures
        ttl == lifetime(duration_ms),
        ttl == 0 <==> duration_ms == 0,
{
    assert(duration_ms as u128 * 1_000_000 <= u128::MAX);
    (duration_ms as u128) * NANOS_PER_MILLI
}

/// Whether an override was refused, or accepted and reported.
pub open spec fn override_handled<H: Hardware>(
    before: Engine<H>,
    after: Engine<H>,
    refused: Option<ErrorView>,
    output: Seq<char>,
    value: OverrideValue,
    ttl: Nanos,
    now: Nanos,
    data: JsonView,
    progress: ProgressView,
) -> bool {
    match refused {
        Some(reason) => {
            &&& engine::untouched(before, after)
            &&& progress == ProgressView::Done(Err(reason))
        },
        None => {
            &&& engine::became(
                before,
                after,
                control::with_override(before@, output, value, ttl, now),
            )
            &&& progress == ProgressView::Done(Ok(ReplyView::Data(data)))
        },
    }
}

/// What comes of a command.
pub open spec fn handled<H: Hardware>(
    before: DaemonState<H>,
    after: DaemonState<H>,
    command: Command,
    now: Nanos,
    progress: ProgressView,
) -> bool {
    let old_engine = before.engine;
    let new_engine = after.engine;
    match command {
        Command::Status => {
            &&& engine::untouched(old_engine, new_engine)
            &&& progress == ProgressView::Done(
                Ok(ReplyView::Status(status::status_of(old_engine@, now))),
            )
        },
        Command::Devices => {
            let call = new_engine.hardware.calls().last();
            &&& new_engine.hardware.calls() == old_engine.hardware.calls().push(call)
            &&& call matches Call::Discover { reply } && {
                &&& new_engine@ == control::with_found(old_engine@, reply)
                &&& progress == ProgressView::Done(
                    match control::known_devices(old_engine@.devices, reply) {
                        Ok(devices) => Ok(ReplyView::Devices(devices)),
                        Err(error) => Err(error),
                    },
                )
            }
        },
        Command::ConfigReload => {
            &&& engine::untouched(old_engine, new_engine)
            &&& progress == ProgressView::ReadConfiguration
        },
        Command::ProfileList => {
            &&& engine::untouched(old_engine, new_engine)
            &&& progress == ProgressView::Done(
                Ok(
                    ReplyView::Data(
                        profile_list(old_engine@, views::maybe(before.persisted_profile)),
                    ),
                ),
            )
        },
        Command::ProfileSet { profile, persist } => {
            exists|outcome: Reply<()>|
                {
                    &&& #[trigger] control::profile_step(
                        old_engine,
                        new_engine,
                        outcome,
                        profile@,
                    )
                    &&& progress == (match outcome {
                        Err(error) => ProgressView::Done(Err(error)),
                        Ok(_) => if persist {
                            ProgressView::SaveProfile(profile@)
                        } else {
                            ProgressView::Done(
                                Ok(
                                    ReplyView::Data(
                                        profile_changed(
                                            profile@,
                                            false,
                                            views::maybe(before.persisted_profile),
                                        ),
                                    ),
                                ),
                            )
                        },
                    })
                }
        },
        Command::OverrideFan { output, percent, duration_ms, allow_below_minimum } => {
            override_handled(
                old_engine,
                new_engine,
                control::fan_override_refused(
                    old_engine@,
                    output@,
                    percent,
                    lifetime(duration_ms),
                    allow_below_minimum,
                    now,
                ),
                output@,
                OverrideValue::Fan(percent),
                lifetime(duration_ms),
                now,
                override_set(output@, duration_ms),
                progress,
            )
        },
        Command::OverrideRgb { output, rgb, duration_ms } => {
            override_handled(
                old_engine,
                new_engine,
                control::rgb_override_refused(old_engine@, output@, lifetime(duration_ms), now),
                output@,
                OverrideValue::Rgb(rgb),
                lifetime(duration_ms),
                now,
                override_set(output@, duration_ms),
                progress,
            )
        },
        Command::OverrideDisplay { output, enabled, duration_ms } => {
            override_handled(
                old_engine,
                new_engine,
                control::display_override_refused(
                    old_engine@,
                    output@,
                    lifetime(duration_ms),
                    now,
                ),
                output@,
                OverrideValue::Display(enabled),
                lifetime(duration_ms),
                now,
                display_set(output@, enabled, duration_ms),
                progress,
            )
        },
        Command::OverrideClear { output } => {
            match views::maybe(output) {
                None => {
                    &&& engine::became(
                        old_engine,
                        new_engine,
                        EngineModel { overrides: Seq::empty(), ..old_engine@ },
                    )
                    &&& progress == ProgressView::Done(
                        Ok(ReplyView::Data(cleared_data("all"@))),
                    )
                },
                Some(name) => if names::has(old_engine@.overrides, name) {
                    &&& engine::became(
                        old_engine,
                        new_engine,
                        EngineModel {
                            overrides: names::removed(old_engine@.overrides, name),
                            ..old_engine@
                        },
                    )
                    &&& progress == ProgressView::Done(Ok(ReplyView::Data(cleared_data(name))))
                } else {
                    &&& engine::untouched(old_engine, new_engine)
                    &&& progress == ProgressView::Done(
                        Err(
                            if names::has(old_engine@.config.outputs@, name) {
                                control::no_override(name)
                            } else {
                                control::unknown_output(name)
                            },
                        ),
                    )
                },
            }
        },
        Command::OutputRelease { output } => {
            exists|outcome: Reply<Seq<Seq<char>>>|
                {
                    &&& #[trigger] control::release_command(
                        old_engine,
                        new_engine,
                        outcome,
                        views::maybe(output),
                    )
                    &&& progress == ProgressView::Done(listed("released"@, outcome))
                }
        },
        Command::OutputResume { output } => {
            exists|outcome: Reply<Seq<Seq<char>>>|
                {
                    &&& #[trigger] control::resume_command(
                        old_engine,
                        new_engine,
                        outcome,
                        views::maybe(output),
                    )
                    &&& progress == ProgressView::Done(listed("resumed"@, outcome))
                }
        },
        Command::DebugHidDump { device } => if !names::has(
            old_engine@.config.devices@,
            device@,
        ) {
            &&& engine::untouched(old_engine, new_engine)
            &&& progress == ProgressView::Done(Err(drivers::unknown_device(device@)))
        } else {
            let call = new_engine.hardware.calls().last();
            &&& new_engine@ == old_engine@
            &&& new_engine.hardware.calls() == old_engine.hardware.calls().push(call)
            &&& call matches Call::Dump { device: asked, reply } && {
                &&& asked == device@
                &&& progress == ProgressView::Done(
                    match reply {
                        Ok(dump) => Ok(ReplyView::Data(dump_data(device@, dump))),
                        Err(error) => Err(error),
                    },
                )
            }
        },
    }
}

/// The data of overrides that were cleared.
pub open spec fn cleared_data(name: Seq<char>) -> JsonView {
    JsonView::Object(seq![("cleared"@, JsonView::Text(name))])
}

fn name_of(output: &Option<String>) -> (name: Option<&str>)
    ensures
        control::chosen(name) == views::maybe(*output),
{
    match output {
        Some(name) => Some(name.as_str()),
        None => None,
    }
}

fn listed_reply(name: &str, outcome: Result<Vec<String>>) -> (result: Result<CommandReply>)
    ensures
        views::outcome(result) == listed(name@, control::affected(outcome)),
{
    match outcome {
        Ok(outputs) => Ok(
            CommandReply::Data(json::object1(name, Json::strings(&outputs))),
        ),
        Err(error) => Err(error),
    }
}

fn data_reply(outcome: Result<()>, data: Json) -> (result: Result<CommandReply>)
    ensures
        views::outcome(result) == (match drivers::done(outcome) {
            Ok(_) => Ok(ReplyView::Data(data@)),
            Err(error) => Err(error),
        }),
{
    match outcome {
        Ok(_) => Ok(CommandReply::Data(data)),
        Err(error) => Err(error),
    }
}

impl<H: Hardware> DaemonState<H> {
    /// Carries out a command as far as that needs no file.
    pub fn handle_command(&mut self, command: Command, now: Nanos) -> (progress: Progress)
        ensures
            final(self).socket_path == old(self).socket_path,
            final(self).state_path == old(self).state_path,
            final(self).persisted_profile == old(self).persisted_profile,
            handled(*old(self), *final(self), command, now, progress@),
    {
        match command {
            Command::Status => Progress::Done(
                Ok(CommandReply::Status(self.engine.status(now))),
            ),
            Command::Devices => Progress::Done(
                match self.engine.devices() {
                    Ok(devices) => Ok(CommandReply::Devices(devices)),
                    Err(error) => Err(error),
                },
            ),
            Command::ConfigReload => Progress::ReadConfiguration,
            Command::ProfileList => {
                let profiles = self.engine.profiles();
                Progress::Done(
                    Ok(
                        CommandReply::Data(
                            json::object3(
                                "profiles",
                                Json::strings(&profiles),
                                "active_profile",
                                Json::string(self.engine.active_profile()),
                                "persisted_profile",
                                optional_json(&self.persisted_profile),
                            ),
                        ),
                    ),
                )
            },
            Command::ProfileSet { profile, persist } => {
                let outcome = self.engine.set_profile(profile.as_str());
                assert(control::profile_step(
                    old(self).engine,
                    self.engine,
                    drivers::done(outcome),
                    profile@,
                ));
                if let Err(error) = outcome {
                    return Progress::Done(Err(error));
                }
                if persist {
                    return Progress::SaveProfile(profile);
                }
                Progress::Done(
                    Ok(
                        CommandReply::Data(
                            profile_reply(profile.as_str(), false, &self.persisted_profile),
                        ),
                    ),
                )
            },
            Command::OverrideFan { output, percent, duration_ms, allow_below_minimum } => {
                let outcome = self.engine.set_fan_override(
                    output.as_str(),
                    percent,
                    nanos_of(duration_ms),
                    allow_below_minimum,
                    now,
                );
                let data = json::object2(
                    "output",
                    Json::string(output.as_str()),
                    "expires_in_ms",
                    Json::number(duration_ms),
                );
                Progress::Done(data_reply(outcome, data))
            },
            Command::OverrideRgb { output, rgb, duration_ms } => {
                let outcome = self.engine.set_rgb_override(
                    output.as_str(),
                    rgb,
                    nanos_of(duration_ms),
                    now,
                );
                let data = json::object2(
                    "output",
                    Json::string(output.as_str()),
                    "expires_in_ms",
                    Json::number(duration_ms),
                );
                Progress::Done(data_reply(outcome, data))
            },
            Command::OverrideDisplay { output, enabled, duration_ms } => {
                let outcome = self.engine.set_display_override(
                    output.as_str(),
                    enabled,
                    nanos_of(duration_ms),
                    now,
                );
                let data = json::object3(
                    "output",
                    Json::string(output.as_str()),
                    "enabled",
                    Json::Bool(enabled),
                    "expires_in_ms",
                    Json::number(duration_ms),
                );
                Progress::Done(data_reply(outcome, data))
            },
            Command::OverrideClear { output } => {
                if let Some(name) = &output {
                    if !self.engine.overrides.contains_key(name.as_str())
                        && !self.engine.config.outputs.contains_key(name.as_str()) {
                        return Progress::Done(
                            Err(
                                FeatherError::Daemon(
                                    text::concat3("unknown output '", name.as_str(), "'"),
                                ),
                            ),
                        );
                    }
                }
                let outcome = self.engine.clear_overrides(name_of(&output));
                let cleared = match &output {
                    Some(name) => name.as_str(),
                    None => "all",
                };
                let data = json::object1("cleared", Json::string(cleared));
                Progress::Done(data_reply(outcome, data))
            },
            Command::OutputRelease { output } => {
                let outcome = self.engine.release_outputs(name_of(&output));
                assert(control::release_command(
                    old(self).engine,
                    self.engine,
                    control::affected(outcome),
                    views::maybe(output),
                ));
                Progress::Done(listed_reply("released", outcome))
            },
            Command::OutputResume { output } => {
                let outcome = self.engine.resume_outputs(name_of(&output));
                assert(control::resume_command(
                    old(self).engine,
                    self.engine,
                    control::affected(outcome),
                    views::maybe(output),
                ));
                Progress::Done(listed_reply("resumed", outcome))
            },
            Command::DebugHidDump { device } => {
                let outcome = self.engine.debug_hid_dump(device.as_str());
                Progress::Done(
                    match outcome {
                        Ok(dump) => Ok(
                            CommandReply::Data(
                                json::object2(
                                    "device",
                                    Json::string(device.as_str()),
                                    "dump",
                                    Json::Text(dump),
                                ),
                            ),
                        ),
                        Err(error) => Err(error),
                    },
                )
            },
        }
    }

    /// Ends a change of profile with the outcome of saving the profile.
    ///
    /// # Errors
    ///
    /// Returns an error when the profile could not be saved. It is active nevertheless.
    pub fn finish_profile(&mut self, profile: String, saved: Result<()>) -> (result: Result<
        CommandReply,
    >)
        ensures
            final(self).engine == old(self).engine,
            final(self).socket_path == old(self).socket_path,
            final(self).state_path == old(self).state_path,
            match drivers::done(saved) {
                Ok(_) => {
                    &&& final(self).persisted_profile == Some(profile)
                    &&& views::outcome(result) == Ok::<ReplyView, ErrorView>(
                        ReplyView::Data(profile_changed(profile@, true, Some(profile@))),
                    )
                },
                Err(error) => {
                    &&& final(self).persisted_profile == old(self).persisted_profile
                    &&& views::outcome(result) == Err::<ReplyView, ErrorView>(
                        ErrorView::Daemon(
                            "profile '"@ + profile@
                                + "' is active for this run, but could not be saved: "@
                                + error::described(error),
                        ),
                    )
                },
            },
    {
        if let Err(error) = saved {
            let reason = error.to_text();
            return Err(
                FeatherError::Daemon(
                    text::concat4(
                        "profile '",
                        profile.as_str(),
                        "' is active for this run, but could not be saved: ",
                        reason.as_str(),
                    ),
                ),
            );
        }
        let persisted = Some(profile.clone());
        let data = profile_reply(profile.as_str(), true, &persisted);
        self.persisted_profile = persisted;
        Ok(CommandReply::Data(data))
    }

    /// Ends a reload with the configuration that was read. The socket and the file of the saved
    /// profile stay as they are. The second value tells whether the saved profile is to be
    /// removed, because the configuration no longer has it.
    ///
    /// # Errors
    ///
    /// Returns why the configuration could not be read or activated.
    pub fn finish_reload(&mut self, loaded: Result<Config>) -> (result: (Result<CommandReply>, bool))
        ensures
            final(self).socket_path == old(self).socket_path,
            final(self).state_path == old(self).state_path,
            match loaded {
                Err(error) => {
                    &&& final(self).engine == old(self).engine
                    &&& final(self).persisted_profile == old(self).persisted_profile
                    &&& views::outcome(result.0) == Err::<ReplyView, ErrorView>(error@)
                    &&& !result.1
                },
                Ok(config) => {
                    let candidate = with_paths(
                        config,
                        old(self).socket_path,
                        old(self).state_path,
                    );
                    exists|outcome: Reply<()>|
                        {
                            &&& #[trigger] control::reload_step(
                                old(self).engine,
                                final(self).engine,
                                outcome,
                                candidate,
                            )
                            &&& match outcome {
                                Err(error) => {
                                    &&& views::outcome(result.0) == Err::<ReplyView, ErrorView>(
                                        error,
                                    )
                                    &&& final(self).persisted_profile
                                        == old(self).persisted_profile
                                    &&& !result.1
                                },
                                Ok(_) => {
                                    &&& views::outcome(result.0) == Ok::<ReplyView, ErrorView>(
                                        ReplyView::Data(reload_data(final(self).engine@)),
                                    )
                                    &&& result.1 == lost(
                                        candidate,
                                        views::maybe(old(self).persisted_profile),
                                    )
                                    &&& final(self).persisted_profile == (if result.1 {
                                        None
                                    } else {
                                        old(self).persisted_profile
                                    })
                                },
                            }
                        }
                },
            },
    {
        let mut config = match loaded {
            Ok(config) => config,
            Err(error) => {
                return (Err(error), false);
            },
        };
        let ghost given = config;
        config.daemon.socket = self.socket_path.clone();
        config.daemon.state_file = self.state_path.clone();
        let ghost candidate = config;
        assert(candidate == with_paths(given, old(self).socket_path, old(self).state_path));
        let outcome = self.engine.reload(config);
        assert(control::reload_step(
            old(self).engine,
            self.engine,
            drivers::done(outcome),
            candidate,
        ));
        if let Err(error) = outcome {
            return (Err(error), false);
        }
        let gone = match &self.persisted_profile {
            Some(profile) => !self.engine.config.profiles.contains_key(profile.as_str()),
            None => false,
        };
        if gone {
            self.persisted_profile = None;
        }
        let data = json::object2(
            "generation",
            Json::number(self.engine.generation),
            "active_profile",
            Json::string(self.engine.active_profile()),
        );
        (Ok(CommandReply::Data(data)), gone)
    }

    /// Evaluates the policy once.
    ///
    /// # Errors
    ///
    /// Returns an error when the daemon has to stop; the devices were then given back.
    pub fn tick<F, G>(
        &mut self,
        now: Nanos,
        hour: u32,
        minute: u32,
        blends: &Blends<F, G>,
    ) -> (result: Result<()>) where
        F: Fn(FanPoint, FanPoint, Celsius) -> u8,
        G: Fn(ColorPoint, ColorPoint, Celsius) -> [u8; 3],

        requires
            policy::blendable(*blends),
        ensures
            final(self).socket_path == old(self).socket_path,
            final(self).state_path == old(self).state_path,
            final(self).persisted_profile == old(self).persisted_profile,
            exists|ticked: Engine<H>, stop: bool, states: Seq<Engine<H>>|
                {
                    &&& #[trigger] engine::tick_run(
                        old(self).engine,
                        ticked,
                        stop,
                        states,
                        now,
                        hour,
                        minute,
                        *blends,
                    )
                    &&& if stop {
                        &&& final(self).engine@ == ticked@
                        &&& final(self).engine.hardware.calls() == ticked.hardware.calls().push(
                            Call::Shutdown,
                        )
                        &&& result matches Err(e) && e@ == ErrorView::Daemon(
                            "hardware failure limit reached"@,
                        )
                    } else {
                        final(self).engine == ticked && result is Ok
                    }
                },
    {
        let stop = self.engine.tick(now, hour, minute, blends);
        let ghost ticked = self.engine;
        let ghost states = choose|states: Seq<Engine<H>>| #[trigger]
            engine::tick_run(
                old(self).engine,
                ticked,
                stop,
                states,
                now,
                hour,
                minute,
                *blends,
            );
        assert(engine::tick_run(
            old(self).engine,
            ticked,
            stop,
            states,
            now,
            hour,
            minute,
            *blends,
        ));
        if stop {
            self.engine.shutdown();
            return Err(FeatherError::Daemon("hardware failure limit reached".to_owned()));
        }
        Ok(())
    }
}

fn profile_reply(profile: &str, persist: bool, persisted: &Option<String>) -> (data: Json)
    ensures
        data@ == profile_changed(profile@, persist, views::maybe(*persisted)),
{
    json::object3(
        "active_profile",
        Json::string(profile),
        "persisted",
        Json::Bool(persist),
        "persisted_profile",
        optional_json(persisted),
    )
}

/// A configuration with the paths that are in use.
pub open spec fn with_paths(config: Config, socket: String, state_file: String) -> Config {
    Config { daemon: DaemonConfig { socket, state_file, ..config.daemon }, ..config }
}

/// Whether a configuration does not have the saved profile.
pub open spec fn lost(config: Config, persisted: Option<Seq<char>>) -> bool {
    persisted matches Some(profile) && !names::has(config.profiles@, profile)
}

// ---------------------------------------------------------------- worker

/// Why a command could not be handed to the hardware worker.
#[derive(Clone, Copy, Debug, PartialEq, Eq, Structural)]
pub enum QueueFault {
    /// Too many commands wait already.
    Full,
    /// The worker has ended.
    Disconnected,
}

/// The error of a command that could not be handed to the hardware worker.
pub fn queue_error(fault: QueueFault) -> (error: FeatherError)
    ensures
        error@ == ErrorView::Daemon(
            match fault {
                QueueFault::Full => "hardware command queue is full"@,
                QueueFault::Disconnected => "hardware worker is not running"@,
            },
        ),
{
    match fault {
        QueueFault::Full => FeatherError::Daemon("hardware command queue is full".to_owned()),
        QueueFault::Disconnected => FeatherError::Daemon(
            "hardware worker is not running".to_owned(),
        ),
    }
}

/// When the hardware worker evaluates the policy.
#[derive(Clone, Copy, Debug, PartialEq, Eq, Structural)]
pub struct Schedule {
    /// Time from one evaluation to the next.
    pub interval: Nanos,
    /// Time of the next evaluation.
    pub next_tick: Nanos,
}

impl Schedule {
    /// The first evaluation is due at once.
    pub fn new(now: Nanos, interval: Nanos) -> (schedule: Self)
        ensures
            schedule == (Schedule { interval, next_tick: now }),
    {
        Schedule { interval, next_tick: now }
    }

    /// Whether an evaluation is due.
    pub fn is_due(&self, now: Nanos) -> (due: bool)
        ensures
            due == (now >= self.next_tick),
    {
        now >= self.next_tick
    }

    /// Notes an evaluation.
    pub fn ticked(&mut self, now: Nanos)
        requires
            now + old(self).interval <= u128::MAX,
        ensures
            *final(self) == (Schedule {
                next_tick: (now + old(self).interval) as u128,
                ..*old(self)
            }),
    {
        self.next_tick = now + self.interval;
    }

    /// Takes over the interval after a command: the next evaluation moves forward where the
    /// interval asks for it, and never back.
    pub fn adjust(&mut self, now: Nanos, interval: Nanos)
        requires
            now + interval <= u128::MAX,
        ensures
            final(self).interval == interval,
            final(self).next_tick == (if old(self).next_tick <= now + interval {
                old(self).next_tick as int
            } else {
                now + interval
            }),
    {
        self.interval = interval;
        let latest: Nanos = now + interval;
        if latest < self.next_tick {
            self.next_tick = latest;
        }
    }

    /// How long to wait for a command.
    pub fn remaining(&self, now: Nanos) -> (wait: Nanos)
        ensures
            wait == (if now >= self.next_tick {
                0
            } else {
                self.next_tick - now
            }),
    {
        if now >= self.next_tick {
            0
        } else {
            self.next_tick - now
        }
    }
}

/// Whether the hardware worker shows signs of life.
#[derive(Clone, Copy, Debug, PartialEq, Eq, Structural)]
pub struct Watchdog {
    /// Last count that was seen.
    pub last: Option<u64>,
}

impl Watchdog {
    /// Nothing was seen yet.
    pub fn new() -> (watchdog: Self)
        ensures
            watchdog.last is None,
    {
        Watchdog { last: None }
    }

    /// Whether the worker went on since the last call.
    pub fn observe(&mut self, count: u64) -> (alive: bool)
        ensures
            alive == (old(self).last != Some(count)),
            final(self).last == Some(count),
    {
        let alive = match self.last {
            Some(last) => last != count,
            None => true,
        };
        self.last = Some(count);
        alive
    }
}

/// How the daemon ends: with the error of a worker that ended by itself, or else with the first
/// failure of the shutdown.
pub open spec fn exit_of(
    worker: Option<Reply<()>>,
    shutdown: Reply<()>,
    joined: Reply<()>,
) -> Reply<()> {
    match worker {
        Some(Err(error)) => Err(error),
        _ => match shutdown {
            Err(error) => Err(error),
            Ok(_) => joined,
        },
    }
}

/// What a worker that ended by itself ended with.
pub open spec fn ended_with(worker: Option<Result<()>>) -> Option<Reply<()>> {
    match worker {
        Some(result) => Some(drivers::done(result)),
        None => None,
    }
}

/// How the daemon ends: with the result of the worker if that ended by itself, then with the
/// first failure of the shutdown.
pub fn exit_result(
    worker: Option<Result<()>>,
    shutdown: Result<()>,
    joined: Result<()>,
) -> (result: Result<()>)
    ensures
        drivers::done(result) == exit_of(
            ended_with(worker),
            drivers::done(shutdown),
            drivers::done(joined),
        ),
{
    if let Some(outcome) = worker {
        outcome?;
    }
    shutdown?;
    joined
}

// ---------------------------------------------------------------- saved profile

/// The file that holds the saved profile.
#[derive(Debug)]
pub struct PersistedState {
    /// Version of the file.
    pub schema_version: u32,
    /// The saved profile.
    pub active_profile: String,
}

/// The file that holds the saved profile is too large.
pub open spec fn oversized(path: Seq<char>) -> ErrorView {
    ErrorView::Daemon(
        "state file "@ + path + " exceeds "@ + text::decimal(MAX_STATE_BYTES as nat) + " bytes"@,
    )
}

/// Accepts the size of the file that holds the saved profile.
///
/// # Errors
///
/// Returns an error when the file is too large.
pub fn check_state_size(path: &str, bytes: usize) -> (result: Result<()>)
    ensures
        result is Ok <==> bytes <= 65_536,
        drivers::done(result) == (if bytes > MAX_STATE_BYTES {
            Err(oversized(path@))
        } else {
            Ok(())
        }),
{
    if bytes > MAX_STATE_BYTES {
        let mut message = text::concat3("state file ", path, " exceeds ");
        text::push_decimal(&mut message, MAX_STATE_BYTES as u64);
        message.append(" bytes");
        return Err(FeatherError::Daemon(message));
    }
    Ok(())
}

/// What a decoded state file says.
pub open spec fn saved_profile(path: Seq<char>, version: u32, profile: Seq<char>) -> Reply<
    Seq<char>,
> {
    if version != STATE_SCHEMA_VERSION {
        Err(
            ErrorView::Daemon(
                "state file "@ + path + " uses schema "@ + text::decimal(version as nat)
                    + ", expected "@ + text::decimal(STATE_SCHEMA_VERSION as nat),
            ),
        )
    } else if profile.len() == 0 {
        Err(ErrorView::Daemon("state file "@ + path + " has an empty profile name"@))
    } else {
        Ok(profile)
    }
}

/// Takes the saved profile out of its file.
///
/// # Errors
///
/// Returns an error when the file has another version or names no profile.
pub fn check_state(path: &str, state: PersistedState) -> (result: Result<String>)
    ensures
        views::outcome(result) == saved_profile(
            path@,
            state.schema_version,
            state.active_profile@,
        ),
{
    if state.schema_version != STATE_SCHEMA_VERSION {
        let mut message = text::concat3("state file ", path, " uses schema ");
        text::push_decimal(&mut message, state.schema_version as u64);
        message.append(", expected ");
        text::push_decimal(&mut message, STATE_SCHEMA_VERSION as u64);
        return Err(FeatherError::Daemon(message));
    }
    if state.active_profile.as_str().unicode_len() == 0 {
        return Err(
            FeatherError::Daemon(
                text::concat3("state file ", path, " has an empty profile name"),
            ),
        );
    }
    Ok(state.active_profile)
}

/// The contents of the file that saves a profile.
pub fn state_to_save(profile: &str) -> (state: PersistedState)
    ensures
        state.schema_version == STATE_SCHEMA_VERSION,
        state.active_profile@ == profile@,
{
    PersistedState { schema_version: STATE_SCHEMA_VERSION, active_profile: profile.to_owned() }
}

/// What is found at the path of the file that holds the saved profile.
#[derive(Debug)]
pub enum StateFile {
    /// Nothing.
    Absent,
    /// Something that could not be read.
    Unreadable(String),
    /// A file.
    Read {
        /// Size of the file.
        bytes: usize,
        /// Its decoded contents, or why they could not be decoded.
        contents: std::result::Result<PersistedState, String>,
    },
}

/// What is found at the path of the file that holds the saved profile, as mathematical values.
pub enum StateFileView {
    /// Nothing.
    Absent,
    /// Something that could not be read.
    Unreadable(Seq<char>),
    /// A file.
    Read {
        /// Size of the file.
        bytes: nat,
        /// Version and profile in it, or why it could not be decoded.
        contents: std::result::Result<(u32, Seq<char>), Seq<char>>,
    },
}

impl View for StateFile {
    type V = StateFileView;

    open spec fn view(&self) -> StateFileView {
        match *self {
            StateFile::Absent => StateFileView::Absent,
            StateFile::Unreadable(reason) => StateFileView::Unreadable(reason@),
            StateFile::Read { bytes, contents } => StateFileView::Read {
                bytes: bytes as nat,
                contents: match contents {
                    Ok(state) => Ok((state.schema_version, state.active_profile@)),
                    Err(reason) => Err(reason@),
                },
            },
        }
    }
}

/// The profile that is saved at a path, if one is.
pub open spec fn loaded(path: Seq<char>, found: StateFileView) -> Reply<Option<Seq<char>>> {
    match found {
        StateFileView::Absent => Ok(None),
        StateFileView::Unreadable(reason) => Err(
            ErrorView::Daemon("could not read "@ + path + ": "@ + reason),
        ),
        StateFileView::Read { bytes, contents } => if bytes > MAX_STATE_BYTES {
            Err(oversized(path))
        } else {
            match contents {
                Err(reason) => Err(
                    ErrorView::Daemon("could not parse "@ + path + ": "@ + reason),
                ),
                Ok((version, profile)) => match saved_profile(path, version, profile) {
                    Ok(profile) => Ok(Some(profile)),
                    Err(error) => Err(error),
                },
            }
        },
    }
}

/// What was loaded, as mathematical values.
pub open spec fn loaded_view(result: Result<Option<String>>) -> Reply<Option<Seq<char>>> {
    match result {
        Ok(saved) => Ok(views::maybe(saved)),
        Err(error) => Err(error@),
    }
}

/// Takes the saved profile out of what is found at its path. Without a file there is none.
///
/// # Errors
///
/// Returns an error when the file cannot be read or decoded, is too large, has another version,
/// or names no profile.
pub fn loaded_profile(path: &str, found: StateFile) -> (result: Result<Option<String>>)
    ensures
        loaded_view(result) == loaded(path@, found@),
{
    match found {
        StateFile::Absent => Ok(None),
        StateFile::Unreadable(reason) => Err(
            FeatherError::Daemon(text::concat4("could not read ", path, ": ", reason.as_str())),
        ),
        StateFile::Read { bytes, contents } => {
            if let Err(error) = check_state_size(path, bytes) {
                return Err(error);
            }
            match contents {
                Err(reason) => Err(
                    FeatherError::Daemon(
                        text::concat4("could not parse ", path, ": ", reason.as_str()),
                    ),
                ),
                Ok(state) => match check_state(path, state) {
                    Ok(profile) => Ok(Some(profile)),
                    Err(error) => Err(error),
                },
            }
        },
    }
}

/// A saved profile is read back as it was saved, unless its name is empty or its file is too
/// large.
pub proof fn law_saved_profile_read_back(path: Seq<char>, profile: Seq<char>, bytes: nat)
    requires
        profile.len() > 0,
        bytes <= MAX_STATE_BYTES,
    ensures
        loaded(
            path,
            StateFileView::Read { bytes, contents: Ok((STATE_SCHEMA_VERSION, profile)) },
        ) == Ok::<Option<Seq<char>>, ErrorView>(Some(profile)),
{
}

/// A profile whose file was removed is saved no more.
pub proof fn law_removed_profile_is_gone(path: Seq<char>)
    ensures
        loaded(path, StateFileView::Absent) == Ok::<Option<Seq<char>>, ErrorView>(None),
{
}

/// The profile to start with.
#[derive(Debug)]
pub struct Startup {
    /// The saved profile, where the configuration has it.
    pub profile: Option<String>,
    /// Whether the saved profile is to be removed.
    pub remove: bool,
}

/// The profile to start with, given the saved one, if any could be read: the saved one, if the
/// configuration has it.
pub open spec fn startup_choice(config: Config, saved: Option<Seq<char>>) -> Option<Seq<char>> {
    match saved {
        Some(profile) => if names::has(config.profiles@, profile) {
            Some(profile)
        } else {
            None
        },
        None => None,
    }
}

/// The saved profile, if any could be read.
pub open spec fn readable(loaded: Result<Option<String>>) -> Option<Seq<char>> {
    match loaded {
        Ok(saved) => views::maybe(saved),
        Err(_) => None,
    }
}

/// Chooses the profile to start with: the saved one, if it could be read and the configuration
/// has it. One that the configuration does not have is to be removed.
pub fn startup_profile(config: &Config, loaded: Result<Option<String>>) -> (startup: Startup)
    ensures
        views::maybe(startup.profile) == startup_choice(*config, readable(loaded)),
        startup.remove == (readable(loaded) is Some && startup.profile is None),
{
    match loaded {
        Ok(Some(profile)) => {
            if config.profiles.contains_key(profile.as_str()) {
                Startup { profile: Some(profile), remove: false }
            } else {
                Startup { profile: None, remove: true }
            }
        },
        _ => Startup { profile: None, remove: false },
    }
}

// ---------------------------------------------------------------- socket

/// What is found at the path of the socket.
#[derive(Debug)]
pub enum SocketPath {
    /// Nothing.
    Absent,
    /// A socket that accepts connections.
    Live,
    /// A socket that nobody listens on.
    Stale,
    /// A socket that could not be tried.
    Unverified(String),
    /// Something that is not a socket.
    Occupied,
    /// Something that could not be inspected.
    Unreadable(String),
}

/// Whether a stale socket is to be removed, or why the path cannot be used.
pub open spec fn socket_verdict(path: Seq<char>, found: SocketPath) -> Reply<bool> {
    match found {
        SocketPath::Absent => Ok(false),
        SocketPath::Stale => Ok(true),
        SocketPath::Live => Err(ErrorView::Daemon("socket "@ + path + " is already in use"@)),
        SocketPath::Unverified(reason) => Err(
            ErrorView::Daemon("could not verify existing socket "@ + path + ": "@ + reason@),
        ),
        SocketPath::Occupied => Err(
            ErrorView::Daemon("refusing to replace non-socket path "@ + path),
        ),
        SocketPath::Unreadable(reason) => Err(
            ErrorView::Daemon("could not inspect "@ + path + ": "@ + reason@),
        ),
    }
}

/// Decides on what is found at the path of the socket: a stale socket is to be removed, and
/// anything else is left alone.
///
/// # Errors
///
/// Returns an error when the path cannot be used.
pub fn socket_decision(path: &str, found: &SocketPath) -> (result: Result<bool>)
    ensures
        error::outcome(result) == socket_verdict(path@, *found),
{
    match found {
        SocketPath::Absent => Ok(false),
        SocketPath::Stale => Ok(true),
        SocketPath::Live => Err(
            FeatherError::Daemon(text::concat3("socket ", path, " is already in use")),
        ),
        SocketPath::Unverified(reason) => Err(
            FeatherError::Daemon(
                text::concat4("could not verify existing socket ", path, ": ", reason.as_str()),
            ),
        ),
        SocketPath::Occupied => Err(
            FeatherError::Daemon(text::concat2("refusing to replace non-socket path ", path)),
        ),
        SocketPath::Unreadable(reason) => Err(
            FeatherError::Daemon(
                text::concat4("could not inspect ", path, ": ", reason.as_str()),
            ),
        ),
    }
}

// ---------------------------------------------------------------- answers to refused commands

proof fn lemma_begins(whole: Seq<char>, part: Seq<char>, first: char)
    requires
        part.len() > 0,
        part[0] != first,
        whole.len() > 0,
        whole[0] == first,
    ensures
        !text::has_prefix(whole, part),
{
    if text::has_prefix(whole, part) {
        assert(whole.subrange(0, part.len() as int)[0] == whole[0]);
    }
}

/// A profile, output, or device that does not exist is answered as an unknown resource.
pub proof fn law_unknown_names_are_told(name: Seq<char>)
    ensures
        ipc::reported(drivers::unknown_device(name)).0 == ErrorCode::UnknownResource,
        ipc::reported(control::unknown_output(name)).0 == ErrorCode::UnknownResource,
        ipc::reported(ErrorView::Daemon("unknown profile '"@ + name + "'"@)).0
            == ErrorCode::UnknownResource,
{
    reveal_strlit("unknown");
    reveal_strlit("unknown device '");
    reveal_strlit("unknown output '");
    reveal_strlit("unknown profile '");
    let device = "unknown device '"@ + name + "'"@;
    let output = "unknown output '"@ + name + "'"@;
    let profile = "unknown profile '"@ + name + "'"@;
    assert(device.subrange(0, 7) =~= "unknown"@);
    assert(output.subrange(0, 7) =~= "unknown"@);
    assert(profile.subrange(0, 7) =~= "unknown"@);
}

/// An override of a duration or a duty that cannot be, of a low duty without confirmation, or for
/// an output of another kind is answered as an invalid request.
pub proof fn law_refused_arguments_are_told(output: Seq<char>, percent: u8, minimum: u8)
    ensures
        ipc::reported(control::zero_duration()).0 == ErrorCode::InvalidRequest,
        ipc::reported(ErrorView::Daemon("override duration is too large"@)).0
            == ErrorCode::InvalidRequest,
        ipc::reported(ErrorView::Daemon("fan override percentage must be at most 100"@)).0
            == ErrorCode::InvalidRequest,
        ipc::reported(control::below_minimum(output, percent, minimum)).0
            == ErrorCode::InvalidRequest,
        ipc::reported(control::wrong_kind(output, "a fan"@)).0 == ErrorCode::InvalidRequest,
        ipc::reported(control::wrong_kind(output, "RGB"@)).0 == ErrorCode::InvalidRequest,
        ipc::reported(control::wrong_kind(output, "a display"@)).0 == ErrorCode::InvalidRequest,
{
    reveal_strlit("unknown");
    reveal_strlit("override duration ");
    reveal_strlit("override duration must be greater than zero");
    reveal_strlit("override duration is too large");
    reveal_strlit("fan override ");
    reveal_strlit("fan override percentage must be at most 100");
    reveal_strlit("output '");
    reveal_strlit("' is not ");
    reveal_strlit("' is not a fan");
    reveal_strlit("' is not RGB");
    reveal_strlit("' is not a display");
    reveal_strlit("a fan");
    reveal_strlit("RGB");
    reveal_strlit("a display");
    let zero = "override duration must be greater than zero"@;
    let large = "override duration is too large"@;
    let duty = "fan override percentage must be at most 100"@;
    assert(zero.subrange(0, 18) =~= "override duration "@);
    assert(large.subrange(0, 18) =~= "override duration "@);
    assert(duty.subrange(0, 13) =~= "fan override "@);
    lemma_begins(zero, "unknown"@, 'o');
    lemma_begins(large, "unknown"@, 'o');
    lemma_begins(duty, "unknown"@, 'f');
    let low = control::below_minimum(output, percent, minimum)->Daemon_0;
    assert(low.subrange(0, 13) =~= "fan override "@);
    lemma_begins(low, "unknown"@, 'f');
    assert("' is not a fan"@ =~= "' is not "@ + "a fan"@);
    assert("' is not RGB"@ =~= "' is not "@ + "RGB"@);
    assert("' is not a display"@ =~= "' is not "@ + "a display"@);
    lemma_wrong_kind(output, "a fan"@, "' is not a fan"@);
    lemma_wrong_kind(output, "RGB"@, "' is not RGB"@);
    lemma_wrong_kind(output, "a display"@, "' is not a display"@);
}

proof fn lemma_wrong_kind(output: Seq<char>, kind: Seq<char>, end: Seq<char>)
    requires
        end == "' is not "@ + kind,
    ensures
        ({
            let message = control::wrong_kind(output, kind)->Daemon_0;
            &&& text::has_prefix(message, "output '"@)
            &&& text::has_suffix(message, end)
            &&& !text::has_prefix(message, "unknown"@)
        }),
{
    reveal_strlit("unknown");
    reveal_strlit("output '");
    reveal_strlit("' is not ");
    let message = control::wrong_kind(output, kind)->Daemon_0;
    assert(message =~= "output '"@ + output + end);
    assert(message.subrange(0, 8) =~= "output '"@);
    assert(message.subrange(message.len() - end.len(), message.len() as int) =~= end);
    lemma_begins(message, "unknown"@, 'o');
}

} // verus!
