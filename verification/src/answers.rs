//! What the daemon answers: what its status tells, what its commands do, and how its errors
//! reach a client.

use vstd::prelude::*;

use crate::config::Config;
use crate::config::Nanos;
use crate::config::SensorConfig;
use crate::control;
use crate::daemon;
use crate::daemon::DaemonState;
use crate::daemon::ProgressView;
use crate::daemon::ReplyView;
use crate::drivers::Call;
use crate::drivers::Hardware;
use crate::drivers::Reply;
use crate::engine;
use crate::engine::Engine;
use crate::error::ErrorView;
use crate::ipc;
use crate::ipc::Command;
use crate::ipc::ErrorCode;
use crate::ipc::ResponseView;
use crate::json::JsonView;
use crate::json::Number;
use crate::laws;
use crate::names;
use crate::policy::ActiveOverride;
use crate::policy::EngineModel;
use crate::policy::OverrideValue;
use crate::policy::Target;
use crate::status;
use crate::text;
use crate::types::Health;
use crate::types::OutputKind;
use crate::types::OverrideKind;

verus! {

// ---------------------------------------------------------------- status

/// Whether a count of milliseconds is a duration without its fraction of a millisecond.
pub open spec fn is_millis(count: u64, duration: int) -> bool {
    count * 1_000_000 <= duration < (count + 1) * 1_000_000
}

/// The status tells every sensor under its name and in its place: its value as it was read, how
/// long ago, and whether that is too long ago or the latest read failed.
pub proof fn law_status_tells_every_sensor(model: EngineModel, now: Nanos, at: int)
    requires
        0 <= at < model.config.sensors@.len(),
        model.config.daemon.stale_after <= u64::MAX,
        now <= u64::MAX,
    ensures
        ({
            let sensors = status::status_of(model, now).sensors;
            let name = model.config.sensors@[at].0;
            let told = sensors[at].1;
            &&& sensors.len() == model.config.sensors@.len()
            &&& sensors[at].0 == name
            &&& told.driver == (match model.config.sensors@[at].1 {
                SensorConfig::LinuxHwmon { .. } => "linux-hwmon"@,
                SensorConfig::NvidiaNvml { .. } => "nvidia-nvml"@,
                SensorConfig::CorsairIcueLink { .. } => "corsair-icue-link"@,
            })
            &&& told.error == names::find(model.sensor_errors, name)
            &&& names::find(model.readings, name) is None ==> told.reading is None && told.health
                == Health::Unavailable
            &&& (names::find(model.readings, name) matches Some(reading) && reading.observed_at
                <= now) ==> {
                let age = now - names::find(model.readings, name)->0.observed_at;
                let stale = model.config.daemon.stale_after;
                &&& told.reading matches Some(shown) && {
                    &&& shown.celsius == names::find(model.readings, name)->0.value
                    &&& is_millis(shown.age_ms, age)
                }
                &&& age <= stale ==> told.health != Health::Unavailable
                &&& age >= stale + 1_000_000 ==> told.health == Health::Unavailable
                &&& told.health != Health::Unavailable ==> told.health == (if told.error is Some {
                    Health::Degraded
                } else {
                    Health::Healthy
                })
            }
        }),
{
}

/// What a target looks like in the status.
pub open spec fn shows(target: Target, shown: JsonView) -> bool {
    match target {
        Target::Percent(percent) => shown == JsonView::Number(Number::Positive(percent as u64)),
        Target::Rgb(red, green, blue) => shown matches JsonView::List(list) && {
            &&& list.len() == 3
            &&& list[0] == JsonView::Number(Number::Positive(red as u64))
            &&& list[1] == JsonView::Number(Number::Positive(green as u64))
            &&& list[2] == JsonView::Number(Number::Positive(blue as u64))
        },
        Target::Sleep => shown == JsonView::Text("sleep"@),
    }
}

/// The status tells every output under its name and in its place: its kind, what it was last set
/// to, what it was observed to do, its latest error, and its health. An output that was not written
/// yet is unavailable.
pub proof fn law_status_tells_every_output(model: EngineModel, now: Nanos, at: int)
    requires
        0 <= at < model.config.outputs@.len(),
    ensures
        ({
            let outputs = status::status_of(model, now).outputs;
            let name = model.config.outputs@[at].0;
            let told = outputs[at].1;
            &&& outputs.len() == model.config.outputs@.len()
            &&& outputs[at].0 == name
            &&& told.kind == OutputKind::Fan <==> model.config.outputs@[at].1 is Fan
            &&& told.kind == OutputKind::Rgb <==> model.config.outputs@[at].1 is Rgb
            &&& told.kind == OutputKind::Display <==> model.config.outputs@[at].1 is Display
            &&& match names::find(model.outputs, name) {
                None => told.health == Health::Unavailable && told.target is None && told.observed
                    is None && told.error is None,
                Some(runtime) => {
                    &&& runtime.health is None ==> told.health == Health::Unavailable
                    &&& runtime.health matches Some(health) ==> told.health == health
                    &&& told.target is Some <==> runtime.last_target is Some
                    &&& runtime.last_target matches Some(target) ==> shows(target, told.target->0)
                    &&& told.observed == runtime.observed
                    &&& told.error == runtime.error
                },
            }
        }),
{
}

/// The daemon reports that it fails safe if an output does, that it is healthy only if no sensor
/// and no output is impaired, and that it is degraded otherwise.
pub proof fn law_overall_health_is_the_worst(model: EngineModel, now: Nanos, at: int)
    ensures
        ({
            let told = status::status_of(model, now);
            &&& 0 <= at < told.outputs.len() && told.outputs[at].1.health == Health::FailSafe
                ==> told.health == Health::FailSafe
            &&& 0 <= at < told.outputs.len() && (told.outputs[at].1.health == Health::Degraded
                || told.outputs[at].1.health == Health::Unavailable) ==> told.health
                != Health::Healthy
            &&& 0 <= at < told.sensors.len() && told.sensors[at].1.health != Health::Healthy
                && told.sensors[at].1.health != Health::Released && told.sensors[at].1.health
                != Health::FailSafe ==> told.health != Health::Healthy
            &&& told.health == Health::FailSafe ==> exists|i: int|
                0 <= i < told.outputs.len() && (#[trigger] told.outputs[i]).1.health
                    == Health::FailSafe
            &&& (forall|i: int|
                0 <= i < told.outputs.len() ==> (#[trigger] told.outputs[i]).1.health
                    == Health::Healthy || told.outputs[i].1.health == Health::Released) && (forall|
                i: int,
            |
                0 <= i < told.sensors.len() ==> (#[trigger] told.sensors[i]).1.health
                    == Health::Healthy) ==> told.health == Health::Healthy
            &&& told.health == Health::FailSafe || told.health == Health::Degraded || told.health
                == Health::Healthy
        }),
{
    let told = status::status_of(model, now);
    if 0 <= at < told.outputs.len() {
        assert(told.outputs[at] == told.outputs[at]);
        if told.outputs[at].1.health == Health::FailSafe {
            assert(exists|i: int|
                0 <= i < told.outputs.len() && (#[trigger] told.outputs[i]).1.health
                    == Health::FailSafe);
        }
        if status::impaired(told.outputs[at].1.health) {
            assert(exists|i: int|
                0 <= i < told.outputs.len() && status::impaired(
                    (#[trigger] told.outputs[i]).1.health,
                ));
        }
    }
    if 0 <= at < told.sensors.len() && status::impaired(told.sensors[at].1.health) {
        assert(exists|i: int|
            0 <= i < told.sensors.len() && status::impaired((#[trigger] told.sensors[i]).1.health));
    }
}

/// What an override looks like in the status.
pub open spec fn tells_override(
    told: crate::types::OverrideStatusView,
    name: Seq<char>,
    active: ActiveOverride,
    now: Nanos,
) -> bool {
    &&& told.output == name
    &&& active.expires_at - now <= u64::MAX ==> is_millis(
        told.remaining_ms,
        active.expires_at - now,
    )
    &&& match active.value {
        OverrideValue::Fan(percent) => told.kind == OverrideKind::Fan && told.value
            == JsonView::Number(Number::Positive(percent as u64)),
        OverrideValue::Rgb(rgb) => told.kind == OverrideKind::Rgb && shows(
            Target::Rgb(rgb[0], rgb[1], rgb[2]),
            told.value,
        ),
        OverrideValue::Display(on) => told.kind == OverrideKind::Display && told.value
            == JsonView::Bool(on),
    }
}

/// The status lists an override of an output just where it has one that has not ended yet, with
/// its value and the time that is left.
pub proof fn law_status_lists_active_overrides(model: EngineModel, now: Nanos, name: Seq<char>)
    requires
        names::sorted(model.overrides),
    ensures
        (names::find(model.overrides, name) matches Some(active) && active.expires_at > now)
            ==> exists|i: int|
            0 <= i < status::status_of(model, now).overrides.len() && tells_override(
                #[trigger] status::status_of(model, now).overrides[i],
                name,
                names::find(model.overrides, name)->0,
                now,
            ),
        !(names::find(model.overrides, name) matches Some(active) && active.expires_at > now)
            ==> forall|i: int|
            0 <= i < status::status_of(model, now).overrides.len() ==> (
            #[trigger] status::status_of(model, now).overrides[i]).output != name,
{
    laws::law_overrides_expire(model, now, name);
    let kept = engine::expired(model, now).overrides;
    let told = status::status_of(model, now).overrides;
    if names::has(kept, name) {
        names::lemma_has(kept, name);
        let at = names::slot(kept, name) as int;
        assert(tells_override(told[at], name, kept[at].1, now));
    }
    assert forall|i: int| 0 <= i < told.len() && (#[trigger] told[i]).output == name implies
        names::has(kept, name) by {
        names::lemma_find_at(kept, i);
    }
}

/// The status tells its own version and that of the program, the active profile, how many times
/// the configuration was read, and for how many seconds the daemon has run.
pub proof fn law_status_tells_the_daemon(model: EngineModel, now: Nanos)
    requires
        model.started_at <= now,
        now <= u64::MAX,
    ensures
        ({
            let told = status::status_of(model, now);
            &&& told.schema_version == 3
            &&& told.version == "0.1.2"@
            &&& told.active_profile == model.active_profile
            &&& told.config_generation == model.generation
            &&& told.uptime_seconds * 1_000_000_000 <= now - model.started_at
            &&& now - model.started_at < (told.uptime_seconds + 1) * 1_000_000_000
        }),
{
}

// ---------------------------------------------------------------- commands

/// The output, the value, and the milliseconds of a command that sets an override.
pub open spec fn asks_override(
    command: Command,
    output: Seq<char>,
    value: OverrideValue,
    duration_ms: u64,
) -> bool {
    match command {
        Command::OverrideFan { output: named, percent, duration_ms: asked, .. } => named@ == output
            && value == OverrideValue::Fan(percent) && asked == duration_ms,
        Command::OverrideRgb { output: named, rgb, duration_ms: asked } => named@ == output
            && value == OverrideValue::Rgb(rgb) && asked == duration_ms,
        Command::OverrideDisplay { output: named, enabled, duration_ms: asked } => named@ == output
            && value == OverrideValue::Display(enabled) && asked == duration_ms,
        _ => false,
    }
}

/// A command that sets an override asks the hardware nothing. If it is answered with success, the
/// output has the value for as many milliseconds as the command gave, and nothing else changed;
/// if it is answered with an error, nothing changed.
pub proof fn law_override_command_sets_the_value<H: Hardware>(
    before: DaemonState<H>,
    after: DaemonState<H>,
    command: Command,
    now: Nanos,
    progress: ProgressView,
    output: Seq<char>,
    value: OverrideValue,
    duration_ms: u64,
    other: Seq<char>,
)
    requires
        daemon::handled(before, after, command, now, progress),
        asks_override(command, output, value, duration_ms),
        names::sorted(before.engine@.overrides),
        other != output,
    ensures
        after.engine.hardware == before.engine.hardware,
        progress matches ProgressView::Done(reply) && match reply {
            Ok(ReplyView::Data(JsonView::Object(fields))) => {
                let model = after.engine@;
                &&& names::find(model.overrides, output) == Some(
                    ActiveOverride {
                        value,
                        expires_at: (now + duration_ms * 1_000_000) as u128,
                    },
                )
                &&& names::find(model.overrides, other) == names::find(
                    before.engine@.overrides,
                    other,
                )
                &&& model == (EngineModel { overrides: model.overrides, ..before.engine@ })
                &&& fields[0] == ("output"@, JsonView::Text(output))
                &&& fields.last() == (
                    "expires_in_ms"@,
                    JsonView::Number(Number::Positive(duration_ms)),
                )
                &&& duration_ms > 0
                &&& names::has(before.engine@.config.outputs@, output)
            },
            Ok(_) => false,
            Err(_) => after.engine@ == before.engine@,
        },
{
    assert(duration_ms * 1_000_000 <= u128::MAX);
    let active = ActiveOverride { value, expires_at: (now + duration_ms * 1_000_000) as u128 };
    names::lemma_find_inserted(before.engine@.overrides, output, active, output);
    names::lemma_find_inserted(before.engine@.overrides, output, active, other);
}

/// Clearing the override of an output ends it and no other, and clearing all ends all. Clearing
/// what is not there is answered with an error and changes nothing.
pub proof fn law_clear_command_ends_overrides<H: Hardware>(
    before: DaemonState<H>,
    after: DaemonState<H>,
    output: Option<String>,
    now: Nanos,
    progress: ProgressView,
    other: Seq<char>,
)
    requires
        daemon::handled(before, after, Command::OverrideClear { output }, now, progress),
        names::sorted(before.engine@.overrides),
    ensures
        after.engine.hardware == before.engine.hardware,
        after.engine@ == (EngineModel { overrides: after.engine@.overrides, ..before.engine@ }),
        output is None ==> !names::has(after.engine@.overrides, other) && (
        progress matches ProgressView::Done(Ok(_))),
        output matches Some(name) ==> {
            &&& !names::has(after.engine@.overrides, name@)
            &&& other != name@ ==> names::find(after.engine@.overrides, other) == names::find(
                before.engine@.overrides,
                other,
            )
            &&& (progress matches ProgressView::Done(Ok(_))) <==> names::has(
                before.engine@.overrides,
                name@,
            )
        },
{
    if let Some(name) = output {
        names::lemma_find_removed(before.engine@.overrides, name@, name@);
        names::lemma_find_removed(before.engine@.overrides, name@, other);
    }
}

/// A profile that the configuration does not have is refused and changes nothing. Another profile
/// becomes active as soon as the devices that it leaves were given back, without overrides and
/// releases, and is saved where the command asks for that.
pub proof fn law_profile_command_activates<H: Hardware>(
    before: DaemonState<H>,
    after: DaemonState<H>,
    profile: String,
    persist: bool,
    now: Nanos,
    progress: ProgressView,
)
    requires
        daemon::handled(before, after, Command::ProfileSet { profile, persist }, now, progress),
    ensures
        !names::has(before.engine@.config.profiles@, profile@) ==> {
            &&& after.engine@ == before.engine@
            &&& after.engine.hardware == before.engine.hardware
            &&& progress matches ProgressView::Done(Err(_))
        },
        !(progress matches ProgressView::Done(Err(_))) ==> {
            let model = after.engine@;
            &&& model.active_profile == profile@
            &&& model.overrides.len() == 0
            &&& model.released.len() == 0
            &&& model.outputs.len() == 0
            &&& persist <==> progress == ProgressView::SaveProfile(profile@)
            &&& !persist ==> (progress matches ProgressView::Done(Ok(ReplyView::Data(
                JsonView::Object(fields),
            ))) && fields[0] == ("active_profile"@, JsonView::Text(profile@)) && fields[1] == (
                "persisted"@,
                JsonView::Bool(false),
            ))
        },
        !(progress is ReadConfiguration),
{
    let outcome = choose|outcome: Reply<()>| #[trigger]
        control::profile_step(before.engine, after.engine, outcome, profile@) && progress == (
        match outcome {
            Err(error) => ProgressView::Done(Err(error)),
            Ok(_) => if persist {
                ProgressView::SaveProfile(profile@)
            } else {
                ProgressView::Done(
                    Ok(
                        ReplyView::Data(
                            daemon::profile_changed(
                                profile@,
                                false,
                                crate::views::maybe(before.persisted_profile),
                            ),
                        ),
                    ),
                )
            },
        });
    assert(control::profile_step(before.engine, after.engine, outcome, profile@));
}

/// Whether an answer lists outputs under a name.
pub open spec fn lists_outputs(
    progress: ProgressView,
    name: Seq<char>,
    outputs: Seq<Seq<char>>,
) -> bool {
    progress matches ProgressView::Done(Ok(ReplyView::Data(JsonView::Object(fields)))) && {
        &&& fields.len() == 1
        &&& fields[0].0 == name
        &&& fields[0].1 matches JsonView::List(list) && {
            &&& list.len() == outputs.len()
            &&& forall|i: int|
                0 <= i < list.len() ==> #[trigger] list[i] == JsonView::Text(outputs[i])
        }
    }
}

/// A release and a resume are answered with the outputs that they affect: every output on the
/// device of the one that is named, or every output at all. One of an output that does not exist is
/// answered with an error and changes nothing.
pub proof fn law_affected_outputs_are_told<H: Hardware>(
    before: DaemonState<H>,
    after: DaemonState<H>,
    output: Option<String>,
    resume: bool,
    now: Nanos,
    progress: ProgressView,
)
    requires
        daemon::handled(
            before,
            after,
            if resume {
                Command::OutputResume { output }
            } else {
                Command::OutputRelease { output }
            },
            now,
            progress,
        ),
    ensures
        (output matches Some(name) && !names::has(before.engine@.config.outputs@, name@)) ==> (
        progress matches ProgressView::Done(Err(_))) && after.engine@ == before.engine@
            && after.engine.hardware == before.engine.hardware,
        (progress matches ProgressView::Done(Err(_))) || lists_outputs(
            progress,
            if resume {
                "resumed"@
            } else {
                "released"@
            },
            laws::affected_outputs(before.engine@, crate::views::maybe(output)),
        ),
        resume && !(output matches Some(name) && !names::has(
            before.engine@.config.outputs@,
            name@,
        )) ==> !(progress matches ProgressView::Done(Err(_))),
{
    let chosen = crate::views::maybe(output);
    if resume {
        let outcome = choose|outcome: Reply<Seq<Seq<char>>>| #[trigger]
            control::resume_command(before.engine, after.engine, outcome, chosen) && progress
                == ProgressView::Done(daemon::listed("resumed"@, outcome));
        assert(control::resume_command(before.engine, after.engine, outcome, chosen));
    } else {
        let outcome = choose|outcome: Reply<Seq<Seq<char>>>| #[trigger]
            control::release_command(before.engine, after.engine, outcome, chosen) && progress
                == ProgressView::Done(daemon::listed("released"@, outcome));
        assert(control::release_command(before.engine, after.engine, outcome, chosen));
    }
}

/// Status, profiles, and a reload leave the engine alone until the configuration was read.
pub proof fn law_questions_change_nothing<H: Hardware>(
    before: DaemonState<H>,
    after: DaemonState<H>,
    command: Command,
    now: Nanos,
    progress: ProgressView,
)
    requires
        daemon::handled(before, after, command, now, progress),
        command is Status || command is ProfileList || command is ConfigReload,
    ensures
        after.engine@ == before.engine@,
        after.engine.hardware == before.engine.hardware,
        command is ConfigReload <==> progress is ReadConfiguration,
        command is Status ==> (progress matches ProgressView::Done(Ok(ReplyView::Status(told)))
            && told == status::status_of(before.engine@, now)),
        command is ProfileList ==> (progress matches ProgressView::Done(Ok(ReplyView::Data(
            JsonView::Object(fields),
        ))) && {
            &&& fields.len() == 3
            &&& fields[0].0 == "profiles"@
            &&& fields[0].1 matches JsonView::List(list) && {
                &&& list.len() == before.engine@.config.profiles@.len()
                &&& forall|i: int|
                    0 <= i < list.len() ==> #[trigger] list[i] == JsonView::Text(
                        before.engine@.config.profiles@[i].0,
                    )
            }
            &&& fields[1] == ("active_profile"@, JsonView::Text(before.engine@.active_profile))
            &&& fields[2].0 == "persisted_profile"@
            &&& before.persisted_profile is None ==> fields[2].1 == JsonView::Null
            &&& before.persisted_profile matches Some(saved) ==> fields[2].1 == JsonView::Text(
                saved@,
            )
        }),
{
}

/// The devices are those that the hardware finds, or those found before where it finds none
/// because of an error.
pub proof fn law_devices_are_those_found<H: Hardware>(
    before: DaemonState<H>,
    after: DaemonState<H>,
    now: Nanos,
    progress: ProgressView,
    found: Reply<Seq<crate::types::DescriptorView>>,
)
    requires
        daemon::handled(before, after, Command::Devices, now, progress),
        after.engine.hardware.calls().last() == (Call::Discover { reply: found }),
    ensures
        after.engine.hardware.calls().len() == before.engine.hardware.calls().len() + 1,
        found matches Ok(devices) ==> progress == ProgressView::Done(
            Ok(ReplyView::Devices(devices)),
        ) && after.engine@.devices == devices,
        found is Err ==> after.engine@ == before.engine@,
        found is Err && before.engine@.devices.len() > 0 ==> progress == ProgressView::Done(
            Ok(ReplyView::Devices(before.engine@.devices)),
        ),
        found matches Err(error) ==> (before.engine@.devices.len() == 0 ==> progress
            == ProgressView::Done(Err(error))),
        after.engine@ == (EngineModel { devices: after.engine@.devices, ..before.engine@ }),
{
}

/// A dump is read from the device that the command names, and from no other.
pub proof fn law_dump_is_of_the_named_device<H: Hardware>(
    before: DaemonState<H>,
    after: DaemonState<H>,
    device: String,
    now: Nanos,
    progress: ProgressView,
)
    requires
        daemon::handled(before, after, Command::DebugHidDump { device }, now, progress),
    ensures
        after.engine@ == before.engine@,
        !names::has(before.engine@.config.devices@, device@) ==> after.engine.hardware
            == before.engine.hardware && (progress matches ProgressView::Done(Err(_))),
        names::has(before.engine@.config.devices@, device@) ==> {
            &&& after.engine.hardware.calls().len() == before.engine.hardware.calls().len() + 1
            &&& after.engine.hardware.calls().last() matches Call::Dump { device: asked, reply } && {
                &&& asked == device@
                &&& reply matches Ok(dump) ==> (progress matches ProgressView::Done(Ok(
                    ReplyView::Data(JsonView::Object(fields)),
                )) && fields[0] == ("device"@, JsonView::Text(device@)) && fields[1] == (
                    "dump"@,
                    JsonView::Text(dump),
                ))
                &&& reply matches Err(error) ==> progress == ProgressView::Done(Err(error))
            }
        },
{
}

proof fn lemma_release_states<H: Hardware>(
    states: Seq<Engine<H>>,
    devices: Seq<Seq<char>>,
    at: int,
)
    requires
        0 <= at < states.len(),
        forall|i: int|
            0 <= i < states.len() - 1 ==> control::release_step(
                #[trigger] states[i],
                states[i + 1],
                Ok::<(), ErrorView>(()),
                devices[i],
            ),
    ensures
        states[at]@.config == states[0]@.config,
        states[at]@.active_profile == states[0]@.active_profile,
        states[at]@.generation == states[0]@.generation,
    decreases at,
{
    if at > 0 {
        lemma_release_states(states, devices, at - 1);
        assert(control::release_step(
            states[at - 1],
            states[at],
            Ok::<(), ErrorView>(()),
            devices[at - 1],
        ));
    }
}

proof fn lemma_release_keeps_settings<H: Hardware>(
    before: Engine<H>,
    after: Engine<H>,
    result: Reply<()>,
    devices: Seq<Seq<char>>,
)
    requires
        control::released_all(before, after, result, devices),
    ensures
        after@.config == before@.config,
        after@.active_profile == before@.active_profile,
        after@.generation == before@.generation,
{
    let states = choose|states: Seq<Engine<H>>| #[trigger]
        control::release_run(before, after, result, devices, states);
    lemma_release_states(states, devices, states.len() - 1);
}

/// A reload that succeeds makes the new configuration active and tells the hardware so: the active
/// profile stays if there still is one of that name, and is the default otherwise; readings,
/// overrides, and releases are forgotten. A reload that fails keeps the configuration and the
/// profile.
pub proof fn law_reload_takes_the_configuration_over<H: Hardware>(
    before: Engine<H>,
    after: Engine<H>,
    result: Reply<()>,
    candidate: Config,
)
    requires
        control::reload_step(before, after, result, candidate),
    ensures
        result is Ok ==> {
            &&& after@.config == candidate
            &&& after.hardware.calls().last() == (Call::Commit { config: candidate })
            &&& names::has(candidate.profiles@, before@.active_profile) ==> after@.active_profile
                == before@.active_profile
            &&& !names::has(candidate.profiles@, before@.active_profile) ==> after@.active_profile
                == candidate.default_profile@
            &&& before@.generation < u64::MAX ==> after@.generation == before@.generation + 1
            &&& after@.overrides.len() == 0
            &&& after@.released.len() == 0
            &&& after@.readings.len() == 0
            &&& after@.outputs.len() == 0
            &&& after@.last_sensor_poll is None
        },
        result is Err ==> {
            &&& after@.config == before@.config
            &&& after@.active_profile == before@.active_profile
            &&& after@.generation == before@.generation
        },
{
    let (checked, freed, outcome) = choose|
        checked: Engine<H>,
        freed: Engine<H>,
        outcome: Reply<()>,
    | #[trigger]
        control::reload_run(before, checked, freed, after, outcome, result, candidate);
    if let Call::Preflight { reply: Ok(_), .. } = checked.hardware.calls().last() {
        lemma_release_keeps_settings(
            checked,
            freed,
            outcome,
            names::names(control::controlled_devices(before@)),
        );
    }
}

// ---------------------------------------------------------------- the protocol

/// An error is told by the kind of its cause: a configuration that is wrong, hardware that
/// failed, a message that was not understood, something that does not exist, and anything else. Its
/// words are left as they are.
pub proof fn law_errors_are_told_by_their_cause(message: Seq<char>)
    ensures
        ipc::reported(ErrorView::Config(message)) == (ErrorCode::InvalidConfig, message),
        ipc::reported(ErrorView::Driver(message)) == (ErrorCode::HardwareFailure, message),
        ipc::reported(ErrorView::Protocol(message)) == (ErrorCode::InvalidRequest, message),
        ipc::reported(ErrorView::Io(message)) == (ErrorCode::Internal, message),
        ipc::reported(ErrorView::Json(message)) == (ErrorCode::Internal, message),
        ipc::reported(ErrorView::Daemon(message)).1 == message,
        ipc::reported(ErrorView::Daemon("unknown"@ + message)).0 == ErrorCode::UnknownResource,
        ipc::reported(ErrorView::Daemon("override duration "@ + message)).0
            == ErrorCode::InvalidRequest,
        ipc::reported(ErrorView::Daemon("fan override "@ + message)).0 == ErrorCode::InvalidRequest,
        !text::has_prefix(message, "unknown"@) && !text::has_prefix(message, "override duration "@)
            && !text::has_prefix(message, "fan override "@) && !text::has_prefix(
            message,
            "output '"@,
        ) ==> ipc::reported(ErrorView::Daemon(message)).0 == ErrorCode::Internal,
{
    reveal_strlit("unknown");
    reveal_strlit("override duration ");
    reveal_strlit("fan override ");
    assert(("unknown"@ + message).take("unknown"@.len() as int) =~= "unknown"@);
    assert(("override duration "@ + message).take("override duration "@.len() as int)
        =~= "override duration "@);
    assert(("fan override "@ + message).take("fan override "@.len() as int) =~= "fan override "@);
    assert(("override duration "@ + message)[0] == 'o');
    assert(("fan override "@ + message)[0] == 'f');
    assert("unknown"@[0] == 'u');
}

/// A client takes the data of a response only if the response is for its request, is of its
/// protocol, and tells success; it reports an error otherwise.
pub proof fn law_only_the_answer_is_taken(response: ResponseView, request_id: Seq<char>)
    ensures
        ipc::answer_to(response, request_id) is Ok <==> {
            &&& response.request_id == request_id
            &&& response.protocol_version == 3
            &&& response.ok
            &&& response.data is Some
        },
        ipc::answer_to(response, request_id) matches Ok(data) ==> response.data == Some(data),
{
}

/// A response carries the outcome of its request and is marked with the request.
pub proof fn law_response_carries_the_outcome(request_id: Seq<char>, outcome: Reply<JsonView>)
    ensures
        ({
            let response = ipc::response_to(request_id, outcome);
            &&& response.protocol_version == 3
            &&& response.request_id == request_id
            &&& response.ok <==> outcome is Ok
            &&& outcome matches Ok(data) ==> response.data == Some(data) && response.error is None
            &&& outcome is Err ==> response.data is None && response.error is Some
        }),
{
}

/// A client is refused exactly where it uses another protocol than the daemon.
pub proof fn law_other_protocols_are_refused(version: u32, request_id: Seq<char>)
    ensures
        ipc::version_refusal(version, request_id) is None <==> version == 3,
        ipc::version_refusal(version, request_id) matches Some(response) ==> {
            &&& !response.ok
            &&& response.request_id == request_id
            &&& response.error matches Some(error) && error.0 == ErrorCode::IncompatibleProtocol
        },
{
}

// ---------------------------------------------------------------- the saved profile

/// A profile is taken from the state file only if the file is of the known version and not larger
/// than 64 KiB, and names one; a missing file has none; anything else is an error.
pub proof fn law_saved_profile_is_checked(
    path: Seq<char>,
    found: daemon::StateFileView,
    profile: Seq<char>,
)
    ensures
        daemon::loaded(path, found) == Ok::<Option<Seq<char>>, ErrorView>(Some(profile)) <==> (
        found matches daemon::StateFileView::Read { bytes, contents } && bytes <= 65_536 && contents
            == Ok::<(u32, Seq<char>), Seq<char>>((1u32, profile)) && profile.len() > 0),
        daemon::loaded(path, found) == Ok::<Option<Seq<char>>, ErrorView>(None) <==> found
            == daemon::StateFileView::Absent,
{
}

/// The daemon starts with the saved profile if the configuration has it, and with no choice of
/// its own otherwise.
pub proof fn law_saved_profile_is_chosen(config: Config, saved: Option<Seq<char>>)
    ensures
        daemon::startup_choice(config, saved) matches Some(profile) ==> saved == Some(profile)
            && names::has(config.profiles@, profile),
        (saved matches Some(profile) && names::has(config.profiles@, profile))
            ==> daemon::startup_choice(config, saved) == saved,
{
}

/// The daemon takes a path for its socket only if nothing is there or a socket that nothing
/// answers, and removes only the latter.
pub proof fn law_only_stale_sockets_are_replaced(path: Seq<char>, found: daemon::SocketPath)
    ensures
        daemon::socket_verdict(path, found) is Ok <==> found is Absent || found is Stale,
        daemon::socket_verdict(path, found) matches Ok(remove) ==> (remove <==> found is Stale),
{
}

/// The daemon ends without an error just where the worker, the shutdown, and the wait for the
/// worker all did.
pub proof fn law_failures_end_in_an_error(
    worker: Option<Reply<()>>,
    shutdown: Reply<()>,
    joined: Reply<()>,
)
    ensures
        daemon::exit_of(worker, shutdown, joined) is Ok <==> {
            &&& !(worker matches Some(Err(_)))
            &&& shutdown is Ok
            &&& joined is Ok
        },
        worker matches Some(Err(error)) ==> daemon::exit_of(worker, shutdown, joined) == Err::<
            (),
            ErrorView,
        >(worker->0->Err_0),
{
}

} // verus!
