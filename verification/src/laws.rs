//! What the policy engine keeps true in every state, and what its decisions promise.

use vstd::prelude::*;

use crate::celsius::Celsius;
use crate::config::AssignmentConfig;
use crate::config::ColorPoint;
use crate::config::Config;
use crate::config::FanPoint;
use crate::config::Nanos;
use crate::config::OutputConfig;
use crate::control;
use crate::control::Names;
use crate::drivers::Call;
use crate::drivers::DisplayTarget;
use crate::drivers::Hardware;
use crate::drivers::Reply;
use crate::engine;
use crate::engine::Engine;
use crate::error::ErrorView;
use crate::guarantees;
use crate::names;
use crate::policy;
use crate::policy::ActiveOverride;
use crate::policy::Blended;
use crate::policy::Blends;
use crate::policy::DecisionView;
use crate::policy::EngineModel;
use crate::policy::OverrideValue;
use crate::policy::RuntimeView;
use crate::policy::Target;
use crate::status;
use crate::text;
use crate::types::DescriptorView;
use crate::types::Health;
use crate::validation;

verus! {

// ---------------------------------------------------------------- decisions

/// A fan without a fresh reading of every source runs at its fail-safe duty.
pub proof fn law_fan_fails_safe(
    model: EngineModel,
    name: Seq<char>,
    assignment: AssignmentConfig,
    now: Nanos,
    hour: u32,
    minute: u32,
    blended: Blended,
    source: int,
)
    requires
        names::find(model.config.outputs@, name) matches Some(output) && output is Fan,
        !names::has(model.released, name),
        names::find(model.overrides, name) is None,
        0 <= source < assignment.sources@.len(),
        policy::fresh(
            model.readings,
            model.config.daemon.stale_after,
            assignment.sources@[source]@,
            now,
        ) is None,
    ensures
        policy::decided(model, name, assignment, now, hour, minute, blended) == (DecisionView::Fan {
            percent: names::find(model.config.outputs@, name)->0->fail_safe_percent,
            health: Health::FailSafe,
        }),
{
}

/// Lights without a fresh reading of every source are off.
pub proof fn law_lights_fail_safe(
    model: EngineModel,
    name: Seq<char>,
    assignment: AssignmentConfig,
    now: Nanos,
    hour: u32,
    minute: u32,
    blended: Blended,
    source: int,
)
    requires
        names::find(model.config.outputs@, name) matches Some(output) && output is Rgb,
        !names::has(model.released, name),
        names::find(model.overrides, name) is None,
        0 <= source < assignment.sources@.len(),
        policy::fresh(
            model.readings,
            model.config.daemon.stale_after,
            assignment.sources@[source]@,
            now,
        ) is None,
    ensures
        policy::decided(model, name, assignment, now, hour, minute, blended) == (DecisionView::Rgb {
            rgb: [0u8, 0u8, 0u8],
            health: Health::FailSafe,
        }),
{
}

/// While its off schedule is active, an RGB output is off and a display is asleep, unless it is
/// released or has an override.
pub proof fn law_off_schedule(
    model: EngineModel,
    name: Seq<char>,
    assignment: AssignmentConfig,
    now: Nanos,
    hour: u32,
    minute: u32,
    blended: Blended,
)
    requires
        names::find(model.config.outputs@, name) is Some,
        !names::has(model.released, name),
        names::find(model.overrides, name) is None,
        policy::scheduled_off(model.config, assignment, hour, minute),
    ensures
        match policy::decided(model, name, assignment, now, hour, minute, blended) {
            DecisionView::Rgb { rgb, .. } => rgb == [0u8, 0u8, 0u8],
            DecisionView::Display { target } => target is Sleep,
            _ => true,
        },
{
}

/// A fan follows its policy at no less than its minimum, unless it stays at an earlier target
/// that is below the minimum and nearer than the hysteresis.
pub proof fn law_fan_minimum(
    model: EngineModel,
    name: Seq<char>,
    assignment: AssignmentConfig,
    now: Nanos,
    hour: u32,
    minute: u32,
    blended: Blended,
)
    requires
        validation::valid(model.config),
        names::find(model.config.outputs@, name) matches Some(output) && output is Fan,
        !names::has(model.released, name),
        names::find(model.overrides, name) is None,
        names::find(model.outputs, name) matches Some(runtime) ==> (runtime.last_target matches Some(
            Target::Percent(previous),
        ) ==> previous >= names::find(model.config.outputs@, name)->0->minimum_percent),
    ensures
        policy::decided(model, name, assignment, now, hour, minute, blended) matches DecisionView::Fan {
            percent,
            ..
        } ==> percent >= names::find(model.config.outputs@, name)->0->minimum_percent,
{
    let at = names::slot(model.config.outputs@, name) as int;
    guarantees::law_output_devices(model.config, at);
}

/// A fan target follows its curve only where it changes by the hysteresis or more.
pub proof fn law_small_changes_are_ignored(runtime: RuntimeView, target: u8, hysteresis: u8)
    requires
        runtime.last_target is Some,
        runtime.last_target->0 is Percent,
    ensures
        ({
            let previous = runtime.last_target->0->Percent_0;
            let next = policy::steadied(Some(runtime), target, hysteresis);
            &&& next == previous || next == target
            &&& next != previous ==> policy::apart(previous, next) >= hysteresis
            &&& policy::apart(previous, target) >= hysteresis ==> next == target
        }),
{
}

/// An override takes the place of the policy, and a release that of both.
pub proof fn law_precedence(
    model: EngineModel,
    name: Seq<char>,
    assignment: AssignmentConfig,
    now: Nanos,
    hour: u32,
    minute: u32,
    blended: Blended,
)
    requires
        names::find(model.config.outputs@, name) is Some,
    ensures
        names::has(model.released, name) ==> policy::decided(
            model,
            name,
            assignment,
            now,
            hour,
            minute,
            blended,
        ) is Released,
        !names::has(model.released, name) ==> (names::find(model.overrides, name) matches Some(
            active,
        ) ==> policy::decided(model, name, assignment, now, hour, minute, blended)
            == policy::overridden(
            name,
            names::find(model.config.outputs@, name)->0,
            active.value,
        )),
{
}

// ---------------------------------------------------------------- overrides

proof fn lemma_unexpired(
    overrides: names::Entries<ActiveOverride>,
    now: Nanos,
    count: int,
    name: Seq<char>,
)
    requires
        names::sorted(overrides),
        0 <= count <= overrides.len(),
    ensures
        names::sorted(engine::unexpired(overrides, now, count)),
        forall|j: int, k: int|
            0 <= j < engine::unexpired(overrides, now, count).len() && count <= k < overrides.len()
                ==> text::before(
                #[trigger] engine::unexpired(overrides, now, count)[j].0,
                #[trigger] overrides[k].0,
            ),
        names::find(engine::unexpired(overrides, now, count), name) == still_active(
            names::find(overrides.take(count), name),
            now,
        ),
    decreases count,
{
    if count > 0 {
        lemma_unexpired(overrides, now, count - 1, name);
        let earlier = engine::unexpired(overrides, now, count - 1);
        let (latest, active) = overrides[count - 1];
        names::lemma_append_last(overrides, count - 1);
        lemma_prefix_sorted(overrides, count - 1);
        names::lemma_find_inserted(overrides.take(count - 1), latest, active, name);
        if active.expires_at > now {
            assert(forall|j: int|
                0 <= j < earlier.len() ==> text::before(#[trigger] earlier[j].0, latest));
            names::lemma_insert_last(earlier, latest, active);
            names::lemma_inserted_sorted(earlier, latest, active);
            names::lemma_find_inserted(earlier, latest, active, name);
        } else if name == latest {
            lemma_absent(earlier, name);
        }
    } else {
        assert(overrides.take(0) =~= Seq::empty());
    }
}

proof fn lemma_prefix_sorted<V>(entries: names::Entries<V>, count: int)
    requires
        names::sorted(entries),
        0 <= count <= entries.len(),
    ensures
        names::sorted(entries.take(count)),
{
    let shorter = entries.take(count);
    assert forall|i: int, j: int| 0 <= i < j < shorter.len() implies text::before(
        #[trigger] shorter[i].0,
        #[trigger] shorter[j].0,
    ) by {
        assert(text::before(entries[i].0, entries[j].0));
    }
}

proof fn lemma_absent<V>(entries: names::Entries<V>, name: Seq<char>)
    requires
        names::sorted(entries),
        forall|j: int| 0 <= j < entries.len() ==> text::before(#[trigger] entries[j].0, name),
    ensures
        names::find(entries, name) is None,
{
    names::lemma_has(entries, name);
    if names::has(entries, name) {
        let i = choose|i: int| 0 <= i < entries.len() && #[trigger] entries[i].0 == name;
        text::lemma_before_irreflexive(name);
    }
}

/// An override, unless it has ended.
pub open spec fn still_active(active: Option<ActiveOverride>, now: Nanos) -> Option<
    ActiveOverride,
> {
    match active {
        Some(active) => if active.expires_at > now {
            Some(active)
        } else {
            None
        },
        None => None,
    }
}

/// Overrides end by themselves: an evaluation keeps exactly those whose time has not come, as
/// they were.
pub proof fn law_overrides_expire(model: EngineModel, now: Nanos, name: Seq<char>)
    requires
        names::sorted(model.overrides),
    ensures
        names::sorted(engine::expired(model, now).overrides),
        names::find(engine::expired(model, now).overrides, name) == still_active(
            names::find(model.overrides, name),
            now,
        ),
{
    lemma_unexpired(model.overrides, now, model.overrides.len() as int, name);
    assert(model.overrides.take(model.overrides.len() as int) =~= model.overrides);
}

/// A fan override below the minimum of its output is refused unless it is confirmed.
pub proof fn law_low_override_needs_confirmation(
    model: EngineModel,
    output: Seq<char>,
    percent: u8,
    ttl: Nanos,
    now: Nanos,
)
    requires
        names::find(model.config.outputs@, output) matches Some(OutputConfig::Fan {
            minimum_percent,
            ..
        }) && percent < minimum_percent,
    ensures
        control::fan_override_refused(model, output, percent, ttl, false, now) is Some,
{
}

/// Every override that is accepted ends later than it starts, and a fan override that is
/// accepted asks for at most 100 percent of an output that the active profile controls.
pub proof fn law_accepted_override(
    model: EngineModel,
    output: Seq<char>,
    percent: u8,
    ttl: Nanos,
    allow_below_minimum: bool,
    now: Nanos,
)
    requires
        names::sorted(model.overrides),
        control::fan_override_refused(
            model,
            output,
            percent,
            ttl,
            allow_below_minimum,
            now,
        ) is None,
    ensures
        percent <= 100,
        control::controlled(model, output),
        names::find(
            control::with_override(
                model,
                output,
                OverrideValue::Fan(percent),
                ttl,
                now,
            ).overrides,
            output,
        ) matches Some(active) && active.value == OverrideValue::Fan(percent) && active.expires_at
            == now + ttl && active.expires_at > now,
{
    names::lemma_find_inserted(
        model.overrides,
        output,
        ActiveOverride { value: OverrideValue::Fan(percent), expires_at: (now + ttl) as u128 },
        output,
    );
}

// ---------------------------------------------------------------- every state

/// Whether fan overrides ask for at most 100 percent.
pub open spec fn overrides_bounded(overrides: names::Entries<ActiveOverride>) -> bool {
    forall|name: Seq<char>|
        #![trigger names::find(overrides, name)]
        names::find(overrides, name) matches Some(active) ==> (active.value matches OverrideValue::Fan(
            percent,
        ) ==> percent <= 100)
}

/// Whether fan targets are at most 100 percent.
pub open spec fn targets_bounded(outputs: names::Entries<RuntimeView>) -> bool {
    forall|name: Seq<char>|
        #![trigger names::find(outputs, name)]
        names::find(outputs, name) matches Some(runtime) ==> (runtime.last_target matches Some(
            Target::Percent(percent),
        ) ==> percent <= 100)
}

proof fn lemma_override_at(overrides: names::Entries<ActiveOverride>, name: Seq<char>)
    requires
        overrides_bounded(overrides),
    ensures
        names::find(overrides, name) matches Some(active) ==> (active.value matches OverrideValue::Fan(
            percent,
        ) ==> percent <= 100),
{
}

proof fn lemma_target_at(outputs: names::Entries<RuntimeView>, name: Seq<char>)
    requires
        targets_bounded(outputs),
    ensures
        names::find(outputs, name) matches Some(runtime) ==> (runtime.last_target matches Some(
            Target::Percent(percent),
        ) ==> percent <= 100),
{
}

/// What holds of the engine in every state.
pub open spec fn sound(model: EngineModel) -> bool {
    &&& validation::valid(model.config)
    &&& names::has(model.config.profiles@, model.active_profile)
    &&& names::sorted(model.outputs)
    &&& names::sorted(model.overrides)
    &&& names::sorted(model.released)
    &&& overrides_bounded(model.overrides)
    &&& targets_bounded(model.outputs)
}

/// Whether a decision asks for at most 100 percent.
pub open spec fn in_range(decision: DecisionView) -> bool {
    match decision {
        DecisionView::Fan { percent, .. } => percent <= 100,
        DecisionView::Display { target: DisplayTarget::Awake { brightness_percent } } => {
            brightness_percent <= 100
        },
        _ => true,
    }
}

/// A new engine is sound where its configuration is valid.
pub proof fn law_new_engine_is_sound(
    config: Config,
    profile: Seq<char>,
    devices: Seq<DescriptorView>,
    now: Nanos,
)
    requires
        validation::valid(config),
        names::has(config.profiles@, profile),
    ensures
        sound(engine::new_model(config, profile, devices, now)),
{
}

/// Every decision of a sound engine asks for at most 100 percent, of a fan or of the brightness
/// of a display.
pub proof fn law_decisions_in_range(
    model: EngineModel,
    name: Seq<char>,
    assignment: AssignmentConfig,
    now: Nanos,
    hour: u32,
    minute: u32,
    blended: Blended,
)
    requires
        sound(model),
    ensures
        in_range(policy::decided(model, name, assignment, now, hour, minute, blended)),
{
    if names::has(model.config.outputs@, name) {
        guarantees::law_output_devices(
            model.config,
            names::slot(model.config.outputs@, name) as int,
        );
    }
    lemma_override_at(model.overrides, name);
    lemma_target_at(model.outputs, name);
}

proof fn lemma_with_runtime(model: EngineModel, name: Seq<char>, runtime: RuntimeView)
    requires
        sound(model),
        runtime.last_target matches Some(Target::Percent(percent)) ==> percent <= 100,
    ensures
        sound(engine::with_runtime(model, name, runtime)),
{
    let after = engine::with_runtime(model, name, runtime);
    names::lemma_inserted_sorted(model.outputs, name, runtime);
    assert forall|other: Seq<char>|
        #![trigger names::find(after.outputs, other)]
        names::find(after.outputs, other) matches Some(known) ==> (known.last_target matches Some(
            Target::Percent(percent),
        ) ==> percent <= 100) by {
        names::lemma_find_inserted(model.outputs, name, runtime, other);
        lemma_target_at(model.outputs, other);
    }
}

/// Whether calls are those before and more, in which every fan duty is at most 100 percent.
pub open spec fn calls_bounded(before: Seq<Call>, after: Seq<Call>) -> bool {
    &&& before.len() <= after.len()
    &&& after.take(before.len() as int) == before
    &&& forall|i: int|
        before.len() <= i < after.len() ==> ((#[trigger] after[i]) matches Call::SetFan {
            percent,
            ..
        } ==> percent <= 100)
}

proof fn lemma_calls_chain(first: Seq<Call>, second: Seq<Call>, third: Seq<Call>)
    requires
        calls_bounded(first, second),
        calls_bounded(second, third),
    ensures
        calls_bounded(first, third),
{
    assert(third.take(first.len() as int) =~= third.take(second.len() as int).take(
        first.len() as int,
    ));
    assert forall|i: int| first.len() <= i < third.len() implies ((
    #[trigger] third[i]) matches Call::SetFan { percent, .. } ==> percent <= 100) by {
        if i < second.len() {
            assert(third.take(second.len() as int)[i] == second[i]);
        }
    }
}

proof fn lemma_calls_same(calls: Seq<Call>)
    ensures
        calls_bounded(calls, calls),
{
    assert(calls.take(calls.len() as int) =~= calls);
}

proof fn lemma_calls_push(calls: Seq<Call>, call: Call)
    requires
        call matches Call::SetFan { percent, .. } ==> percent <= 100,
    ensures
        calls_bounded(calls, calls.push(call)),
{
    assert(calls.push(call).take(calls.len() as int) =~= calls);
}

/// The evaluation of an output keeps a sound engine sound, and writes fan duties of at most 100
/// percent.
pub proof fn law_evaluation_keeps_soundness<H: Hardware, F, G>(
    before: Engine<H>,
    after: Engine<H>,
    name: Seq<char>,
    assignment: AssignmentConfig,
    now: Nanos,
    hour: u32,
    minute: u32,
    blends: Blends<F, G>,
) where
    F: Fn(FanPoint, FanPoint, Celsius) -> u8,
    G: Fn(ColorPoint, ColorPoint, Celsius) -> [u8; 3],

    requires
        sound(before@),
        engine::evaluated(before, after, name, assignment, now, hour, minute, blends),
    ensures
        sound(after@),
        calls_bounded(before.hardware.calls(), after.hardware.calls()),
        after@.config == before@.config,
{
    let (middle, result, blended) = choose|
        middle: Engine<H>,
        result: Reply<()>,
        blended: Blended,
    | #[trigger]
        engine::evaluation(
            before,
            middle,
            after,
            result,
            blended,
            name,
            assignment,
            now,
            hour,
            minute,
            blends,
        );
    let decision = policy::decided(before@, name, assignment, now, hour, minute, blended);
    law_decisions_in_range(before@, name, assignment, now, hour, minute, blended);
    lemma_decision(before, middle, result, name, decision, now);
    if let Err(failure) = result {
        let runtime = engine::runtime_of(middle@, name);
        lemma_target_at(middle@.outputs, name);
        lemma_with_runtime(
            middle@,
            name,
            RuntimeView {
                health: Some(Health::Degraded),
                error: Some(crate::error::described(failure)),
                consecutive_failures: if runtime.consecutive_failures < u32::MAX {
                    (runtime.consecutive_failures + 1) as u32
                } else {
                    u32::MAX
                },
                ..runtime
            },
        );
    }
}

proof fn lemma_decision<H: Hardware>(
    before: Engine<H>,
    after: Engine<H>,
    result: Reply<()>,
    name: Seq<char>,
    decision: DecisionView,
    now: Nanos,
)
    requires
        sound(before@),
        engine::decision_step(before, after, result, name, decision, now),
        in_range(decision),
    ensures
        sound(after@),
        calls_bounded(before.hardware.calls(), after.hardware.calls()),
        after@.config == before@.config,
{
    let calls = before.hardware.calls();
    lemma_calls_same(calls);
    let runtime = engine::runtime_of(before@, name);
    lemma_target_at(before@.outputs, name);
    if after.hardware.calls() != calls {
        lemma_calls_push(calls, after.hardware.calls().last());
    }
    match decision {
        DecisionView::Fail(_) => {},
        DecisionView::Released => {
            lemma_with_runtime(
                before@,
                name,
                RuntimeView {
                    health: Some(Health::Released),
                    error: None,
                    consecutive_failures: 0,
                    ..runtime
                },
            );
        },
        DecisionView::Fan { percent, health } => {
            lemma_with_runtime(
                before@,
                name,
                RuntimeView {
                    health: Some(engine::fan_health_of(health, runtime.error is Some)),
                    consecutive_failures: 0,
                    ..runtime
                },
            );
            if let Call::SetFan { reply: Ok(write), .. } = after.hardware.calls().last() {
                lemma_with_runtime(
                    before@,
                    name,
                    RuntimeView {
                        last_target: Some(Target::Percent(percent)),
                        last_write: Some(now),
                        observed: Some(write.observed),
                        health: Some(engine::fan_health_of(health, write.warning is Some)),
                        error: write.warning,
                        consecutive_failures: 0,
                    },
                );
            }
        },
        DecisionView::Rgb { rgb, health } => {
            lemma_with_runtime(
                before@,
                name,
                RuntimeView {
                    health: Some(health),
                    error: None,
                    consecutive_failures: 0,
                    ..runtime
                },
            );
            if let Call::SetRgb { reply: Ok(observed), .. } = after.hardware.calls().last() {
                lemma_with_runtime(
                    before@,
                    name,
                    RuntimeView {
                        last_target: Some(policy::rgb_target(rgb)),
                        last_write: Some(now),
                        observed: Some(observed),
                        health: Some(health),
                        error: None,
                        consecutive_failures: 0,
                    },
                );
            }
        },
        DecisionView::Display { target } => {
            lemma_with_runtime(
                before@,
                name,
                RuntimeView {
                    health: Some(Health::Healthy),
                    error: None,
                    consecutive_failures: 0,
                    ..runtime
                },
            );
            if let Call::SetDisplay { reply: Ok(observed), .. } = after.hardware.calls().last() {
                lemma_with_runtime(
                    before@,
                    name,
                    RuntimeView {
                        last_target: Some(policy::display_target(target)),
                        last_write: Some(now),
                        observed: Some(observed),
                        health: Some(Health::Healthy),
                        error: None,
                        consecutive_failures: 0,
                    },
                );
            }
        },
    }
}

proof fn lemma_polled(model: EngineModel, calls: Seq<Call>, count: int, now: Nanos)
    requires
        sound(model),
    ensures
        sound(engine::polled(model, calls, count, now)),
        engine::polled(model, calls, count, now).config == model.config,
    decreases count,
{
    if count > 0 {
        lemma_polled(model, calls, count - 1, now);
    }
}

proof fn lemma_expired(model: EngineModel, now: Nanos)
    requires
        sound(model),
    ensures
        sound(engine::expired(model, now)),
{
    let after = engine::expired(model, now);
    law_overrides_expire(model, now, Seq::empty());
    assert forall|name: Seq<char>|
        #![trigger names::find(after.overrides, name)]
        names::find(after.overrides, name) matches Some(active) ==> (
        active.value matches OverrideValue::Fan(percent) ==> percent <= 100) by {
        law_overrides_expire(model, now, name);
        lemma_override_at(model.overrides, name);
    }
}

proof fn lemma_prepared<H: Hardware>(before: Engine<H>, after: Engine<H>, now: Nanos)
    requires
        sound(before@),
        engine::prepared(before, after, now),
    ensures
        sound(after@),
        calls_bounded(before.hardware.calls(), after.hardware.calls()),
        after@.config == before@.config,
{
    lemma_expired(before@, now);
    lemma_calls_same(before.hardware.calls());
    if engine::poll_due(before@, now) {
        let (ready, read) = choose|ready: Engine<H>, read: Engine<H>|
            {
                &&& engine::became(before, ready, engine::expired(before@, now))
                &&& #[trigger] engine::poll_step(ready, read, now)
                &&& after.hardware == read.hardware
                &&& after@ == (EngineModel { last_sensor_poll: Some(now), ..read@ })
            };
        let start = ready.hardware.calls().len() as int;
        let count = ready@.config.sensors@.len() as int;
        let calls = read.hardware.calls().skip(start);
        lemma_polled(ready@, calls, count, now);
        assert forall|i: int| start <= i < read.hardware.calls().len() implies ((
        #[trigger] read.hardware.calls()[i]) matches Call::SetFan { percent, .. } ==> percent
            <= 100) by {
            assert(calls[i - start] == read.hardware.calls()[i]);
            assert(engine::reads_sensor(ready@.config, i - start, calls[i - start]));
        }
    }
}

proof fn lemma_states<H: Hardware, F, G>(
    states: Seq<Engine<H>>,
    assignments: names::Entries<AssignmentConfig>,
    at: int,
    now: Nanos,
    hour: u32,
    minute: u32,
    blends: Blends<F, G>,
) where
    F: Fn(FanPoint, FanPoint, Celsius) -> u8,
    G: Fn(ColorPoint, ColorPoint, Celsius) -> [u8; 3],

    requires
        states.len() == assignments.len() + 1,
        0 <= at < states.len(),
        sound(states[0]@),
        forall|i: int|
            0 <= i < assignments.len() ==> engine::evaluated(
                #[trigger] states[i],
                states[i + 1],
                assignments[i].0,
                assignments[i].1,
                now,
                hour,
                minute,
                blends,
            ),
    ensures
        sound(states[at]@),
        calls_bounded(states[0].hardware.calls(), states[at].hardware.calls()),
        states[at]@.config == states[0]@.config,
    decreases at,
{
    if at > 0 {
        lemma_states(states, assignments, at - 1, now, hour, minute, blends);
        law_evaluation_keeps_soundness(
            states[at - 1],
            states[at],
            assignments[at - 1].0,
            assignments[at - 1].1,
            now,
            hour,
            minute,
            blends,
        );
        lemma_calls_chain(
            states[0].hardware.calls(),
            states[at - 1].hardware.calls(),
            states[at].hardware.calls(),
        );
    } else {
        lemma_calls_same(states[0].hardware.calls());
    }
}

/// An evaluation of the whole policy keeps a sound engine sound, and writes fan duties of at
/// most 100 percent.
pub proof fn law_tick_keeps_soundness<H: Hardware, F, G>(
    before: Engine<H>,
    after: Engine<H>,
    stop: bool,
    states: Seq<Engine<H>>,
    now: Nanos,
    hour: u32,
    minute: u32,
    blends: Blends<F, G>,
) where
    F: Fn(FanPoint, FanPoint, Celsius) -> u8,
    G: Fn(ColorPoint, ColorPoint, Celsius) -> [u8; 3],

    requires
        sound(before@),
        engine::tick_run(before, after, stop, states, now, hour, minute, blends),
    ensures
        sound(after@),
        calls_bounded(before.hardware.calls(), after.hardware.calls()),
        after@.config == before@.config,
{
    lemma_prepared(before, states[0], now);
    if let Some(assignments) = engine::active_assignments(states[0]@) {
        lemma_states(states, assignments, states.len() - 1, now, hour, minute, blends);
        lemma_calls_chain(
            before.hardware.calls(),
            states[0].hardware.calls(),
            after.hardware.calls(),
        );
    }
}

/// A sound engine never loses its active profile: an evaluation does not stop for want of one.
pub proof fn law_tick_finds_profile<H: Hardware, F, G>(
    before: Engine<H>,
    after: Engine<H>,
    stop: bool,
    states: Seq<Engine<H>>,
    now: Nanos,
    hour: u32,
    minute: u32,
    blends: Blends<F, G>,
) where
    F: Fn(FanPoint, FanPoint, Celsius) -> u8,
    G: Fn(ColorPoint, ColorPoint, Celsius) -> [u8; 3],

    requires
        sound(before@),
        engine::tick_run(before, after, stop, states, now, hour, minute, blends),
    ensures
        engine::active_assignments(states[0]@) is Some,
        stop == engine::must_stop(after),
{
    lemma_prepared(before, states[0], now);
}

/// Only a fan output whose failures are not confined to it stops the daemon: failures of lights
/// and displays never do.
pub proof fn law_only_fans_stop<H: Hardware>(engine: Engine<H>)
    requires
        engine::must_stop(engine),
    ensures
        exists|i: int|
            {
                &&& 0 <= i < engine@.outputs.len()
                &&& (#[trigger] engine@.outputs[i]).1.consecutive_failures
                    >= engine@.config.daemon.failure_limit
                &&& names::find(
                    engine@.config.outputs@,
                    engine@.outputs[i].0,
                ) matches Some(output) && output is Fan && !engine.hardware.isolated(output)
            },
{
    let i = choose|i: int|
        {
            &&& 0 <= i < engine@.outputs.len()
            &&& (#[trigger] engine@.outputs[i]).1.consecutive_failures
                >= engine@.config.daemon.failure_limit
            &&& engine::failure_stops(engine, engine@.outputs[i].0)
        };
    assert(engine::failure_stops(engine, engine@.outputs[i].0));
}

// ---------------------------------------------------------------- control

/// Accepting an override keeps a sound engine sound.
pub proof fn law_override_keeps_soundness(
    model: EngineModel,
    output: Seq<char>,
    value: OverrideValue,
    ttl: Nanos,
    now: Nanos,
)
    requires
        sound(model),
        value matches OverrideValue::Fan(percent) ==> percent <= 100,
    ensures
        sound(control::with_override(model, output, value, ttl, now)),
{
    let active = ActiveOverride { value, expires_at: (now + ttl) as u128 };
    let after = control::with_override(model, output, value, ttl, now);
    names::lemma_inserted_sorted(model.overrides, output, active);
    assert forall|name: Seq<char>|
        #![trigger names::find(after.overrides, name)]
        names::find(after.overrides, name) matches Some(known) ==> (
        known.value matches OverrideValue::Fan(percent) ==> percent <= 100) by {
        names::lemma_find_inserted(model.overrides, output, active, name);
        lemma_override_at(model.overrides, name);
    }
}

proof fn lemma_dropped<V>(
    entries: names::Entries<V>,
    outputs: names::Entries<OutputConfig>,
    device: Seq<char>,
    count: int,
    name: Seq<char>,
)
    requires
        names::sorted(entries),
    ensures
        names::sorted(control::dropped(entries, outputs, device, count)),
        names::find(control::dropped(entries, outputs, device, count), name) is Some
            ==> names::find(control::dropped(entries, outputs, device, count), name)
            == names::find(entries, name),
    decreases count,
{
    if count > 0 {
        lemma_dropped(entries, outputs, device, count - 1, name);
        let earlier = control::dropped(entries, outputs, device, count - 1);
        if validation::device_of(outputs[count - 1].1) == device {
            names::lemma_removed_sorted(earlier, outputs[count - 1].0);
            names::lemma_find_removed(earlier, outputs[count - 1].0, name);
        }
    }
}

proof fn lemma_forgotten(model: EngineModel, device: Seq<char>)
    requires
        sound(model),
    ensures
        sound(control::forgotten(model, device)),
{
    let after = control::forgotten(model, device);
    let outputs = model.config.outputs@;
    let count = outputs.len() as int;
    lemma_dropped(model.outputs, outputs, device, count, Seq::empty());
    lemma_dropped(model.overrides, outputs, device, count, Seq::empty());
    assert forall|name: Seq<char>|
        #![trigger names::find(after.overrides, name)]
        names::find(after.overrides, name) matches Some(known) ==> (
        known.value matches OverrideValue::Fan(percent) ==> percent <= 100) by {
        lemma_dropped(model.overrides, outputs, device, count, name);
        lemma_override_at(model.overrides, name);
    }
    assert forall|name: Seq<char>|
        #![trigger names::find(after.outputs, name)]
        names::find(after.outputs, name) matches Some(known) ==> (
        known.last_target matches Some(Target::Percent(percent)) ==> percent <= 100) by {
        lemma_dropped(model.outputs, outputs, device, count, name);
        lemma_target_at(model.outputs, name);
    }
}

proof fn lemma_release_states<H: Hardware>(
    states: Seq<Engine<H>>,
    devices: Seq<Seq<char>>,
    at: int,
)
    requires
        0 <= at < states.len(),
        states.len() <= devices.len() + 1,
        sound(states[0]@),
        forall|i: int|
            0 <= i < states.len() - 1 ==> control::release_step(
                #[trigger] states[i],
                states[i + 1],
                Ok::<(), ErrorView>(()),
                devices[i],
            ),
    ensures
        sound(states[at]@),
        states[at]@.config == states[0]@.config,
        states[at]@.active_profile == states[0]@.active_profile,
    decreases at,
{
    if at > 0 {
        lemma_release_states(states, devices, at - 1);
        let before = states[at - 1];
        assert(control::release_step(
            before,
            states[at],
            Ok::<(), ErrorView>(()),
            devices[at - 1],
        ));
        lemma_forgotten(before@, devices[at - 1]);
    }
}

/// Giving devices back keeps a sound engine sound, whether or not it works.
pub proof fn law_release_keeps_soundness<H: Hardware>(
    before: Engine<H>,
    after: Engine<H>,
    result: Reply<()>,
    devices: Seq<Seq<char>>,
)
    requires
        sound(before@),
        control::released_all(before, after, result, devices),
    ensures
        sound(after@),
        after@.config == before@.config,
        after@.active_profile == before@.active_profile,
{
    let states = choose|states: Seq<Engine<H>>| #[trigger]
        control::release_run(before, after, result, devices, states);
    lemma_release_states(states, devices, states.len() - 1);
    if result is Err {
        lemma_forgotten(states.last()@, devices[states.len() - 1]);
    }
}

/// A change of profile keeps a sound engine sound, whether or not it works.
pub proof fn law_profile_change_keeps_soundness<H: Hardware>(
    before: Engine<H>,
    after: Engine<H>,
    result: Reply<()>,
    profile: Seq<char>,
)
    requires
        sound(before@),
        control::profile_step(before, after, result, profile),
    ensures
        sound(after@),
        after@.active_profile == (if result is Ok {
            profile
        } else {
            before@.active_profile
        }),
{
    if names::has(before@.config.profiles@, profile) {
        let freed = choose|freed: Engine<H>|
            {
                &&& #[trigger] control::released_all(
                    before,
                    freed,
                    result,
                    control::left_behind(before@, profile),
                )
                &&& match result {
                    Ok(_) => engine::became(freed, after, control::with_profile(freed@, profile)),
                    Err(_) => freed == after,
                }
            };
        law_release_keeps_soundness(
            before,
            freed,
            result,
            control::left_behind(before@, profile),
        );
    }
}

/// A reload of a valid configuration keeps a sound engine sound, whether or not it works: the
/// active profile stays where the new configuration has it, and is its default otherwise.
pub proof fn law_reload_keeps_soundness<H: Hardware>(
    before: Engine<H>,
    after: Engine<H>,
    result: Reply<()>,
    candidate: Config,
)
    requires
        sound(before@),
        validation::valid(candidate),
        control::reload_step(before, after, result, candidate),
    ensures
        sound(after@),
        result is Ok ==> after@.config == candidate && after@.active_profile == (if names::has(
            candidate.profiles@,
            before@.active_profile,
        ) {
            before@.active_profile
        } else {
            candidate.default_profile@
        }),
        result is Err ==> after@.config == before@.config && after@.active_profile
            == before@.active_profile,
{
    let (checked, freed, outcome) = choose|
        checked: Engine<H>,
        freed: Engine<H>,
        outcome: Reply<()>,
    | #[trigger]
        control::reload_run(before, checked, freed, after, outcome, result, candidate);
    guarantees::law_settings(candidate);
    if let Call::Preflight { reply: Ok(devices), .. } = checked.hardware.calls().last() {
        law_release_keeps_soundness(
            checked,
            freed,
            outcome,
            names::names(control::controlled_devices(before@)),
        );
    }
}

proof fn lemma_noted_releases(model: EngineModel, targets: Seq<Seq<char>>, count: int, name: Seq<char>)
    requires
        sound(model),
        0 <= count <= targets.len(),
    ensures
        sound(control::noted_releases(model, targets, count)),
        control::noted_releases(model, targets, count).config == model.config,
        names::has(control::noted_releases(model, targets, count).released, name) <==> (names::has(
            model.released,
            name,
        ) || targets.take(count).contains(name)),
    decreases count,
{
    assert(targets.take(0) =~= Seq::empty());
    if count > 0 {
        lemma_noted_releases(model, targets, count - 1, name);
        let earlier = control::noted_releases(model, targets, count - 1);
        let target = targets[count - 1];
        let runtime = engine::runtime_of(earlier, target);
        let known = RuntimeView { health: Some(Health::Released), last_target: None, ..runtime };
        lemma_with_runtime(earlier, target, known);
        names::lemma_inserted_sorted(earlier.released, target, ());
        names::lemma_find_inserted(earlier.released, target, (), name);
        names::lemma_removed_sorted(earlier.overrides, target);
        let after = control::noted_releases(model, targets, count);
        assert forall|other: Seq<char>|
            #![trigger names::find(after.overrides, other)]
            names::find(after.overrides, other) matches Some(active) ==> (
            active.value matches OverrideValue::Fan(percent) ==> percent <= 100) by {
            names::lemma_find_removed(earlier.overrides, target, other);
            lemma_override_at(earlier.overrides, other);
        }
        assert(targets.take(count) =~= targets.take(count - 1).push(target));
        lemma_push_contains(targets.take(count - 1), target, name);
    }
}

proof fn lemma_push_contains(list: Seq<Seq<char>>, last: Seq<char>, name: Seq<char>)
    ensures
        list.push(last).contains(name) <==> list.contains(name) || name == last,
{
    if list.contains(name) {
        let i = choose|i: int| 0 <= i < list.len() && list[i] == name;
        assert(list.push(last)[i] == name);
    }
    if name == last {
        assert(list.push(last)[list.len() as int] == name);
    }
    if list.push(last).contains(name) {
        let i = choose|i: int| 0 <= i < list.push(last).len() && list.push(last)[i] == name;
        if i < list.len() {
            assert(list[i] == name);
        }
    }
}

proof fn lemma_noted_resumes(model: EngineModel, targets: Seq<Seq<char>>, count: int, name: Seq<char>)
    requires
        sound(model),
        0 <= count <= targets.len(),
    ensures
        sound(control::noted_resumes(model, targets, count)),
        names::has(control::noted_resumes(model, targets, count).released, name) <==> (names::has(
            model.released,
            name,
        ) && !targets.take(count).contains(name)),
    decreases count,
{
    assert(targets.take(0) =~= Seq::empty());
    if count > 0 {
        lemma_noted_resumes(model, targets, count - 1, name);
        let earlier = control::noted_resumes(model, targets, count - 1);
        let target = targets[count - 1];
        names::lemma_removed_sorted(earlier.released, target);
        names::lemma_removed_sorted(earlier.outputs, target);
        names::lemma_find_removed(earlier.released, target, name);
        let after = control::noted_resumes(model, targets, count);
        assert forall|other: Seq<char>|
            #![trigger names::find(after.outputs, other)]
            names::find(after.outputs, other) matches Some(known) ==> (
            known.last_target matches Some(Target::Percent(percent)) ==> percent <= 100) by {
            names::lemma_find_removed(earlier.outputs, target, other);
            lemma_target_at(earlier.outputs, other);
        }
        assert(targets.take(count) =~= targets.take(count - 1).push(target));
        lemma_push_contains(targets.take(count - 1), target, name);
    }
}

proof fn lemma_outputs_of_devices(
    outputs: names::Entries<OutputConfig>,
    devices: Names,
    count: int,
    name: Seq<char>,
)
    requires
        0 <= count <= outputs.len(),
    ensures
        control::outputs_of_devices(outputs, devices, count).contains(name) <==> exists|i: int|
            0 <= i < count && #[trigger] outputs[i].0 == name && names::has(
                devices,
                validation::device_of(outputs[i].1),
            ),
    decreases count,
{
    if count > 0 {
        lemma_outputs_of_devices(outputs, devices, count - 1, name);
        lemma_push_contains(
            control::outputs_of_devices(outputs, devices, count - 1),
            outputs[count - 1].0,
            name,
        );
        if control::outputs_of_devices(outputs, devices, count - 1).contains(name) {
            let i = choose|i: int|
                0 <= i < count - 1 && #[trigger] outputs[i].0 == name && names::has(
                    devices,
                    validation::device_of(outputs[i].1),
                );
            assert(0 <= i < count && outputs[i].0 == name);
        }
    }
}

/// The outputs that a command about an output, or about all of them, is for: every output on
/// the same device.
pub open spec fn affected_outputs(model: EngineModel, output: Option<Seq<char>>) -> Seq<Seq<char>> {
    let outputs = model.config.outputs@;
    match control::selected(model.config, output) {
        Ok(devices) => control::outputs_of_devices(outputs, devices, outputs.len() as int),
        Err(_) => Seq::empty(),
    }
}

/// A command about an output is for every output on its device.
pub proof fn law_devices_stay_whole(model: EngineModel, output: Seq<char>, other: int)
    requires
        names::find(model.config.outputs@, output) matches Some(found) && 0 <= other
            < model.config.outputs@.len() && validation::device_of(
            model.config.outputs@[other].1,
        ) == validation::device_of(found),
    ensures
        affected_outputs(model, Some(output)).contains(model.config.outputs@[other].0),
{
    let outputs = model.config.outputs@;
    let found = names::find(outputs, output)->0;
    let device = validation::device_of(found);
    let none = Seq::<(Seq<char>, ())>::empty();
    let devices = names::inserted(none, device, ());
    assert(names::sorted(none));
    names::lemma_find_inserted(none, device, (), device);
    lemma_outputs_of_devices(outputs, devices, outputs.len() as int, outputs[other].0);
    assert(outputs[other].0 == outputs[other].0 && names::has(
        devices,
        validation::device_of(outputs[other].1),
    ));
}

/// A release that works leaves exactly the affected outputs, and those that were before, to
/// their hardware policy; the engine stays sound.
pub proof fn law_release_marks_outputs<H: Hardware>(
    before: Engine<H>,
    after: Engine<H>,
    released: Seq<Seq<char>>,
    output: Option<Seq<char>>,
    name: Seq<char>,
)
    requires
        sound(before@),
        control::release_command(
            before,
            after,
            Ok::<Seq<Seq<char>>, ErrorView>(released),
            output,
        ),
    ensures
        sound(after@),
        after@.config == before@.config,
        released == affected_outputs(before@, output),
        names::has(after@.released, name) <==> names::has(before@.released, name)
            || released.contains(name),
{
    let outputs = before@.config.outputs@;
    let devices = control::selected(before@.config, output)->Ok_0;
    let targets = control::outputs_of_devices(outputs, devices, outputs.len() as int);
    let (freed, outcome) = choose|freed: Engine<H>, outcome: Reply<()>|
        {
            &&& #[trigger] control::released_all(
                before,
                freed,
                outcome,
                names::names(devices),
            )
            &&& match outcome {
                Err(error) => Ok::<Seq<Seq<char>>, ErrorView>(released) == Err::<
                    Seq<Seq<char>>,
                    ErrorView,
                >(error) && freed == after,
                Ok(_) => Ok::<Seq<Seq<char>>, ErrorView>(released) == Ok::<
                    Seq<Seq<char>>,
                    ErrorView,
                >(targets) && engine::became(
                    freed,
                    after,
                    control::noted_releases(freed@, targets, targets.len() as int),
                )
            }
        };
    law_release_keeps_soundness(before, freed, outcome, names::names(devices));
    lemma_released_kept(before, freed, outcome, names::names(devices));
    lemma_noted_releases(freed@, targets, targets.len() as int, name);
    assert(targets.take(targets.len() as int) =~= targets);
}

proof fn lemma_released_kept<H: Hardware>(
    before: Engine<H>,
    after: Engine<H>,
    result: Reply<()>,
    devices: Seq<Seq<char>>,
)
    requires
        control::released_all(before, after, result, devices),
    ensures
        after@.released == before@.released,
{
    let states = choose|states: Seq<Engine<H>>| #[trigger]
        control::release_run(before, after, result, devices, states);
    lemma_released_states(states, devices, states.len() - 1);
}

proof fn lemma_released_states<H: Hardware>(
    states: Seq<Engine<H>>,
    devices: Seq<Seq<char>>,
    at: int,
)
    requires
        0 <= at < states.len(),
        states.len() <= devices.len() + 1,
        forall|i: int|
            0 <= i < states.len() - 1 ==> control::release_step(
                #[trigger] states[i],
                states[i + 1],
                Ok::<(), ErrorView>(()),
                devices[i],
            ),
    ensures
        states[at]@.released == states[0]@.released,
    decreases at,
{
    if at > 0 {
        lemma_released_states(states, devices, at - 1);
        assert(control::release_step(
            states[at - 1],
            states[at],
            Ok::<(), ErrorView>(()),
            devices[at - 1],
        ));
    }
}

/// A resume undoes a release: after both, an output is left to its hardware policy exactly if it
/// was before and is not one of those affected.
pub proof fn law_resume_undoes_release<H: Hardware>(
    before: Engine<H>,
    between: Engine<H>,
    after: Engine<H>,
    released: Seq<Seq<char>>,
    resumed: Seq<Seq<char>>,
    output: Option<Seq<char>>,
    name: Seq<char>,
)
    requires
        sound(before@),
        control::release_command(
            before,
            between,
            Ok::<Seq<Seq<char>>, ErrorView>(released),
            output,
        ),
        control::resume_command(
            between,
            after,
            Ok::<Seq<Seq<char>>, ErrorView>(resumed),
            output,
        ),
    ensures
        sound(after@),
        resumed == released,
        names::has(after@.released, name) <==> names::has(before@.released, name)
            && !released.contains(name),
{
    law_release_marks_outputs(before, between, released, output, name);
    lemma_noted_resumes(between@, resumed, resumed.len() as int, name);
    assert(resumed.take(resumed.len() as int) =~= resumed);
}

proof fn lemma_dropped_outputs<V>(
    entries: names::Entries<V>,
    outputs: names::Entries<OutputConfig>,
    device: Seq<char>,
    count: int,
    at: int,
)
    requires
        names::sorted(entries),
        names::sorted(outputs),
        0 <= count <= outputs.len(),
        0 <= at < outputs.len(),
    ensures
        names::sorted(control::dropped(entries, outputs, device, count)),
        at < count && validation::device_of(outputs[at].1) == device ==> names::find(
            control::dropped(entries, outputs, device, count),
            outputs[at].0,
        ) is None,
        validation::device_of(outputs[at].1) != device ==> names::find(
            control::dropped(entries, outputs, device, count),
            outputs[at].0,
        ) == names::find(entries, outputs[at].0),
    decreases count,
{
    if count > 0 {
        lemma_dropped_outputs(entries, outputs, device, count - 1, at);
        let earlier = control::dropped(entries, outputs, device, count - 1);
        let last = outputs[count - 1];
        if validation::device_of(last.1) == device {
            names::lemma_removed_sorted(earlier, last.0);
            names::lemma_find_removed(earlier, last.0, outputs[at].0);
            if at != count - 1 {
                text::lemma_before_irreflexive(last.0);
            }
        }
    }
}

/// Once a device was given back, nothing is known of its outputs and they have no overrides;
/// outputs of other devices stay as they are.
pub proof fn law_given_back_device_is_forgotten<H: Hardware>(
    before: Engine<H>,
    after: Engine<H>,
    device: Seq<char>,
    at: int,
)
    requires
        control::release_step(before, after, Ok::<(), ErrorView>(()), device),
        names::sorted(before@.config.outputs@),
        names::sorted(before@.outputs),
        names::sorted(before@.overrides),
        0 <= at < before@.config.outputs@.len(),
    ensures
        ({
            let (name, output) = before@.config.outputs@[at];
            if validation::device_of(output) == device {
                names::find(after@.outputs, name) is None && names::find(after@.overrides, name)
                    is None
            } else {
                names::find(after@.outputs, name) == names::find(before@.outputs, name)
                    && names::find(after@.overrides, name) == names::find(
                    before@.overrides,
                    name,
                )
            }
        }),
{
    let outputs = before@.config.outputs@;
    let count = outputs.len() as int;
    lemma_dropped_outputs(before@.outputs, outputs, device, count, at);
    lemma_dropped_outputs(before@.overrides, outputs, device, count, at);
}

/// A command about an output is for outputs on its device alone, and a command about all outputs is
/// for each of them.
pub proof fn law_other_devices_are_not_affected(
    model: EngineModel,
    output: Seq<char>,
    other: int,
)
    requires
        names::sorted(model.config.outputs@),
        0 <= other < model.config.outputs@.len(),
    ensures
        names::find(model.config.outputs@, output) matches Some(found) ==> (
        validation::device_of(model.config.outputs@[other].1) != validation::device_of(found)
            ==> !affected_outputs(model, Some(output)).contains(model.config.outputs@[other].0)),
        affected_outputs(model, None).contains(model.config.outputs@[other].0),
{
    let outputs = model.config.outputs@;
    let (name, settings) = outputs[other];
    let none = Seq::<(Seq<char>, ())>::empty();
    assert(names::sorted(none));
    if let Some(found) = names::find(outputs, output) {
        let devices = names::inserted(none, validation::device_of(found), ());
        names::lemma_find_inserted(
            none,
            validation::device_of(found),
            (),
            validation::device_of(settings),
        );
        lemma_outputs_of_devices(outputs, devices, outputs.len() as int, name);
        assert forall|i: int| 0 <= i < outputs.len() && (#[trigger] outputs[i]).0 == name implies i
            == other by {
            text::lemma_before_irreflexive(name);
        }
    }
    let every = control::devices_of(outputs, outputs.len() as int);
    lemma_all_devices(outputs, outputs.len() as int, other);
    lemma_outputs_of_devices(outputs, every, outputs.len() as int, name);
    assert(outputs[other].0 == name);
}

proof fn lemma_all_devices(outputs: names::Entries<OutputConfig>, count: int, which: int)
    requires
        0 <= count <= outputs.len(),
    ensures
        names::sorted(control::devices_of(outputs, count)),
        0 <= which < count ==> names::has(
            control::devices_of(outputs, count),
            validation::device_of(outputs[which].1),
        ),
    decreases count,
{
    if count > 0 {
        lemma_all_devices(outputs, count - 1, which);
        let earlier = control::devices_of(outputs, count - 1);
        let device = validation::device_of(outputs[count - 1].1);
        names::lemma_inserted_sorted(earlier, device, ());
        if 0 <= which < count {
            names::lemma_find_inserted(
                earlier,
                device,
                (),
                validation::device_of(outputs[which].1),
            );
        }
    }
}

proof fn lemma_resumed(model: EngineModel, targets: Seq<Seq<char>>, count: int, at: int)
    requires
        names::sorted(model.released),
        names::sorted(model.outputs),
        0 <= count <= targets.len(),
    ensures
        ({
            let after = control::noted_resumes(model, targets, count);
            &&& names::sorted(after.released)
            &&& names::sorted(after.outputs)
            &&& 0 <= at < count ==> !names::has(after.released, targets[at]) && !names::has(
                after.outputs,
                targets[at],
            )
        }),
    decreases count,
{
    if count > 0 {
        lemma_resumed(model, targets, count - 1, at);
        let earlier = control::noted_resumes(model, targets, count - 1);
        let last = targets[count - 1];
        names::lemma_removed_sorted(earlier.released, last);
        names::lemma_removed_sorted(earlier.outputs, last);
        if 0 <= at < count {
            names::lemma_find_removed(earlier.released, last, targets[at]);
            names::lemma_find_removed(earlier.outputs, last, targets[at]);
        }
    }
}

/// An output that is resumed is under control again, and is written anew: nothing is known of it.
/// The hardware is asked nothing yet.
pub proof fn law_resumed_output_starts_afresh<H: Hardware>(
    before: Engine<H>,
    after: Engine<H>,
    resumed: Seq<Seq<char>>,
    output: Option<Seq<char>>,
    at: int,
)
    requires
        control::resume_command(
            before,
            after,
            Ok::<Seq<Seq<char>>, ErrorView>(resumed),
            output,
        ),
        names::sorted(before@.released),
        names::sorted(before@.outputs),
        0 <= at < resumed.len(),
    ensures
        resumed == affected_outputs(before@, output),
        !names::has(after@.released, resumed[at]),
        !names::has(after@.outputs, resumed[at]),
        after.hardware == before.hardware,
{
    lemma_resumed(before@, resumed, resumed.len() as int, at);
}

// ---------------------------------------------------------------- status

/// The daemon is reported healthy exactly if no output is in fail-safe mode and nothing is
/// degraded or unavailable.
pub proof fn law_healthy_status(model: EngineModel, now: Nanos)
    ensures
        status::status_of(model, now).health == Health::Healthy <==> {
            &&& forall|i: int|
                0 <= i < model.config.outputs@.len() ==> {
                    let health = (#[trigger] status::output_status(model, i)).health;
                    health == Health::Healthy || health == Health::Released
                }
            &&& forall|i: int|
                0 <= i < model.config.sensors@.len() ==> (#[trigger] status::sensor_status(
                    model,
                    i,
                    now,
                )).health == Health::Healthy
        },
{
    let outputs = status::outputs_status(model);
    let sensors = status::sensors_status(model, now);
    assert forall|i: int| 0 <= i < outputs.len() implies (#[trigger] outputs[i]).1
        == status::output_status(model, i) by {}
    assert forall|i: int| 0 <= i < sensors.len() implies (#[trigger] sensors[i]).1
        == status::sensor_status(model, i, now) by {}
    if status::status_of(model, now).health == Health::Healthy {
        assert forall|i: int| 0 <= i < model.config.outputs@.len() implies {
            let health = (#[trigger] status::output_status(model, i)).health;
            health == Health::Healthy || health == Health::Released
        } by {
            assert(outputs[i].1 == status::output_status(model, i));
        }
        assert forall|i: int| 0 <= i < model.config.sensors@.len() implies (
        #[trigger] status::sensor_status(model, i, now)).health == Health::Healthy by {
            assert(sensors[i].1 == status::sensor_status(model, i, now));
        }
    }
}

} // verus!
