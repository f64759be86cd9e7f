//! What the engine promises for its outputs, told by what it reads and what it sends to the
//! hardware.

use vstd::prelude::*;

use crate::celsius::Celsius;
use crate::config::AssignmentConfig;
use crate::config::ColorPoint;
use crate::config::FanPoint;
use crate::config::Nanos;
use crate::config::OutputConfig;
use crate::control;
use crate::curve;
use crate::drivers::Call;
use crate::drivers::DisplayTarget;
use crate::drivers::Hardware;
use crate::drivers::Reply;
use crate::drivers::SampleView;
use crate::engine;
use crate::engine::Engine;
use crate::error;
use crate::error::ErrorView;
use crate::names;
use crate::policy;
use crate::policy::Blended;
use crate::policy::Blends;
use crate::policy::EngineModel;
use crate::policy::OverrideValue;
use crate::policy::Target;
use crate::search;
use crate::types::Health;
use crate::validation;

verus! {

// ---------------------------------------------------------------- what the hardware is told

/// Whether the hardware was asked nothing.
pub open spec fn quiet<H: Hardware>(before: Engine<H>, after: Engine<H>) -> bool {
    after.hardware.calls() == before.hardware.calls()
}

/// Whether the hardware was asked one thing more.
pub open spec fn asked<H: Hardware>(before: Engine<H>, after: Engine<H>) -> bool {
    &&& after.hardware.calls().len() == before.hardware.calls().len() + 1
    &&& after.hardware.calls().drop_last() == before.hardware.calls()
}

/// What an output was last set to.
pub open spec fn target_of(model: EngineModel, name: Seq<char>) -> Option<Target> {
    match names::find(model.outputs, name) {
        Some(runtime) => runtime.last_target,
        None => None,
    }
}

/// Whether a fan is at a duty already and the hardware was asked nothing, or was told the duty now.
pub open spec fn fan_told<H: Hardware>(
    before: Engine<H>,
    after: Engine<H>,
    name: Seq<char>,
    output: OutputConfig,
    percent: u8,
) -> bool {
    ||| quiet(before, after) && target_of(before@, name) == Some(Target::Percent(percent))
    ||| asked(before, after) && (after.hardware.calls().last() matches Call::SetFan {
        alias,
        config,
        percent: written,
        ..
    } && alias == name && config == output && written == percent)
}

/// Whether lights are at a color already and the hardware was asked nothing, or were told it now.
pub open spec fn color_told<H: Hardware>(
    before: Engine<H>,
    after: Engine<H>,
    name: Seq<char>,
    output: OutputConfig,
    rgb: [u8; 3],
) -> bool {
    ||| quiet(before, after) && target_of(before@, name) == Some(
        Target::Rgb(rgb[0], rgb[1], rgb[2]),
    )
    ||| asked(before, after) && (after.hardware.calls().last() matches Call::SetRgb {
        alias,
        config,
        rgb: written,
        ..
    } && alias == name && config == output && written == rgb)
}

/// Whether a display is in a state already and the hardware was asked nothing, or was told it now.
pub open spec fn display_told<H: Hardware>(
    before: Engine<H>,
    after: Engine<H>,
    name: Seq<char>,
    output: OutputConfig,
    state: DisplayTarget,
) -> bool {
    ||| quiet(before, after) && target_of(before@, name) == Some(
        match state {
            DisplayTarget::Awake { brightness_percent } => Target::Percent(brightness_percent),
            DisplayTarget::Sleep => Target::Sleep,
        },
    )
    ||| asked(before, after) && (after.hardware.calls().last() matches Call::SetDisplay {
        alias,
        config,
        target,
        ..
    } && alias == name && config == output && target == state)
}

// ---------------------------------------------------------------- sources

/// Whether a source was read at most as long ago as readings count, as a finite temperature.
pub open spec fn read_recently(model: EngineModel, source: Seq<char>, now: Nanos) -> bool {
    names::find(model.readings, source) matches Some(reading) && now - reading.observed_at
        <= model.config.daemon.stale_after && reading.value.finite()
}

/// Whether a source was never read, or longer ago than readings count.
pub open spec fn not_read_recently(model: EngineModel, source: Seq<char>, now: Nanos) -> bool {
    names::find(model.readings, source) matches Some(reading) ==> now - reading.observed_at
        > model.config.daemon.stale_after
}

/// Whether a temperature is that of the hottest of some sources.
pub open spec fn is_hottest(model: EngineModel, sources: Seq<String>, followed: Celsius) -> bool {
    &&& exists|i: int|
        0 <= i < sources.len() && names::find(
            model.readings,
            (#[trigger] sources[i])@,
        )->0.value == followed
    &&& forall|i: int|
        0 <= i < sources.len() ==> names::find(
            model.readings,
            (#[trigger] sources[i])@,
        )->0.value.at_most(followed)
}

/// Whether the policy decides for an output: it is not released, and has no override.
pub open spec fn by_policy(model: EngineModel, name: Seq<char>) -> bool {
    !names::has(model.released, name) && names::find(model.overrides, name) is None
}

proof fn lemma_followed(
    model: EngineModel,
    sources: Seq<String>,
    now: Nanos,
) -> (followed: Celsius)
    requires
        sources.len() > 0,
        forall|i: int|
            0 <= i < sources.len() ==> read_recently(model, (#[trigger] sources[i])@, now),
    ensures
        policy::temperature(model.readings, model.config.daemon.stale_after, sources, now) == Some(
            followed,
        ),
        is_hottest(model, sources, followed),
        followed.finite(),
{
    assert forall|i: int| 0 <= i < sources.len() implies (names::find(
        model.readings,
        (#[trigger] sources[i])@,
    ) matches Some(reading) && now - reading.observed_at <= model.config.daemon.stale_after
        && reading.value.finite()) by {
        assert(read_recently(model, sources[i]@, now));
    }
    policy::law_assignment_follows_its_hottest_source(
        model.readings,
        model.config.daemon.stale_after,
        sources,
        now,
    );
    let followed = policy::temperature(
        model.readings,
        model.config.daemon.stale_after,
        sources,
        now,
    )->0;
    let i = choose|i: int|
        0 <= i < sources.len() && names::find(
            model.readings,
            (#[trigger] sources[i])@,
        )->0.value == followed;
    assert(read_recently(model, sources[i]@, now));
    followed
}

proof fn lemma_none_followed(model: EngineModel, sources: Seq<String>, now: Nanos, source: int)
    requires
        0 <= source < sources.len(),
        not_read_recently(model, sources[source]@, now),
    ensures
        policy::temperature(model.readings, model.config.daemon.stale_after, sources, now) is None,
{
    policy::law_stale_source_is_not_followed(
        model.readings,
        model.config.daemon.stale_after,
        sources,
        now,
        source,
    );
}

/// Whether a duty follows from the last one and a new target: the new target, or the last duty
/// where that is nearer than the hysteresis.
pub open spec fn steps_to(last: Option<Target>, target: u8, hysteresis: u8, percent: u8) -> bool {
    match last {
        Some(Target::Percent(previous)) => {
            let distance = if previous < target {
                target - previous
            } else {
                previous - target
            };
            percent == (if distance < hysteresis {
                previous
            } else {
                target
            })
        },
        _ => percent == target,
    }
}

// ---------------------------------------------------------------- fans

/// A fan with a source that was never read, or not recently, is told its fail-safe duty.
pub proof fn law_stale_fan_is_told_its_fail_safe_duty<H: Hardware, F, G>(
    before: Engine<H>,
    after: Engine<H>,
    name: Seq<char>,
    assignment: AssignmentConfig,
    now: Nanos,
    hour: u32,
    minute: u32,
    blends: Blends<F, G>,
    output: OutputConfig,
    source: int,
) where
    F: Fn(FanPoint, FanPoint, Celsius) -> u8,
    G: Fn(ColorPoint, ColorPoint, Celsius) -> [u8; 3],

    requires
        engine::evaluated(before, after, name, assignment, now, hour, minute, blends),
        names::find(before@.config.outputs@, name) == Some(output),
        output is Fan,
        by_policy(before@, name),
        before.hardware.fan_fault(output) is None,
        0 <= source < assignment.sources@.len(),
        not_read_recently(before@, assignment.sources@[source]@, now),
    ensures
        fan_told(before, after, name, output, output->fail_safe_percent),
{
    lemma_none_followed(before@, assignment.sources@, now, source);
    let (middle, result, blended) = choose|
        middle: Engine<H>,
        result: Reply<()>,
        blended: Blended,
    | #[trigger]
        engine::evaluation(
            before,
            middle,
            after,
            result,
            blended,
            name,
            assignment,
            now,
            hour,
            minute,
            blends,
        );
    lemma_pushed(before, middle);
}

proof fn lemma_pushed<H: Hardware>(before: Engine<H>, after: Engine<H>)
    ensures
        after.hardware.calls() == before.hardware.calls().push(after.hardware.calls().last())
            ==> asked(before, after),
{
    let call = after.hardware.calls().last();
    assert(before.hardware.calls().push(call).drop_last() =~= before.hardware.calls());
}

/// A fan whose sources were all read recently is told the duty of its curve at the hottest of them,
/// but no lower than its minimum, and its last duty where that is nearer than the hysteresis.
pub proof fn law_fan_follows_its_hottest_source<H: Hardware, F, G>(
    before: Engine<H>,
    after: Engine<H>,
    name: Seq<char>,
    assignment: AssignmentConfig,
    now: Nanos,
    hour: u32,
    minute: u32,
    blends: Blends<F, G>,
    output: OutputConfig,
    points: Seq<FanPoint>,
) where
    F: Fn(FanPoint, FanPoint, Celsius) -> u8,
    G: Fn(ColorPoint, ColorPoint, Celsius) -> [u8; 3],

    requires
        engine::evaluated(before, after, name, assignment, now, hour, minute, blends),
        names::find(before@.config.outputs@, name) == Some(output),
        output is Fan,
        by_policy(before@, name),
        before.hardware.fan_fault(output) is None,
        assignment.sources@.len() > 0,
        forall|i: int|
            0 <= i < assignment.sources@.len() ==> read_recently(
                before@,
                (#[trigger] assignment.sources@[i])@,
                now,
            ),
        assignment.curve matches Some(curve) && (names::find(
            before@.config.curves@,
            curve@,
        ) matches Some(found) && found.points@ == points),
    ensures
        exists|followed: Celsius, blended: u8, percent: u8|
            {
                let value = curve::fan_value(points, followed, blended);
                &&& #[trigger] is_hottest(before@, assignment.sources@, followed)
                &&& #[trigger] curve::fan_blend(blends.fan, points, followed, blended)
                &&& steps_to(
                    target_of(before@, name),
                    if value < output->minimum_percent {
                        output->minimum_percent
                    } else {
                        value
                    },
                    output->hysteresis_percent,
                    percent,
                )
                &&& #[trigger] fan_told(before, after, name, output, percent)
            },
{
    let followed = lemma_followed(before@, assignment.sources@, now);
    let (middle, result, blended) = choose|
        middle: Engine<H>,
        result: Reply<()>,
        blended: Blended,
    | #[trigger]
        engine::evaluation(
            before,
            middle,
            after,
            result,
            blended,
            name,
            assignment,
            now,
            hour,
            minute,
            blends,
        );
    lemma_pushed(before, middle);
    let decided = policy::decided(before@, name, assignment, now, hour, minute, blended);
    let percent = decided->Fan_percent;
    let value = curve::fan_value(points, followed, blended.percent);
    assert(curve::fan_blend(blends.fan, points, followed, blended.percent));
    assert(is_hottest(before@, assignment.sources@, followed));
    assert(fan_told(before, after, name, output, percent));
    assert(steps_to(
        target_of(before@, name),
        if value < output->minimum_percent {
            output->minimum_percent
        } else {
            value
        },
        output->hysteresis_percent,
        percent,
    ));
}

/// A fan with an override is told the duty of the override.
pub proof fn law_overridden_fan_is_told_the_override<H: Hardware, F, G>(
    before: Engine<H>,
    after: Engine<H>,
    name: Seq<char>,
    assignment: AssignmentConfig,
    now: Nanos,
    hour: u32,
    minute: u32,
    blends: Blends<F, G>,
    output: OutputConfig,
    percent: u8,
) where
    F: Fn(FanPoint, FanPoint, Celsius) -> u8,
    G: Fn(ColorPoint, ColorPoint, Celsius) -> [u8; 3],

    requires
        engine::evaluated(before, after, name, assignment, now, hour, minute, blends),
        names::find(before@.config.outputs@, name) == Some(output),
        output is Fan,
        !names::has(before@.released, name),
        names::find(before@.overrides, name) matches Some(active) && active.value
            == OverrideValue::Fan(percent),
        before.hardware.fan_fault(output) is None,
    ensures
        fan_told(before, after, name, output, percent),
{
    let (middle, result, blended) = choose|
        middle: Engine<H>,
        result: Reply<()>,
        blended: Blended,
    | #[trigger]
        engine::evaluation(
            before,
            middle,
            after,
            result,
            blended,
            name,
            assignment,
            now,
            hour,
            minute,
            blends,
        );
    lemma_pushed(before, middle);
}

/// An output that is released is told nothing, and shows as released.
pub proof fn law_released_output_is_left_alone<H: Hardware, F, G>(
    before: Engine<H>,
    after: Engine<H>,
    name: Seq<char>,
    assignment: AssignmentConfig,
    now: Nanos,
    hour: u32,
    minute: u32,
    blends: Blends<F, G>,
) where
    F: Fn(FanPoint, FanPoint, Celsius) -> u8,
    G: Fn(ColorPoint, ColorPoint, Celsius) -> [u8; 3],

    requires
        engine::evaluated(before, after, name, assignment, now, hour, minute, blends),
        names::has(before@.config.outputs@, name),
        names::has(before@.released, name),
        names::sorted(before@.outputs),
    ensures
        quiet(before, after),
        names::find(after@.outputs, name) matches Some(runtime) && runtime.health == Some(
            Health::Released,
        ) && runtime.consecutive_failures == 0,
{
    let (middle, result, blended) = choose|
        middle: Engine<H>,
        result: Reply<()>,
        blended: Blended,
    | #[trigger]
        engine::evaluation(
            before,
            middle,
            after,
            result,
            blended,
            name,
            assignment,
            now,
            hour,
            minute,
            blends,
        );
    let runtime = engine::runtime_of(before@, name);
    names::lemma_find_inserted(
        before@.outputs,
        name,
        policy::RuntimeView {
            health: Some(Health::Released),
            error: None,
            consecutive_failures: 0,
            ..runtime
        },
        name,
    );
}

/// A fan is told its duty again, though that did not change, where its last evaluation failed, and
/// where its driver needs that and the refresh interval passed since.
pub proof fn law_fan_is_told_again<H: Hardware>(
    before: Engine<H>,
    after: Engine<H>,
    result: Reply<()>,
    name: Seq<char>,
    output: OutputConfig,
    percent: u8,
    health: Health,
    now: Nanos,
)
    requires
        engine::fan_step(before, after, result, name, output, percent, health, now),
        output is Fan,
        before.hardware.fan_fault(output) is None,
        names::find(before@.outputs, name) matches Some(runtime) && {
            ||| runtime.last_target != Some(Target::Percent(percent))
            ||| runtime.consecutive_failures > 0
            ||| before.hardware.refreshes(output) && (runtime.last_write matches Some(last) ==> now
                - last >= output->refresh_interval)
        },
        names::find(before@.outputs, name)->0.last_write matches Some(last) ==> last <= now,
    ensures
        asked(before, after),
        after.hardware.calls().last() matches Call::SetFan { alias, config, percent: written, .. }
            && alias == name && config == output && written == percent,
{
    lemma_pushed(before, after);
}

/// A fan write that the hardware accepts is noted: the duty, the time, and that nothing failed.
/// One that it refuses counts as a failure, and the output as degraded.
pub proof fn law_fan_writes_are_noted<H: Hardware, F, G>(
    before: Engine<H>,
    after: Engine<H>,
    name: Seq<char>,
    assignment: AssignmentConfig,
    now: Nanos,
    hour: u32,
    minute: u32,
    blends: Blends<F, G>,
) where
    F: Fn(FanPoint, FanPoint, Celsius) -> u8,
    G: Fn(ColorPoint, ColorPoint, Celsius) -> [u8; 3],

    requires
        engine::evaluated(before, after, name, assignment, now, hour, minute, blends),
        names::sorted(before@.outputs),
        asked(before, after),
        after.hardware.calls().last() is SetFan,
    ensures
        names::find(after@.outputs, name) matches Some(runtime) && (
        match after.hardware.calls().last()->SetFan_reply {
            Ok(write) => {
                &&& runtime.last_target == Some(
                    Target::Percent(after.hardware.calls().last()->SetFan_percent),
                )
                &&& runtime.last_write == Some(now)
                &&& runtime.observed == Some(write.observed)
                &&& runtime.error == write.warning
                &&& runtime.consecutive_failures == 0
                &&& write.warning is Some ==> runtime.health != Some(Health::Healthy)
            },
            Err(why) => {
                let earlier = match names::find(before@.outputs, name) {
                    Some(known) => known.consecutive_failures,
                    None => 0,
                };
                &&& runtime.health == Some(Health::Degraded)
                &&& runtime.error == Some(error::described(why))
                &&& runtime.consecutive_failures == (if earlier < u32::MAX {
                    earlier + 1
                } else {
                    earlier as int
                })
                &&& runtime.last_target == target_of(before@, name)
            },
        }),
{
    let (middle, result, blended) = choose|
        middle: Engine<H>,
        result: Reply<()>,
        blended: Blended,
    | #[trigger]
        engine::evaluation(
            before,
            middle,
            after,
            result,
            blended,
            name,
            assignment,
            now,
            hour,
            minute,
            blends,
        );
    assert(middle.hardware.calls().len() != before.hardware.calls().len());
    let noted = names::find(after@.outputs, name);
    match result {
        Ok(_) => {
            let decided = policy::decided(before@, name, assignment, now, hour, minute, blended);
            let call = middle.hardware.calls().last();
            let stored = engine::fan_stored(
                before@,
                name,
                decided->Fan_percent,
                decided->Fan_health,
                now,
                call->SetFan_reply->Ok_0,
            );
            assert(middle@ == stored);
            names::lemma_find_inserted(
                before@.outputs,
                name,
                policy::RuntimeView {
                    last_target: Some(Target::Percent(decided->Fan_percent)),
                    last_write: Some(now),
                    observed: Some(call->SetFan_reply->Ok_0.observed),
                    health: Some(
                        engine::fan_health_of(
                            decided->Fan_health,
                            call->SetFan_reply->Ok_0.warning is Some,
                        ),
                    ),
                    error: call->SetFan_reply->Ok_0.warning,
                    consecutive_failures: 0,
                },
                name,
            );
        },
        Err(failure) => {
            assert(middle@ == before@);
            let runtime = engine::runtime_of(before@, name);
            names::lemma_find_inserted(
                before@.outputs,
                name,
                policy::RuntimeView {
                    health: Some(Health::Degraded),
                    error: Some(error::described(failure)),
                    consecutive_failures: if runtime.consecutive_failures < u32::MAX {
                        (runtime.consecutive_failures + 1) as u32
                    } else {
                        u32::MAX
                    },
                    ..runtime
                },
                name,
            );
        },
    }
}

/// A fan is left alone where it is at its duty, its last evaluation did not fail, and its driver
/// does not need the duty again yet.
pub proof fn law_settled_fan_is_left_alone<H: Hardware>(
    before: Engine<H>,
    after: Engine<H>,
    result: Reply<()>,
    name: Seq<char>,
    output: OutputConfig,
    percent: u8,
    health: Health,
    now: Nanos,
)
    requires
        engine::fan_step(before, after, result, name, output, percent, health, now),
        output is Fan,
        before.hardware.fan_fault(output) is None,
        names::find(before@.outputs, name) matches Some(runtime) && runtime.last_target == Some(
            Target::Percent(percent),
        ) && runtime.consecutive_failures == 0 && (before.hardware.refreshes(output) ==> (
        runtime.last_write matches Some(last) && now - last < output->refresh_interval)),
        output->refresh_interval > 0,
    ensures
        quiet(before, after),
        result is Ok,
{
}

/// The health that an output shows.
pub open spec fn health_of(model: EngineModel, name: Seq<char>) -> Option<Health> {
    match names::find(model.outputs, name) {
        Some(runtime) => runtime.health,
        None => None,
    }
}

/// Whether the evaluation of an output failed.
pub open spec fn failed_now(model: EngineModel, name: Seq<char>) -> bool {
    names::find(model.outputs, name) matches Some(runtime) && runtime.consecutive_failures > 0
}

proof fn lemma_noted(model: EngineModel, name: Seq<char>, runtime: policy::RuntimeView)
    requires
        names::sorted(model.outputs),
    ensures
        names::find(engine::with_runtime(model, name, runtime).outputs, name) == Some(runtime),
        forall|other: Seq<char>|
            other != name ==> #[trigger] names::find(
                engine::with_runtime(model, name, runtime).outputs,
                other,
            ) == names::find(model.outputs, other),
{
    names::lemma_find_inserted(model.outputs, name, runtime, name);
    assert forall|other: Seq<char>| other != name implies #[trigger] names::find(
        engine::with_runtime(model, name, runtime).outputs,
        other,
    ) == names::find(model.outputs, other) by {
        names::lemma_find_inserted(model.outputs, name, runtime, other);
    }
}

/// An output shows how it is controlled. A fan or lights with a source that was not read recently
/// show that they fail safe; an output that follows its policy or an override shows that it is
/// healthy, or degraded where its driver gave a warning; and one whose evaluation failed shows that
/// it is degraded.
pub proof fn law_health_tells_how_an_output_is_controlled<H: Hardware, F, G>(
    before: Engine<H>,
    after: Engine<H>,
    name: Seq<char>,
    assignment: AssignmentConfig,
    now: Nanos,
    hour: u32,
    minute: u32,
    blends: Blends<F, G>,
    output: OutputConfig,
    source: int,
) where
    F: Fn(FanPoint, FanPoint, Celsius) -> u8,
    G: Fn(ColorPoint, ColorPoint, Celsius) -> [u8; 3],

    requires
        engine::evaluated(before, after, name, assignment, now, hour, minute, blends),
        names::find(before@.config.outputs@, name) == Some(output),
        names::sorted(before@.outputs),
        !names::has(before@.released, name),
        assignment.sources@.len() > 0,
    ensures
        names::has(after@.outputs, name),
        failed_now(after@, name) ==> health_of(after@, name) == Some(Health::Degraded),
        !failed_now(after@, name) && names::find(before@.overrides, name) is None && !(output
            is Display) && 0 <= source < assignment.sources@.len() && not_read_recently(
            before@,
            assignment.sources@[source]@,
            now,
        ) ==> health_of(after@, name) == Some(Health::FailSafe),
        !failed_now(after@, name) && (names::has(before@.overrides, name) || output is Display || (
        forall|i: int|
            0 <= i < assignment.sources@.len() ==> read_recently(
                before@,
                (#[trigger] assignment.sources@[i])@,
                now,
            ))) ==> health_of(after@, name) == Some(
            if names::find(after@.outputs, name)->0.error is Some {
                Health::Degraded
            } else {
                Health::Healthy
            },
        ),
{
    let (middle, result, blended) = choose|
        middle: Engine<H>,
        result: Reply<()>,
        blended: Blended,
    | #[trigger]
        engine::evaluation(
            before,
            middle,
            after,
            result,
            blended,
            name,
            assignment,
            now,
            hour,
            minute,
            blends,
        );
    if 0 <= source < assignment.sources@.len() && not_read_recently(
        before@,
        assignment.sources@[source]@,
        now,
    ) {
        lemma_none_followed(before@, assignment.sources@, now, source);
    }
    if forall|i: int|
        0 <= i < assignment.sources@.len() ==> read_recently(
            before@,
            (#[trigger] assignment.sources@[i])@,
            now,
        ) {
        let followed = lemma_followed(before@, assignment.sources@, now);
    }
    let decided = policy::decided(before@, name, assignment, now, hour, minute, blended);
    match result {
        Err(failure) => {
            let runtime = engine::runtime_of(before@, name);
            lemma_noted(
                before@,
                name,
                policy::RuntimeView {
                    health: Some(Health::Degraded),
                    error: Some(error::described(failure)),
                    consecutive_failures: if runtime.consecutive_failures < u32::MAX {
                        (runtime.consecutive_failures + 1) as u32
                    } else {
                        u32::MAX
                    },
                    ..runtime
                },
            );
        },
        Ok(_) => {
            lemma_evaluated_output(before, middle, name, decided, output, now);
        },
    }
}

proof fn lemma_evaluated_output<H: Hardware>(
    before: Engine<H>,
    middle: Engine<H>,
    name: Seq<char>,
    decided: policy::DecisionView,
    output: OutputConfig,
    now: Nanos,
)
    requires
        engine::decision_step(before, middle, Ok::<(), ErrorView>(()), name, decided, now),
        names::find(before@.config.outputs@, name) == Some(output),
        names::sorted(before@.outputs),
        !(decided is Released),
    ensures
        names::find(middle@.outputs, name) matches Some(runtime) && {
            &&& runtime.consecutive_failures == 0
            &&& decided matches policy::DecisionView::Fan { health, .. } ==> runtime.health == Some(
                if health == Health::Healthy && runtime.error is Some {
                    Health::Degraded
                } else {
                    health
                },
            )
            &&& decided matches policy::DecisionView::Rgb { health, .. } ==> runtime.health == Some(
                health,
            ) && runtime.error is None
            &&& decided is Display ==> runtime.health == Some(Health::Healthy) && runtime.error
                is None
        },
{
    let known = engine::runtime_of(before@, name);
    let call = middle.hardware.calls().last();
    match decided {
        policy::DecisionView::Fan { percent, health } => {
            lemma_noted(
                before@,
                name,
                policy::RuntimeView {
                    health: Some(engine::fan_health_of(health, known.error is Some)),
                    consecutive_failures: 0,
                    ..known
                },
            );
            let write = call->SetFan_reply->Ok_0;
            lemma_noted(
                before@,
                name,
                policy::RuntimeView {
                    last_target: Some(Target::Percent(percent)),
                    last_write: Some(now),
                    observed: Some(write.observed),
                    health: Some(engine::fan_health_of(health, write.warning is Some)),
                    error: write.warning,
                    consecutive_failures: 0,
                },
            );
        },
        policy::DecisionView::Rgb { rgb, health } => {
            lemma_noted(
                before@,
                name,
                policy::RuntimeView {
                    health: Some(health),
                    error: None,
                    consecutive_failures: 0,
                    ..known
                },
            );
            lemma_noted(
                before@,
                name,
                policy::RuntimeView {
                    last_target: Some(policy::rgb_target(rgb)),
                    last_write: Some(now),
                    observed: Some(call->SetRgb_reply->Ok_0),
                    health: Some(health),
                    error: None,
                    consecutive_failures: 0,
                },
            );
        },
        policy::DecisionView::Display { target } => {
            lemma_noted(
                before@,
                name,
                policy::RuntimeView {
                    health: Some(Health::Healthy),
                    error: None,
                    consecutive_failures: 0,
                    ..known
                },
            );
            lemma_noted(
                before@,
                name,
                policy::RuntimeView {
                    last_target: Some(policy::display_target(target)),
                    last_write: Some(now),
                    observed: Some(call->SetDisplay_reply->Ok_0),
                    health: Some(Health::Healthy),
                    error: None,
                    consecutive_failures: 0,
                },
            );
        },
        _ => {},
    }
}

/// A color or a display state that the hardware accepts is noted: what was set, the time, what was
/// observed, and that nothing failed.
pub proof fn law_other_writes_are_noted<H: Hardware, F, G>(
    before: Engine<H>,
    after: Engine<H>,
    name: Seq<char>,
    assignment: AssignmentConfig,
    now: Nanos,
    hour: u32,
    minute: u32,
    blends: Blends<F, G>,
) where
    F: Fn(FanPoint, FanPoint, Celsius) -> u8,
    G: Fn(ColorPoint, ColorPoint, Celsius) -> [u8; 3],

    requires
        engine::evaluated(before, after, name, assignment, now, hour, minute, blends),
        names::sorted(before@.outputs),
        asked(before, after),
    ensures
        after.hardware.calls().last() matches Call::SetRgb { rgb, reply: Ok(observed), .. } ==> (
        names::find(after@.outputs, name) matches Some(runtime) && runtime.last_target == Some(
            Target::Rgb(rgb[0], rgb[1], rgb[2]),
        ) && runtime.last_write == Some(now) && runtime.observed == Some(observed) && runtime.error
            is None && runtime.consecutive_failures == 0),
        after.hardware.calls().last() matches Call::SetDisplay { target, reply: Ok(observed), .. }
            ==> (names::find(after@.outputs, name) matches Some(runtime) && runtime.last_target
            == Some(
            match target {
                DisplayTarget::Awake { brightness_percent } => Target::Percent(brightness_percent),
                DisplayTarget::Sleep => Target::Sleep,
            },
        ) && runtime.last_write == Some(now) && runtime.observed == Some(observed) && runtime.error
            is None && runtime.consecutive_failures == 0),
{
    let (middle, result, blended) = choose|
        middle: Engine<H>,
        result: Reply<()>,
        blended: Blended,
    | #[trigger]
        engine::evaluation(
            before,
            middle,
            after,
            result,
            blended,
            name,
            assignment,
            now,
            hour,
            minute,
            blends,
        );
    assert(middle.hardware.calls().len() != before.hardware.calls().len());
    let decided = policy::decided(before@, name, assignment, now, hour, minute, blended);
    let call = middle.hardware.calls().last();
    match decided {
        policy::DecisionView::Rgb { rgb, health } => {
            lemma_noted(
                before@,
                name,
                policy::RuntimeView {
                    last_target: Some(policy::rgb_target(rgb)),
                    last_write: Some(now),
                    observed: Some(call->SetRgb_reply->Ok_0),
                    health: Some(health),
                    error: None,
                    consecutive_failures: 0,
                },
            );
        },
        policy::DecisionView::Display { target } => {
            lemma_noted(
                before@,
                name,
                policy::RuntimeView {
                    last_target: Some(policy::display_target(target)),
                    last_write: Some(now),
                    observed: Some(call->SetDisplay_reply->Ok_0),
                    health: Some(Health::Healthy),
                    error: None,
                    consecutive_failures: 0,
                },
            );
        },
        _ => {},
    }
}

/// A daemon that has to stop has a fan that is not isolated and failed as often as it may.
pub proof fn law_daemon_stops_for_a_failing_fan<H: Hardware>(engine: Engine<H>)
    requires
        engine::must_stop(engine),
    ensures
        exists|at: int|
            0 <= at < engine@.outputs.len() && (
            #[trigger] engine@.outputs[at]).1.consecutive_failures
                >= engine@.config.daemon.failure_limit && (names::find(
                engine@.config.outputs@,
                engine@.outputs[at].0,
            ) matches Some(output) && output is Fan && !engine.hardware.isolated(output)),
{
}

/// The daemon stops where a fan that is not isolated failed as often as it may.
pub proof fn law_failing_fan_stops_the_daemon<H: Hardware>(engine: Engine<H>, at: int)
    requires
        0 <= at < engine@.outputs.len(),
        engine@.outputs[at].1.consecutive_failures >= engine@.config.daemon.failure_limit,
        names::find(engine@.config.outputs@, engine@.outputs[at].0) matches Some(output) && output
            is Fan && !engine.hardware.isolated(output),
    ensures
        engine::must_stop(engine),
{
    assert(engine::failure_stops(engine, engine@.outputs[at].0));
}

// ---------------------------------------------------------------- lights

/// Whether the off schedule of an assignment is active at a time of the day.
pub open spec fn is_off(
    model: EngineModel,
    assignment: AssignmentConfig,
    hour: u32,
    minute: u32,
) -> bool {
    assignment.off_schedule matches Some(name) && (names::find(
        model.config.schedules@,
        name@,
    ) matches Some(schedule) && curve::active(hour, minute, schedule.start@, schedule.end@))
}

/// Lights with a source that was never read, or not recently, are turned off.
pub proof fn law_stale_lights_are_turned_off<H: Hardware, F, G>(
    before: Engine<H>,
    after: Engine<H>,
    name: Seq<char>,
    assignment: AssignmentConfig,
    now: Nanos,
    hour: u32,
    minute: u32,
    blends: Blends<F, G>,
    output: OutputConfig,
    source: int,
) where
    F: Fn(FanPoint, FanPoint, Celsius) -> u8,
    G: Fn(ColorPoint, ColorPoint, Celsius) -> [u8; 3],

    requires
        engine::evaluated(before, after, name, assignment, now, hour, minute, blends),
        names::find(before@.config.outputs@, name) == Some(output),
        output is Rgb,
        by_policy(before@, name),
        0 <= source < assignment.sources@.len(),
        not_read_recently(before@, assignment.sources@[source]@, now),
    ensures
        color_told(before, after, name, output, [0u8, 0u8, 0u8]),
{
    lemma_none_followed(before@, assignment.sources@, now, source);
    let (middle, result, blended) = choose|
        middle: Engine<H>,
        result: Reply<()>,
        blended: Blended,
    | #[trigger]
        engine::evaluation(
            before,
            middle,
            after,
            result,
            blended,
            name,
            assignment,
            now,
            hour,
            minute,
            blends,
        );
    lemma_pushed(before, middle);
}

/// Lights whose sources were all read recently show the color of their curve at the hottest of
/// them, or are off while their off schedule is active.
pub proof fn law_lights_follow_their_hottest_source<H: Hardware, F, G>(
    before: Engine<H>,
    after: Engine<H>,
    name: Seq<char>,
    assignment: AssignmentConfig,
    now: Nanos,
    hour: u32,
    minute: u32,
    blends: Blends<F, G>,
    output: OutputConfig,
    points: Seq<ColorPoint>,
) where
    F: Fn(FanPoint, FanPoint, Celsius) -> u8,
    G: Fn(ColorPoint, ColorPoint, Celsius) -> [u8; 3],

    requires
        engine::evaluated(before, after, name, assignment, now, hour, minute, blends),
        names::find(before@.config.outputs@, name) == Some(output),
        output is Rgb,
        by_policy(before@, name),
        assignment.sources@.len() > 0,
        forall|i: int|
            0 <= i < assignment.sources@.len() ==> read_recently(
                before@,
                (#[trigger] assignment.sources@[i])@,
                now,
            ),
        assignment.color_curve matches Some(curve) && (names::find(
            before@.config.color_curves@,
            curve@,
        ) matches Some(found) && found.points@ == points),
    ensures
        is_off(before@, assignment, hour, minute) ==> color_told(
            before,
            after,
            name,
            output,
            [0u8, 0u8, 0u8],
        ),
        !is_off(before@, assignment, hour, minute) ==> exists|followed: Celsius, blended: [u8; 3]|
            {
                &&& #[trigger] is_hottest(before@, assignment.sources@, followed)
                &&& #[trigger] curve::color_blend(blends.color, points, followed, blended)
                &&& color_told(
                    before,
                    after,
                    name,
                    output,
                    curve::color_value(points, followed, blended),
                )
            },
{
    let followed = lemma_followed(before@, assignment.sources@, now);
    let (middle, result, blended) = choose|
        middle: Engine<H>,
        result: Reply<()>,
        blended: Blended,
    | #[trigger]
        engine::evaluation(
            before,
            middle,
            after,
            result,
            blended,
            name,
            assignment,
            now,
            hour,
            minute,
            blends,
        );
    lemma_pushed(before, middle);
    if !is_off(before@, assignment, hour, minute) {
        assert(curve::color_blend(blends.color, points, followed, blended.rgb));
        assert(is_hottest(before@, assignment.sources@, followed));
        assert(color_told(
            before,
            after,
            name,
            output,
            curve::color_value(points, followed, blended.rgb),
        ));
    }
}

/// Lights with an override show the color of the override.
pub proof fn law_overridden_lights_show_the_override<H: Hardware, F, G>(
    before: Engine<H>,
    after: Engine<H>,
    name: Seq<char>,
    assignment: AssignmentConfig,
    now: Nanos,
    hour: u32,
    minute: u32,
    blends: Blends<F, G>,
    output: OutputConfig,
    rgb: [u8; 3],
) where
    F: Fn(FanPoint, FanPoint, Celsius) -> u8,
    G: Fn(ColorPoint, ColorPoint, Celsius) -> [u8; 3],

    requires
        engine::evaluated(before, after, name, assignment, now, hour, minute, blends),
        names::find(before@.config.outputs@, name) == Some(output),
        output is Rgb,
        !names::has(before@.released, name),
        names::find(before@.overrides, name) matches Some(active) && active.value
            == OverrideValue::Rgb(rgb),
    ensures
        color_told(before, after, name, output, rgb),
{
    let (middle, result, blended) = choose|
        middle: Engine<H>,
        result: Reply<()>,
        blended: Blended,
    | #[trigger]
        engine::evaluation(
            before,
            middle,
            after,
            result,
            blended,
            name,
            assignment,
            now,
            hour,
            minute,
            blends,
        );
    lemma_pushed(before, middle);
}

// ---------------------------------------------------------------- displays

/// A display sleeps while its off schedule is active, and is awake at its brightness otherwise.
pub proof fn law_display_follows_its_schedule<H: Hardware, F, G>(
    before: Engine<H>,
    after: Engine<H>,
    name: Seq<char>,
    assignment: AssignmentConfig,
    now: Nanos,
    hour: u32,
    minute: u32,
    blends: Blends<F, G>,
    output: OutputConfig,
) where
    F: Fn(FanPoint, FanPoint, Celsius) -> u8,
    G: Fn(ColorPoint, ColorPoint, Celsius) -> [u8; 3],

    requires
        engine::evaluated(before, after, name, assignment, now, hour, minute, blends),
        names::find(before@.config.outputs@, name) == Some(output),
        output is Display,
        by_policy(before@, name),
    ensures
        is_off(before@, assignment, hour, minute) ==> display_told(
            before,
            after,
            name,
            output,
            DisplayTarget::Sleep,
        ),
        !is_off(before@, assignment, hour, minute) ==> display_told(
            before,
            after,
            name,
            output,
            DisplayTarget::Awake { brightness_percent: output->brightness_percent },
        ),
{
    let (middle, result, blended) = choose|
        middle: Engine<H>,
        result: Reply<()>,
        blended: Blended,
    | #[trigger]
        engine::evaluation(
            before,
            middle,
            after,
            result,
            blended,
            name,
            assignment,
            now,
            hour,
            minute,
            blends,
        );
    lemma_pushed(before, middle);
}

/// A display with an override is awake at its brightness where that says on, and sleeps where it
/// says off.
pub proof fn law_overridden_display_follows_the_override<H: Hardware, F, G>(
    before: Engine<H>,
    after: Engine<H>,
    name: Seq<char>,
    assignment: AssignmentConfig,
    now: Nanos,
    hour: u32,
    minute: u32,
    blends: Blends<F, G>,
    output: OutputConfig,
    on: bool,
) where
    F: Fn(FanPoint, FanPoint, Celsius) -> u8,
    G: Fn(ColorPoint, ColorPoint, Celsius) -> [u8; 3],

    requires
        engine::evaluated(before, after, name, assignment, now, hour, minute, blends),
        names::find(before@.config.outputs@, name) == Some(output),
        output is Display,
        !names::has(before@.released, name),
        names::find(before@.overrides, name) matches Some(active) && active.value
            == OverrideValue::Display(on),
    ensures
        on ==> display_told(
            before,
            after,
            name,
            output,
            DisplayTarget::Awake { brightness_percent: output->brightness_percent },
        ),
        !on ==> display_told(before, after, name, output, DisplayTarget::Sleep),
{
    let (middle, result, blended) = choose|
        middle: Engine<H>,
        result: Reply<()>,
        blended: Blended,
    | #[trigger]
        engine::evaluation(
            before,
            middle,
            after,
            result,
            blended,
            name,
            assignment,
            now,
            hour,
            minute,
            blends,
        );
    lemma_pushed(before, middle);
}

// ---------------------------------------------------------------- readings

/// A reading counts from -50 through 150 degrees, as binary64 numbers: a negative one by its
/// magnitude below that of -50, any other up to the pattern of 150.
pub proof fn law_plausible_temperatures(celsius: Celsius)
    ensures
        celsius.plausible() <==> {
            ||| celsius.bits <= 0x4062_c000_0000_0000
            ||| 0x8000_0000_0000_0000 <= celsius.bits <= 0xc049_0000_0000_0000
        },
{
}

/// A plausible sample becomes the reading of its sensor, with the time; anything else leaves the
/// reading as it was, and is noted as an error of the sensor. Other sensors keep theirs.
pub proof fn law_samples_are_taken_over(
    model: EngineModel,
    sensor: Seq<char>,
    reply: Reply<SampleView>,
    now: Nanos,
    other: Seq<char>,
)
    requires
        names::sorted(model.readings),
        names::sorted(model.sensor_errors),
    ensures
        ({
            let after = engine::absorbed(model, sensor, reply, now);
            &&& match reply {
                Ok(sample) => if sample.celsius.plausible() {
                    &&& names::find(after.readings, sensor) matches Some(reading) && reading.value
                        == sample.celsius && reading.observed_at == now
                    &&& !names::has(after.sensor_errors, sensor)
                } else {
                    &&& after.readings == model.readings
                    &&& names::has(after.sensor_errors, sensor)
                },
                Err(why) => {
                    &&& after.readings == model.readings
                    &&& names::find(after.sensor_errors, sensor) == Some(error::described(why))
                },
            }
            &&& other != sensor ==> {
                &&& names::find(after.readings, other) == names::find(model.readings, other)
                &&& names::find(after.sensor_errors, other) == names::find(
                    model.sensor_errors,
                    other,
                )
            }
        }),
{
    match reply {
        Ok(sample) => {
            if sample.celsius.plausible() {
                let reading = policy::CachedReading { value: sample.celsius, observed_at: now };
                names::lemma_find_inserted(model.readings, sensor, reading, sensor);
                names::lemma_find_inserted(model.readings, sensor, reading, other);
                names::lemma_find_removed(model.sensor_errors, sensor, sensor);
                names::lemma_find_removed(model.sensor_errors, sensor, other);
            } else {
                let message = "invalid temperature "@ + sample.text;
                names::lemma_find_inserted(model.sensor_errors, sensor, message, sensor);
                names::lemma_find_inserted(model.sensor_errors, sensor, message, other);
            }
        },
        Err(why) => {
            let message = error::described(why);
            names::lemma_find_inserted(model.sensor_errors, sensor, message, sensor);
            names::lemma_find_inserted(model.sensor_errors, sensor, message, other);
        },
    }
}

/// Sensors are read at the first tick, and then once the poll interval passed since they were read
/// last; each configured sensor is read once, in order.
pub proof fn law_sensors_are_polled<H: Hardware>(
    before: Engine<H>,
    after: Engine<H>,
    now: Nanos,
    at: int,
)
    requires
        engine::prepared(before, after, now),
        before@.last_sensor_poll matches Some(last) ==> now - last
            >= before@.config.daemon.poll_interval && last <= now,
        0 <= at < before@.config.sensors@.len(),
    ensures
        after@.last_sensor_poll == Some(now),
        after.hardware.calls().len() == before.hardware.calls().len()
            + before@.config.sensors@.len(),
        after.hardware.calls()[before.hardware.calls().len() + at] matches Call::ReadSensor {
            alias,
            config,
            ..
        } && alias == before@.config.sensors@[at].0 && config == before@.config.sensors@[at].1,
{
    let (ready, read) = choose|ready: Engine<H>, read: Engine<H>|
        {
            &&& engine::became(before, ready, engine::expired(before@, now))
            &&& #[trigger] engine::poll_step(ready, read, now)
            &&& after.hardware == read.hardware
            &&& after@ == (EngineModel { last_sensor_poll: Some(now), ..read@ })
        };
    let start = ready.hardware.calls().len() as int;
    let calls = read.hardware.calls().skip(start);
    assert(engine::reads_sensor(ready@.config, at, calls[at]));
    assert(calls[at] == read.hardware.calls()[start + at]);
}

/// Every output that the active profile assigns is evaluated at a tick.
pub proof fn law_every_assignment_is_evaluated<H: Hardware, F, G>(
    before: Engine<H>,
    after: Engine<H>,
    stop: bool,
    states: Seq<Engine<H>>,
    now: Nanos,
    hour: u32,
    minute: u32,
    blends: Blends<F, G>,
    name: Seq<char>,
) -> (at: int) where
    F: Fn(FanPoint, FanPoint, Celsius) -> u8,
    G: Fn(ColorPoint, ColorPoint, Celsius) -> [u8; 3],

    requires
        engine::tick_run(before, after, stop, states, now, hour, minute, blends),
        names::find(states[0]@.config.profiles@, states[0]@.active_profile) matches Some(profile)
            && names::has(profile.outputs@, name),
    ensures
        0 <= at < states.len() - 1,
        engine::evaluated(
            states[at],
            states[at + 1],
            name,
            names::find(
                names::find(states[0]@.config.profiles@, states[0]@.active_profile)->0.outputs@,
                name,
            )->0,
            now,
            hour,
            minute,
            blends,
        ),
        engine::untouched(states.last(), after),
{
    let assignments = names::find(
        states[0]@.config.profiles@,
        states[0]@.active_profile,
    )->0.outputs@;
    let at = names::slot(assignments, name) as int;
    assert(engine::evaluated(
        states[at],
        states[at + 1],
        assignments[at].0,
        assignments[at].1,
        now,
        hour,
        minute,
        blends,
    ));
    at
}

// ---------------------------------------------------------------- overrides

/// A fan override is accepted exactly where it lasts, its duty is at most 100, the output is a fan
/// that the active profile controls, its duty is not below the minimum or that was confirmed, and
/// its end is within the clock.
pub proof fn law_fan_override_is_accepted(
    model: EngineModel,
    output: Seq<char>,
    percent: u8,
    ttl: Nanos,
    allow_below_minimum: bool,
    now: Nanos,
)
    ensures
        control::fan_override_refused(model, output, percent, ttl, allow_below_minimum, now) is None
            <==> {
            &&& ttl > 0
            &&& percent <= 100
            &&& names::find(model.config.outputs@, output) matches Some(found) && found is Fan && (
            allow_below_minimum || percent >= found->minimum_percent)
            &&& names::find(model.config.profiles@, model.active_profile) matches Some(profile)
                && names::has(profile.outputs@, output)
            &&& !names::has(model.released, output)
            &&& now + ttl <= 9_223_372_036_854_775_807_999_999_999
        },
{
}

/// A color or display override is accepted exactly where it lasts, the output is of that kind and
/// the active profile controls it, and its end is within the clock.
pub proof fn law_other_overrides_are_accepted(
    model: EngineModel,
    output: Seq<char>,
    ttl: Nanos,
    now: Nanos,
)
    ensures
        ({
            let possible = {
                &&& ttl > 0
                &&& names::find(model.config.profiles@, model.active_profile) matches Some(profile)
                    && names::has(profile.outputs@, output)
                &&& !names::has(model.released, output)
                &&& now + ttl <= 9_223_372_036_854_775_807_999_999_999
            };
            &&& control::rgb_override_refused(model, output, ttl, now) is None <==> possible && (
            names::find(model.config.outputs@, output) matches Some(found) && found is Rgb)
            &&& control::display_override_refused(model, output, ttl, now) is None <==> possible && (
            names::find(model.config.outputs@, output) matches Some(found) && found is Display)
        }),
{
}

/// An accepted override is the value of its output until its time has passed, and changes nothing
/// else.
pub proof fn law_override_holds_for_its_time(
    model: EngineModel,
    output: Seq<char>,
    value: OverrideValue,
    ttl: Nanos,
    now: Nanos,
    later: Nanos,
    other: Seq<char>,
)
    requires
        names::sorted(model.overrides),
        now + ttl <= u128::MAX,
        now <= later,
    ensures
        ({
            let after = engine::expired(
                control::with_override(model, output, value, ttl, now),
                later,
            );
            &&& later - now < ttl ==> (names::find(after.overrides, output) matches Some(active)
                && active.value == value)
            &&& later - now >= ttl ==> names::find(after.overrides, output) is None
            &&& other != output && names::find(model.overrides, other) is None ==> names::find(
                after.overrides,
                other,
            ) is None
            &&& after == (EngineModel { overrides: after.overrides, ..model })
        }),
{
    let with = control::with_override(model, output, value, ttl, now);
    let active = policy::ActiveOverride { value, expires_at: (now + ttl) as u128 };
    names::lemma_inserted_sorted(model.overrides, output, active);
    names::lemma_find_inserted(model.overrides, output, active, output);
    names::lemma_find_inserted(model.overrides, output, active, other);
    crate::laws::law_overrides_expire(with, later, output);
    crate::laws::law_overrides_expire(with, later, other);
}

// ---------------------------------------------------------------- giving hardware back

/// Whether a call gave a device back, and succeeded.
pub open spec fn gives_back(call: Call, device: Seq<char>) -> bool {
    call matches Call::Release { config, reply, .. } && validation::device_of(config) == device
        && reply is Ok
}

/// Whether a device was given back since earlier calls.
pub open spec fn given_back<H: Hardware>(
    before: Engine<H>,
    after: Engine<H>,
    device: Seq<char>,
) -> bool {
    exists|i: int|
        before.hardware.calls().len() <= i < after.hardware.calls().len() && gives_back(
            #[trigger] after.hardware.calls()[i],
            device,
        )
}

proof fn lemma_release_step<H: Hardware>(
    before: Engine<H>,
    after: Engine<H>,
    device: Seq<char>,
)
    requires
        control::release_step(before, after, Ok::<(), ErrorView>(()), device),
    ensures
        after.hardware.calls().len() == before.hardware.calls().len() + 1,
        after.hardware.calls().take(before.hardware.calls().len() as int)
            == before.hardware.calls(),
        gives_back(after.hardware.calls().last(), device),
{
    let outputs = before@.config.outputs@;
    let check = control::output_on(outputs, device);
    let at = search::lemma_some(check, 0, outputs.len() as int);
    let call = after.hardware.calls().last();
    assert(before.hardware.calls().push(call).take(before.hardware.calls().len() as int)
        =~= before.hardware.calls());
}

proof fn lemma_calls_stay<H: Hardware>(
    states: Seq<Engine<H>>,
    devices: Seq<Seq<char>>,
    at: int,
    last: int,
)
    requires
        0 <= at <= last < states.len(),
        forall|i: int|
            0 <= i < states.len() - 1 ==> control::release_step(
                #[trigger] states[i],
                states[i + 1],
                Ok::<(), ErrorView>(()),
                devices[i],
            ),
    ensures
        states[at].hardware.calls().len() + (last - at) == states[last].hardware.calls().len(),
        states[last].hardware.calls().take(states[at].hardware.calls().len() as int)
            == states[at].hardware.calls(),
    decreases last - at,
{
    if at < last {
        lemma_calls_stay(states, devices, at, last - 1);
        assert(control::release_step(
            states[last - 1],
            states[last - 1 + 1],
            Ok::<(), ErrorView>(()),
            devices[last - 1],
        ));
        lemma_release_step(states[last - 1], states[last], devices[last - 1]);
        let first = states[at].hardware.calls();
        let middle = states[last - 1].hardware.calls();
        let end = states[last].hardware.calls();
        assert(end.take(first.len() as int) =~= first) by {
            assert forall|i: int| 0 <= i < first.len() implies end[i] == first[i] by {
                assert(end.take(middle.len() as int)[i] == middle[i]);
                assert(middle.take(first.len() as int)[i] == first[i]);
            }
        }
    } else {
        assert(states[at].hardware.calls().take(states[at].hardware.calls().len() as int)
            =~= states[at].hardware.calls());
    }
}

/// Where giving devices back succeeds, each of them was given back.
pub proof fn law_each_device_is_given_back<H: Hardware>(
    before: Engine<H>,
    after: Engine<H>,
    result: Reply<()>,
    devices: Seq<Seq<char>>,
    which: int,
)
    requires
        control::released_all(before, after, result, devices),
        result is Ok,
        0 <= which < devices.len(),
    ensures
        given_back(before, after, devices[which]),
{
    let states = choose|states: Seq<Engine<H>>|
        #[trigger] control::release_run(before, after, result, devices, states);
    let last = states.len() - 1;
    lemma_calls_stay(states, devices, 0, which);
    lemma_calls_stay(states, devices, which + 1, last);
    assert(control::release_step(
        states[which],
        states[which + 1],
        Ok::<(), ErrorView>(()),
        devices[which],
    ));
    lemma_release_step(states[which], states[which + 1], devices[which]);
    let calls = states[which + 1].hardware.calls();
    let at = calls.len() - 1;
    let all = after.hardware.calls();
    assert(all.take(calls.len() as int)[at] == calls[at]);
    assert(gives_back(all[at], devices[which]));
}

/// Whether an output that a profile assigns, and that is not excluded, is on a device.
pub open spec fn assigns(
    model: EngineModel,
    profile: Seq<char>,
    excluded: control::Names,
    output: Seq<char>,
    device: Seq<char>,
) -> bool {
    &&& names::find(model.config.profiles@, profile) matches Some(found) && names::has(
        found.outputs@,
        output,
    )
    &&& !names::has(excluded, output)
    &&& names::find(model.config.outputs@, output) matches Some(settings) && validation::device_of(
        settings,
    ) == device
}

proof fn lemma_devices_named(
    model: EngineModel,
    outputs: Seq<Seq<char>>,
    excluded: control::Names,
    count: int,
    device: Seq<char>,
)
    requires
        0 <= count <= outputs.len(),
    ensures
        names::sorted(control::devices_named(model.config, outputs, excluded, count)),
        names::has(control::devices_named(model.config, outputs, excluded, count), device)
            <==> exists|i: int|
            {
                &&& 0 <= i < count
                &&& !names::has(excluded, #[trigger] outputs[i])
                &&& names::find(model.config.outputs@, outputs[i]) matches Some(settings)
                    && validation::device_of(settings) == device
            },
    decreases count,
{
    if count > 0 {
        lemma_devices_named(model, outputs, excluded, count - 1, device);
        let earlier = control::devices_named(model.config, outputs, excluded, count - 1);
        let name = outputs[count - 1];
        if !names::has(excluded, name) {
            if let Some(settings) = names::find(model.config.outputs@, name) {
                let own = validation::device_of(settings);
                names::lemma_inserted_sorted(earlier, own, ());
                names::lemma_find_inserted(earlier, own, (), device);
                if own == device {
                    assert(!names::has(excluded, outputs[count - 1]));
                }
            }
        }
    }
}

proof fn lemma_profile_devices(
    model: EngineModel,
    profile: Seq<char>,
    excluded: control::Names,
    device: Seq<char>,
)
    requires
        names::find(model.config.profiles@, profile) matches Some(found) ==> names::sorted(
            found.outputs@,
        ),
    ensures
        names::sorted(control::profile_devices_of(model.config, profile, excluded)),
        names::has(control::profile_devices_of(model.config, profile, excluded), device)
            <==> exists|output: Seq<char>| #[trigger]
            assigns(model, profile, excluded, output, device),
{
    if let Some(found) = names::find(model.config.profiles@, profile) {
        let entries = found.outputs@;
        let outputs = names::names(entries);
        let count = entries.len() as int;
        lemma_devices_named(model, outputs, excluded, count, device);
        if exists|i: int|
            {
                &&& 0 <= i < count
                &&& !names::has(excluded, #[trigger] outputs[i])
                &&& names::find(model.config.outputs@, outputs[i]) matches Some(settings)
                    && validation::device_of(settings) == device
            } {
            let i = choose|i: int|
                {
                    &&& 0 <= i < count
                    &&& !names::has(excluded, #[trigger] outputs[i])
                    &&& names::find(model.config.outputs@, outputs[i]) matches Some(settings)
                        && validation::device_of(settings) == device
                };
            names::lemma_find_at(entries, i);
            assert(assigns(model, profile, excluded, outputs[i], device));
        }
        if exists|output: Seq<char>| #[trigger] assigns(model, profile, excluded, output, device) {
            let output = choose|output: Seq<char>| #[trigger]
                assigns(model, profile, excluded, output, device);
            let i = names::slot(entries, output) as int;
            assert(outputs[i] == output);
        }
    } else {
        assert(!names::has(Seq::<(Seq<char>, ())>::empty(), device));
    }
}

proof fn lemma_without(left: control::Names, other: control::Names, count: int, at: int)
    requires
        0 <= at < count <= left.len(),
        !names::has(other, left[at].0),
    ensures
        control::without(left, other, count).contains(left[at].0),
    decreases count,
{
    let list = control::without(left, other, count);
    if at == count - 1 {
        assert(list[list.len() - 1] == left[at].0);
    } else {
        lemma_without(left, other, count - 1, at);
        let earlier = control::without(left, other, count - 1);
        let i = choose|i: int| 0 <= i < earlier.len() && earlier[i] == left[at].0;
        assert(list[i] == left[at].0);
    }
}

/// A profile change gives back every device that the old profile controlled, unless all its
/// outputs were released, and that the new one does not.
pub proof fn law_profile_change_gives_devices_back<H: Hardware>(
    before: Engine<H>,
    after: Engine<H>,
    profile: Seq<char>,
    output: Seq<char>,
    device: Seq<char>,
)
    requires
        names::find(before@.config.profiles@, before@.active_profile) matches Some(found)
            ==> names::sorted(found.outputs@),
        names::find(before@.config.profiles@, profile) matches Some(found) ==> names::sorted(
            found.outputs@,
        ),
        control::profile_step(before, after, Ok::<(), ErrorView>(()), profile),
        assigns(before@, before@.active_profile, before@.released, output, device),
        forall|other: Seq<char>|
            !(#[trigger] assigns(before@, profile, Seq::empty(), other, device)),
    ensures
        given_back(before, after, device),
{
    let freed = choose|freed: Engine<H>|
        {
            &&& #[trigger] control::released_all(
                before,
                freed,
                Ok::<(), ErrorView>(()),
                control::left_behind(before@, profile),
            )
            &&& engine::became(freed, after, control::with_profile(freed@, profile))
        };
    let current = control::controlled_devices(before@);
    let kept = control::profile_devices_of(before@.config, profile, Seq::empty());
    lemma_profile_devices(before@, before@.active_profile, before@.released, device);
    lemma_profile_devices(before@, profile, Seq::empty(), device);
    let at = names::slot(current, device) as int;
    lemma_without(current, kept, current.len() as int, at);
    let list = control::left_behind(before@, profile);
    let which = choose|i: int| 0 <= i < list.len() && list[i] == device;
    law_each_device_is_given_back(before, freed, Ok(()), list, which);
}

proof fn lemma_without_none(left: control::Names, other: control::Names, count: int, i: int)
    requires
        0 <= count <= left.len(),
        0 <= i < control::without(left, other, count).len(),
    ensures
        !names::has(other, control::without(left, other, count)[i]),
    decreases count,
{
    if count > 0 {
        let earlier = control::without(left, other, count - 1);
        if names::has(other, left[count - 1].0) || i < earlier.len() {
            lemma_without_none(left, other, count - 1, i);
        }
    }
}

/// A profile change that succeeds asks the hardware for nothing but to give devices back, and for
/// none that the new profile controls.
pub proof fn law_profile_change_keeps_shared_devices<H: Hardware>(
    before: Engine<H>,
    after: Engine<H>,
    profile: Seq<char>,
    at: int,
    other: Seq<char>,
)
    requires
        names::find(before@.config.profiles@, profile) matches Some(found) ==> names::sorted(
            found.outputs@,
        ),
        control::profile_step(before, after, Ok::<(), ErrorView>(()), profile),
        before.hardware.calls().len() <= at < after.hardware.calls().len(),
    ensures
        after.hardware.calls()[at] matches Call::Release { config, .. } && !assigns(
            before@,
            profile,
            Seq::empty(),
            other,
            validation::device_of(config),
        ),
{
    let list = control::left_behind(before@, profile);
    let result = Ok::<(), ErrorView>(());
    let freed = choose|freed: Engine<H>|
        {
            &&& #[trigger] control::released_all(before, freed, result, list)
            &&& engine::became(freed, after, control::with_profile(freed@, profile))
        };
    let states = choose|states: Seq<Engine<H>>|
        #[trigger] control::release_run(before, freed, result, list, states);
    let which = at - before.hardware.calls().len();
    lemma_calls_stay(states, list, 0, states.len() - 1);
    lemma_calls_stay(states, list, 0, which);
    lemma_calls_stay(states, list, which + 1, states.len() - 1);
    assert(control::release_step(states[which], states[which + 1], result, list[which]));
    lemma_release_step(states[which], states[which + 1], list[which]);
    let calls = states[which + 1].hardware.calls();
    assert(freed.hardware.calls().take(calls.len() as int)[at] == calls[at]);
    assert(gives_back(after.hardware.calls()[at], list[which]));
    let current = control::controlled_devices(before@);
    let kept = control::profile_devices_of(before@.config, profile, Seq::empty());
    lemma_without_none(current, kept, current.len() as int, which);
    lemma_profile_devices(before@, profile, Seq::empty(), list[which]);
}

/// A reload gives back every device that the active profile controls before the new configuration
/// is activated, and activates it then.
pub proof fn law_reload_gives_devices_back<H: Hardware>(
    before: Engine<H>,
    after: Engine<H>,
    candidate: crate::config::Config,
    output: Seq<char>,
    device: Seq<char>,
)
    requires
        names::find(before@.config.profiles@, before@.active_profile) matches Some(found)
            ==> names::sorted(found.outputs@),
        control::reload_step(before, after, Ok::<(), ErrorView>(()), candidate),
        assigns(before@, before@.active_profile, before@.released, output, device),
    ensures
        given_back(before, after, device),
        after.hardware.calls().last() == (Call::Commit { config: candidate }),
        after@.config == candidate,
{
    let (checked, freed, outcome) = choose|
        checked: Engine<H>,
        freed: Engine<H>,
        outcome: Reply<()>,
    | #[trigger]
        control::reload_run(
            before,
            checked,
            freed,
            after,
            outcome,
            Ok::<(), ErrorView>(()),
            candidate,
        );
    lemma_profile_devices(before@, before@.active_profile, before@.released, device);
    let current = control::controlled_devices(before@);
    let list = names::names(current);
    let at = names::slot(current, device) as int;
    assert(list[at] == device);
    law_each_device_is_given_back(checked, freed, outcome, list, at);
    let i = choose|i: int|
        checked.hardware.calls().len() <= i < freed.hardware.calls().len() && gives_back(
            #[trigger] freed.hardware.calls()[i],
            device,
        );
    assert(after.hardware.calls()[i] == freed.hardware.calls()[i]);
}

/// A release of an output gives back the device that it is on.
pub proof fn law_release_gives_the_device_back<H: Hardware>(
    before: Engine<H>,
    after: Engine<H>,
    released: Seq<Seq<char>>,
    output: Seq<char>,
    settings: OutputConfig,
)
    requires
        control::release_command(
            before,
            after,
            Ok::<Seq<Seq<char>>, ErrorView>(released),
            Some(output),
        ),
        names::find(before@.config.outputs@, output) == Some(settings),
    ensures
        given_back(before, after, validation::device_of(settings)),
{
    let device = validation::device_of(settings);
    let none = Seq::<(Seq<char>, ())>::empty();
    let devices = names::inserted(none, device, ());
    names::lemma_find_inserted(none, device, (), device);
    let list = names::names(devices);
    let (freed, outcome) = choose|freed: Engine<H>, outcome: Reply<()>|
        {
            &&& #[trigger] control::released_all(before, freed, outcome, list)
            &&& match outcome {
                Err(error) => false,
                Ok(_) => freed.hardware == after.hardware,
            }
        };
    let at = names::slot(devices, device) as int;
    assert(list[at] == device);
    law_each_device_is_given_back(before, freed, outcome, list, at);
}

proof fn lemma_devices_of(
    outputs: names::Entries<OutputConfig>,
    count: int,
    which: int,
)
    requires
        0 <= which < count <= outputs.len(),
    ensures
        names::sorted(control::devices_of(outputs, count)),
        names::has(control::devices_of(outputs, count), validation::device_of(outputs[which].1)),
    decreases count,
{
    let earlier = control::devices_of(outputs, count - 1);
    let own = validation::device_of(outputs[count - 1].1);
    lemma_devices_sorted(outputs, count - 1);
    names::lemma_inserted_sorted(earlier, own, ());
    names::lemma_find_inserted(earlier, own, (), validation::device_of(outputs[which].1));
    if which < count - 1 {
        lemma_devices_of(outputs, count - 1, which);
    }
}

proof fn lemma_devices_sorted(outputs: names::Entries<OutputConfig>, count: int)
    requires
        count <= outputs.len(),
    ensures
        names::sorted(control::devices_of(outputs, count)),
    decreases count,
{
    if count > 0 {
        lemma_devices_sorted(outputs, count - 1);
        names::lemma_inserted_sorted(
            control::devices_of(outputs, count - 1),
            validation::device_of(outputs[count - 1].1),
            (),
        );
    }
}

/// A release of all outputs gives back every device that has one.
pub proof fn law_release_of_all_gives_every_device_back<H: Hardware>(
    before: Engine<H>,
    after: Engine<H>,
    released: Seq<Seq<char>>,
    which: int,
)
    requires
        control::release_command(
            before,
            after,
            Ok::<Seq<Seq<char>>, ErrorView>(released),
            None,
        ),
        0 <= which < before@.config.outputs@.len(),
    ensures
        given_back(before, after, validation::device_of(before@.config.outputs@[which].1)),
{
    let outputs = before@.config.outputs@;
    let devices = control::devices_of(outputs, outputs.len() as int);
    lemma_devices_of(outputs, outputs.len() as int, which);
    let device = validation::device_of(outputs[which].1);
    let list = names::names(devices);
    let (freed, outcome) = choose|freed: Engine<H>, outcome: Reply<()>|
        {
            &&& #[trigger] control::released_all(before, freed, outcome, list)
            &&& match outcome {
                Err(error) => false,
                Ok(_) => freed.hardware == after.hardware,
            }
        };
    let at = names::slot(devices, device) as int;
    assert(list[at] == device);
    law_each_device_is_given_back(before, freed, outcome, list, at);
}

/// A device is that of an output by its own name.
pub proof fn law_device_of_an_output(output: OutputConfig)
    ensures
        validation::device_of(output) == (match output {
            OutputConfig::Fan { device, .. } => device@,
            OutputConfig::Rgb { device, .. } => device@,
            OutputConfig::Display { device, .. } => device@,
        }),
{
}

} // verus!
