//! What the policy decides for each output: overrides, sensor readings, curves, schedules, and
//! fail-safe values.

use vstd::prelude::*;

use crate::celsius::Celsius;
use crate::config::AssignmentConfig;
use crate::config::ColorPoint;
use crate::config::Config;
use crate::config::FanPoint;
use crate::config::Nanos;
use crate::config::OutputConfig;
use crate::curve;
use crate::curve::schedule_active;
use crate::drivers::DisplayTarget;
use crate::error::ErrorView;
use crate::error::FeatherError;
use crate::json;
use crate::json::Json;
use crate::json::JsonView;
use crate::names;
use crate::names::NameMap;
use crate::text;
use crate::types::DescriptorView;
use crate::types::Health;
use crate::views;

verus! {

// ---------------------------------------------------------------- state

/// A temporary value for an output.
#[derive(Clone, Copy, Debug, PartialEq, Eq)]
pub enum OverrideValue {
    /// Fan duty.
    Fan(u8),
    /// Color.
    Rgb([u8; 3]),
    /// Whether the display is on.
    Display(bool),
}

/// A temporary value with the time at which it ends.
#[derive(Clone, Copy, Debug, PartialEq, Eq)]
pub struct ActiveOverride {
    /// The value.
    pub value: OverrideValue,
    /// The end.
    pub expires_at: Nanos,
}

impl View for ActiveOverride {
    type V = ActiveOverride;

    open spec fn view(&self) -> ActiveOverride {
        *self
    }
}

/// The last usable reading of a sensor.
#[derive(Clone, Copy, Debug, PartialEq, Eq, Structural)]
pub struct CachedReading {
    /// The temperature.
    pub value: Celsius,
    /// When it was read.
    pub observed_at: Nanos,
}

impl View for CachedReading {
    type V = CachedReading;

    open spec fn view(&self) -> CachedReading {
        *self
    }
}

/// The value that an output was last set to.
#[derive(Clone, Copy, Debug, PartialEq, Eq, Structural)]
pub enum Target {
    /// A fan duty or a display brightness.
    Percent(u8),
    /// A color.
    Rgb(u8, u8, u8),
    /// A display that is off.
    Sleep,
}

/// The target that a color is.
pub open spec fn rgb_target(rgb: [u8; 3]) -> Target {
    Target::Rgb(rgb[0], rgb[1], rgb[2])
}

/// The target that a display state is.
pub open spec fn display_target(target: DisplayTarget) -> Target {
    match target {
        DisplayTarget::Awake { brightness_percent } => Target::Percent(brightness_percent),
        DisplayTarget::Sleep => Target::Sleep,
    }
}

/// A target in JSON.
pub open spec fn target_json(target: Target) -> JsonView {
    match target {
        Target::Percent(percent) => json::number_view(percent as nat),
        Target::Rgb(red, green, blue) => JsonView::List(
            seq![
                json::number_view(red as nat),
                json::number_view(green as nat),
                json::number_view(blue as nat),
            ],
        ),
        Target::Sleep => JsonView::Text("sleep"@),
    }
}

impl Target {
    /// The target in JSON.
    pub fn to_json(&self) -> (result: Json)
        ensures
            result@ == target_json(*self),
    {
        match self {
            Target::Percent(percent) => Json::number(*percent as u64),
            Target::Rgb(red, green, blue) => {
                let rgb = [*red, *green, *blue];
                Json::rgb(rgb)
            },
            Target::Sleep => Json::string("sleep"),
        }
    }
}

/// What the daemon knows of an output.
#[derive(Debug)]
pub struct OutputRuntime {
    /// The value it was last set to.
    pub last_target: Option<Target>,
    /// When that was.
    pub last_write: Option<Nanos>,
    /// What the driver reported then.
    pub observed: Option<Json>,
    /// Its health.
    pub health: Option<Health>,
    /// Its most recent error or warning.
    pub error: Option<String>,
    /// Failed evaluations since the last that succeeded.
    pub consecutive_failures: u32,
}

/// See [`OutputRuntime`].
pub ghost struct RuntimeView {
    /// See [`OutputRuntime::last_target`].
    pub last_target: Option<Target>,
    /// See [`OutputRuntime::last_write`].
    pub last_write: Option<Nanos>,
    /// See [`OutputRuntime::observed`].
    pub observed: Option<JsonView>,
    /// See [`OutputRuntime::health`].
    pub health: Option<Health>,
    /// See [`OutputRuntime::error`].
    pub error: Option<Seq<char>>,
    /// See [`OutputRuntime::consecutive_failures`].
    pub consecutive_failures: u32,
}

impl View for OutputRuntime {
    type V = RuntimeView;

    open spec fn view(&self) -> RuntimeView {
        RuntimeView {
            last_target: self.last_target,
            last_write: self.last_write,
            observed: views::maybe(self.observed),
            health: self.health,
            error: views::maybe(self.error),
            consecutive_failures: self.consecutive_failures,
        }
    }
}

/// What is known of an output that was never evaluated.
pub open spec fn unknown_runtime() -> RuntimeView {
    RuntimeView {
        last_target: None,
        last_write: None,
        observed: None,
        health: None,
        error: None,
        consecutive_failures: 0,
    }
}

impl Default for OutputRuntime {
    fn default() -> (runtime: Self)
        ensures
            runtime@ == unknown_runtime(),
    {
        OutputRuntime {
            last_target: None,
            last_write: None,
            observed: None,
            health: None,
            error: None,
            consecutive_failures: 0,
        }
    }
}

/// The state of the policy engine.
pub ghost struct EngineModel {
    /// Active configuration.
    pub config: Config,
    /// Name of the active profile.
    pub active_profile: Seq<char>,
    /// Number of configurations activated so far.
    pub generation: u64,
    /// When the engine was made.
    pub started_at: Nanos,
    /// When the sensors were last read.
    pub last_sensor_poll: Option<Nanos>,
    /// Last usable readings by sensor.
    pub readings: names::Entries<CachedReading>,
    /// Read errors by sensor.
    pub sensor_errors: names::Entries<Seq<char>>,
    /// What is known by output.
    pub outputs: names::Entries<RuntimeView>,
    /// Temporary values by output.
    pub overrides: names::Entries<ActiveOverride>,
    /// Outputs left to their hardware policy.
    pub released: names::Entries<()>,
    /// Devices found when the configuration was activated, or since.
    pub devices: Seq<DescriptorView>,
    /// Errors of the engine itself.
    pub driver_errors: names::Entries<Seq<char>>,
}

// ---------------------------------------------------------------- time

/// The time from `earlier` to `now`, zero where `earlier` is not earlier.
pub open spec fn since(now: Nanos, earlier: Nanos) -> Nanos {
    if now > earlier {
        (now - earlier) as u128
    } else {
        0
    }
}

/// Whole milliseconds, at most what 64 bits hold.
pub open spec fn millis(duration: Nanos) -> u64 {
    if duration / 1_000_000 > u64::MAX {
        u64::MAX
    } else {
        (duration / 1_000_000) as u64
    }
}

/// Whole seconds, at most what 64 bits hold.
pub open spec fn seconds(duration: Nanos) -> u64 {
    if duration / 1_000_000_000 > u64::MAX {
        u64::MAX
    } else {
        (duration / 1_000_000_000) as u64
    }
}

/// The time from `earlier` to `now`, zero where `earlier` is not earlier.
pub fn elapsed(now: Nanos, earlier: Nanos) -> (duration: Nanos)
    ensures
        duration == since(now, earlier),
{
    if now > earlier {
        now - earlier
    } else {
        0
    }
}

/// Whole milliseconds, at most what 64 bits hold.
pub fn duration_millis(duration: Nanos) -> (result: u64)
    ensures
        result == millis(duration),
{
    let whole: u128 = duration / 1_000_000;
    if whole > 0xffff_ffff_ffff_ffff {
        u64::MAX
    } else {
        whole as u64
    }
}

/// Whole seconds, at most what 64 bits hold.
pub fn duration_seconds(duration: Nanos) -> (result: u64)
    ensures
        result == seconds(duration),
{
    let whole: u128 = duration / 1_000_000_000;
    if whole > 0xffff_ffff_ffff_ffff {
        u64::MAX
    } else {
        whole as u64
    }
}

// ---------------------------------------------------------------- readings

/// The bit pattern of negative infinity.
pub const NEGATIVE_INFINITY_BITS: u64 = 0xfff0_0000_0000_0000;

/// The reading of a sensor that is recent enough to use.
pub open spec fn fresh(
    readings: names::Entries<CachedReading>,
    stale_after: Nanos,
    source: Seq<char>,
    now: Nanos,
) -> Option<Celsius> {
    match names::find(readings, source) {
        Some(reading) => if since(now, reading.observed_at) <= stale_after {
            Some(reading.value)
        } else {
            None
        },
        None => None,
    }
}

/// Whether every source has a fresh reading.
pub open spec fn all_fresh(
    readings: names::Entries<CachedReading>,
    stale_after: Nanos,
    sources: Seq<String>,
    now: Nanos,
) -> bool {
    forall|i: int|
        0 <= i < sources.len() ==> fresh(
            readings,
            stale_after,
            (#[trigger] sources[i])@,
            now,
        ) is Some
}

/// The higher of two temperatures.
pub open spec fn hotter(left: Celsius, right: Celsius) -> Celsius {
    if left.lower(right) {
        right
    } else {
        left
    }
}

/// The highest fresh reading of the first `count` sources.
pub open spec fn hottest(
    readings: names::Entries<CachedReading>,
    stale_after: Nanos,
    sources: Seq<String>,
    now: Nanos,
    count: int,
) -> Celsius
    decreases count,
{
    if count <= 0 {
        Celsius { bits: NEGATIVE_INFINITY_BITS }
    } else {
        let earlier = hottest(readings, stale_after, sources, now, count - 1);
        match fresh(readings, stale_after, sources[count - 1]@, now) {
            Some(value) => hotter(earlier, value),
            None => earlier,
        }
    }
}

/// The temperature that an assignment follows: its highest source, if all of them are fresh.
pub open spec fn temperature(
    readings: names::Entries<CachedReading>,
    stale_after: Nanos,
    sources: Seq<String>,
    now: Nanos,
) -> Option<Celsius> {
    if all_fresh(readings, stale_after, sources, now) {
        Some(hottest(readings, stale_after, sources, now, sources.len() as int))
    } else {
        None
    }
}

/// The temperature that an assignment follows.
pub fn assigned_temperature(
    readings: &NameMap<CachedReading>,
    stale_after: Nanos,
    sources: &Vec<String>,
    now: Nanos,
) -> (result: Option<Celsius>)
    ensures
        result == temperature(readings@, stale_after, sources@, now),
{
    let mut highest = Celsius { bits: NEGATIVE_INFINITY_BITS };
    let mut at: usize = 0;
    while at < sources.len()
        invariant
            at <= sources@.len(),
            highest == hottest(readings@, stale_after, sources@, now, at as int),
            forall|i: int|
                0 <= i < at ==> fresh(readings@, stale_after, (#[trigger] sources@[i])@, now)
                    is Some,
        decreases sources@.len() - at,
    {
        match readings.get(sources[at].as_str()) {
            Some(reading) => {
                if elapsed(now, reading.observed_at) > stale_after {
                    assert(fresh(readings@, stale_after, sources@[at as int]@, now) is None);
                    return None;
                }
                if highest.is_lower(&reading.value) {
                    highest = reading.value;
                }
            },
            None => {
                assert(fresh(readings@, stale_after, sources@[at as int]@, now) is None);
                return None;
            },
        }
        at += 1;
    }
    Some(highest)
}

/// The temperature that an assignment follows is the reading of one of its sources, and no
/// other source reads higher.
pub proof fn law_temperature_is_the_highest_source(
    readings: names::Entries<CachedReading>,
    stale_after: Nanos,
    sources: Seq<String>,
    now: Nanos,
    count: int,
)
    requires
        all_fresh(readings, stale_after, sources, now),
        forall|i: int|
            0 <= i < sources.len() ==> fresh(
                readings,
                stale_after,
                (#[trigger] sources[i])@,
                now,
            )->0.finite(),
        0 < count <= sources.len(),
    ensures
        exists|i: int|
            0 <= i < count && fresh(readings, stale_after, (#[trigger] sources[i])@, now) == Some(
                hottest(readings, stale_after, sources, now, count),
            ),
        forall|i: int|
            0 <= i < count ==> fresh(
                readings,
                stale_after,
                (#[trigger] sources[i])@,
                now,
            )->0.at_most(hottest(readings, stale_after, sources, now, count)),
    decreases count,
{
    let value = fresh(readings, stale_after, sources[count - 1]@, now)->0;
    assert(value.finite());
    if count == 1 {
        assert(hottest(readings, stale_after, sources, now, 0).bits == NEGATIVE_INFINITY_BITS);
        assert(hottest(readings, stale_after, sources, now, 1) == value);
        assert(fresh(readings, stale_after, sources[0]@, now) == Some(value));
    } else {
        law_temperature_is_the_highest_source(readings, stale_after, sources, now, count - 1);
        let earlier = hottest(readings, stale_after, sources, now, count - 1);
        let at = choose|i: int|
            0 <= i < count - 1 && fresh(
                readings,
                stale_after,
                (#[trigger] sources[i])@,
                now,
            ) == Some(earlier);
        assert(earlier.finite());
        if earlier.lower(value) {
            assert(fresh(readings, stale_after, sources[count - 1]@, now) == Some(value));
        } else {
            assert(fresh(readings, stale_after, sources[at]@, now) == Some(earlier));
        }
    }
}

/// An assignment whose sources were all read recently, as finite temperatures, follows the reading
/// of one of them, and none of them reads higher.
pub proof fn law_assignment_follows_its_hottest_source(
    readings: names::Entries<CachedReading>,
    stale_after: Nanos,
    sources: Seq<String>,
    now: Nanos,
)
    requires
        sources.len() > 0,
        forall|i: int|
            0 <= i < sources.len() ==> (names::find(
                readings,
                (#[trigger] sources[i])@,
            ) matches Some(reading) && now - reading.observed_at <= stale_after
                && reading.value.finite()),
    ensures
        temperature(readings, stale_after, sources, now) matches Some(followed) && (exists|i: int|
            0 <= i < sources.len() && names::find(
                readings,
                (#[trigger] sources[i])@,
            )->0.value == followed) && (forall|i: int|
            0 <= i < sources.len() ==> names::find(
                readings,
                (#[trigger] sources[i])@,
            )->0.value.at_most(followed)),
{
    assert forall|i: int| 0 <= i < sources.len() implies fresh(
        readings,
        stale_after,
        (#[trigger] sources[i])@,
        now,
    ) == Some(names::find(readings, sources[i]@)->0.value) by {}
    assert forall|i: int| 0 <= i < sources.len() implies fresh(
        readings,
        stale_after,
        (#[trigger] sources[i])@,
        now,
    )->0.finite() by {}
    law_temperature_is_the_highest_source(
        readings,
        stale_after,
        sources,
        now,
        sources.len() as int,
    );
    let followed = hottest(readings, stale_after, sources, now, sources.len() as int);
    let at = choose|i: int|
        0 <= i < sources.len() && fresh(
            readings,
            stale_after,
            (#[trigger] sources[i])@,
            now,
        ) == Some(followed);
    assert(names::find(readings, sources[at]@)->0.value == followed);
    assert forall|i: int| 0 <= i < sources.len() implies names::find(
        readings,
        (#[trigger] sources[i])@,
    )->0.value.at_most(followed) by {
        assert(fresh(readings, stale_after, sources[i]@, now)->0.at_most(followed));
    }
}

/// An assignment with a source that was never read, or too long ago, follows no temperature.
pub proof fn law_stale_source_is_not_followed(
    readings: names::Entries<CachedReading>,
    stale_after: Nanos,
    sources: Seq<String>,
    now: Nanos,
    at: int,
)
    requires
        0 <= at < sources.len(),
        names::find(readings, sources[at]@) matches Some(reading) ==> now - reading.observed_at
            > stale_after,
    ensures
        temperature(readings, stale_after, sources, now) is None,
{
    assert(fresh(readings, stale_after, sources[at]@, now) is None);
}

// ---------------------------------------------------------------- decisions

/// What is to be done with an output.
#[derive(Debug)]
pub enum Decision {
    /// Nothing: the policy cannot be evaluated.
    Fail(FeatherError),
    /// Nothing: the output is left to its hardware policy.
    Released,
    /// Set a fan duty.
    Fan {
        /// The duty.
        percent: u8,
        /// Health of the policy behind it.
        health: Health,
    },
    /// Set a color.
    Rgb {
        /// The color.
        rgb: [u8; 3],
        /// Health of the policy behind it.
        health: Health,
    },
    /// Set a display state.
    Display {
        /// The state.
        target: DisplayTarget,
    },
}

/// See [`Decision`].
pub ghost enum DecisionView {
    /// See [`Decision::Fail`].
    Fail(ErrorView),
    /// See [`Decision::Released`].
    Released,
    /// See [`Decision::Fan`].
    Fan {
        /// The duty.
        percent: u8,
        /// Health of the policy behind it.
        health: Health,
    },
    /// See [`Decision::Rgb`].
    Rgb {
        /// The color.
        rgb: [u8; 3],
        /// Health of the policy behind it.
        health: Health,
    },
    /// See [`Decision::Display`].
    Display {
        /// The state.
        target: DisplayTarget,
    },
}

impl View for Decision {
    type V = DecisionView;

    open spec fn view(&self) -> DecisionView {
        match *self {
            Decision::Fail(error) => DecisionView::Fail(error@),
            Decision::Released => DecisionView::Released,
            Decision::Fan { percent, health } => DecisionView::Fan { percent, health },
            Decision::Rgb { rgb, health } => DecisionView::Rgb { rgb, health },
            Decision::Display { target } => DecisionView::Display { target },
        }
    }
}

/// The values of curves between two of their points.
pub struct Blends<F, G> {
    /// Weighs the percentages of two fan points at a temperature between them.
    pub fan: F,
    /// Weighs the colors of two color points at a temperature between them.
    pub color: G,
}

/// Blended values that one evaluation may use.
#[derive(Clone, Copy, Debug)]
pub struct Blended {
    /// A fan percentage.
    pub percent: u8,
    /// A color.
    pub rgb: [u8; 3],
}

/// Whether blends can be taken of any two points at any temperature.
pub open spec fn blendable<F, G>(blends: Blends<F, G>) -> bool where
    F: Fn(FanPoint, FanPoint, Celsius) -> u8,
    G: Fn(ColorPoint, ColorPoint, Celsius) -> [u8; 3],
 {
    &&& forall|left: FanPoint, right: FanPoint, at: Celsius|
        call_requires(blends.fan, (left, right, at))
    &&& forall|left: ColorPoint, right: ColorPoint, at: Celsius|
        call_requires(blends.color, (left, right, at))
}

/// A display state that is on or off.
pub open spec fn display_state(on: bool, brightness_percent: u8) -> DisplayTarget {
    if on {
        DisplayTarget::Awake { brightness_percent }
    } else {
        DisplayTarget::Sleep
    }
}

/// What an override decides for an output.
pub open spec fn overridden(
    name: Seq<char>,
    output: OutputConfig,
    value: OverrideValue,
) -> DecisionView {
    match (output, value) {
        (OutputConfig::Fan { .. }, OverrideValue::Fan(percent)) => DecisionView::Fan {
            percent,
            health: Health::Healthy,
        },
        (OutputConfig::Rgb { .. }, OverrideValue::Rgb(rgb)) => DecisionView::Rgb {
            rgb,
            health: Health::Healthy,
        },
        (
            OutputConfig::Display { brightness_percent, .. },
            OverrideValue::Display(on),
        ) => DecisionView::Display { target: display_state(on, brightness_percent) },
        _ => DecisionView::Fail(
            ErrorView::Daemon("override type does not match output '"@ + name + "'"@),
        ),
    }
}

/// Whether the off schedule of an assignment is active.
pub open spec fn scheduled_off(
    config: Config,
    assignment: AssignmentConfig,
    hour: u32,
    minute: u32,
) -> bool {
    match assignment.off_schedule {
        None => false,
        Some(name) => match names::find(config.schedules@, name@) {
            None => false,
            Some(schedule) => curve::active(hour, minute, schedule.start@, schedule.end@),
        },
    }
}

/// How far two percentages are apart.
pub open spec fn apart(left: u8, right: u8) -> int {
    if left < right {
        right - left
    } else {
        left - right
    }
}

/// A new fan target, or the last one where the change would be smaller than the hysteresis.
pub open spec fn steadied(runtime: Option<RuntimeView>, target: u8, hysteresis: u8) -> u8 {
    match runtime {
        Some(known) => match known.last_target {
            Some(Target::Percent(previous)) => if apart(previous, target) < hysteresis {
                previous
            } else {
                target
            },
            _ => target,
        },
        None => target,
    }
}

/// The higher of two percentages.
pub open spec fn at_least(value: u8, minimum: u8) -> u8 {
    if value < minimum {
        minimum
    } else {
        value
    }
}

/// The fan curve of an assignment.
pub open spec fn fan_points(
    config: Config,
    name: Seq<char>,
    assignment: AssignmentConfig,
) -> std::result::Result<Seq<FanPoint>, ErrorView> {
    match assignment.curve {
        None => Err(ErrorView::Config("output '"@ + name + "' has no fan curve"@)),
        Some(curve) => match names::find(config.curves@, curve@) {
            None => Err(ErrorView::Config("unknown curve '"@ + curve@ + "'"@)),
            Some(found) => Ok(found.points@),
        },
    }
}

/// The color curve of an assignment.
pub open spec fn color_points(
    config: Config,
    name: Seq<char>,
    assignment: AssignmentConfig,
) -> std::result::Result<Seq<ColorPoint>, ErrorView> {
    match assignment.color_curve {
        None => Err(ErrorView::Config("output '"@ + name + "' has no color curve"@)),
        Some(curve) => match names::find(config.color_curves@, curve@) {
            None => Err(ErrorView::Config("unknown color curve '"@ + curve@ + "'"@)),
            Some(found) => Ok(found.points@),
        },
    }
}

/// What the policy of an assignment decides, given the blends of its curves.
pub open spec fn planned(
    model: EngineModel,
    name: Seq<char>,
    output: OutputConfig,
    assignment: AssignmentConfig,
    now: Nanos,
    hour: u32,
    minute: u32,
    blended: Blended,
) -> DecisionView {
    let reading = temperature(
        model.readings,
        model.config.daemon.stale_after,
        assignment.sources@,
        now,
    );
    match output {
        OutputConfig::Fan {
            minimum_percent,
            fail_safe_percent,
            hysteresis_percent,
            ..
        } => match reading {
            None => DecisionView::Fan { percent: fail_safe_percent, health: Health::FailSafe },
            Some(celsius) => match fan_points(model.config, name, assignment) {
                Err(error) => DecisionView::Fail(error),
                Ok(points) => DecisionView::Fan {
                    percent: steadied(
                        names::find(model.outputs, name),
                        at_least(
                            curve::fan_value(points, celsius, blended.percent),
                            minimum_percent,
                        ),
                        hysteresis_percent,
                    ),
                    health: Health::Healthy,
                },
            },
        },
        OutputConfig::Rgb { .. } => match reading {
            None => DecisionView::Rgb { rgb: [0u8, 0u8, 0u8], health: Health::FailSafe },
            Some(celsius) => match color_points(model.config, name, assignment) {
                Err(error) => DecisionView::Fail(error),
                Ok(points) => DecisionView::Rgb {
                    rgb: if scheduled_off(model.config, assignment, hour, minute) {
                        [0u8, 0u8, 0u8]
                    } else {
                        curve::color_value(points, celsius, blended.rgb)
                    },
                    health: Health::Healthy,
                },
            },
        },
        OutputConfig::Display { brightness_percent, .. } => DecisionView::Display {
            target: display_state(
                !scheduled_off(model.config, assignment, hour, minute),
                brightness_percent,
            ),
        },
    }
}

/// Whether blended values are what the blends give for the curves that an evaluation follows.
pub open spec fn blended_from<F, G>(
    blends: Blends<F, G>,
    model: EngineModel,
    name: Seq<char>,
    assignment: AssignmentConfig,
    now: Nanos,
    hour: u32,
    minute: u32,
    blended: Blended,
) -> bool where
    F: Fn(FanPoint, FanPoint, Celsius) -> u8,
    G: Fn(ColorPoint, ColorPoint, Celsius) -> [u8; 3],
 {
    let reading = temperature(
        model.readings,
        model.config.daemon.stale_after,
        assignment.sources@,
        now,
    );
    if names::has(model.released, name) || names::has(model.overrides, name) {
        true
    } else {
        match (names::find(model.config.outputs@, name), reading) {
            (Some(OutputConfig::Fan { .. }), Some(celsius)) => match fan_points(
                model.config,
                name,
                assignment,
            ) {
                Ok(points) => curve::fan_blend(blends.fan, points, celsius, blended.percent),
                Err(_) => true,
            },
            (Some(OutputConfig::Rgb { .. }), Some(celsius)) => match color_points(
                model.config,
                name,
                assignment,
            ) {
                Ok(points) => scheduled_off(model.config, assignment, hour, minute)
                    || curve::color_blend(blends.color, points, celsius, blended.rgb),
                Err(_) => true,
            },
            _ => true,
        }
    }
}

/// What is decided for an output: nothing while it is released, its override while it has one,
/// and its policy otherwise.
pub open spec fn decided(
    model: EngineModel,
    name: Seq<char>,
    assignment: AssignmentConfig,
    now: Nanos,
    hour: u32,
    minute: u32,
    blended: Blended,
) -> DecisionView {
    match names::find(model.config.outputs@, name) {
        None => DecisionView::Fail(ErrorView::Config("unknown output '"@ + name + "'"@)),
        Some(output) => if names::has(model.released, name) {
            DecisionView::Released
        } else {
            match names::find(model.overrides, name) {
                Some(active) => overridden(name, output, active.value),
                None => planned(
                    model,
                    name,
                    output,
                    assignment,
                    now,
                    hour,
                    minute,
                    blended,
                ),
            }
        },
    }
}

/// Decides by an override.
pub fn decide_override(name: &str, output: &OutputConfig, value: OverrideValue) -> (decision:
    Decision)
    ensures
        decision@ == overridden(name@, *output, value),
{
    match (output, value) {
        (OutputConfig::Fan { .. }, OverrideValue::Fan(percent)) => Decision::Fan {
            percent,
            health: Health::Healthy,
        },
        (OutputConfig::Rgb { .. }, OverrideValue::Rgb(rgb)) => Decision::Rgb {
            rgb,
            health: Health::Healthy,
        },
        (OutputConfig::Display { brightness_percent, .. }, OverrideValue::Display(on)) => {
            Decision::Display {
                target: if on {
                    DisplayTarget::Awake { brightness_percent: *brightness_percent }
                } else {
                    DisplayTarget::Sleep
                },
            }
        },
        _ => Decision::Fail(
            FeatherError::Daemon(
                text::concat3("override type does not match output '", name, "'"),
            ),
        ),
    }
}

/// Whether the off schedule of an assignment is active.
pub fn is_scheduled_off(
    config: &Config,
    assignment: &AssignmentConfig,
    hour: u32,
    minute: u32,
) -> (result: bool)
    ensures
        result == scheduled_off(*config, *assignment, hour, minute),
{
    match &assignment.off_schedule {
        None => false,
        Some(name) => match config.schedules.get(name.as_str()) {
            None => false,
            Some(schedule) => schedule_active(
                hour,
                minute,
                schedule.start.as_str(),
                schedule.end.as_str(),
            ),
        },
    }
}

/// A new fan target, or the last one where the change would be smaller than the hysteresis.
pub fn steady_target(runtime: Option<&OutputRuntime>, target: u8, hysteresis: u8) -> (result: u8)
    ensures
        result == steadied(
            match runtime {
                Some(known) => Some(known@),
                None => None,
            },
            target,
            hysteresis,
        ),
{
    match runtime {
        Some(known) => match known.last_target {
            Some(Target::Percent(previous)) => {
                let difference: u8 = if previous < target {
                    target - previous
                } else {
                    previous - target
                };
                if difference < hysteresis {
                    previous
                } else {
                    target
                }
            },
            _ => target,
        },
        None => target,
    }
}

} // verus!
