//! The policy engine: sensor polling, output evaluation, fail-safe handling, and live overrides.

use vstd::prelude::*;

use crate::celsius::Celsius;
use crate::config::AssignmentConfig;
use crate::config::ColorPoint;
use crate::config::Config;
use crate::config::FanPoint;
use crate::config::Nanos;
use crate::config::OutputConfig;
use crate::config::NANOS_PER_SECOND;
use crate::curve;
use crate::curve::color_segment;
use crate::curve::fan_segment;
use crate::curve::Segment;
use crate::drivers;
use crate::drivers::Call;
use crate::drivers::DisplayTarget;
use crate::drivers::FanWriteView;
use crate::drivers::Hardware;
use crate::drivers::Reply;
use crate::drivers::SampleView;
use crate::error;
use crate::error::ErrorView;
use crate::error::FeatherError;
use crate::error::Result;
use crate::json::JsonView;
use crate::names;
use crate::names::NameMap;
use crate::policy;
use crate::policy::assigned_temperature;
use crate::policy::decide_override;
use crate::policy::elapsed;
use crate::policy::is_scheduled_off;
use crate::policy::steady_target;
use crate::policy::ActiveOverride;
use crate::policy::Blended;
use crate::policy::Blends;
use crate::policy::CachedReading;
use crate::policy::Decision;
use crate::policy::DecisionView;
use crate::policy::EngineModel;
use crate::policy::OutputRuntime;
use crate::policy::RuntimeView;
use crate::policy::Target;
use crate::text;
use crate::types::DescriptorView;
use crate::types::DeviceDescriptor;
use crate::types::Health;
use crate::views;

verus! {

/// Evaluates the active configuration against the hardware.
pub struct Engine<H> {
    /// Active configuration.
    pub config: Config,
    /// The hardware under control.
    pub hardware: H,
    /// Name of the active profile.
    pub active_profile: String,
    /// Number of configurations activated so far.
    pub generation: u64,
    /// When the engine was made.
    pub started_at: Nanos,
    /// When the sensors were last read.
    pub last_sensor_poll: Option<Nanos>,
    /// Last usable readings by sensor.
    pub readings: NameMap<CachedReading>,
    /// Read errors by sensor.
    pub sensor_errors: NameMap<String>,
    /// What is known by output.
    pub outputs: NameMap<OutputRuntime>,
    /// Temporary values by output.
    pub overrides: NameMap<ActiveOverride>,
    /// Outputs left to their hardware policy.
    pub released: NameMap<()>,
    /// Devices found when the configuration was activated, or since.
    pub devices: Vec<DeviceDescriptor>,
    /// Errors of the engine itself.
    pub driver_errors: NameMap<String>,
}

impl<H> View for Engine<H> {
    type V = EngineModel;

    open spec fn view(&self) -> EngineModel {
        EngineModel {
            config: self.config,
            active_profile: self.active_profile@,
            generation: self.generation,
            started_at: self.started_at,
            last_sensor_poll: self.last_sensor_poll,
            readings: self.readings@,
            sensor_errors: self.sensor_errors@,
            outputs: self.outputs@,
            overrides: self.overrides@,
            released: self.released@,
            devices: views::list(self.devices@),
            driver_errors: self.driver_errors@,
        }
    }
}

// ---------------------------------------------------------------- start

/// The profile that a new engine starts with.
pub open spec fn first_profile(config: Config, initial: Option<Seq<char>>) -> Seq<char> {
    match initial {
        Some(profile) => profile,
        None => config.default_profile@,
    }
}

/// The state of a new engine.
pub open spec fn new_model(
    config: Config,
    profile: Seq<char>,
    devices: Seq<DescriptorView>,
    now: Nanos,
) -> EngineModel {
    EngineModel {
        config,
        active_profile: profile,
        generation: 1,
        started_at: now,
        last_sensor_poll: None,
        readings: Seq::empty(),
        sensor_errors: Seq::empty(),
        outputs: Seq::empty(),
        overrides: Seq::empty(),
        released: Seq::empty(),
        devices,
        driver_errors: Seq::empty(),
    }
}

/// A profile that a new engine cannot start with.
pub open spec fn missing_initial(profile: Seq<char>) -> ErrorView {
    ErrorView::Config("initial profile '"@ + profile + "' does not exist"@)
}

impl<H: Hardware> Engine<H> {
    /// Checks a configuration against the hardware, activates it, and starts with a profile.
    ///
    /// # Errors
    ///
    /// Returns an error when the hardware does not fit the configuration or the profile does
    /// not exist.
    pub fn new(
        config: Config,
        hardware: H,
        initial_profile: Option<String>,
        now: Nanos,
    ) -> (result: Result<Self>)
        ensures
            result matches Ok(engine) ==> {
                let profile = first_profile(config, views::maybe(initial_profile));
                &&& names::has(config.profiles@, profile)
                &&& engine@ == new_model(config, profile, engine@.devices, now)
                &&& engine.hardware.calls() == hardware.calls().push(
                    Call::Preflight { config, reply: Ok(engine@.devices) },
                ).push(Call::Commit { config })
            },
            !names::has(
                config.profiles@,
                first_profile(config, views::maybe(initial_profile)),
            ) ==> result is Err,
    {
        let mut hardware = hardware;
        let checked = hardware.preflight(&config);
        Engine::start(config, hardware, checked, initial_profile, now)
    }

    /// Starts with the outcome of the check of a configuration against the hardware.
    ///
    /// # Errors
    ///
    /// Returns the error of the check, or an error when the profile does not exist.
    pub fn start(
        config: Config,
        hardware: H,
        checked: Result<Vec<DeviceDescriptor>>,
        initial_profile: Option<String>,
        now: Nanos,
    ) -> (result: Result<Self>)
        ensures
            ({
                let profile = first_profile(config, views::maybe(initial_profile));
                match drivers::descriptors(checked) {
                    Err(error) => result matches Err(e) && e@ == error,
                    Ok(devices) => if names::has(config.profiles@, profile) {
                        &&& result is Ok
                        &&& result->Ok_0@ == new_model(config, profile, devices, now)
                        &&& result->Ok_0.hardware.calls() == hardware.calls().push(
                            Call::Commit { config },
                        )
                    } else {
                        result matches Err(e) && e@ == missing_initial(profile)
                    },
                }
            }),
    {
        let devices = checked?;
        let mut hardware = hardware;
        hardware.commit_config(&config);
        let active_profile = match initial_profile {
            Some(profile) => profile,
            None => config.default_profile.clone(),
        };
        if !config.profiles.contains_key(active_profile.as_str()) {
            return Err(
                FeatherError::Config(
                    text::concat3(
                        "initial profile '",
                        active_profile.as_str(),
                        "' does not exist",
                    ),
                ),
            );
        }
        Ok(
            Engine {
                config,
                hardware,
                active_profile,
                generation: 1,
                started_at: now,
                last_sensor_poll: None,
                readings: NameMap::new(),
                sensor_errors: NameMap::new(),
                outputs: NameMap::new(),
                overrides: NameMap::new(),
                released: NameMap::new(),
                devices,
                driver_errors: NameMap::new(),
            },
        )
    }
}

// ---------------------------------------------------------------- timing

/// The shorter of two spans.
pub open spec fn shorter(left: Nanos, right: Nanos) -> Nanos {
    if right < left {
        right
    } else {
        left
    }
}

/// The shortest refresh interval of the fans among the first `count` outputs.
pub open spec fn shortest_refresh(outputs: names::Entries<OutputConfig>, count: int) -> Option<
    Nanos,
>
    decreases count,
{
    if count <= 0 {
        None
    } else {
        let earlier = shortest_refresh(outputs, count - 1);
        match outputs[count - 1].1 {
            OutputConfig::Fan { refresh_interval, .. } => match earlier {
                Some(interval) => Some(shorter(interval, refresh_interval)),
                None => Some(refresh_interval),
            },
            _ => earlier,
        }
    }
}

/// How often the policy is evaluated: at every poll, at every refresh, and at least once a
/// second.
pub open spec fn interval_of(config: Config) -> Nanos {
    let poll = config.daemon.poll_interval;
    let refresh = match shortest_refresh(config.outputs@, config.outputs@.len() as int) {
        Some(interval) => interval,
        None => poll,
    };
    shorter(shorter(poll, refresh), NANOS_PER_SECOND)
}

fn shorter_of(left: Nanos, right: Nanos) -> (result: Nanos)
    ensures
        result == shorter(left, right),
{
    if right < left {
        right
    } else {
        left
    }
}

impl<H: Hardware> Engine<H> {
    /// How often the policy is evaluated.
    pub fn tick_interval(&self) -> (interval: Nanos)
        ensures
            interval == interval_of(self@.config),
    {
        let outputs = &self.config.outputs;
        let count: usize = outputs.len();
        let mut refresh: Option<Nanos> = None;
        let mut at: usize = 0;
        while at < count
            invariant
                count == outputs@.len(),
                at <= count,
                refresh == shortest_refresh(outputs@, at as int),
            decreases count - at,
        {
            if let OutputConfig::Fan { refresh_interval, .. } = outputs.value_at(at) {
                refresh = match refresh {
                    Some(interval) => Some(shorter_of(interval, *refresh_interval)),
                    None => Some(*refresh_interval),
                };
            }
            at += 1;
        }
        let poll: Nanos = self.config.daemon.poll_interval;
        let refresh: Nanos = match refresh {
            Some(interval) => interval,
            None => poll,
        };
        shorter_of(shorter_of(poll, refresh), NANOS_PER_SECOND)
    }
}

// ---------------------------------------------------------------- sensors

/// The state once a sensor gave an answer: a plausible temperature is kept, anything else is
/// noted as the sensor's error.
pub open spec fn absorbed(
    model: EngineModel,
    sensor: Seq<char>,
    reply: Reply<SampleView>,
    now: Nanos,
) -> EngineModel {
    match reply {
        Ok(sample) => if sample.celsius.plausible() {
            EngineModel {
                readings: names::inserted(
                    model.readings,
                    sensor,
                    CachedReading { value: sample.celsius, observed_at: now },
                ),
                sensor_errors: names::removed(model.sensor_errors, sensor),
                ..model
            }
        } else {
            EngineModel {
                sensor_errors: names::inserted(
                    model.sensor_errors,
                    sensor,
                    "invalid temperature "@ + sample.text,
                ),
                ..model
            }
        },
        Err(error) => EngineModel {
            sensor_errors: names::inserted(
                model.sensor_errors,
                sensor,
                error::described(error),
            ),
            ..model
        },
    }
}

/// Whether a call reads the sensor at a position of the configuration.
pub open spec fn reads_sensor(config: Config, at: int, call: Call) -> bool {
    match call {
        Call::ReadSensor { alias, config: sensor, .. } => alias == config.sensors@[at].0 && sensor
            == config.sensors@[at].1,
        _ => false,
    }
}

/// The state once the first `count` sensors gave the answers in `calls`.
pub open spec fn polled(model: EngineModel, calls: Seq<Call>, count: int, now: Nanos) -> EngineModel
    decreases count,
{
    if count <= 0 {
        model
    } else {
        absorbed(
            polled(model, calls, count - 1, now),
            model.config.sensors@[count - 1].0,
            calls[count - 1]->ReadSensor_reply,
            now,
        )
    }
}

proof fn lemma_polled_config(model: EngineModel, calls: Seq<Call>, count: int, now: Nanos)
    ensures
        polled(model, calls, count, now).config == model.config,
        polled(model, calls, count, now).active_profile == model.active_profile,
        polled(model, calls, count, now).overrides == model.overrides,
        polled(model, calls, count, now).released == model.released,
        polled(model, calls, count, now).outputs == model.outputs,
    decreases count,
{
    if count > 0 {
        lemma_polled_config(model, calls, count - 1, now);
    }
}

proof fn lemma_polled_prefix(
    model: EngineModel,
    left: Seq<Call>,
    right: Seq<Call>,
    count: int,
    now: Nanos,
)
    requires
        forall|i: int| 0 <= i < count ==> left[i] == right[i],
    ensures
        polled(model, left, count, now) == polled(model, right, count, now),
    decreases count,
{
    if count > 0 {
        lemma_polled_prefix(model, left, right, count - 1, now);
    }
}

/// Whether every sensor was read once, in order, and its answer taken in.
pub open spec fn poll_step<H: Hardware>(before: Engine<H>, after: Engine<H>, now: Nanos) -> bool {
    let start = before.hardware.calls().len() as int;
    let count = before@.config.sensors@.len() as int;
    let calls = after.hardware.calls().skip(start);
    &&& after.hardware.calls().len() == start + count
    &&& after.hardware.calls().take(start) == before.hardware.calls()
    &&& forall|i: int| 0 <= i < count ==> reads_sensor(before@.config, i, #[trigger] calls[i])
    &&& after@ == polled(before@, calls, count, now)
}

impl<H: Hardware> Engine<H> {
    fn poll_sensors(&mut self, now: Nanos)
        ensures
            poll_step(*old(self), *final(self), now),
    {
        let ghost start = self.hardware.calls();
        let ghost model = self@;
        let count: usize = self.config.sensors.len();
        let mut at: usize = 0;
        assert(start.take(start.len() as int) =~= start);
        while at < count
            invariant
                count == model.config.sensors@.len(),
                at <= count,
                self.config == model.config,
                self.hardware.calls().len() == start.len() + at,
                self.hardware.calls().take(start.len() as int) == start,
                forall|i: int|
                    0 <= i < at ==> reads_sensor(
                        model.config,
                        i,
                        #[trigger] self.hardware.calls().skip(start.len() as int)[i],
                    ),
                self@ == polled(
                    model,
                    self.hardware.calls().skip(start.len() as int),
                    at as int,
                    now,
                ),
            decreases count - at,
        {
            let ghost calls_before = self.hardware.calls();
            let ghost model_before = self@;
            let name = self.config.sensors.key_at(at);
            let sensor = self.config.sensors.value_at(at);
            let reply = self.hardware.read_sensor(name.as_str(), sensor);
            let name = name.clone();
            proof {
                let earlier = calls_before.skip(start.len() as int);
                let later = self.hardware.calls().skip(start.len() as int);
                assert(self.hardware.calls().take(start.len() as int) =~= calls_before.take(
                    start.len() as int,
                ));
                assert(later =~= earlier.push(self.hardware.calls().last()));
                lemma_polled_prefix(model, earlier, later, at as int, now);
                assert forall|i: int| 0 <= i < at implies reads_sensor(
                    model.config,
                    i,
                    #[trigger] later[i],
                ) by {
                    assert(reads_sensor(model.config, i, earlier[i]));
                }
            }
            let ghost answer = views::outcome(reply);
            match reply {
                Ok(sample) => {
                    if sample.celsius.is_plausible() {
                        self.readings.insert(
                            name.clone(),
                            CachedReading { value: sample.celsius, observed_at: now },
                        );
                        let _ = self.sensor_errors.remove(name.as_str());
                    } else {
                        self.sensor_errors.insert(
                            name,
                            text::concat2("invalid temperature ", sample.text.as_str()),
                        );
                    }
                },
                Err(error) => {
                    self.sensor_errors.insert(name, error.to_text());
                },
            }
            assert(self@ == absorbed(
                model_before,
                model.config.sensors@[at as int].0,
                answer,
                now,
            ));
            at += 1;
        }
    }
}

// ---------------------------------------------------------------- decisions

impl<H: Hardware> Engine<H> {
    fn plan<F, G>(
        &self,
        name: &str,
        output: &OutputConfig,
        assignment: &AssignmentConfig,
        now: Nanos,
        hour: u32,
        minute: u32,
        blends: &Blends<F, G>,
    ) -> (decision: Decision) where
        F: Fn(FanPoint, FanPoint, Celsius) -> u8,
        G: Fn(ColorPoint, ColorPoint, Celsius) -> [u8; 3],

        requires
            policy::blendable(*blends),
            names::find(self@.config.outputs@, name@) == Some(*output),
            !names::has(self@.released, name@),
            !names::has(self@.overrides, name@),
        ensures
            exists|blended: Blended|
                #[trigger] policy::blended_from(
                    *blends,
                    self@,
                    name@,
                    *assignment,
                    now,
                    hour,
                    minute,
                    blended,
                ) && decision@ == policy::planned(
                    self@,
                    name@,
                    *output,
                    *assignment,
                    now,
                    hour,
                    minute,
                    blended,
                ),
    {
        let reading = assigned_temperature(
            &self.readings,
            self.config.daemon.stale_after,
            &assignment.sources,
            now,
        );
        let mut blended = Blended { percent: 0, rgb: [0u8, 0u8, 0u8] };
        let decision = match output {
            OutputConfig::Fan {
                minimum_percent,
                fail_safe_percent,
                hysteresis_percent,
                ..
            } => match reading {
                None => Decision::Fan { percent: *fail_safe_percent, health: Health::FailSafe },
                Some(celsius) => match &assignment.curve {
                    None => Decision::Fail(
                        FeatherError::Config(
                            text::concat3("output '", name, "' has no fan curve"),
                        ),
                    ),
                    Some(curve_name) => match self.config.curves.get(curve_name.as_str()) {
                        None => Decision::Fail(
                            FeatherError::Config(
                                text::concat3("unknown curve '", curve_name.as_str(), "'"),
                            ),
                        ),
                        Some(curve) => {
                            let value: u8 = match fan_segment(celsius, curve) {
                                Segment::Empty => 0,
                                Segment::Point(at) => curve.points[at].percent,
                                Segment::Between(at) => {
                                    let percent: u8 = (blends.fan)(
                                        curve.points[at],
                                        curve.points[at + 1],
                                        celsius,
                                    );
                                    blended = Blended { percent, rgb: [0u8, 0u8, 0u8] };
                                    percent
                                },
                            };
                            let value: u8 = if value > 100 {
                                100
                            } else {
                                value
                            };
                            let target: u8 = if value < *minimum_percent {
                                *minimum_percent
                            } else {
                                value
                            };
                            Decision::Fan {
                                percent: steady_target(
                                    self.outputs.get(name),
                                    target,
                                    *hysteresis_percent,
                                ),
                                health: Health::Healthy,
                            }
                        },
                    },
                },
            },
            OutputConfig::Rgb { .. } => match reading {
                None => Decision::Rgb { rgb: [0u8, 0u8, 0u8], health: Health::FailSafe },
                Some(celsius) => match &assignment.color_curve {
                    None => Decision::Fail(
                        FeatherError::Config(
                            text::concat3("output '", name, "' has no color curve"),
                        ),
                    ),
                    Some(curve_name) => match self.config.color_curves.get(curve_name.as_str()) {
                        None => Decision::Fail(
                            FeatherError::Config(
                                text::concat3("unknown color curve '", curve_name.as_str(), "'"),
                            ),
                        ),
                        Some(curve) => {
                            let rgb = if is_scheduled_off(&self.config, assignment, hour, minute) {
                                [0u8, 0u8, 0u8]
                            } else {
                                match color_segment(celsius, curve) {
                                    Segment::Empty => [0u8, 0u8, 0u8],
                                    Segment::Point(at) => curve.points[at].rgb,
                                    Segment::Between(at) => {
                                        let rgb = (blends.color)(
                                            curve.points[at],
                                            curve.points[at + 1],
                                            celsius,
                                        );
                                        blended = Blended { percent: 0, rgb };
                                        rgb
                                    },
                                }
                            };
                            Decision::Rgb { rgb, health: Health::Healthy }
                        },
                    },
                },
            },
            OutputConfig::Display { brightness_percent, .. } => Decision::Display {
                target: if is_scheduled_off(&self.config, assignment, hour, minute) {
                    DisplayTarget::Sleep
                } else {
                    DisplayTarget::Awake { brightness_percent: *brightness_percent }
                },
            },
        };
        assert(policy::blended_from(
            *blends,
            self@,
            name@,
            *assignment,
            now,
            hour,
            minute,
            blended,
        ));
        decision
    }

    /// Decides what to do with an output.
    pub fn decide<F, G>(
        &self,
        name: &str,
        assignment: &AssignmentConfig,
        now: Nanos,
        hour: u32,
        minute: u32,
        blends: &Blends<F, G>,
    ) -> (decision: Decision) where
        F: Fn(FanPoint, FanPoint, Celsius) -> u8,
        G: Fn(ColorPoint, ColorPoint, Celsius) -> [u8; 3],

        requires
            policy::blendable(*blends),
        ensures
            exists|blended: Blended|
                #[trigger] policy::blended_from(
                    *blends,
                    self@,
                    name@,
                    *assignment,
                    now,
                    hour,
                    minute,
                    blended,
                ) && decision@ == policy::decided(
                    self@,
                    name@,
                    *assignment,
                    now,
                    hour,
                    minute,
                    blended,
                ),
    {
        let ghost unused = Blended { percent: 0, rgb: [0u8, 0u8, 0u8] };
        match self.config.outputs.get(name) {
            None => {
                assert(policy::blended_from(
                    *blends,
                    self@,
                    name@,
                    *assignment,
                    now,
                    hour,
                    minute,
                    unused,
                ));
                Decision::Fail(
                    FeatherError::Config(text::concat3("unknown output '", name, "'")),
                )
            },
            Some(output) => {
                if self.released.contains_key(name) {
                    assert(policy::blended_from(
                        *blends,
                        self@,
                        name@,
                        *assignment,
                        now,
                        hour,
                        minute,
                        unused,
                    ));
                    return Decision::Released;
                }
                match self.overrides.get(name) {
                    Some(active) => {
                        assert(policy::blended_from(
                            *blends,
                            self@,
                            name@,
                            *assignment,
                            now,
                            hour,
                            minute,
                            unused,
                        ));
                        decide_override(name, output, active.value)
                    },
                    None => self.plan(name, output, assignment, now, hour, minute, blends),
                }
            },
        }
    }
}

// ---------------------------------------------------------------- writes

/// What is known of an output, or that nothing is.
pub open spec fn runtime_of(model: EngineModel, name: Seq<char>) -> RuntimeView {
    match names::find(model.outputs, name) {
        Some(runtime) => runtime,
        None => policy::unknown_runtime(),
    }
}

/// The state once something else is known of an output.
pub open spec fn with_runtime(
    model: EngineModel,
    name: Seq<char>,
    runtime: RuntimeView,
) -> EngineModel {
    EngineModel { outputs: names::inserted(model.outputs, name, runtime), ..model }
}

/// Health of a fan output, which a hardware warning degrades.
pub open spec fn fan_health_of(health: Health, warned: bool) -> Health {
    if health == Health::Healthy && warned {
        Health::Degraded
    } else {
        health
    }
}

/// The refresh interval of a fan output.
pub open spec fn refresh_of(output: OutputConfig) -> Nanos {
    match output {
        OutputConfig::Fan { refresh_interval, .. } => refresh_interval,
        _ => 0,
    }
}

/// Whether a fan duty is written: when it changes, after a failure, and where the hardware
/// needs it, once the refresh interval has passed.
pub open spec fn fan_write_due(
    model: EngineModel,
    name: Seq<char>,
    percent: u8,
    refreshes: bool,
    refresh: Nanos,
    now: Nanos,
) -> bool {
    match names::find(model.outputs, name) {
        None => true,
        Some(runtime) => {
            ||| runtime.last_target != Some(Target::Percent(percent))
            ||| runtime.consecutive_failures > 0
            ||| refreshes && (match runtime.last_write {
                None => true,
                Some(last) => policy::since(now, last) >= refresh,
            })
        },
    }
}

/// Whether a color or a display state is written: when it changes.
pub open spec fn write_due(model: EngineModel, name: Seq<char>, target: Target) -> bool {
    match names::find(model.outputs, name) {
        None => true,
        Some(runtime) => runtime.last_target != Some(target),
    }
}

/// The state once a fan duty was found to hold already.
pub open spec fn fan_held(model: EngineModel, name: Seq<char>, health: Health) -> EngineModel {
    let runtime = runtime_of(model, name);
    with_runtime(
        model,
        name,
        RuntimeView {
            health: Some(fan_health_of(health, runtime.error is Some)),
            consecutive_failures: 0,
            ..runtime
        },
    )
}

/// The state once a fan duty was written.
pub open spec fn fan_stored(
    model: EngineModel,
    name: Seq<char>,
    percent: u8,
    health: Health,
    now: Nanos,
    write: FanWriteView,
) -> EngineModel {
    with_runtime(
        model,
        name,
        RuntimeView {
            last_target: Some(Target::Percent(percent)),
            last_write: Some(now),
            observed: Some(write.observed),
            health: Some(fan_health_of(health, write.warning is Some)),
            error: write.warning,
            consecutive_failures: 0,
        },
    )
}

/// The state once a color or a display state was found to hold already.
pub open spec fn held(model: EngineModel, name: Seq<char>, health: Health) -> EngineModel {
    let runtime = runtime_of(model, name);
    with_runtime(
        model,
        name,
        RuntimeView {
            health: Some(health),
            error: None,
            consecutive_failures: 0,
            ..runtime
        },
    )
}

/// The state once a color or a display state was written.
pub open spec fn stored(
    model: EngineModel,
    name: Seq<char>,
    target: Target,
    health: Health,
    now: Nanos,
    observed: JsonView,
) -> EngineModel {
    with_runtime(
        model,
        name,
        RuntimeView {
            last_target: Some(target),
            last_write: Some(now),
            observed: Some(observed),
            health: Some(health),
            error: None,
            consecutive_failures: 0,
        },
    )
}

/// The state once an output was found to be released.
pub open spec fn noted_released(model: EngineModel, name: Seq<char>) -> EngineModel {
    let runtime = runtime_of(model, name);
    with_runtime(
        model,
        name,
        RuntimeView {
            health: Some(Health::Released),
            error: None,
            consecutive_failures: 0,
            ..runtime
        },
    )
}

/// The state once an evaluation failed.
pub open spec fn noted_failure(
    model: EngineModel,
    name: Seq<char>,
    failure: ErrorView,
) -> EngineModel {
    let runtime = runtime_of(model, name);
    with_runtime(
        model,
        name,
        RuntimeView {
            health: Some(Health::Degraded),
            error: Some(error::described(failure)),
            consecutive_failures: if runtime.consecutive_failures < u32::MAX {
                (runtime.consecutive_failures + 1) as u32
            } else {
                u32::MAX
            },
            ..runtime
        },
    )
}

/// Whether an engine neither changed nor called its hardware.
pub open spec fn untouched<H: Hardware>(before: Engine<H>, after: Engine<H>) -> bool {
    after@ == before@ && after.hardware == before.hardware
}

/// Whether only its state changed, to a given one.
pub open spec fn became<H: Hardware>(
    before: Engine<H>,
    after: Engine<H>,
    model: EngineModel,
) -> bool {
    after@ == model && after.hardware == before.hardware
}

/// What comes of a fan duty: a known fault of the device stops it; a duty that holds already
/// is left alone; any other is written, and the state follows the driver's answer.
pub open spec fn fan_step<H: Hardware>(
    before: Engine<H>,
    after: Engine<H>,
    result: Reply<()>,
    name: Seq<char>,
    output: OutputConfig,
    percent: u8,
    health: Health,
    now: Nanos,
) -> bool {
    match before.hardware.fan_fault(output) {
        Some(fault) => result == Err::<(), ErrorView>(fault) && untouched(before, after),
        None => if !fan_write_due(
            before@,
            name,
            percent,
            before.hardware.refreshes(output),
            refresh_of(output),
            now,
        ) {
            result == Ok::<(), ErrorView>(()) && became(
                before,
                after,
                fan_held(before@, name, health),
            )
        } else {
            let call = after.hardware.calls().last();
            &&& after.hardware.calls() == before.hardware.calls().push(call)
            &&& match call {
                Call::SetFan { alias, config, percent: written, reply } => {
                    &&& alias == name && config == output && written == percent
                    &&& match reply {
                        Err(error) => result == Err::<(), ErrorView>(error) && after@ == before@,
                        Ok(write) => result == Ok::<(), ErrorView>(()) && after@ == fan_stored(
                            before@,
                            name,
                            percent,
                            health,
                            now,
                            write,
                        ),
                    }
                },
                _ => false,
            }
        },
    }
}

/// What comes of a color.
pub open spec fn rgb_step<H: Hardware>(
    before: Engine<H>,
    after: Engine<H>,
    result: Reply<()>,
    name: Seq<char>,
    output: OutputConfig,
    rgb: [u8; 3],
    health: Health,
    now: Nanos,
) -> bool {
    let target = policy::rgb_target(rgb);
    if !write_due(before@, name, target) {
        result == Ok::<(), ErrorView>(()) && became(before, after, held(before@, name, health))
    } else {
        let call = after.hardware.calls().last();
        &&& after.hardware.calls() == before.hardware.calls().push(call)
        &&& match call {
            Call::SetRgb { alias, config, rgb: written, reply } => {
                &&& alias == name && config == output && written == rgb
                &&& match reply {
                    Err(error) => result == Err::<(), ErrorView>(error) && after@ == before@,
                    Ok(observed) => result == Ok::<(), ErrorView>(()) && after@ == stored(
                        before@,
                        name,
                        target,
                        health,
                        now,
                        observed,
                    ),
                }
            },
            _ => false,
        }
    }
}

/// What comes of a display state.
pub open spec fn display_step<H: Hardware>(
    before: Engine<H>,
    after: Engine<H>,
    result: Reply<()>,
    name: Seq<char>,
    output: OutputConfig,
    state: DisplayTarget,
    now: Nanos,
) -> bool {
    let target = policy::display_target(state);
    if !write_due(before@, name, target) {
        result == Ok::<(), ErrorView>(()) && became(
            before,
            after,
            held(before@, name, Health::Healthy),
        )
    } else {
        let call = after.hardware.calls().last();
        &&& after.hardware.calls() == before.hardware.calls().push(call)
        &&& match call {
            Call::SetDisplay { alias, config, target: written, reply } => {
                &&& alias == name && config == output && written == state
                &&& match reply {
                    Err(error) => result == Err::<(), ErrorView>(error) && after@ == before@,
                    Ok(observed) => result == Ok::<(), ErrorView>(()) && after@ == stored(
                        before@,
                        name,
                        target,
                        Health::Healthy,
                        now,
                        observed,
                    ),
                }
            },
            _ => false,
        }
    }
}

/// What comes of a decision.
pub open spec fn decision_step<H: Hardware>(
    before: Engine<H>,
    after: Engine<H>,
    result: Reply<()>,
    name: Seq<char>,
    decision: DecisionView,
    now: Nanos,
) -> bool {
    match (decision, names::find(before@.config.outputs@, name)) {
        (DecisionView::Fail(error), _) => result == Err::<(), ErrorView>(error) && untouched(
            before,
            after,
        ),
        (DecisionView::Released, _) => result == Ok::<(), ErrorView>(()) && became(
            before,
            after,
            noted_released(before@, name),
        ),
        (_, None) => result == Err::<(), ErrorView>(
            ErrorView::Config("unknown output '"@ + name + "'"@),
        ) && untouched(before, after),
        (DecisionView::Fan { percent, health }, Some(output)) => fan_step(
            before,
            after,
            result,
            name,
            output,
            percent,
            health,
            now,
        ),
        (DecisionView::Rgb { rgb, health }, Some(output)) => rgb_step(
            before,
            after,
            result,
            name,
            output,
            rgb,
            health,
            now,
        ),
        (DecisionView::Display { target }, Some(output)) => display_step(
            before,
            after,
            result,
            name,
            output,
            target,
            now,
        ),
    }
}

fn fan_health(policy_health: Health, has_hardware_warning: bool) -> (health: Health)
    ensures
        health == fan_health_of(policy_health, has_hardware_warning),
{
    if policy_health == Health::Healthy && has_hardware_warning {
        Health::Degraded
    } else {
        policy_health
    }
}

fn same_target(known: Option<Target>, target: Target) -> (same: bool)
    ensures
        same == (known == Some(target)),
{
    match known {
        Some(last) => last == target,
        None => false,
    }
}

impl<H: Hardware> Engine<H> {
    pub(crate) fn take_runtime(&mut self, name: &str) -> (runtime: OutputRuntime)
        ensures
            runtime@ == runtime_of(old(self)@, name@),
            final(self)@ == (EngineModel {
                outputs: names::removed(old(self)@.outputs, name@),
                ..old(self)@
            }),
            final(self).hardware == old(self).hardware,
            names::sorted(old(self)@.outputs),
    {
        let _ = self.outputs.len();
        match self.outputs.remove(name) {
            Some(runtime) => runtime,
            None => OutputRuntime::default(),
        }
    }

    pub(crate) fn put_runtime(&mut self, name: &str, runtime: OutputRuntime, Ghost(model): Ghost<EngineModel>)
        requires
            names::sorted(model.outputs),
            old(self)@ == (EngineModel {
                outputs: names::removed(model.outputs, name@),
                ..model
            }),
        ensures
            final(self)@ == with_runtime(model, name@, runtime@),
            final(self).hardware == old(self).hardware,
    {
        proof {
            names::lemma_inserted_after_removed(model.outputs, name@, runtime@);
        }
        self.outputs.insert(name.to_owned(), runtime);
    }

    fn write_fan(&mut self, name: &str, percent: u8, health: Health, now: Nanos) -> (result: Result<
        (),
    >)
        requires
            names::has(old(self)@.config.outputs@, name@),
        ensures
            fan_step(
                *old(self),
                *final(self),
                drivers::done(result),
                name@,
                names::find(old(self)@.config.outputs@, name@)->0,
                percent,
                health,
                now,
            ),
    {
        let output = match self.config.outputs.get(name) {
            Some(output) => output,
            None => return Ok(()),
        };
        self.hardware.check_fan_health(output)?;
        let refresh: Nanos = match output {
            OutputConfig::Fan { refresh_interval, .. } => *refresh_interval,
            _ => 0,
        };
        let refreshes = self.hardware.fan_needs_periodic_refresh(output);
        let due = match self.outputs.get(name) {
            None => true,
            Some(runtime) => !same_target(runtime.last_target, Target::Percent(percent))
                || runtime.consecutive_failures > 0 || refreshes && (match runtime.last_write {
                None => true,
                Some(last) => elapsed(now, last) >= refresh,
            }),
        };
        let ghost model = self@;
        if !due {
            let mut runtime = self.take_runtime(name);
            runtime.health = Some(fan_health(health, runtime.error.is_some()));
            runtime.consecutive_failures = 0;
            self.put_runtime(name, runtime, Ghost(model));
            return Ok(());
        }
        let write = self.hardware.set_fan(name, output, percent)?;
        let warned = write.warning.is_some();
        self.outputs.insert(
            name.to_owned(),
            OutputRuntime {
                last_target: Some(Target::Percent(percent)),
                last_write: Some(now),
                observed: Some(write.observed),
                health: Some(fan_health(health, warned)),
                error: write.warning,
                consecutive_failures: 0,
            },
        );
        Ok(())
    }

    fn write_rgb(&mut self, name: &str, rgb: [u8; 3], health: Health, now: Nanos) -> (result:
        Result<()>)
        requires
            names::has(old(self)@.config.outputs@, name@),
        ensures
            rgb_step(
                *old(self),
                *final(self),
                drivers::done(result),
                name@,
                names::find(old(self)@.config.outputs@, name@)->0,
                rgb,
                health,
                now,
            ),
    {
        let output = match self.config.outputs.get(name) {
            Some(output) => output,
            None => return Ok(()),
        };
        let target = Target::Rgb(rgb[0], rgb[1], rgb[2]);
        let due = match self.outputs.get(name) {
            None => true,
            Some(runtime) => !same_target(runtime.last_target, target),
        };
        let ghost model = self@;
        if !due {
            let mut runtime = self.take_runtime(name);
            runtime.health = Some(health);
            runtime.error = None;
            runtime.consecutive_failures = 0;
            self.put_runtime(name, runtime, Ghost(model));
            return Ok(());
        }
        let observed = self.hardware.set_rgb(name, output, rgb)?;
        self.outputs.insert(
            name.to_owned(),
            OutputRuntime {
                last_target: Some(target),
                last_write: Some(now),
                observed: Some(observed),
                health: Some(health),
                error: None,
                consecutive_failures: 0,
            },
        );
        Ok(())
    }

    fn write_display(&mut self, name: &str, state: DisplayTarget, now: Nanos) -> (result: Result<
        (),
    >)
        requires
            names::has(old(self)@.config.outputs@, name@),
        ensures
            display_step(
                *old(self),
                *final(self),
                drivers::done(result),
                name@,
                names::find(old(self)@.config.outputs@, name@)->0,
                state,
                now,
            ),
    {
        let output = match self.config.outputs.get(name) {
            Some(output) => output,
            None => return Ok(()),
        };
        let target = match state {
            DisplayTarget::Awake { brightness_percent } => Target::Percent(brightness_percent),
            DisplayTarget::Sleep => Target::Sleep,
        };
        let due = match self.outputs.get(name) {
            None => true,
            Some(runtime) => !same_target(runtime.last_target, target),
        };
        let ghost model = self@;
        if !due {
            let mut runtime = self.take_runtime(name);
            runtime.health = Some(Health::Healthy);
            runtime.error = None;
            runtime.consecutive_failures = 0;
            self.put_runtime(name, runtime, Ghost(model));
            return Ok(());
        }
        let observed = self.hardware.set_display(name, output, state)?;
        self.outputs.insert(
            name.to_owned(),
            OutputRuntime {
                last_target: Some(target),
                last_write: Some(now),
                observed: Some(observed),
                health: Some(Health::Healthy),
                error: None,
                consecutive_failures: 0,
            },
        );
        Ok(())
    }

    /// Carries out a decision.
    ///
    /// # Errors
    ///
    /// Returns the reason of a failed decision, or the error of the driver.
    pub fn perform(&mut self, name: &str, decision: Decision, now: Nanos) -> (result: Result<()>)
        ensures
            decision_step(
                *old(self),
                *final(self),
                drivers::done(result),
                name@,
                decision@,
                now,
            ),
    {
        match decision {
            Decision::Fail(error) => return Err(error),
            Decision::Released => {
                let ghost model = self@;
                let mut runtime = self.take_runtime(name);
                runtime.health = Some(Health::Released);
                runtime.error = None;
                runtime.consecutive_failures = 0;
                self.put_runtime(name, runtime, Ghost(model));
                return Ok(());
            },
            _ => {},
        }
        if !self.config.outputs.contains_key(name) {
            return Err(FeatherError::Config(text::concat3("unknown output '", name, "'")));
        }
        match decision {
            Decision::Fan { percent, health } => self.write_fan(name, percent, health, now),
            Decision::Rgb { rgb, health } => self.write_rgb(name, rgb, health, now),
            Decision::Display { target } => self.write_display(name, target, now),
            _ => Ok(()),
        }
    }
}

// ---------------------------------------------------------------- evaluation

/// The overrides among the first `count` that have not ended.
pub open spec fn unexpired(
    overrides: names::Entries<ActiveOverride>,
    now: Nanos,
    count: int,
) -> names::Entries<ActiveOverride>
    decreases count,
{
    if count <= 0 {
        Seq::empty()
    } else if overrides[count - 1].1.expires_at > now {
        unexpired(overrides, now, count - 1).push(overrides[count - 1])
    } else {
        unexpired(overrides, now, count - 1)
    }
}

/// The state without overrides that have ended.
pub open spec fn expired(model: EngineModel, now: Nanos) -> EngineModel {
    EngineModel {
        overrides: unexpired(model.overrides, now, model.overrides.len() as int),
        ..model
    }
}

/// Whether the sensors are due to be read.
pub open spec fn poll_due(model: EngineModel, now: Nanos) -> bool {
    match model.last_sensor_poll {
        None => true,
        Some(last) => policy::since(now, last) >= model.config.daemon.poll_interval,
    }
}

/// What an evaluation does before it comes to the outputs: overrides end, and sensors that are
/// due are read.
pub open spec fn prepared<H: Hardware>(before: Engine<H>, after: Engine<H>, now: Nanos) -> bool {
    if poll_due(before@, now) {
        exists|ready: Engine<H>, read: Engine<H>|
            {
                &&& became(before, ready, expired(before@, now))
                &&& #[trigger] poll_step(ready, read, now)
                &&& after.hardware == read.hardware
                &&& after@ == (EngineModel { last_sensor_poll: Some(now), ..read@ })
            }
    } else {
        became(before, after, expired(before@, now))
    }
}

/// One evaluation of an output, step by step: a decision, what came of it, and the note of a
/// failure.
pub open spec fn evaluation<H: Hardware, F, G>(
    before: Engine<H>,
    middle: Engine<H>,
    after: Engine<H>,
    result: Reply<()>,
    blended: Blended,
    name: Seq<char>,
    assignment: AssignmentConfig,
    now: Nanos,
    hour: u32,
    minute: u32,
    blends: Blends<F, G>,
) -> bool where
    F: Fn(FanPoint, FanPoint, Celsius) -> u8,
    G: Fn(ColorPoint, ColorPoint, Celsius) -> [u8; 3],
 {
    &&& policy::blended_from(blends, before@, name, assignment, now, hour, minute, blended)
    &&& decision_step(
        before,
        middle,
        result,
        name,
        policy::decided(before@, name, assignment, now, hour, minute, blended),
        now,
    )
    &&& match result {
        Ok(_) => untouched(middle, after),
        Err(failure) => became(middle, after, noted_failure(middle@, name, failure)),
    }
}

/// Whether an output was evaluated once.
pub open spec fn evaluated<H: Hardware, F, G>(
    before: Engine<H>,
    after: Engine<H>,
    name: Seq<char>,
    assignment: AssignmentConfig,
    now: Nanos,
    hour: u32,
    minute: u32,
    blends: Blends<F, G>,
) -> bool where
    F: Fn(FanPoint, FanPoint, Celsius) -> u8,
    G: Fn(ColorPoint, ColorPoint, Celsius) -> [u8; 3],
 {
    exists|middle: Engine<H>, result: Reply<()>, blended: Blended| #[trigger]
        evaluation(
            before,
            middle,
            after,
            result,
            blended,
            name,
            assignment,
            now,
            hour,
            minute,
            blends,
        )
}

/// The assignments of the active profile.
pub open spec fn active_assignments(model: EngineModel) -> Option<
    names::Entries<AssignmentConfig>,
> {
    match names::find(model.config.profiles@, model.active_profile) {
        Some(profile) => Some(profile.outputs@),
        None => None,
    }
}

/// Whether failures of an output stop the daemon: those of a fan do, unless they are confined
/// to it.
pub open spec fn failure_stops<H: Hardware>(engine: Engine<H>, name: Seq<char>) -> bool {
    match names::find(engine@.config.outputs@, name) {
        Some(output) => output is Fan && !engine.hardware.isolated(output),
        None => false,
    }
}

/// Whether an output failed so often that the daemon stops.
pub open spec fn must_stop<H: Hardware>(engine: Engine<H>) -> bool {
    exists|i: int|
        {
            &&& 0 <= i < engine@.outputs.len()
            &&& (#[trigger] engine@.outputs[i]).1.consecutive_failures
                >= engine@.config.daemon.failure_limit
            &&& failure_stops(engine, engine@.outputs[i].0)
        }
}

/// The state once the active profile was found to be missing.
pub open spec fn without_profile(model: EngineModel) -> EngineModel {
    EngineModel {
        driver_errors: names::inserted(
            model.driver_errors,
            "policy"@,
            "active profile '"@ + model.active_profile + "' is missing"@,
        ),
        ..model
    }
}

/// One evaluation of the whole policy, through every state between the outputs.
pub open spec fn tick_run<H: Hardware, F, G>(
    before: Engine<H>,
    after: Engine<H>,
    stop: bool,
    states: Seq<Engine<H>>,
    now: Nanos,
    hour: u32,
    minute: u32,
    blends: Blends<F, G>,
) -> bool where
    F: Fn(FanPoint, FanPoint, Celsius) -> u8,
    G: Fn(ColorPoint, ColorPoint, Celsius) -> [u8; 3],
 {
    &&& states.len() > 0
    &&& prepared(before, states[0], now)
    &&& match active_assignments(states[0]@) {
        None => states.len() == 1 && became(states[0], after, without_profile(states[0]@))
            && stop,
        Some(assignments) => {
            &&& states.len() == assignments.len() + 1
            &&& forall|i: int|
                0 <= i < assignments.len() ==> evaluated(
                    #[trigger] states[i],
                    states[i + 1],
                    assignments[i].0,
                    assignments[i].1,
                    now,
                    hour,
                    minute,
                    blends,
                )
            &&& untouched(states.last(), after)
            &&& stop == must_stop(after)
        },
    }
}

/// What an evaluation keeps: the configuration, the profile, the overrides, and what is
/// released.
pub open spec fn same_settings(left: EngineModel, right: EngineModel) -> bool {
    &&& left.config == right.config
    &&& left.active_profile == right.active_profile
    &&& left.generation == right.generation
    &&& left.started_at == right.started_at
    &&& left.overrides == right.overrides
    &&& left.released == right.released
    &&& left.devices == right.devices
}

impl<H: Hardware> Engine<H> {
    fn expire_overrides(&mut self, now: Nanos)
        ensures
            became(*old(self), *final(self), expired(old(self)@, now)),
    {
        let mut kept: NameMap<ActiveOverride> = NameMap::new();
        let count: usize = self.overrides.len();
        let mut at: usize = 0;
        let ghost all = self@.overrides;
        while at < count
            invariant
                self@ == old(self)@,
                self.hardware == old(self).hardware,
                all == self@.overrides,
                names::sorted(all),
                count == all.len(),
                at <= count,
                kept@ == unexpired(all, now, at as int),
                at < count ==> forall|i: int|
                    0 <= i < kept@.len() ==> text::before(#[trigger] kept@[i].0, all[at as int].0),
            decreases count - at,
        {
            let active = *self.overrides.value_at(at);
            let ghost earlier = kept@;
            if active.expires_at > now {
                proof {
                    names::lemma_insert_last(kept@, all[at as int].0, active);
                }
                kept.insert(self.overrides.key_at(at).clone(), active);
            }
            proof {
                if at + 1 < count {
                    assert forall|i: int| 0 <= i < kept@.len() implies text::before(
                        #[trigger] kept@[i].0,
                        all[at + 1].0,
                    ) by {
                        assert(text::before(all[at as int].0, all[at + 1].0));
                        if i < earlier.len() {
                            assert(kept@[i] == earlier[i]);
                            text::lemma_before_transitive(
                                kept@[i].0,
                                all[at as int].0,
                                all[at + 1].0,
                            );
                        }
                    }
                }
            }
            at += 1;
        }
        self.overrides = kept;
    }

    fn evaluate_output<F, G>(
        &mut self,
        at: usize,
        now: Nanos,
        hour: u32,
        minute: u32,
        blends: &Blends<F, G>,
    ) where
        F: Fn(FanPoint, FanPoint, Celsius) -> u8,
        G: Fn(ColorPoint, ColorPoint, Celsius) -> [u8; 3],

        requires
            policy::blendable(*blends),
            active_assignments(old(self)@) matches Some(assignments) && at < assignments.len(),
        ensures
            evaluated(
                *old(self),
                *final(self),
                active_assignments(old(self)@)->0[at as int].0,
                active_assignments(old(self)@)->0[at as int].1,
                now,
                hour,
                minute,
                *blends,
            ),
            same_settings(old(self)@, final(self)@),
    {
        let profile = match self.config.profiles.get(self.active_profile.as_str()) {
            Some(profile) => profile,
            None => return,
        };
        let ghost before = *self;
        let ghost assignment = profile.outputs@[at as int].1;
        let name = profile.outputs.key_at(at).clone();
        let decision = self.decide(
            name.as_str(),
            profile.outputs.value_at(at),
            now,
            hour,
            minute,
            blends,
        );
        let ghost blended = choose|blended: Blended|
            #[trigger] policy::blended_from(
                *blends,
                before@,
                name@,
                assignment,
                now,
                hour,
                minute,
                blended,
            ) && decision@ == policy::decided(
                before@,
                name@,
                assignment,
                now,
                hour,
                minute,
                blended,
            );
        let result = self.perform(name.as_str(), decision, now);
        let ghost middle = *self;
        let ghost outcome = drivers::done(result);
        if let Err(error) = result {
            let ghost model = self@;
            let mut runtime = self.take_runtime(name.as_str());
            runtime.health = Some(Health::Degraded);
            runtime.error = Some(error.to_text());
            runtime.consecutive_failures = if runtime.consecutive_failures < u32::MAX {
                runtime.consecutive_failures + 1
            } else {
                u32::MAX
            };
            self.put_runtime(name.as_str(), runtime, Ghost(model));
        }
        assert(evaluation(
            before,
            middle,
            *self,
            outcome,
            blended,
            name@,
            assignment,
            now,
            hour,
            minute,
            *blends,
        ));
    }

    fn fan_failure_stops_daemon(&self, name: &str) -> (result: bool)
        ensures
            result == failure_stops(*self, name@),
    {
        match self.config.outputs.get(name) {
            Some(output) => match output {
                OutputConfig::Fan { .. } => !self.hardware.fan_failure_is_isolated(output),
                _ => false,
            },
            None => false,
        }
    }

    fn failure_limit_reached(&self) -> (result: bool)
        ensures
            result == must_stop(*self),
    {
        let count: usize = self.outputs.len();
        let mut at: usize = 0;
        while at < count
            invariant
                count == self@.outputs.len(),
                at <= count,
                forall|i: int|
                    0 <= i < at ==> !((#[trigger] self@.outputs[i]).1.consecutive_failures
                        >= self@.config.daemon.failure_limit && failure_stops(
                        *self,
                        self@.outputs[i].0,
                    )),
            decreases count - at,
        {
            let runtime = self.outputs.value_at(at);
            if runtime.consecutive_failures >= self.config.daemon.failure_limit
                && self.fan_failure_stops_daemon(self.outputs.key_at(at).as_str()) {
                assert(self@.outputs[at as int].1.consecutive_failures
                    >= self@.config.daemon.failure_limit);
                return true;
            }
            at += 1;
        }
        false
    }

    /// Evaluates the policy once: overrides that have ended are dropped, sensors that are due
    /// are read, and every output of the active profile is decided and set. Returns whether the
    /// daemon has to stop.
    pub fn tick<F, G>(
        &mut self,
        now: Nanos,
        hour: u32,
        minute: u32,
        blends: &Blends<F, G>,
    ) -> (stop: bool) where
        F: Fn(FanPoint, FanPoint, Celsius) -> u8,
        G: Fn(ColorPoint, ColorPoint, Celsius) -> [u8; 3],

        requires
            policy::blendable(*blends),
        ensures
            exists|states: Seq<Engine<H>>| #[trigger]
                tick_run(*old(self), *final(self), stop, states, now, hour, minute, *blends),
            same_settings(expired(old(self)@, now), final(self)@),
    {
        let ghost before = *self;
        let due = match self.last_sensor_poll {
            None => true,
            Some(last) => elapsed(now, last) >= self.config.daemon.poll_interval,
        };
        self.expire_overrides(now);
        let ghost ready = *self;
        if due {
            self.poll_sensors(now);
            let ghost read = *self;
            proof {
                let calls = read.hardware.calls().skip(ready.hardware.calls().len() as int);
                lemma_polled_config(
                    ready@,
                    calls,
                    ready@.config.sensors@.len() as int,
                    now,
                );
                lemma_polled_rest(ready@, calls, ready@.config.sensors@.len() as int, now);
                assert(poll_step(ready, read, now));
            }
            self.last_sensor_poll = Some(now);
        }
        let ghost mut states: Seq<Engine<H>> = seq![*self];
        assert(prepared(before, states[0], now));
        let count: usize = match self.config.profiles.get(self.active_profile.as_str()) {
            None => {
                let message = text::concat3(
                    "active profile '",
                    self.active_profile.as_str(),
                    "' is missing",
                );
                self.driver_errors.insert("policy".to_owned(), message);
                assert(tick_run(before, *self, true, states, now, hour, minute, *blends));
                return true;
            },
            Some(profile) => profile.outputs.len(),
        };
        let ghost first = states[0];
        let ghost assignments = active_assignments(first@)->0;
        let mut at: usize = 0;
        while at < count
            invariant
                policy::blendable(*blends),
                count == assignments.len(),
                active_assignments(first@) == Some(assignments),
                same_settings(first@, self@),
                at <= count,
                states.len() == at + 1,
                states[0] == first,
                states.last() == *self,
                forall|i: int|
                    0 <= i < at ==> evaluated(
                        #[trigger] states[i],
                        states[i + 1],
                        assignments[i].0,
                        assignments[i].1,
                        now,
                        hour,
                        minute,
                        *blends,
                    ),
            decreases count - at,
        {
            let ghost earlier = states;
            self.evaluate_output(at, now, hour, minute, blends);
            proof {
                states = states.push(*self);
                assert forall|i: int| 0 <= i < at + 1 implies evaluated(
                    #[trigger] states[i],
                    states[i + 1],
                    assignments[i].0,
                    assignments[i].1,
                    now,
                    hour,
                    minute,
                    *blends,
                ) by {
                    assert(states[i] == earlier[i]);
                    if i < at {
                        assert(states[i + 1] == earlier[i + 1]);
                    }
                }
            }
            at += 1;
        }
        let stop = self.failure_limit_reached();
        assert(tick_run(before, *self, stop, states, now, hour, minute, *blends));
        stop
    }
}

proof fn lemma_polled_rest(model: EngineModel, calls: Seq<Call>, count: int, now: Nanos)
    ensures
        polled(model, calls, count, now).generation == model.generation,
        polled(model, calls, count, now).started_at == model.started_at,
        polled(model, calls, count, now).devices == model.devices,
    decreases count,
{
    if count > 0 {
        lemma_polled_rest(model, calls, count - 1, now);
    }
}

proof fn lemma_shortest_refresh(outputs: names::Entries<OutputConfig>, count: int)
    requires
        0 <= count <= outputs.len(),
    ensures
        forall|i: int|
            0 <= i < count && (#[trigger] outputs[i]).1 is Fan ==> (shortest_refresh(
                outputs,
                count,
            ) matches Some(interval) && interval <= outputs[i].1->refresh_interval),
        shortest_refresh(outputs, count) matches Some(interval) ==> exists|i: int|
            0 <= i < count && (#[trigger] outputs[i]).1 is Fan && outputs[i].1->refresh_interval
                == interval,
    decreases count,
{
    if count > 0 {
        lemma_shortest_refresh(outputs, count - 1);
        assert(outputs[count - 1] == outputs[count - 1]);
    }
}

/// The engine evaluates the policy as often as anything asks for it: no longer apart than the poll
/// interval, than any refresh interval of a fan, and than a second, and no more often than that.
pub proof fn law_policy_is_evaluated_often_enough(config: Config, at: int)
    ensures
        interval_of(config) <= config.daemon.poll_interval,
        interval_of(config) <= 1_000_000_000,
        0 <= at < config.outputs@.len() && config.outputs@[at].1 is Fan ==> interval_of(config)
            <= config.outputs@[at].1->refresh_interval,
        ({
            ||| interval_of(config) == config.daemon.poll_interval
            ||| interval_of(config) == 1_000_000_000
            ||| exists|i: int|
                0 <= i < config.outputs@.len() && (#[trigger] config.outputs@[i]).1 is Fan
                    && config.outputs@[i].1->refresh_interval == interval_of(config)
        }),
{
    lemma_shortest_refresh(config.outputs@, config.outputs@.len() as int);
}

/// The engine starts with the profile that it is given, or else the default of the configuration,
/// and knows nothing of its sensors and outputs yet.
pub proof fn law_engine_starts_afresh(
    config: Config,
    initial: Option<Seq<char>>,
    devices: Seq<DescriptorView>,
    now: Nanos,
)
    ensures
        ({
            let model = new_model(config, first_profile(config, initial), devices, now);
            &&& initial matches Some(profile) ==> model.active_profile == profile
            &&& initial is None ==> model.active_profile == config.default_profile@
            &&& model.config == config
            &&& model.devices == devices
            &&& model.generation == 1
            &&& model.started_at == now
            &&& model.last_sensor_poll is None
            &&& model.readings.len() + model.sensor_errors.len() + model.outputs.len()
                + model.overrides.len() + model.released.len() + model.driver_errors.len() == 0
        }),
{
}

} // verus!
