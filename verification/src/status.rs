//! The status document that the engine reports.

use vstd::prelude::*;

use crate::config::Nanos;
use crate::config::OutputConfig;
use crate::config::SensorConfig;
use crate::drivers::Hardware;
use crate::engine;
use crate::engine::Engine;
use crate::json;
use crate::json::Json;
use crate::json::JsonView;
use crate::names;
use crate::names::NameMap;
use crate::policy;
use crate::policy::duration_millis;
use crate::policy::duration_seconds;
use crate::policy::elapsed;
use crate::policy::ActiveOverride;
use crate::policy::EngineModel;
use crate::policy::OverrideValue;
use crate::text;
use crate::types::copy_texts;
use crate::types::DaemonStatus;
use crate::types::DaemonStatusView;
use crate::types::Health;
use crate::types::OutputKind;
use crate::types::OutputStatus;
use crate::types::OutputStatusView;
use crate::types::OverrideKind;
use crate::types::OverrideStatus;
use crate::types::OverrideStatusView;
use crate::types::SensorReading;
use crate::types::SensorStatus;
use crate::types::SensorStatusView;
use crate::types::STATUS_SCHEMA_VERSION;
use crate::views;

verus! {

/// The running version.
pub fn version() -> (version: &'static str)
    ensures
        version@ == "0.1.2"@,
{
    "0.1.2"
}

/// The name of the driver that reads a sensor.
pub open spec fn driver_name(sensor: SensorConfig) -> Seq<char> {
    match sensor {
        SensorConfig::LinuxHwmon { .. } => "linux-hwmon"@,
        SensorConfig::NvidiaNvml { .. } => "nvidia-nvml"@,
        SensorConfig::CorsairIcueLink { .. } => "corsair-icue-link"@,
    }
}

/// The last reading of a sensor with its age.
pub open spec fn reading_of(model: EngineModel, name: Seq<char>, now: Nanos) -> Option<
    SensorReading,
> {
    match names::find(model.readings, name) {
        Some(reading) => Some(
            SensorReading {
                celsius: reading.value,
                age_ms: policy::millis(policy::since(now, reading.observed_at)),
            },
        ),
        None => None,
    }
}

/// Health of a sensor: unavailable without a recent reading, degraded after an error.
pub open spec fn sensor_health(model: EngineModel, name: Seq<char>, now: Nanos) -> Health {
    let stale = match reading_of(model, name, now) {
        Some(reading) => reading.age_ms > policy::millis(model.config.daemon.stale_after),
        None => true,
    };
    if stale {
        Health::Unavailable
    } else if names::has(model.sensor_errors, name) {
        Health::Degraded
    } else {
        Health::Healthy
    }
}

/// What is reported of the sensor at a position of the configuration.
pub open spec fn sensor_status(model: EngineModel, at: int, now: Nanos) -> SensorStatusView {
    let name = model.config.sensors@[at].0;
    SensorStatusView {
        driver: driver_name(model.config.sensors@[at].1),
        health: sensor_health(model, name, now),
        reading: reading_of(model, name, now),
        error: names::find(model.sensor_errors, name),
    }
}

/// What is reported of all sensors.
pub open spec fn sensors_status(model: EngineModel, now: Nanos) -> names::Entries<
    SensorStatusView,
> {
    Seq::new(
        model.config.sensors@.len(),
        |i: int| (model.config.sensors@[i].0, sensor_status(model, i, now)),
    )
}

/// The kind of an output.
pub open spec fn kind_of(output: OutputConfig) -> OutputKind {
    match output {
        OutputConfig::Fan { .. } => OutputKind::Fan,
        OutputConfig::Rgb { .. } => OutputKind::Rgb,
        OutputConfig::Display { .. } => OutputKind::Display,
    }
}

/// What is reported of the output at a position of the configuration.
pub open spec fn output_status(model: EngineModel, at: int) -> OutputStatusView {
    let kind = kind_of(model.config.outputs@[at].1);
    match names::find(model.outputs, model.config.outputs@[at].0) {
        Some(runtime) => OutputStatusView {
            kind,
            health: match runtime.health {
                Some(health) => health,
                None => Health::Unavailable,
            },
            target: match runtime.last_target {
                Some(target) => Some(policy::target_json(target)),
                None => None,
            },
            observed: runtime.observed,
            error: runtime.error,
        },
        None => OutputStatusView {
            kind,
            health: Health::Unavailable,
            target: None,
            observed: None,
            error: None,
        },
    }
}

/// What is reported of all outputs.
pub open spec fn outputs_status(model: EngineModel) -> names::Entries<OutputStatusView> {
    Seq::new(
        model.config.outputs@.len(),
        |i: int| (model.config.outputs@[i].0, output_status(model, i)),
    )
}

/// Whether a component has a problem that it recovers from.
pub open spec fn impaired(health: Health) -> bool {
    health == Health::Degraded || health == Health::Unavailable
}

/// Health of the daemon: fail-safe if any output is, degraded if any component is impaired.
pub open spec fn overall_health(
    sensors: names::Entries<SensorStatusView>,
    outputs: names::Entries<OutputStatusView>,
) -> Health {
    if exists|i: int|
        0 <= i < outputs.len() && (#[trigger] outputs[i]).1.health == Health::FailSafe {
        Health::FailSafe
    } else if (exists|i: int|
        0 <= i < outputs.len() && impaired((#[trigger] outputs[i]).1.health)) || (exists|i: int|
        0 <= i < sensors.len() && impaired((#[trigger] sensors[i]).1.health)) {
        Health::Degraded
    } else {
        Health::Healthy
    }
}

/// An override in JSON.
pub open spec fn override_json(value: OverrideValue) -> JsonView {
    match value {
        OverrideValue::Fan(percent) => json::number_view(percent as nat),
        OverrideValue::Rgb(rgb) => json::rgb_view(rgb),
        OverrideValue::Display(on) => JsonView::Bool(on),
    }
}

/// What is reported of an override.
pub open spec fn override_status(
    output: Seq<char>,
    active: ActiveOverride,
    now: Nanos,
) -> OverrideStatusView {
    OverrideStatusView {
        output,
        kind: match active.value {
            OverrideValue::Fan(_) => OverrideKind::Fan,
            OverrideValue::Rgb(_) => OverrideKind::Rgb,
            OverrideValue::Display(_) => OverrideKind::Display,
        },
        value: override_json(active.value),
        remaining_ms: policy::millis(policy::since(active.expires_at, now)),
    }
}

/// The status document.
pub open spec fn status_of(model: EngineModel, now: Nanos) -> DaemonStatusView {
    let sensors = sensors_status(model, now);
    let outputs = outputs_status(model);
    DaemonStatusView {
        schema_version: STATUS_SCHEMA_VERSION,
        version: "0.1.2"@,
        active_profile: model.active_profile,
        config_generation: model.generation,
        uptime_seconds: policy::seconds(policy::since(now, model.started_at)),
        health: overall_health(sensors, outputs),
        sensors,
        outputs,
        overrides: overrides_status(
            engine::unexpired(model.overrides, now, model.overrides.len() as int),
            now,
        ),
        driver_errors: errors_status(model.driver_errors, sensors, outputs),
    }
}

/// What is reported of overrides.
pub open spec fn overrides_status(
    overrides: names::Entries<ActiveOverride>,
    now: Nanos,
) -> Seq<OverrideStatusView> {
    Seq::new(overrides.len(), |i: int| override_status(overrides[i].0, overrides[i].1, now))
}

/// Errors, with those of the first `count` sensors added under their aliases.
pub open spec fn with_sensor_errors(
    errors: names::Entries<Seq<char>>,
    sensors: names::Entries<SensorStatusView>,
    count: int,
) -> names::Entries<Seq<char>>
    decreases count,
{
    if count <= 0 {
        errors
    } else {
        let earlier = with_sensor_errors(errors, sensors, count - 1);
        match sensors[count - 1].1.error {
            Some(message) => names::inserted(earlier, sensors[count - 1].0, message),
            None => earlier,
        }
    }
}

/// Errors, with those of the first `count` outputs added under their aliases.
pub open spec fn with_output_errors(
    errors: names::Entries<Seq<char>>,
    outputs: names::Entries<OutputStatusView>,
    count: int,
) -> names::Entries<Seq<char>>
    decreases count,
{
    if count <= 0 {
        errors
    } else {
        let earlier = with_output_errors(errors, outputs, count - 1);
        match outputs[count - 1].1.error {
            Some(message) => names::inserted(earlier, outputs[count - 1].0, message),
            None => earlier,
        }
    }
}

/// The errors that are reported: those of the policy, and those of sensors and outputs under
/// their aliases. Where a sensor and an output share an alias, it holds the error of the output.
pub open spec fn errors_status(
    policy: names::Entries<Seq<char>>,
    sensors: names::Entries<SensorStatusView>,
    outputs: names::Entries<OutputStatusView>,
) -> names::Entries<Seq<char>> {
    with_output_errors(
        with_sensor_errors(policy, sensors, sensors.len() as int),
        outputs,
        outputs.len() as int,
    )
}

fn sensor_driver(sensor: &SensorConfig) -> (name: &'static str)
    ensures
        name@ == driver_name(*sensor),
{
    match sensor {
        SensorConfig::LinuxHwmon { .. } => "linux-hwmon",
        SensorConfig::NvidiaNvml { .. } => "nvidia-nvml",
        SensorConfig::CorsairIcueLink { .. } => "corsair-icue-link",
    }
}

fn output_kind(output: &OutputConfig) -> (kind: OutputKind)
    ensures
        kind == kind_of(*output),
{
    match output {
        OutputConfig::Fan { .. } => OutputKind::Fan,
        OutputConfig::Rgb { .. } => OutputKind::Rgb,
        OutputConfig::Display { .. } => OutputKind::Display,
    }
}

fn is_impaired(health: Health) -> (result: bool)
    ensures
        result == impaired(health),
{
    health == Health::Degraded || health == Health::Unavailable
}

/// Health of the daemon from that of its sensors and outputs.
pub fn aggregate_health(
    sensors: &NameMap<SensorStatus>,
    outputs: &NameMap<OutputStatus>,
) -> (health: Health)
    ensures
        health == overall_health(sensors@, outputs@),
{
    let mut degraded = false;
    let count: usize = outputs.len();
    let mut at: usize = 0;
    while at < count
        invariant
            count == outputs@.len(),
            at <= count,
            forall|i: int|
                0 <= i < at ==> (#[trigger] outputs@[i]).1.health != Health::FailSafe,
            degraded == exists|i: int|
                0 <= i < at && impaired((#[trigger] outputs@[i]).1.health),
        decreases count - at,
    {
        let health = outputs.value_at(at).health;
        assert(outputs@[at as int].1.health == health);
        if health == Health::FailSafe {
            return Health::FailSafe;
        }
        if is_impaired(health) {
            degraded = true;
        }
        at += 1;
    }
    if degraded {
        return Health::Degraded;
    }
    let count: usize = sensors.len();
    let mut at: usize = 0;
    while at < count
        invariant
            count == sensors@.len(),
            at <= count,
            forall|i: int|
                0 <= i < outputs@.len() ==> (#[trigger] outputs@[i]).1.health != Health::FailSafe,
            forall|i: int|
                0 <= i < at ==> !impaired((#[trigger] sensors@[i]).1.health),
        decreases count - at,
    {
        let health = sensors.value_at(at).health;
        assert(sensors@[at as int].1.health == health);
        if is_impaired(health) {
            return Health::Degraded;
        }
        at += 1;
    }
    Health::Healthy
}

impl<H: Hardware> Engine<H> {
    fn status_of_sensor(&self, at: usize, now: Nanos) -> (status: SensorStatus)
        requires
            at < self@.config.sensors@.len(),
        ensures
            status@ == sensor_status(self@, at as int, now),
    {
        let name = self.config.sensors.key_at(at).as_str();
        let reading = match self.readings.get(name) {
            Some(reading) => Some(
                SensorReading {
                    celsius: reading.value,
                    age_ms: duration_millis(elapsed(now, reading.observed_at)),
                },
            ),
            None => None,
        };
        let stale = match reading {
            Some(reading) => reading.age_ms > duration_millis(self.config.daemon.stale_after),
            None => true,
        };
        let failure = self.sensor_errors.get(name);
        let health = if stale {
            Health::Unavailable
        } else if failure.is_some() {
            Health::Degraded
        } else {
            Health::Healthy
        };
        SensorStatus {
            driver: sensor_driver(self.config.sensors.value_at(at)).to_owned(),
            health,
            reading,
            error: match failure {
                Some(message) => Some(message.clone()),
                None => None,
            },
        }
    }

    fn status_of_output(&self, at: usize) -> (status: OutputStatus)
        requires
            at < self@.config.outputs@.len(),
        ensures
            status@ == output_status(self@, at as int),
    {
        let kind = output_kind(self.config.outputs.value_at(at));
        match self.outputs.get(self.config.outputs.key_at(at).as_str()) {
            Some(runtime) => OutputStatus {
                kind,
                health: match runtime.health {
                    Some(health) => health,
                    None => Health::Unavailable,
                },
                target: match &runtime.last_target {
                    Some(target) => Some(target.to_json()),
                    None => None,
                },
                observed: match &runtime.observed {
                    Some(observed) => Some(observed.copy()),
                    None => None,
                },
                error: views::copy_text(&runtime.error),
            },
            None => OutputStatus {
                kind,
                health: Health::Unavailable,
                target: None,
                observed: None,
                error: None,
            },
        }
    }

    fn status_of_sensors(&self, now: Nanos) -> (sensors: NameMap<SensorStatus>)
        ensures
            sensors@ == sensors_status(self@, now),
    {
        let mut sensors: NameMap<SensorStatus> = NameMap::new();
        let count: usize = self.config.sensors.len();
        let mut at: usize = 0;
        let ghost wanted = sensors_status(self@, now);
        proof {
            lemma_same_names(self@.config.sensors@, wanted);
            assert(wanted.take(0) =~= sensors@);
        }
        while at < count
            invariant
                count == self@.config.sensors@.len(),
                at <= count,
                wanted == sensors_status(self@, now),
                names::sorted(wanted),
                sensors@ == wanted.take(at as int),
            decreases count - at,
        {
            proof {
                names::lemma_append_last(wanted, at as int);
            }
            sensors.insert(
                self.config.sensors.key_at(at).clone(),
                self.status_of_sensor(at, now),
            );
            at += 1;
        }
        assert(wanted.take(count as int) =~= wanted);
        sensors
    }

    fn status_of_outputs(&self) -> (outputs: NameMap<OutputStatus>)
        ensures
            outputs@ == outputs_status(self@),
    {
        let mut outputs: NameMap<OutputStatus> = NameMap::new();
        let count: usize = self.config.outputs.len();
        let mut at: usize = 0;
        let ghost wanted = outputs_status(self@);
        proof {
            lemma_same_names(self@.config.outputs@, wanted);
            assert(wanted.take(0) =~= outputs@);
        }
        while at < count
            invariant
                count == self@.config.outputs@.len(),
                at <= count,
                wanted == outputs_status(self@),
                names::sorted(wanted),
                outputs@ == wanted.take(at as int),
            decreases count - at,
        {
            proof {
                names::lemma_append_last(wanted, at as int);
            }
            outputs.insert(self.config.outputs.key_at(at).clone(), self.status_of_output(at));
            at += 1;
        }
        assert(wanted.take(count as int) =~= wanted);
        outputs
    }

    fn status_of_overrides(&self, now: Nanos) -> (overrides: Vec<OverrideStatus>)
        ensures
            views::list(overrides@) == status_of(self@, now).overrides,
    {
        let mut overrides: Vec<OverrideStatus> = Vec::new();
        let count: usize = self.overrides.len();
        let mut at: usize = 0;
        let ghost all = self@.overrides;
        assert(views::list(overrides@) =~= overrides_status(engine::unexpired(all, now, 0), now));
        while at < count
            invariant
                all == self@.overrides,
                count == all.len(),
                at <= count,
                views::list(overrides@) == overrides_status(
                    engine::unexpired(all, now, at as int),
                    now,
                ),
            decreases count - at,
        {
            let active = self.overrides.value_at(at);
            if active.expires_at > now {
                let ghost before = overrides@;
                let status = OverrideStatus {
                    output: self.overrides.key_at(at).clone(),
                    kind: match active.value {
                        OverrideValue::Fan(_) => OverrideKind::Fan,
                        OverrideValue::Rgb(_) => OverrideKind::Rgb,
                        OverrideValue::Display(_) => OverrideKind::Display,
                    },
                    value: match active.value {
                        OverrideValue::Fan(percent) => Json::number(percent as u64),
                        OverrideValue::Rgb(rgb) => Json::rgb(rgb),
                        OverrideValue::Display(on) => Json::Bool(on),
                    },
                    remaining_ms: duration_millis(elapsed(active.expires_at, now)),
                };
                overrides.push(status);
                proof {
                    assert(status@ == override_status(all[at as int].0, all[at as int].1, now));
                    assert(views::list(overrides@) =~= views::list(before).push(status@));
                    assert(overrides_status(engine::unexpired(all, now, at + 1), now)
                        =~= overrides_status(engine::unexpired(all, now, at as int), now).push(
                        status@,
                    ));
                }
            }
            at += 1;
        }
        overrides
    }

    fn status_of_errors(
        &self,
        sensors: &NameMap<SensorStatus>,
        outputs: &NameMap<OutputStatus>,
    ) -> (errors: NameMap<String>)
        ensures
            errors@ == errors_status(self@.driver_errors, sensors@, outputs@),
    {
        let mut errors = copy_texts(&self.driver_errors);
        let count: usize = sensors.len();
        let mut at: usize = 0;
        while at < count
            invariant
                count == sensors@.len(),
                at <= count,
                errors@ == with_sensor_errors(self@.driver_errors, sensors@, at as int),
            decreases count - at,
        {
            if let Some(message) = &sensors.value_at(at).error {
                errors.insert(sensors.key_at(at).clone(), message.clone());
            }
            at += 1;
        }
        let ghost known = errors@;
        let count: usize = outputs.len();
        let mut at: usize = 0;
        while at < count
            invariant
                count == outputs@.len(),
                at <= count,
                errors@ == with_output_errors(known, outputs@, at as int),
            decreases count - at,
        {
            if let Some(message) = &outputs.value_at(at).error {
                errors.insert(outputs.key_at(at).clone(), message.clone());
            }
            at += 1;
        }
        errors
    }

    /// The status document.
    pub fn status(&self, now: Nanos) -> (status: DaemonStatus)
        ensures
            status@ == status_of(self@, now),
    {
        let sensors = self.status_of_sensors(now);
        let outputs = self.status_of_outputs();
        let health = aggregate_health(&sensors, &outputs);
        let driver_errors = self.status_of_errors(&sensors, &outputs);
        DaemonStatus {
            schema_version: STATUS_SCHEMA_VERSION,
            version: version().to_owned(),
            active_profile: self.active_profile.clone(),
            config_generation: self.generation,
            uptime_seconds: duration_seconds(elapsed(now, self.started_at)),
            health,
            sensors,
            outputs,
            overrides: self.status_of_overrides(now),
            driver_errors,
        }
    }
}

proof fn lemma_same_names<V, W>(left: names::Entries<V>, right: names::Entries<W>)
    requires
        names::sorted(left),
        left.len() == right.len(),
        forall|i: int| 0 <= i < left.len() ==> (#[trigger] right[i]).0 == left[i].0,
    ensures
        names::sorted(right),
{
    assert forall|i: int, j: int| 0 <= i < j < right.len() implies text::before(
        #[trigger] right[i].0,
        #[trigger] right[j].0,
    ) by {
        assert(text::before(left[i].0, left[j].0));
    }
}

proof fn lemma_sensor_errors(
    errors: names::Entries<Seq<char>>,
    sensors: names::Entries<SensorStatusView>,
    count: int,
    at: int,
)
    requires
        names::sorted(errors),
        names::sorted(sensors),
        0 <= count <= sensors.len(),
        0 <= at < sensors.len(),
        sensors[at].1.error is Some,
    ensures
        names::sorted(with_sensor_errors(errors, sensors, count)),
        at < count ==> names::find(with_sensor_errors(errors, sensors, count), sensors[at].0)
            == sensors[at].1.error,
    decreases count,
{
    if count > 0 {
        lemma_sensor_errors(errors, sensors, count - 1, at);
        let earlier = with_sensor_errors(errors, sensors, count - 1);
        if let Some(message) = sensors[count - 1].1.error {
            let name = sensors[count - 1].0;
            names::lemma_inserted_sorted(earlier, name, message);
            names::lemma_find_inserted(earlier, name, message, sensors[at].0);
            if at < count - 1 {
                text::lemma_before_irreflexive(name);
                assert(text::before(sensors[at].0, name));
            }
        }
    }
}

proof fn lemma_output_errors(
    errors: names::Entries<Seq<char>>,
    outputs: names::Entries<OutputStatusView>,
    count: int,
    name: Seq<char>,
)
    requires
        names::sorted(errors),
        names::sorted(outputs),
        0 <= count <= outputs.len(),
    ensures
        names::sorted(with_output_errors(errors, outputs, count)),
        names::find(with_output_errors(errors, outputs, count), name) == (match names::find(
            outputs.take(count),
            name,
        ) {
            Some(output) => match output.error {
                Some(message) => Some(message),
                None => names::find(errors, name),
            },
            None => names::find(errors, name),
        }),
    decreases count,
{
    let shown = outputs.take(count);
    if count > 0 {
        let fewer = outputs.take(count - 1);
        let last = outputs[count - 1];
        lemma_output_errors(errors, outputs, count - 1, name);
        let earlier = with_output_errors(errors, outputs, count - 1);
        assert forall|i: int| 0 <= i < fewer.len() implies text::before(
            #[trigger] fewer[i].0,
            last.0,
        ) by {
            assert(text::before(outputs[i].0, outputs[count - 1].0));
        }
        assert(shown =~= fewer.push(last));
        names::lemma_insert_last(fewer, last.0, last.1);
        names::lemma_find_inserted(fewer, last.0, last.1, name);
        if names::has(fewer, last.0) {
            text::lemma_before_irreflexive(last.0);
            names::lemma_slot(fewer, last.0);
        }
        if let Some(message) = last.1.error {
            names::lemma_inserted_sorted(earlier, last.0, message);
            names::lemma_find_inserted(earlier, last.0, message, name);
        }
    } else {
        assert(shown =~= Seq::empty());
    }
}

/// The error of an output is reported under its alias, and so is that of a sensor whose alias no
/// failing output has.
pub proof fn law_errors_stand_under_aliases(model: EngineModel, now: Nanos, name: Seq<char>)
    requires
        names::sorted(model.driver_errors),
        names::sorted(model.config.sensors@),
        names::sorted(model.config.outputs@),
    ensures
        ({
            let status = status_of(model, now);
            match names::find(status.outputs, name) {
                Some(output) if output.error is Some => names::find(status.driver_errors, name)
                    == output.error,
                _ => names::find(status.sensors, name) matches Some(sensor) && sensor.error is Some
                    ==> names::find(status.driver_errors, name) == names::find(
                    status.sensors,
                    name,
                )->0.error,
            }
        }),
{
    let sensors = sensors_status(model, now);
    let outputs = outputs_status(model);
    lemma_same_names(model.config.sensors@, sensors);
    lemma_same_names(model.config.outputs@, outputs);
    let known = with_sensor_errors(model.driver_errors, sensors, sensors.len() as int);
    lemma_sensors_sorted(model.driver_errors, sensors, sensors.len() as int);
    lemma_output_errors(known, outputs, outputs.len() as int, name);
    assert(outputs.take(outputs.len() as int) =~= outputs);
    if names::has(sensors, name) {
        let at = names::slot(sensors, name) as int;
        if sensors[at].1.error is Some {
            lemma_sensor_errors(model.driver_errors, sensors, sensors.len() as int, at);
        }
    }
}

proof fn lemma_sensors_sorted(
    errors: names::Entries<Seq<char>>,
    sensors: names::Entries<SensorStatusView>,
    count: int,
)
    requires
        names::sorted(errors),
    ensures
        names::sorted(with_sensor_errors(errors, sensors, count)),
    decreases count,
{
    if count > 0 {
        lemma_sensors_sorted(errors, sensors, count - 1);
        let earlier = with_sensor_errors(errors, sensors, count - 1);
        if let Some(message) = sensors[count - 1].1.error {
            names::lemma_inserted_sorted(earlier, sensors[count - 1].0, message);
        }
    }
}

} // verus!
