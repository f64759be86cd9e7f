//! What every valid configuration guarantees.

use vstd::prelude::*;

use crate::config;
use crate::config::AssignmentConfig;
use crate::config::Config;
use crate::config::DeviceConfig;
use crate::config::OutputConfig;
use crate::config::SensorConfig;
use crate::names;
use crate::search;
use crate::text;
use crate::validation;

verus! {

/// The timing settings and the default profile of a valid configuration are usable.
pub proof fn law_settings(config: Config)
    requires
        validation::valid(config),
    ensures
        0 < config.daemon.poll_interval <= config.daemon.stale_after,
        config.daemon.failure_limit > 0,
        config.daemon.driver_timeout > 0,
        names::has(config.profiles@, config.default_profile@),
{
}

/// No two devices of a valid configuration select the same hardware.
pub proof fn law_selectors_distinct(config: Config, left: int, right: int)
    requires
        validation::valid(config),
        0 <= left < right < config.devices@.len(),
    ensures
        validation::selector(config.devices@[left].1) != validation::selector(
            config.devices@[right].1,
        ),
{
    let check = validation::device_problem(config.devices@);
    search::lemma_none(check, 0, config.devices@.len() as int);
    assert(check(right) is None);
    assert(!validation::selector_taken(config.devices@, right));
}

/// Every sensor of a valid configuration that reads a device names one of the right driver.
pub proof fn law_sensor_devices(config: Config, at: int)
    requires
        validation::valid(config),
        0 <= at < config.sensors@.len(),
    ensures
        match config.sensors@[at].1 {
            SensorConfig::LinuxHwmon { device, chip, label } => device@.len() > 0 && chip@.len() > 0
                && label@.len() > 0,
            SensorConfig::NvidiaNvml { device } => validation::is_nvidia(config.devices@, device@),
            SensorConfig::CorsairIcueLink { device, .. } => validation::is_corsair(
                config.devices@,
                device@,
            ),
        },
{
    let check = validation::sensor_problem(config);
    search::lemma_none(check, 0, config.sensors@.len() as int);
    assert(check(at) is None);
}

/// The temperatures of a list of curve points are finite and strictly increase, and there is
/// at least one.
pub open spec fn well_shaped(temps: Seq<crate::celsius::Celsius>) -> bool {
    &&& temps.len() > 0
    &&& forall|i: int| 0 <= i < temps.len() ==> (#[trigger] temps[i]).finite()
    &&& forall|i: int, j: int|
        0 <= i < j < temps.len() ==> (#[trigger] temps[i]).lower(#[trigger] temps[j])
}

proof fn lemma_points(name: Seq<char>, temps: Seq<crate::celsius::Celsius>)
    requires
        validation::points_problem(name, temps) is None,
    ensures
        well_shaped(temps),
{
    let check = validation::point_problem(name, temps);
    search::lemma_none(check, 0, temps.len() as int);
    assert forall|i: int| 0 <= i < temps.len() implies (#[trigger] temps[i]).finite() by {
        assert(check(i) is None);
    }
    assert forall|k: int| #![trigger temps[k]] 0 < k < temps.len() implies !temps[k].at_most(
        temps[k - 1],
    ) by {
        assert(check(k) is None);
    }
    assert forall|i: int, j: int| 0 <= i < j < temps.len() implies (#[trigger] temps[i]).lower(
        #[trigger] temps[j],
    ) by {
        lemma_rising(temps, i, j);
    }
}

proof fn lemma_rising(temps: Seq<crate::celsius::Celsius>, i: int, j: int)
    requires
        0 <= i < j < temps.len(),
        forall|k: int| 0 <= k < temps.len() ==> (#[trigger] temps[k]).finite(),
        forall|k: int|
            #![trigger temps[k]]
            0 < k < temps.len() ==> !temps[k].at_most(temps[k - 1]),
    ensures
        temps[i].lower(temps[j]),
    decreases j - i,
{
    assert(!temps[j].at_most(temps[j - 1]));
    if i < j - 1 {
        lemma_rising(temps, i, j - 1);
    }
}

/// Every fan curve of a valid configuration has points that rise in temperature, with
/// percentages of at most 100.
pub proof fn law_fan_curves(config: Config, at: int)
    requires
        validation::valid(config),
        0 <= at < config.curves@.len(),
    ensures
        well_shaped(validation::fan_temps(config.curves@[at].1.points@)),
        forall|i: int|
            0 <= i < config.curves@[at].1.points@.len() ==> (
            #[trigger] config.curves@[at].1.points@[i]).percent <= 100,
{
    let check = validation::curve_problem(config);
    search::lemma_none(check, 0, config.curves@.len() as int);
    assert(check(at) is None);
    let name = config.curves@[at].0;
    let points = config.curves@[at].1.points@;
    lemma_points("curves."@ + name, validation::fan_temps(points));
    let percents = validation::percent_problem(name, points);
    search::lemma_none(percents, 0, points.len() as int);
    assert forall|i: int| 0 <= i < points.len() implies (#[trigger] points[i]).percent <= 100 by {
        assert(percents(i) is None);
    }
}

/// Every color curve of a valid configuration has points that rise in temperature.
pub proof fn law_color_curves(config: Config, at: int)
    requires
        validation::valid(config),
        0 <= at < config.color_curves@.len(),
    ensures
        well_shaped(validation::color_temps(config.color_curves@[at].1.points@)),
{
    let check = validation::color_curve_problem(config);
    search::lemma_none(check, 0, config.color_curves@.len() as int);
    assert(check(at) is None);
    lemma_points(
        "color_curves."@ + config.color_curves@[at].0,
        validation::color_temps(config.color_curves@[at].1.points@),
    );
}

/// Both ends of every schedule of a valid configuration are times of day.
pub proof fn law_schedules(config: Config, at: int)
    requires
        validation::valid(config),
        0 <= at < config.schedules@.len(),
    ensures
        config::time_of_day(config.schedules@[at].1.start@) is Ok,
        config::time_of_day(config.schedules@[at].1.end@) is Ok,
{
    let check = validation::schedule_problem(config);
    search::lemma_none(check, 0, config.schedules@.len() as int);
    assert(check(at) is None);
}

/// Every output of a valid configuration belongs to a device that can drive it, and its
/// settings lie in their ranges.
pub proof fn law_output_devices(config: Config, at: int)
    requires
        validation::valid(config),
        0 <= at < config.outputs@.len(),
    ensures
        names::has(config.devices@, validation::device_of(config.outputs@[at].1)),
        match config.outputs@[at].1 {
            OutputConfig::Fan {
                device,
                channels,
                minimum_percent,
                fail_safe_percent,
                hysteresis_percent,
                refresh_interval,
            } => {
                &&& validation::is_corsair(config.devices@, device@) || validation::is_nvidia(
                    config.devices@,
                    device@,
                )
                &&& minimum_percent <= fail_safe_percent <= 100
                &&& hysteresis_percent <= 100
                &&& refresh_interval > 0
                &&& channels@.no_duplicates()
                &&& validation::is_corsair(config.devices@, device@) ==> forall|i: int|
                    0 <= i < channels@.len() ==> #[trigger] channels@[i] <= 255
            },
            OutputConfig::Rgb { device, led_count } => led_count > 0 && validation::is_corsair(
                config.devices@,
                device@,
            ),
            OutputConfig::Display { device, brightness_percent } => 1 <= brightness_percent <= 100
                && validation::is_wireview(config.devices@, device@),
        },
{
    let check = validation::output_problem(config);
    search::lemma_none(check, 0, config.outputs@.len() as int);
    assert(check(at) is None);
    let name = config.outputs@[at].0;
    if let OutputConfig::Fan { device, channels, .. } = config.outputs@[at].1 {
        let repeats = validation::repeat_problem(name, channels@);
        search::lemma_none(repeats, 0, channels@.len() as int);
        assert forall|i: int, j: int|
            0 <= i < channels@.len() && 0 <= j < channels@.len() && i != j implies channels@[i]
            != channels@[j] by {
            if i < j {
                assert(repeats(j) is None);
                assert(!validation::channel_repeats(channels@, j));
            } else {
                assert(repeats(i) is None);
                assert(!validation::channel_repeats(channels@, i));
            }
        }
        if validation::is_corsair(config.devices@, device@) {
            let wide = validation::wide_channel_problem(name, channels@);
            search::lemma_none(wide, 0, channels@.len() as int);
            assert forall|i: int| 0 <= i < channels@.len() implies #[trigger] channels@[i]
                <= 255 by {
                assert(wide(i) is None);
            }
        }
    }
}

/// Whether two outputs both claim some hardware of their common device: a fan (an empty list
/// claims all of them), the lights, or the display.
pub open spec fn both_claim(left: OutputConfig, right: OutputConfig) -> bool {
    &&& validation::device_of(left) == validation::device_of(right)
    &&& match (left, right) {
        (OutputConfig::Fan { channels: a, .. }, OutputConfig::Fan { channels: b, .. }) => {
            ||| a@.len() == 0
            ||| b@.len() == 0
            ||| exists|channel: u32| #[trigger] a@.contains(channel) && b@.contains(channel)
        },
        (OutputConfig::Rgb { .. }, OutputConfig::Rgb { .. }) => true,
        (OutputConfig::Display { .. }, OutputConfig::Display { .. }) => true,
        _ => false,
    }
}

proof fn lemma_owner_exists(outputs: validation::Outputs, device: Seq<char>, channel: u32, j: int, at: int)
    requires
        0 <= j < at,
        validation::device_of(outputs[j].1) == device,
        validation::channels_of(outputs[j].1).contains(channel),
    ensures
        validation::channel_owner(outputs, device, channel, at) is Some,
{
    let check = validation::channel_at(outputs, device, channel);
    if search::first(check, 0, at) is None {
        search::lemma_none(check, 0, at);
        assert(check(j) is None);
    }
}

proof fn lemma_lowest_exists(
    outputs: validation::Outputs,
    device: Seq<char>,
    at: int,
    channel: u32,
)
    requires
        validation::channel_owner(outputs, device, channel, at) is Some,
    ensures
        exists|lowest: u32| #[trigger] validation::lowest_claimed(outputs, device, at, lowest),
    decreases channel,
{
    if forall|other: u32|
        (#[trigger] validation::channel_owner(outputs, device, other, at)) is Some ==> channel
            <= other {
        assert(validation::lowest_claimed(outputs, device, at, channel));
    } else {
        let other = choose|other: u32|
            (#[trigger] validation::channel_owner(outputs, device, other, at)) is Some && !(channel
                <= other);
        lemma_lowest_exists(outputs, device, at, other);
    }
}

/// No two outputs of a valid configuration claim the same hardware.
pub proof fn law_single_owner(config: Config, left: int, right: int)
    requires
        validation::valid(config),
        0 <= left < right < config.outputs@.len(),
    ensures
        !both_claim(config.outputs@[left].1, config.outputs@[right].1),
{
    let outputs = config.outputs@;
    let device = validation::device_of(outputs[right].1);
    law_output_devices(config, right);
    let d = names::slot(config.devices@, device) as int;
    let devices = validation::device_claim_problem(config);
    search::lemma_none(devices, 0, config.devices@.len() as int);
    assert(devices(d) is None);
    let claims = validation::claim_problem(outputs, device);
    search::lemma_none(claims, 0, outputs.len() as int);
    assert(claims(right) is None);
    assert(claims(left) is None);
    if both_claim(outputs[left].1, outputs[right].1) {
        match outputs[right].1 {
            OutputConfig::Fan { channels, .. } => {
                let all = validation::all_fans_at(outputs, device);
                search::lemma_none(all, 0, right);
                assert(all(left) is None);
                let mine = validation::channels_of(outputs[right].1);
                let theirs = validation::channels_of(outputs[left].1);
                if mine.len() == 0 {
                    let channel = theirs[0];
                    assert(theirs.contains(channel));
                    lemma_owner_exists(outputs, device, channel, left, right);
                    lemma_lowest_exists(outputs, device, right, channel);
                    assert(validation::lowest_owner(outputs, device, right) is Some);
                } else {
                    let channel = choose|channel: u32| #[trigger]
                        theirs.contains(channel) && mine.contains(channel);
                    lemma_owner_exists(outputs, device, channel, left, right);
                    let i = choose|i: int| 0 <= i < mine.len() && mine[i] == channel;
                    let clashes = validation::channel_clash(outputs, device, right);
                    search::lemma_none(clashes, 0, mine.len() as int);
                    assert(clashes(i) is None);
                }
            },
            OutputConfig::Rgb { .. } => {
                let check = validation::rgb_at(outputs, device);
                search::lemma_none(check, 0, right);
                assert(check(left) is None);
            },
            OutputConfig::Display { .. } => {
                let check = validation::display_at(outputs, device);
                search::lemma_none(check, 0, right);
                assert(check(left) is None);
            },
        }
    }
}

/// Whether an assignment names only what exists and fits its output.
pub open spec fn references_hold(
    config: Config,
    output: OutputConfig,
    assignment: AssignmentConfig,
) -> bool {
    &&& forall|i: int|
        0 <= i < assignment.sources@.len() ==> names::has(
            config.sensors@,
            (#[trigger] assignment.sources@[i])@,
        )
    &&& match output {
        OutputConfig::Fan { .. } => {
            &&& assignment.sources@.len() > 0
            &&& assignment.curve is Some
            &&& names::has(config.curves@, assignment.curve->0@)
            &&& assignment.color_curve is None
            &&& assignment.off_schedule is None
        },
        OutputConfig::Rgb { .. } => {
            &&& assignment.sources@.len() > 0
            &&& assignment.color_curve is Some
            &&& names::has(config.color_curves@, assignment.color_curve->0@)
            &&& assignment.curve is None
            &&& assignment.off_schedule is Some ==> names::has(
                config.schedules@,
                assignment.off_schedule->0@,
            )
        },
        OutputConfig::Display { .. } => {
            &&& assignment.sources@.len() == 0
            &&& assignment.color_curve is None
            &&& assignment.curve is None
            &&& assignment.off_schedule is Some ==> names::has(
                config.schedules@,
                assignment.off_schedule->0@,
            )
        },
    }
}

/// Every assignment of a valid configuration belongs to an output and names only sensors,
/// curves, and schedules that exist.
pub proof fn law_references(config: Config, profile: int, at: int)
    requires
        validation::valid(config),
        0 <= profile < config.profiles@.len(),
        0 <= at < config.profiles@[profile].1.outputs@.len(),
    ensures
        config.profiles@[profile].1.outputs@.len() > 0,
        names::find(config.outputs@, config.profiles@[profile].1.outputs@[at].0) matches Some(
            output,
        ) && references_hold(config, output, config.profiles@[profile].1.outputs@[at].1),
{
    let profiles = validation::profile_problem(config);
    search::lemma_none(profiles, 0, config.profiles@.len() as int);
    assert(profiles(profile) is None);
    let name = config.profiles@[profile].0;
    let assignments = config.profiles@[profile].1.outputs@;
    let check = validation::assignment_problem(config, name, assignments);
    search::lemma_none(check, 0, assignments.len() as int);
    assert(check(at) is None);
    let assignment = assignments[at].1;
    let sources = validation::source_problem(
        config,
        validation::assignment_label(name, assignments[at].0),
        assignment.sources@,
    );
    search::lemma_none(sources, 0, assignment.sources@.len() as int);
    assert forall|i: int| 0 <= i < assignment.sources@.len() implies names::has(
        config.sensors@,
        (#[trigger] assignment.sources@[i])@,
    ) by {
        assert(sources(i) is None);
    }
}

/// A profile of a valid configuration that assigns one output of a device assigns them all.
pub proof fn law_whole_devices(config: Config, profile: int, left: int, right: int)
    requires
        validation::valid(config),
        0 <= profile < config.profiles@.len(),
        0 <= left < config.outputs@.len(),
        0 <= right < config.outputs@.len(),
        validation::device_of(config.outputs@[left].1) == validation::device_of(
            config.outputs@[right].1,
        ),
        names::has(config.profiles@[profile].1.outputs@, config.outputs@[left].0),
    ensures
        names::has(config.profiles@[profile].1.outputs@, config.outputs@[right].0),
{
    let profiles = validation::profile_problem(config);
    search::lemma_none(profiles, 0, config.profiles@.len() as int);
    assert(profiles(profile) is None);
    law_output_devices(config, left);
    let outputs = config.outputs@;
    let device = validation::device_of(outputs[left].1);
    let d = names::slot(config.devices@, device) as int;
    let name = config.profiles@[profile].0;
    let assignments = config.profiles@[profile].1.outputs@;
    let partial = validation::partial_problem(config, name, assignments);
    search::lemma_none(partial, 0, config.devices@.len() as int);
    assert(partial(d) is None);
    let assigned = validation::assigned_at(outputs, device, assignments);
    let missing = validation::missing_at(outputs, device, assignments);
    if search::first(assigned, 0, outputs.len() as int) is None {
        search::lemma_none(assigned, 0, outputs.len() as int);
        assert(assigned(left) is None);
    }
    search::lemma_none(missing, 0, outputs.len() as int);
    assert(missing(right) is None);
}

// ---------------------------------------------------------------- devices

/// What the fields of a device must meet.
pub open spec fn device_is_told(device: DeviceConfig) -> bool {
    match device {
        DeviceConfig::CorsairIcueLink { unique_id, expected_fan_count, .. } => {
            &&& unique_id matches Some(id) ==> !text::blank(id@)
            &&& expected_fan_count matches Some(count) ==> 1 <= count <= 24
        },
        DeviceConfig::NvidiaNvml { uuid } => !text::blank(uuid@),
        DeviceConfig::WireViewProIi { serial } => !text::blank(serial@),
    }
}

/// Whether two devices select the same hardware.
pub open spec fn same_hardware(left: DeviceConfig, right: DeviceConfig) -> bool {
    match (left, right) {
        (
            DeviceConfig::CorsairIcueLink {
                vendor_id: v,
                product_id: p,
                unique_id: u,
                interface: i,
                ..
            },
            DeviceConfig::CorsairIcueLink { vendor_id, product_id, unique_id, interface, .. },
        ) => v == vendor_id && p == product_id && i == interface && (match (u, unique_id) {
            (Some(a), Some(b)) => a@ == b@,
            (None, None) => true,
            _ => false,
        }),
        (
            DeviceConfig::NvidiaNvml { uuid: a },
            DeviceConfig::NvidiaNvml { uuid: b },
        ) => a@ == b@,
        (
            DeviceConfig::WireViewProIi { serial: a },
            DeviceConfig::WireViewProIi { serial: b },
        ) => text::upper(a@) == text::upper(b@),
        _ => false,
    }
}

/// The devices of an accepted configuration are told, and no two select the same hardware.
pub proof fn law_devices_are_told_apart(config: Config, left: int, right: int)
    requires
        validation::valid(config),
        0 <= left < config.devices@.len(),
        0 <= right < config.devices@.len(),
        left != right,
    ensures
        device_is_told(config.devices@[left].1),
        !same_hardware(config.devices@[left].1, config.devices@[right].1),
{
    let check = validation::device_problem(config.devices@);
    search::lemma_none(check, 0, config.devices@.len() as int);
    assert(check(left) is None);
    if left < right {
        law_selectors_distinct(config, left, right);
    } else {
        law_selectors_distinct(config, right, left);
    }
}

/// An accepted configuration has the schema of this version, and names its socket and its state
/// file.
pub proof fn law_schema_and_paths(config: Config)
    requires
        validation::valid(config),
    ensures
        config.schema_version == 1,
        config.daemon.socket@.len() > 0,
        config.daemon.state_file@.len() > 0,
{
}

// ---------------------------------------------------------------- what is accepted

/// What the settings of a configuration must meet.
pub open spec fn settings_hold(config: Config) -> bool {
    &&& config.schema_version == 1
    &&& 0 < config.daemon.poll_interval <= config.daemon.stale_after
    &&& config.daemon.socket@.len() > 0
    &&& config.daemon.state_file@.len() > 0
    &&& config.daemon.failure_limit > 0
    &&& config.daemon.driver_timeout > 0
    &&& names::has(config.profiles@, config.default_profile@)
}

/// What a sensor must meet.
pub open spec fn sensor_holds(config: Config, sensor: SensorConfig) -> bool {
    match sensor {
        SensorConfig::LinuxHwmon { device, chip, label } => device@.len() > 0 && chip@.len() > 0
            && label@.len() > 0,
        SensorConfig::NvidiaNvml { device } => names::find(
            config.devices@,
            device@,
        ) matches Some(found) && found is NvidiaNvml,
        SensorConfig::CorsairIcueLink { device, .. } => names::find(
            config.devices@,
            device@,
        ) matches Some(found) && found is CorsairIcueLink,
    }
}

/// What an output must meet.
pub open spec fn output_holds(config: Config, output: OutputConfig) -> bool {
    let found = names::find(config.devices@, validation::device_of(output));
    &&& found is Some
    &&& match output {
        OutputConfig::Fan {
            channels,
            minimum_percent,
            fail_safe_percent,
            hysteresis_percent,
            refresh_interval,
            ..
        } => {
            &&& found->0 is CorsairIcueLink || found->0 is NvidiaNvml
            &&& minimum_percent <= fail_safe_percent <= 100
            &&& hysteresis_percent <= 100
            &&& refresh_interval > 0
            &&& channels@.no_duplicates()
            &&& found->0 is CorsairIcueLink ==> forall|i: int|
                0 <= i < channels@.len() ==> #[trigger] channels@[i] <= 255
        },
        OutputConfig::Rgb { led_count, .. } => led_count > 0 && found->0 is CorsairIcueLink,
        OutputConfig::Display { brightness_percent, .. } => 1 <= brightness_percent <= 100
            && found->0 is WireViewProIi,
    }
}

/// What a profile must meet: it assigns outputs, only such as there are and with what they need,
/// and all or none of a device.
pub open spec fn profile_holds(config: Config, profile: int) -> bool {
    let assignments = config.profiles@[profile].1.outputs@;
    &&& assignments.len() > 0
    &&& forall|at: int|
        0 <= at < assignments.len() ==> (names::find(
            config.outputs@,
            (#[trigger] assignments[at]).0,
        ) matches Some(output) && references_hold(config, output, assignments[at].1))
    &&& forall|left: int, right: int|
        0 <= left < config.outputs@.len() && 0 <= right < config.outputs@.len()
            && validation::device_of((#[trigger] config.outputs@[left]).1)
            == validation::device_of((#[trigger] config.outputs@[right]).1) && names::has(
            assignments,
            config.outputs@[left].0,
        ) ==> names::has(assignments, config.outputs@[right].0)
}

proof fn lemma_points_hold(name: Seq<char>, temps: Seq<crate::celsius::Celsius>)
    requires
        well_shaped(temps),
    ensures
        validation::points_problem(name, temps) is None,
{
    let check = validation::point_problem(name, temps);
    assert forall|i: int| 0 <= i < temps.len() implies #[trigger] check(i) is None by {
        assert(temps[i].finite());
        if i > 0 {
            assert(temps[i - 1].lower(temps[i]));
        }
    }
    search::lemma_all_none(check, 0, temps.len() as int);
}

proof fn lemma_devices_hold(config: Config)
    requires
        forall|i: int| 0 <= i < config.devices@.len() ==> device_is_told((#[trigger] config.devices@[i]).1),
        forall|i: int, j: int|
            0 <= i < j < config.devices@.len() ==> validation::selector(
                (#[trigger] config.devices@[i]).1,
            ) != validation::selector((#[trigger] config.devices@[j]).1),
    ensures
        validation::devices_problem(config.devices@) is None,
{
    let devices = config.devices@;
    let check = validation::device_problem(devices);
    assert forall|i: int| 0 <= i < devices.len() implies #[trigger] check(i) is None by {
        assert(device_is_told(devices[i].1));
        if validation::selector_taken(devices, i) {
            let other = choose|other: int|
                0 <= other < i && validation::selector(#[trigger] devices[other].1)
                    == validation::selector(devices[i].1);
            assert(validation::selector(devices[other].1) != validation::selector(devices[i].1));
        }
    }
    search::lemma_all_none(check, 0, devices.len() as int);
}

proof fn lemma_sensors_hold(config: Config)
    requires
        forall|i: int|
            0 <= i < config.sensors@.len() ==> sensor_holds(config, (#[trigger] config.sensors@[i]).1),
    ensures
        validation::sensors_problem(config) is None,
{
    let check = validation::sensor_problem(config);
    assert forall|i: int| 0 <= i < config.sensors@.len() implies #[trigger] check(i) is None by {
        assert(sensor_holds(config, config.sensors@[i].1));
    }
    search::lemma_all_none(check, 0, config.sensors@.len() as int);
}

proof fn lemma_curves_hold(config: Config)
    requires
        forall|at: int|
            0 <= at < config.curves@.len() ==> well_shaped(
                validation::fan_temps((#[trigger] config.curves@[at]).1.points@),
            ) && (forall|i: int|
                0 <= i < config.curves@[at].1.points@.len() ==> (
                #[trigger] config.curves@[at].1.points@[i]).percent <= 100),
        forall|at: int|
            0 <= at < config.color_curves@.len() ==> well_shaped(
                validation::color_temps((#[trigger] config.color_curves@[at]).1.points@),
            ),
        forall|at: int|
            0 <= at < config.schedules@.len() ==> config::time_of_day(
                (#[trigger] config.schedules@[at]).1.start@,
            ) is Ok && config::time_of_day(config.schedules@[at].1.end@) is Ok,
    ensures
        validation::curves_problem(config) is None,
        validation::color_curves_problem(config) is None,
        validation::schedules_problem(config) is None,
{
    let fans = validation::curve_problem(config);
    assert forall|at: int| 0 <= at < config.curves@.len() implies #[trigger] fans(at) is None by {
        let name = config.curves@[at].0;
        let points = config.curves@[at].1.points@;
        lemma_points_hold("curves."@ + name, validation::fan_temps(points));
        let check = validation::percent_problem(name, points);
        assert forall|i: int| 0 <= i < points.len() implies #[trigger] check(i) is None by {
            assert(config.curves@[at].1.points@[i].percent <= 100);
        }
        search::lemma_all_none(check, 0, points.len() as int);
    }
    search::lemma_all_none(fans, 0, config.curves@.len() as int);
    let colors = validation::color_curve_problem(config);
    assert forall|at: int| 0 <= at < config.color_curves@.len() implies #[trigger] colors(
        at,
    ) is None by {
        lemma_points_hold(
            "color_curves."@ + config.color_curves@[at].0,
            validation::color_temps(config.color_curves@[at].1.points@),
        );
    }
    search::lemma_all_none(colors, 0, config.color_curves@.len() as int);
    let schedules = validation::schedule_problem(config);
    assert forall|at: int| 0 <= at < config.schedules@.len() implies #[trigger] schedules(
        at,
    ) is None by {
        assert(config::time_of_day(config.schedules@[at].1.start@) is Ok);
    }
    search::lemma_all_none(schedules, 0, config.schedules@.len() as int);
}

proof fn lemma_outputs_hold(config: Config)
    requires
        forall|i: int|
            0 <= i < config.outputs@.len() ==> output_holds(config, (#[trigger] config.outputs@[i]).1),
    ensures
        validation::outputs_problem(config) is None,
{
    let all = validation::output_problem(config);
    assert forall|at: int| 0 <= at < config.outputs@.len() implies #[trigger] all(at) is None by {
        let name = config.outputs@[at].0;
        let output = config.outputs@[at].1;
        assert(output_holds(config, output));
        if let OutputConfig::Fan { device, channels, .. } = output {
            let repeats = validation::repeat_problem(name, channels@);
            assert forall|i: int| 0 <= i < channels@.len() implies #[trigger] repeats(
                i,
            ) is None by {
                if validation::channel_repeats(channels@, i) {
                    let j = choose|j: int| 0 <= j < i && #[trigger] channels@[j] == channels@[i];
                    assert(channels@[j] != channels@[i]);
                }
            }
            search::lemma_all_none(repeats, 0, channels@.len() as int);
            let wide = validation::wide_channel_problem(name, channels@);
            if validation::is_corsair(config.devices@, device@) {
                assert forall|i: int| 0 <= i < channels@.len() implies #[trigger] wide(i) is None by {
                    assert(channels@[i] <= 255);
                }
                search::lemma_all_none(wide, 0, channels@.len() as int);
            }
        }
    }
    search::lemma_all_none(all, 0, config.outputs@.len() as int);
}

proof fn lemma_no_clash(config: Config, device: Seq<char>, at: int)
    requires
        0 <= at < config.outputs@.len(),
        forall|i: int, j: int|
            0 <= i < j < config.outputs@.len() ==> !both_claim(
                (#[trigger] config.outputs@[i]).1,
                (#[trigger] config.outputs@[j]).1,
            ),
    ensures
        validation::claim_problem_of(config.outputs@, device, at) is None,
{
    let outputs = config.outputs@;
    if validation::device_of(outputs[at].1) == device {
        match outputs[at].1 {
            OutputConfig::Fan { channels, .. } => {
                let fans = validation::all_fans_at(outputs, device);
                assert forall|i: int| 0 <= i < at implies #[trigger] fans(i) is None by {
                    assert(!both_claim(outputs[i].1, outputs[at].1));
                }
                search::lemma_all_none(fans, 0, at);
                assert forall|channel: u32|
                    (channels@.len() == 0 || channels@.contains(channel)) implies (
                #[trigger] validation::channel_owner(outputs, device, channel, at)) is None by {
                    let owners = validation::channel_at(outputs, device, channel);
                    assert forall|i: int| 0 <= i < at implies #[trigger] owners(i) is None by {
                        assert(!both_claim(outputs[i].1, outputs[at].1));
                        if validation::channels_of(outputs[i].1).contains(channel) {
                            if outputs[i].1 is Fan {
                                assert(outputs[i].1->Fan_channels@.contains(channel));
                            }
                        }
                    }
                    search::lemma_all_none(owners, 0, at);
                }
                if channels@.len() == 0 {
                    if exists|channel: u32| #[trigger]
                        validation::lowest_claimed(outputs, device, at, channel) {
                        let channel = choose|channel: u32| #[trigger]
                            validation::lowest_claimed(outputs, device, at, channel);
                        assert(validation::channel_owner(outputs, device, channel, at) is None);
                    }
                } else {
                    let clashes = validation::channel_clash(outputs, device, at);
                    assert forall|i: int| 0 <= i < channels@.len() implies #[trigger] clashes(
                        i,
                    ) is None by {
                        assert(channels@.contains(channels@[i]));
                        assert(validation::channel_owner(outputs, device, channels@[i], at)
                            is None);
                    }
                    search::lemma_all_none(clashes, 0, channels@.len() as int);
                }
            },
            OutputConfig::Rgb { .. } => {
                let lights = validation::rgb_at(outputs, device);
                assert forall|i: int| 0 <= i < at implies #[trigger] lights(i) is None by {
                    assert(!both_claim(outputs[i].1, outputs[at].1));
                }
                search::lemma_all_none(lights, 0, at);
            },
            OutputConfig::Display { .. } => {
                let displays = validation::display_at(outputs, device);
                assert forall|i: int| 0 <= i < at implies #[trigger] displays(i) is None by {
                    assert(!both_claim(outputs[i].1, outputs[at].1));
                }
                search::lemma_all_none(displays, 0, at);
            },
        }
    }
}

proof fn lemma_claims_hold(config: Config)
    requires
        forall|i: int, j: int|
            0 <= i < j < config.outputs@.len() ==> !both_claim(
                (#[trigger] config.outputs@[i]).1,
                (#[trigger] config.outputs@[j]).1,
            ),
    ensures
        validation::claims_problem(config) is None,
{
    let all = validation::device_claim_problem(config);
    assert forall|k: int| 0 <= k < config.devices@.len() implies #[trigger] all(k) is None by {
        let device = config.devices@[k].0;
        let check = validation::claim_problem(config.outputs@, device);
        assert forall|at: int| 0 <= at < config.outputs@.len() implies #[trigger] check(
            at,
        ) is None by {
            lemma_no_clash(config, device, at);
        }
        search::lemma_all_none(check, 0, config.outputs@.len() as int);
    }
    search::lemma_all_none(all, 0, config.devices@.len() as int);
}

proof fn lemma_profiles_hold(config: Config)
    requires
        forall|p: int| 0 <= p < config.profiles@.len() ==> #[trigger] profile_holds(config, p),
    ensures
        validation::profiles_problem(config) is None,
{
    let all = validation::profile_problem(config);
    assert forall|p: int| 0 <= p < config.profiles@.len() implies #[trigger] all(p) is None by {
        assert(profile_holds(config, p));
        let name = config.profiles@[p].0;
        let assignments = config.profiles@[p].1.outputs@;
        let check = validation::assignment_problem(config, name, assignments);
        assert forall|at: int| 0 <= at < assignments.len() implies #[trigger] check(at) is None by {
            let assignment = assignments[at].1;
            assert(names::find(config.outputs@, assignments[at].0) is Some);
            let label = validation::assignment_label(name, assignments[at].0);
            let sources = validation::source_problem(config, label, assignment.sources@);
            assert forall|i: int| 0 <= i < assignment.sources@.len() implies #[trigger] sources(
                i,
            ) is None by {
                assert(names::has(config.sensors@, assignment.sources@[i]@));
            }
            search::lemma_all_none(sources, 0, assignment.sources@.len() as int);
        }
        search::lemma_all_none(check, 0, assignments.len() as int);
        let partial = validation::partial_problem(config, name, assignments);
        let outputs = config.outputs@;
        let count = outputs.len() as int;
        assert forall|k: int| 0 <= k < config.devices@.len() implies #[trigger] partial(
            k,
        ) is None by {
            let device = config.devices@[k].0;
            let assigned = validation::assigned_at(outputs, device, assignments);
            let missing = validation::missing_at(outputs, device, assignments);
            if search::first(assigned, 0, count) is Some {
                let left = search::lemma_some(assigned, 0, count);
                assert forall|i: int| 0 <= i < count implies #[trigger] missing(i) is None by {
                    if validation::device_of(outputs[i].1) == device {
                        assert(validation::device_of(config.outputs@[left].1)
                            == validation::device_of(config.outputs@[i].1));
                        assert(names::has(assignments, outputs[i].0));
                    }
                }
                search::lemma_all_none(missing, 0, count);
            }
        }
        search::lemma_all_none(partial, 0, config.devices@.len() as int);
    }
    search::lemma_all_none(all, 0, config.profiles@.len() as int);
}

/// A configuration that meets every rule is accepted: its settings hold, its devices are told and
/// select different hardware, its sensors, curves, schedules, and outputs hold, no two outputs
/// claim the same, and its profiles hold.
pub proof fn law_sound_configuration_is_accepted(config: Config)
    requires
        settings_hold(config),
        forall|i: int| 0 <= i < config.devices@.len() ==> device_is_told((#[trigger] config.devices@[i]).1),
        forall|i: int, j: int|
            0 <= i < j < config.devices@.len() ==> validation::selector(
                (#[trigger] config.devices@[i]).1,
            ) != validation::selector((#[trigger] config.devices@[j]).1),
        forall|i: int|
            0 <= i < config.sensors@.len() ==> sensor_holds(config, (#[trigger] config.sensors@[i]).1),
        forall|at: int|
            0 <= at < config.curves@.len() ==> well_shaped(
                validation::fan_temps((#[trigger] config.curves@[at]).1.points@),
            ) && (forall|i: int|
                0 <= i < config.curves@[at].1.points@.len() ==> (
                #[trigger] config.curves@[at].1.points@[i]).percent <= 100),
        forall|at: int|
            0 <= at < config.color_curves@.len() ==> well_shaped(
                validation::color_temps((#[trigger] config.color_curves@[at]).1.points@),
            ),
        forall|at: int|
            0 <= at < config.schedules@.len() ==> config::time_of_day(
                (#[trigger] config.schedules@[at]).1.start@,
            ) is Ok && config::time_of_day(config.schedules@[at].1.end@) is Ok,
        forall|i: int|
            0 <= i < config.outputs@.len() ==> output_holds(config, (#[trigger] config.outputs@[i]).1),
        forall|i: int, j: int|
            0 <= i < j < config.outputs@.len() ==> !both_claim(
                (#[trigger] config.outputs@[i]).1,
                (#[trigger] config.outputs@[j]).1,
            ),
        forall|p: int| 0 <= p < config.profiles@.len() ==> #[trigger] profile_holds(config, p),
    ensures
        validation::valid(config),
{
    lemma_devices_hold(config);
    lemma_sensors_hold(config);
    lemma_curves_hold(config);
    lemma_outputs_hold(config);
    lemma_claims_hold(config);
    lemma_profiles_hold(config);
}

/// The outputs of an accepted configuration hold, whatever the rules that check them are called.
pub proof fn law_accepted_outputs_hold(config: Config, at: int)
    requires
        validation::valid(config),
        0 <= at < config.outputs@.len(),
    ensures
        output_holds(config, config.outputs@[at].1),
{
    law_output_devices(config, at);
}

/// The sensors of an accepted configuration hold.
pub proof fn law_accepted_sensors_hold(config: Config, at: int)
    requires
        validation::valid(config),
        0 <= at < config.sensors@.len(),
    ensures
        sensor_holds(config, config.sensors@[at].1),
{
    law_sensor_devices(config, at);
}

} // verus!
