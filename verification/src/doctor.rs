//! The checks of `feather doctor`.

use vstd::prelude::*;

use crate::fan_test::HEALTH_CHECK_FAILED;
use crate::names;
use crate::status::version;
use crate::text;
use crate::types::DaemonStatus;
use crate::types::DaemonStatusView;
use crate::types::Health;
use crate::types::OutputKind;
use crate::types::OutputStatus;
use crate::types::OutputStatusView;
use crate::types::SensorStatus;
use crate::types::SensorStatusView;
use crate::views;

verus! {

/// Outcome of a check.
#[derive(Clone, Copy, Debug, PartialEq, Eq, Structural)]
pub enum DoctorResult {
    /// All is well.
    Pass,
    /// Something is unusual.
    Warning,
    /// Something is wrong.
    Fail,
}

/// One check.
#[derive(Debug)]
pub struct DoctorCheck {
    /// What was checked.
    pub name: String,
    /// Its outcome.
    pub result: DoctorResult,
    /// The outcome in words.
    pub message: String,
}

/// See [`DoctorCheck`].
pub ghost struct CheckView {
    /// See [`DoctorCheck::name`].
    pub name: Seq<char>,
    /// See [`DoctorCheck::result`].
    pub result: DoctorResult,
    /// See [`DoctorCheck::message`].
    pub message: Seq<char>,
}

impl View for DoctorCheck {
    type V = CheckView;

    open spec fn view(&self) -> CheckView {
        CheckView { name: self.name@, result: self.result, message: self.message@ }
    }
}

fn push_check(checks: &mut Vec<DoctorCheck>, name: String, result: DoctorResult, message: String)
    ensures
        views::list(final(checks)@) == views::list(old(checks)@).push(
            CheckView { name: name@, result, message: message@ },
        ),
{
    let check = DoctorCheck { name, result, message };
    let ghost before = checks@;
    checks.push(check);
    assert(views::list(checks@) =~= views::list(before).push(check@));
}

// ---------------------------------------------------------------- words

/// The name of a health state.
pub open spec fn health_word(health: Health) -> Seq<char> {
    match health {
        Health::Healthy => "Healthy"@,
        Health::Degraded => "Degraded"@,
        Health::FailSafe => "FailSafe"@,
        Health::Released => "Released"@,
        Health::Unavailable => "Unavailable"@,
    }
}

/// The name of a health state.
pub fn health_name(health: Health) -> (name: &'static str)
    ensures
        name@ == health_word(health),
{
    match health {
        Health::Healthy => "Healthy",
        Health::Degraded => "Degraded",
        Health::FailSafe => "FailSafe",
        Health::Released => "Released",
        Health::Unavailable => "Unavailable",
    }
}

/// The name of a kind of output.
pub open spec fn kind_word(kind: OutputKind) -> Seq<char> {
    match kind {
        OutputKind::Fan => "Fan"@,
        OutputKind::Rgb => "Rgb"@,
        OutputKind::Display => "Display"@,
    }
}

/// The name of a kind of output.
pub fn kind_name(kind: OutputKind) -> (name: &'static str)
    ensures
        name@ == kind_word(kind),
{
    match kind {
        OutputKind::Fan => "Fan",
        OutputKind::Rgb => "Rgb",
        OutputKind::Display => "Display",
    }
}

/// The outcome that a health state stands for.
pub open spec fn judged(health: Health) -> DoctorResult {
    match health {
        Health::Healthy => DoctorResult::Pass,
        Health::Released => DoctorResult::Warning,
        Health::Degraded => DoctorResult::Fail,
        Health::FailSafe => DoctorResult::Fail,
        Health::Unavailable => DoctorResult::Fail,
    }
}

/// The outcome that a health state stands for.
pub fn result_for_health(health: &Health) -> (result: DoctorResult)
    ensures
        result == judged(*health),
{
    match health {
        Health::Healthy => DoctorResult::Pass,
        Health::Released => DoctorResult::Warning,
        Health::Degraded => DoctorResult::Fail,
        Health::FailSafe => DoctorResult::Fail,
        Health::Unavailable => DoctorResult::Fail,
    }
}

// ---------------------------------------------------------------- socket

/// What is found at the path of the socket.
#[derive(Debug)]
pub enum SocketFile {
    /// A socket with permission bits.
    Socket {
        /// The permission bits, and possibly others above them.
        mode: u32,
    },
    /// Something else.
    Other,
    /// It could not be inspected.
    Unreadable(String),
}

/// The check of the socket: only its owner and its group may use it.
pub open spec fn socket_checked(path: Seq<char>, found: SocketFile) -> CheckView {
    match found {
        SocketFile::Socket { mode } => {
            let bits = (mode % 512) as nat;
            CheckView {
                name: "socket"@,
                result: if bits % 8 != 0 {
                    DoctorResult::Fail
                } else if bits == 432 {
                    DoctorResult::Pass
                } else {
                    DoctorResult::Warning
                },
                message: path + " is a Unix socket with mode "@ + text::octal4(bits),
            }
        },
        SocketFile::Other => CheckView {
            name: "socket"@,
            result: DoctorResult::Fail,
            message: path + " exists but is not a Unix socket"@,
        },
        SocketFile::Unreadable(reason) => CheckView {
            name: "socket"@,
            result: DoctorResult::Fail,
            message: "could not inspect "@ + path + ": "@ + reason@,
        },
    }
}

/// Checks the socket. The mode has to be 0660.
pub fn socket_check(path: &str, found: &SocketFile) -> (check: DoctorCheck)
    ensures
        check@ == socket_checked(path@, *found),
{
    let name = "socket".to_owned();
    match found {
        SocketFile::Socket { mode } => {
            let bits: u32 = *mode % 512;
            let mut message = text::concat2(path, " is a Unix socket with mode ");
            text::push_octal4(&mut message, bits as u64);
            let result = if bits % 8 != 0 {
                DoctorResult::Fail
            } else if bits == 0o660 {
                DoctorResult::Pass
            } else {
                DoctorResult::Warning
            };
            DoctorCheck { name, result, message }
        },
        SocketFile::Other => DoctorCheck {
            name,
            result: DoctorResult::Fail,
            message: text::concat2(path, " exists but is not a Unix socket"),
        },
        SocketFile::Unreadable(reason) => DoctorCheck {
            name,
            result: DoctorResult::Fail,
            message: text::concat4("could not inspect ", path, ": ", reason.as_str()),
        },
    }
}

/// A check that could not be made.
pub fn failed_check(name: &str, reason: &str) -> (check: DoctorCheck)
    ensures
        check@ == (CheckView { name: name@, result: DoctorResult::Fail, message: reason@ }),
{
    DoctorCheck {
        name: name.to_owned(),
        result: DoctorResult::Fail,
        message: reason.to_owned(),
    }
}

/// Checks the number of devices that were found.
pub fn device_check(count: usize) -> (check: DoctorCheck)
    ensures
        check@ == (if count == 0 {
            CheckView {
                name: "devices"@,
                result: DoctorResult::Fail,
                message: "no supported hardware was detected"@,
            }
        } else {
            CheckView {
                name: "devices"@,
                result: DoctorResult::Pass,
                message: text::decimal(count as nat) + " supported devices detected"@,
            }
        }),
{
    let name = "devices".to_owned();
    if count == 0 {
        return DoctorCheck {
            name,
            result: DoctorResult::Fail,
            message: "no supported hardware was detected".to_owned(),
        };
    }
    let mut message = String::new();
    text::push_decimal(&mut message, count as u64);
    message.append(" supported devices detected");
    assert(message@ =~= text::decimal(count as nat) + " supported devices detected"@);
    DoctorCheck { name, result: DoctorResult::Pass, message }
}

// ---------------------------------------------------------------- status

/// An error at the end of a message.
pub open spec fn error_suffix(error: Option<Seq<char>>) -> Seq<char> {
    match error {
        Some(error) => "; "@ + error,
        None => Seq::empty(),
    }
}

fn push_error(message: &mut String, error: &Option<String>)
    ensures
        final(message)@ == old(message)@ + error_suffix(views::maybe(*error)),
{
    if let Some(error) = error {
        message.append("; ");
        message.append(error.as_str());
    }
    assert(message@ =~= old(message)@ + error_suffix(views::maybe(*error)));
}

/// The check of the version of the daemon.
pub open spec fn version_checked(daemon: Seq<char>) -> CheckView {
    if daemon == "0.1.2"@ {
        CheckView {
            name: "daemon"@,
            result: DoctorResult::Pass,
            message: "featherd "@ + daemon + " answered through the local socket"@,
        }
    } else {
        CheckView {
            name: "daemon"@,
            result: DoctorResult::Fail,
            message: "client version "@ + "0.1.2"@ + " does not match featherd "@ + daemon,
        }
    }
}

/// The check of the health of the daemon.
pub open spec fn health_checked(health: Health) -> CheckView {
    CheckView {
        name: "health"@,
        result: judged(health),
        message: "daemon health is "@ + health_word(health),
    }
}

/// The check of a sensor; `shown` is its temperature in words.
pub open spec fn sensor_checked(name: Seq<char>, sensor: SensorStatusView, shown: Seq<char>) -> CheckView {
    CheckView {
        name: "sensor."@ + name,
        result: judged(sensor.health),
        message: (match sensor.reading {
            Some(reading) => shown + " C, "@ + text::decimal(reading.age_ms as nat) + " ms old"@,
            None => "no current reading"@,
        }) + "; health="@ + health_word(sensor.health) + error_suffix(sensor.error),
    }
}

/// The check of an output; `shown` is its target in words.
pub open spec fn output_checked(name: Seq<char>, output: OutputStatusView, shown: Seq<char>) -> CheckView {
    CheckView {
        name: "output."@ + name,
        result: judged(output.health),
        message: kind_word(output.kind) + " target="@ + shown + "; health="@ + health_word(
            output.health,
        ) + error_suffix(output.error),
    }
}

/// The checks of the sensors.
pub open spec fn sensor_checks(
    sensors: names::Entries<SensorStatusView>,
    temperatures: Seq<Seq<char>>,
) -> Seq<CheckView> {
    Seq::new(
        sensors.len(),
        |i: int| sensor_checked(sensors[i].0, sensors[i].1, temperatures[i]),
    )
}

/// The checks of the outputs.
pub open spec fn output_checks(
    outputs: names::Entries<OutputStatusView>,
    targets: Seq<Seq<char>>,
) -> Seq<CheckView> {
    Seq::new(outputs.len(), |i: int| output_checked(outputs[i].0, outputs[i].1, targets[i]))
}

/// The check of the number of overrides, where there are any.
pub open spec fn override_checks(count: nat) -> Seq<CheckView> {
    if count == 0 {
        Seq::empty()
    } else {
        seq![
            CheckView {
                name: "overrides"@,
                result: DoctorResult::Warning,
                message: text::decimal(count) + " temporary overrides are active"@,
            },
        ]
    }
}

/// The checks of the driver errors.
pub open spec fn driver_checks(errors: names::Entries<Seq<char>>) -> Seq<CheckView> {
    Seq::new(
        errors.len(),
        |i: int|
            CheckView {
                name: "driver."@ + errors[i].0,
                result: DoctorResult::Fail,
                message: errors[i].1,
            },
    )
}

/// All checks of a status; `temperatures` and `targets` give those of the sensors and the
/// outputs in words.
pub open spec fn status_checks(
    status: DaemonStatusView,
    temperatures: Seq<Seq<char>>,
    targets: Seq<Seq<char>>,
) -> Seq<CheckView> {
    seq![version_checked(status.version), health_checked(status.health)] + sensor_checks(
        status.sensors,
        temperatures,
    ) + output_checks(status.outputs, targets) + override_checks(status.overrides.len())
        + driver_checks(status.driver_errors)
}

fn push_sensor(checks: &mut Vec<DoctorCheck>, name: &str, sensor: &SensorStatus, shown: &str)
    ensures
        views::list(final(checks)@) == views::list(old(checks)@).push(
            sensor_checked(name@, sensor@, shown@),
        ),
{
    let mut message = String::new();
    match &sensor.reading {
        Some(reading) => {
            message.append(shown);
            message.append(" C, ");
            text::push_decimal(&mut message, reading.age_ms);
            message.append(" ms old");
        },
        None => {
            message.append("no current reading");
        },
    }
    message.append("; health=");
    message.append(health_name(sensor.health));
    push_error(&mut message, &sensor.error);
    assert(message@ =~= sensor_checked(name@, sensor@, shown@).message);
    push_check(
        checks,
        text::concat2("sensor.", name),
        result_for_health(&sensor.health),
        message,
    );
}

fn push_output(checks: &mut Vec<DoctorCheck>, name: &str, output: &OutputStatus, shown: &str)
    ensures
        views::list(final(checks)@) == views::list(old(checks)@).push(
            output_checked(name@, output@, shown@),
        ),
{
    let mut message = text::concat5(
        kind_name(output.kind),
        " target=",
        shown,
        "; health=",
        health_name(output.health),
    );
    push_error(&mut message, &output.error);
    assert(message@ =~= output_checked(name@, output@, shown@).message);
    push_check(
        checks,
        text::concat2("output.", name),
        result_for_health(&output.health),
        message,
    );
}

/// Adds the checks of a status; `temperatures` and `targets` give those of the sensors and the
/// outputs in words, in their order.
pub fn add_status_checks(
    checks: &mut Vec<DoctorCheck>,
    status: &DaemonStatus,
    temperatures: &Vec<String>,
    targets: &Vec<String>,
)
    requires
        temperatures@.len() == status@.sensors.len(),
        targets@.len() == status@.outputs.len(),
    ensures
        views::list(final(checks)@) == views::list(old(checks)@) + status_checks(
            status@,
            text::texts(temperatures@),
            text::texts(targets@),
        ),
{
    let ghost start = views::list(checks@);
    let ghost sensors = sensor_checks(status@.sensors, text::texts(temperatures@));
    let ghost outputs = output_checks(status@.outputs, text::texts(targets@));
    let ghost drivers = driver_checks(status@.driver_errors);
    let ghost head = seq![version_checked(status@.version), health_checked(status@.health)];
    let expected = version();
    let daemon = status.version.as_str();
    if text::same(daemon, expected) {
        push_check(
            checks,
            "daemon".to_owned(),
            DoctorResult::Pass,
            text::concat3("featherd ", daemon, " answered through the local socket"),
        );
    } else {
        push_check(
            checks,
            "daemon".to_owned(),
            DoctorResult::Fail,
            text::concat4("client version ", expected, " does not match featherd ", daemon),
        );
    }
    push_check(
        checks,
        "health".to_owned(),
        result_for_health(&status.health),
        text::concat2("daemon health is ", health_name(status.health)),
    );
    let count: usize = status.sensors.len();
    let mut at: usize = 0;
    assert(views::list(checks@) =~= start + head + sensors.take(0));
    while at < count
        invariant
            count == status@.sensors.len(),
            temperatures@.len() == count,
            sensors == sensor_checks(status@.sensors, text::texts(temperatures@)),
            at <= count,
            views::list(checks@) =~= start + head + sensors.take(at as int),
        decreases count - at,
    {
        push_sensor(
            checks,
            status.sensors.key_at(at).as_str(),
            status.sensors.value_at(at),
            temperatures[at].as_str(),
        );
        assert(sensors.take(at + 1) =~= sensors.take(at as int).push(sensors[at as int]));
        at += 1;
    }
    assert(sensors.take(count as int) =~= sensors);
    let count: usize = status.outputs.len();
    let mut at: usize = 0;
    assert(views::list(checks@) =~= start + head + sensors + outputs.take(0));
    while at < count
        invariant
            count == status@.outputs.len(),
            targets@.len() == count,
            outputs == output_checks(status@.outputs, text::texts(targets@)),
            at <= count,
            views::list(checks@) =~= start + head + sensors + outputs.take(at as int),
        decreases count - at,
    {
        push_output(
            checks,
            status.outputs.key_at(at).as_str(),
            status.outputs.value_at(at),
            targets[at].as_str(),
        );
        assert(outputs.take(at + 1) =~= outputs.take(at as int).push(outputs[at as int]));
        at += 1;
    }
    assert(outputs.take(count as int) =~= outputs);
    let ghost tail = override_checks(status@.overrides.len());
    assert(status@.overrides.len() == status.overrides@.len());
    if status.overrides.len() > 0 {
        let mut message = String::new();
        text::push_decimal(&mut message, status.overrides.len() as u64);
        message.append(" temporary overrides are active");
        assert(message@ =~= tail[0].message);
        push_check(checks, "overrides".to_owned(), DoctorResult::Warning, message);
    }
    let count: usize = status.driver_errors.len();
    let mut at: usize = 0;
    assert(views::list(checks@) =~= start + head + sensors + outputs + tail + drivers.take(0));
    while at < count
        invariant
            count == status@.driver_errors.len(),
            drivers == driver_checks(status@.driver_errors),
            at <= count,
            views::list(checks@) =~= start + head + sensors + outputs + tail + drivers.take(
                at as int,
            ),
        decreases count - at,
    {
        push_check(
            checks,
            text::concat2("driver.", status.driver_errors.key_at(at).as_str()),
            DoctorResult::Fail,
            status.driver_errors.value_at(at).clone(),
        );
        assert(drivers.take(at + 1) =~= drivers.take(at as int).push(drivers[at as int]));
        at += 1;
    }
    assert(drivers.take(count as int) =~= drivers);
    assert(views::list(checks@) =~= start + status_checks(
        status@,
        text::texts(temperatures@),
        text::texts(targets@),
    ));
}

// ---------------------------------------------------------------- report

/// Whether no check failed.
pub open spec fn all_well(checks: Seq<CheckView>) -> bool {
    forall|i: int| 0 <= i < checks.len() ==> (#[trigger] checks[i]).result != DoctorResult::Fail
}

/// Whether no check failed.
pub fn is_healthy(checks: &Vec<DoctorCheck>) -> (healthy: bool)
    ensures
        healthy == all_well(views::list(checks@)),
{
    let mut at: usize = 0;
    let ghost all = views::list(checks@);
    while at < checks.len()
        invariant
            at <= checks@.len(),
            all == views::list(checks@),
            forall|i: int| 0 <= i < at ==> (#[trigger] all[i]).result != DoctorResult::Fail,
        decreases checks@.len() - at,
    {
        assert(all[at as int] == checks@[at as int]@);
        if checks[at].result == DoctorResult::Fail {
            return false;
        }
        at += 1;
    }
    true
}

/// The process exit code for checks.
pub fn doctor_exit_code(checks: &Vec<DoctorCheck>) -> (code: u8)
    ensures
        code == 5 <==> exists|i: int|
            0 <= i < checks@.len() && (#[trigger] checks@[i]).result == DoctorResult::Fail,
        code == (if all_well(views::list(checks@)) {
            0u8
        } else {
            HEALTH_CHECK_FAILED
        }),
{
    proof {
        let all = views::list(checks@);
        assert(forall|i: int|
            0 <= i < checks@.len() ==> (#[trigger] all[i]).result == checks@[i].result);
        if !all_well(all) {
            let i = choose|i: int|
                0 <= i < all.len() && (#[trigger] all[i]).result == DoctorResult::Fail;
            assert(checks@[i].result == DoctorResult::Fail);
        }
        assert(forall|i: int|
            0 <= i < checks@.len() ==> (#[trigger] checks@[i]).result == all[i].result);
    }
    if is_healthy(checks) {
        0
    } else {
        HEALTH_CHECK_FAILED
    }
}

/// A status passes all checks only if the daemon has the version of the client and reports no
/// failing sensor or output and no driver error.
pub proof fn law_passing_status_is_healthy(
    status: DaemonStatusView,
    temperatures: Seq<Seq<char>>,
    targets: Seq<Seq<char>>,
)
    requires
        all_well(status_checks(status, temperatures, targets)),
    ensures
        status.version == "0.1.2"@,
        judged(status.health) != DoctorResult::Fail,
        forall|i: int|
            0 <= i < status.sensors.len() ==> judged((#[trigger] status.sensors[i]).1.health)
                != DoctorResult::Fail,
        forall|i: int|
            0 <= i < status.outputs.len() ==> judged((#[trigger] status.outputs[i]).1.health)
                != DoctorResult::Fail,
        status.driver_errors.len() == 0,
{
    let checks = status_checks(status, temperatures, targets);
    let sensors = status.sensors.len() as int;
    let outputs = status.outputs.len() as int;
    let overrides = override_checks(status.overrides.len()).len() as int;
    assert(checks[0] == version_checked(status.version));
    assert(checks[1] == health_checked(status.health));
    assert forall|i: int| 0 <= i < sensors implies judged((#[trigger] status.sensors[i]).1.health)
        != DoctorResult::Fail by {
        assert(checks[2 + i] == sensor_checked(
            status.sensors[i].0,
            status.sensors[i].1,
            temperatures[i],
        ));
    }
    assert forall|i: int| 0 <= i < outputs implies judged((#[trigger] status.outputs[i]).1.health)
        != DoctorResult::Fail by {
        assert(checks[2 + sensors + i] == output_checked(
            status.outputs[i].0,
            status.outputs[i].1,
            targets[i],
        ));
    }
    if status.driver_errors.len() > 0 {
        assert(checks[2 + sensors + outputs + overrides] == driver_checks(
            status.driver_errors,
        )[0]);
    }
}

/// Whether a component needs no attention.
pub open spec fn sound(health: Health) -> bool {
    health == Health::Healthy || health == Health::Released
}

/// A status passes all checks just where the daemon has the version of the client, the daemon and
/// every sensor and output are healthy or released, and no driver reports an error.
pub proof fn law_sound_status_passes(
    status: DaemonStatusView,
    temperatures: Seq<Seq<char>>,
    targets: Seq<Seq<char>>,
)
    ensures
        all_well(status_checks(status, temperatures, targets)) <==> {
            &&& status.version == "0.1.2"@
            &&& sound(status.health)
            &&& forall|i: int|
                0 <= i < status.sensors.len() ==> sound((#[trigger] status.sensors[i]).1.health)
            &&& forall|i: int|
                0 <= i < status.outputs.len() ==> sound((#[trigger] status.outputs[i]).1.health)
            &&& status.driver_errors.len() == 0
        },
{
    let checks = status_checks(status, temperatures, targets);
    if all_well(checks) {
        law_passing_status_is_healthy(status, temperatures, targets);
    }
    if status.version == "0.1.2"@ && sound(status.health) && (forall|i: int|
        0 <= i < status.sensors.len() ==> sound((#[trigger] status.sensors[i]).1.health)) && (
    forall|i: int|
        0 <= i < status.outputs.len() ==> sound((#[trigger] status.outputs[i]).1.health))
        && status.driver_errors.len() == 0 {
        let sensors = status.sensors.len() as int;
        let outputs = status.outputs.len() as int;
        assert forall|i: int| 0 <= i < checks.len() implies (#[trigger] checks[i]).result
            != DoctorResult::Fail by {
            if 2 <= i < 2 + sensors {
                assert(sound(status.sensors[i - 2].1.health));
                assert(checks[i] == sensor_checks(status.sensors, temperatures)[i - 2]);
            } else if 2 + sensors <= i < 2 + sensors + outputs {
                assert(sound(status.outputs[i - 2 - sensors].1.health));
                assert(checks[i] == output_checks(status.outputs, targets)[i - 2 - sensors]);
            }
        }
    }
}

/// Each sensor and each output has a check under its name that passes if it is healthy, warns if
/// it is released, and fails otherwise.
pub proof fn law_every_component_is_checked(
    status: DaemonStatusView,
    temperatures: Seq<Seq<char>>,
    targets: Seq<Seq<char>>,
    at: int,
)
    ensures
        ({
            let checks = status_checks(status, temperatures, targets);
            &&& 0 <= at < status.sensors.len() ==> {
                let check = checks[2 + at];
                let health = status.sensors[at].1.health;
                &&& check.name == "sensor."@ + status.sensors[at].0
                &&& check.result == DoctorResult::Pass <==> health == Health::Healthy
                &&& check.result == DoctorResult::Warning <==> health == Health::Released
            }
            &&& 0 <= at < status.outputs.len() ==> {
                let check = checks[2 + status.sensors.len() + at];
                let health = status.outputs[at].1.health;
                &&& check.name == "output."@ + status.outputs[at].0
                &&& check.result == DoctorResult::Pass <==> health == Health::Healthy
                &&& check.result == DoctorResult::Warning <==> health == Health::Released
            }
        }),
{
    let checks = status_checks(status, temperatures, targets);
    let sensors = status.sensors.len() as int;
    if 0 <= at < sensors {
        assert(checks[2 + at] == sensor_checks(status.sensors, temperatures)[at]);
    }
    if 0 <= at < status.outputs.len() {
        assert(checks[2 + sensors + at] == output_checks(status.outputs, targets)[at]);
    }
}

/// A socket that everybody may use fails its check, one that just its owner and its group may read
/// and write passes, and any other is worth a warning. What is no socket fails.
pub proof fn law_socket_mode_is_judged(path: Seq<char>, found: SocketFile, mode: u32)
    ensures
        ({
            let result = socket_checked(path, SocketFile::Socket { mode }).result;
            &&& mode % 8 != 0 <==> result == DoctorResult::Fail
            &&& mode % 512 == 6 * 64 + 6 * 8 <==> result == DoctorResult::Pass
        }),
        !(found is Socket) ==> socket_checked(path, found).result == DoctorResult::Fail,
{
}

} // verus!
