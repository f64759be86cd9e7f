//! Decisions of the command-line client.

use vstd::prelude::*;

use crate::celsius::Celsius;
use crate::celsius::SIGN_BIT;
use crate::config::AssignmentConfig;
use crate::config::ColorPoint;
use crate::config::Config;
use crate::config::FanPoint;
use crate::config::Nanos;
use crate::config::OutputConfig;
use crate::curve;
use crate::curve::interpolate_color;
use crate::curve::interpolate_fan;
use crate::drivers::DisplayTarget;
use crate::error::ErrorView;
use crate::fan_test::HEALTH_CHECK_FAILED;
use crate::names;
use crate::names::NameMap;
use crate::policy;
use crate::policy::is_scheduled_off;
use crate::policy::Blended;
use crate::policy::Blends;
use crate::policy::DecisionView;
use crate::policy::EngineModel;
use crate::text;
use crate::types::Health;
use crate::views;

verus! {

/// Path of the socket unless configured otherwise.
pub const DEFAULT_SOCKET: &'static str = "/run/feather/feather.sock";

// ---------------------------------------------------------------- arguments

/// Checks that a command names an output or is for all of them.
///
/// # Errors
///
/// Returns an error when it is neither.
pub fn require_target(output: &Option<String>, all: bool) -> (result: Result<(), String>)
    ensures
        if *output is None && !all {
            result matches Err(e) && e@ == "provide an output name or use --all"@
        } else {
            result is Ok
        },
{
    if output.is_none() && !all {
        return Err("provide an output name or use --all".to_owned());
    }
    Ok(())
}

/// The number of decimal digits in a text.
pub open spec fn digit_count(value: Seq<char>) -> nat
    decreases value.len(),
{
    if value.len() == 0 {
        0
    } else {
        digit_count(value.drop_last()) + (if '0' <= value.last() <= '9' {
            1nat
        } else {
            0nat
        })
    }
}

/// Counts the decimal digits in a text.
fn count_digits(value: &str) -> (count: usize)
    ensures
        count == digit_count(value@),
{
    let chars = text::to_chars(value);
    let mut count: usize = 0;
    let mut at: usize = 0;
    assert(chars@.take(0) =~= Seq::empty());
    while at < chars.len()
        invariant
            at <= chars@.len(),
            count <= at,
            count == digit_count(chars@.take(at as int)),
        decreases chars@.len() - at,
    {
        assert(chars@.take(at + 1).drop_last() =~= chars@.take(at as int));
        if '0' <= chars[at] && chars[at] <= '9' {
            count += 1;
        }
        at += 1;
    }
    assert(chars@.take(at as int) =~= value@);
    count
}

/// Whether a character ends a number in a duration.
pub open spec fn ends_number(c: char) -> bool {
    'a' <= c <= 'z' || 'A' <= c <= 'Z' || c == '.'
}

/// The sum of the numbers of a text that have ended, and the number that has not.
pub open spec fn numbers(value: Seq<char>) -> (nat, nat)
    decreases value.len(),
{
    if value.len() == 0 {
        (0, 0)
    } else {
        let (ended, current) = numbers(value.drop_last());
        let c = value.last();
        if '0' <= c <= '9' {
            (ended, (10 * current + (c as int - '0' as int)) as nat)
        } else if ends_number(c) {
            (ended + current, 0)
        } else {
            (ended, current)
        }
    }
}

/// The sum of the numbers of a text. What is neither a letter nor a point stands inside a number.
pub open spec fn number_sum(value: Seq<char>) -> nat {
    numbers(value).0 + numbers(value).1
}

/// Whether a letter is in the name of a unit longer than a minute.
pub open spec fn of_long_unit(c: char) -> bool {
    c == 'h' || c == 'd' || c == 'w' || c == 'M' || c == 'y'
}

/// Whether a text may name a unit longer than a minute.
pub open spec fn has_long_unit(value: Seq<char>) -> bool {
    exists|i: int| 0 <= i < value.len() && of_long_unit(#[trigger] value[i])
}

/// What the numbers of a duration may add up to in any unit: fewer years than 64 bits hold
/// seconds.
pub const YEARS_LIMIT: u128 = 500_000_000_000;

/// What the numbers of a duration may add up to in units up to a minute: fewer minutes than 64
/// bits hold seconds.
pub const MINUTES_LIMIT: u128 = 300_000_000_000_000_000;

/// Whether a text is no duration that is too long to be read.
pub open spec fn readable(value: Seq<char>) -> bool {
    ||| digit_count(value) < 16
    ||| number_sum(value) < YEARS_LIMIT
    ||| number_sum(value) < MINUTES_LIMIT && !has_long_unit(value)
}

proof fn lemma_sum_grows(value: Seq<char>)
    requires
        value.len() > 0,
    ensures
        number_sum(value.drop_last()) <= number_sum(value),
{
}

/// Adds the numbers of a text up, or stops at the limit for minutes.
fn sum_numbers(value: &str) -> (sum: Option<u128>)
    ensures
        match sum {
            Some(total) => total == number_sum(value@) && total < MINUTES_LIMIT,
            None => number_sum(value@) >= MINUTES_LIMIT,
        },
{
    let chars = text::to_chars(value);
    let mut ended: u128 = 0;
    let mut current: u128 = 0;
    let mut large = false;
    let mut at: usize = 0;
    assert(chars@.take(0) =~= Seq::empty());
    while at < chars.len()
        invariant
            at <= chars@.len(),
            large ==> number_sum(chars@.take(at as int)) >= MINUTES_LIMIT,
            !large ==> {
                &&& numbers(chars@.take(at as int)) == (ended as nat, current as nat)
                &&& ended + current < MINUTES_LIMIT
            },
        decreases chars@.len() - at,
    {
        let c = chars[at];
        proof {
            let next = chars@.take(at + 1);
            assert(next.drop_last() =~= chars@.take(at as int));
            assert(next.last() == c);
            lemma_sum_grows(next);
        }
        if !large {
            if '0' <= c && c <= '9' {
                current = 10 * current + ((c as u8) - 48) as u128;
            } else if ('a' <= c && c <= 'z') || ('A' <= c && c <= 'Z') || c == '.' {
                ended = ended + current;
                current = 0;
            }
            if ended + current >= MINUTES_LIMIT {
                large = true;
            }
        }
        at += 1;
    }
    assert(chars@.take(at as int) =~= value@);
    if large {
        None
    } else {
        Some(ended + current)
    }
}

fn names_long_unit(value: &str) -> (result: bool)
    ensures
        result == has_long_unit(value@),
{
    let chars = text::to_chars(value);
    let mut at: usize = 0;
    while at < chars.len()
        invariant
            chars@ == value@,
            at <= chars@.len(),
            forall|i: int| 0 <= i < at ==> !of_long_unit(#[trigger] chars@[i]),
        decreases chars@.len() - at,
    {
        let c = chars[at];
        if c == 'h' || c == 'd' || c == 'w' || c == 'M' || c == 'y' {
            assert(of_long_unit(value@[at as int]));
            return true;
        }
        at += 1;
    }
    false
}

/// Whether a text is no duration that is too long to be read.
pub fn is_readable(value: &str) -> (result: bool)
    ensures
        result == readable(value@),
{
    if count_digits(value) < 16 {
        return true;
    }
    match sum_numbers(value) {
        Some(sum) => sum < YEARS_LIMIT || !names_long_unit(value),
        None => false,
    }
}

/// The nanoseconds that [`humantime::parse_duration`] reads from a text, or its error in words.
pub uninterp spec fn humantime_duration(value: Seq<char>) -> Result<u128, Seq<char>>;

/// Calls [`humantime::parse_duration`], and takes the duration in nanoseconds or the error in
/// words. What it reads from a text depends on the text alone, and is not spelled out here.
///
/// It panics on a text that adds up to the largest number of whole seconds that 64 bits hold,
/// and to exactly one second more in parts of a second. A readable text does not. One with fewer
/// than sixteen digits lacks twelve for a number of years to come near that many seconds, or
/// four for parts of a second that add up to one, as in `1000ms` or `1.5s 0.5s`. In one whose
/// numbers have a small sum, each number counts for at most as many years, or minutes where no
/// longer unit is named, and together they stay below that many seconds.
#[verifier::external_body]
fn humantime_nanos(value: &str) -> (result: Result<Nanos, String>)
    requires
        readable(value@),
    ensures
        views::outcome(result) == humantime_duration(value@),
{
    match humantime::parse_duration(value) {
        Ok(duration) => Ok(duration.as_nanos()),
        Err(error) => Err(error.to_string()),
    }
}

/// A duration that was read, unless it is zero.
pub open spec fn positive(parsed: Result<u128, Seq<char>>) -> Result<u128, Seq<char>> {
    match parsed {
        Ok(duration) => if duration == 0 {
            Err("duration must be greater than zero"@)
        } else {
            Ok(duration)
        },
        Err(reason) => Err(reason),
    }
}

/// Accepts a duration that was read, unless it is zero.
///
/// # Errors
///
/// Returns an error when it could not be read or is zero.
pub fn positive_duration(parsed: Result<Nanos, String>) -> (result: Result<Nanos, String>)
    ensures
        views::outcome(result) == positive(views::outcome(parsed)),
{
    match parsed {
        Ok(duration) => {
            if duration == 0 {
                return Err("duration must be greater than zero".to_owned());
            }
            Ok(duration)
        },
        Err(reason) => Err(reason),
    }
}

/// Reads a duration such as `30s`, `10m`, or `1h`, in nanoseconds.
///
/// # Errors
///
/// Returns an error when the text is no duration, or the duration is zero.
pub fn parse_duration(value: &str) -> (result: Result<Nanos, String>)
    requires
        readable(value@),
    ensures
        views::outcome(result) == positive(humantime_duration(value@)),
        result matches Ok(duration) ==> duration > 0,
{
    positive_duration(humantime_nanos(value))
}

/// The whole milliseconds of a duration.
///
/// # Errors
///
/// Returns an error when they do not fit a request.
pub fn duration_ms(duration: Nanos) -> (result: Result<u64, String>)
    ensures
        if duration / 1_000_000 > u64::MAX {
            result matches Err(e) && e@ == "override duration is too large"@
        } else {
            result == Ok::<u64, String>((duration / 1_000_000) as u64)
        },
{
    let millis: u128 = duration / 1_000_000;
    if millis > u64::MAX as u128 {
        return Err("override duration is too large".to_owned());
    }
    Ok(millis as u64)
}

/// The log level for a number of `-v` flags.
pub fn log_level(verbose: u8) -> (level: &'static str)
    ensures
        level@ == (if verbose == 0 {
            "info"@
        } else if verbose == 1 {
            "debug"@
        } else {
            "trace"@
        }),
{
    if verbose == 0 {
        "info"
    } else if verbose == 1 {
        "debug"
    } else {
        "trace"
    }
}

// ---------------------------------------------------------------- answers

/// The process exit code of `status`, which with `--check` tells whether all is healthy.
pub fn status_exit_code(check: bool, health: Health) -> (code: u8)
    ensures
        code == 5 <==> check && health != Health::Healthy,
        code == (if check && health != Health::Healthy {
            HEALTH_CHECK_FAILED
        } else {
            0u8
        }),
{
    if check && health != Health::Healthy {
        HEALTH_CHECK_FAILED
    } else {
        0
    }
}

/// A profile in a list: whether it is active, and whether it is the startup selection.
pub open spec fn profile_entry(
    profile: Seq<char>,
    active: Seq<char>,
    persisted: Option<Seq<char>>,
) -> Seq<char> {
    if profile == active {
        if persisted == Some(profile) {
            profile + " (active, startup)"@
        } else {
            profile + " (active)"@
        }
    } else if persisted == Some(profile) {
        profile + " (startup)"@
    } else {
        profile
    }
}

fn is_persisted(persisted: &Option<String>, profile: &str) -> (result: bool)
    ensures
        result == (views::maybe(*persisted) == Some(profile@)),
{
    match persisted {
        Some(name) => text::same(name.as_str(), profile),
        None => false,
    }
}

/// Writes a profile of a list.
pub fn profile_line(profile: &str, active: &str, persisted: &Option<String>) -> (line: String)
    ensures
        line@ == profile_entry(profile@, active@, views::maybe(*persisted)),
{
    let startup = is_persisted(persisted, profile);
    if text::same(profile, active) {
        if startup {
            text::concat2(profile, " (active, startup)")
        } else {
            text::concat2(profile, " (active)")
        }
    } else if startup {
        text::concat2(profile, " (startup)")
    } else {
        profile.to_owned()
    }
}

/// Writes the answer to a change of profile.
pub fn active_profile_line(active: &str, persisted: bool, persisted_profile: &Option<String>) -> (line:
    String)
    ensures
        line@ == "Active profile: "@ + active@ + (if persisted || views::maybe(*persisted_profile)
            == Some(active@) {
            " (startup)"@
        } else {
            " (runtime only)"@
        }),
{
    if persisted || is_persisted(persisted_profile, active) {
        text::concat3("Active profile: ", active, " (startup)")
    } else {
        text::concat3("Active profile: ", active, " (runtime only)")
    }
}

// ---------------------------------------------------------------- preview

/// A key that orders all bit patterns of temperatures; those of negative numbers come first.
pub open spec fn total_key(celsius: Celsius) -> int {
    if celsius.bits < SIGN_BIT {
        celsius.bits as int
    } else {
        -(celsius.bits - SIGN_BIT) - 1
    }
}

/// Whether every temperature is higher than those before it.
pub open spec fn rising(temperatures: Seq<Celsius>) -> bool {
    forall|i: int, j: int|
        0 <= i < j < temperatures.len() ==> total_key(#[trigger] temperatures[i]) < total_key(
            #[trigger] temperatures[j],
        )
}

/// Whether a temperature is that of a point of the first `fans` fan curves or the first
/// `colors` color curves.
pub open spec fn on_curves(config: Config, fans: int, colors: int, celsius: Celsius) -> bool {
    ||| exists|i: int, j: int|
        0 <= i < fans && 0 <= j < config.curves@[i].1.points@.len()
            && #[trigger] config.curves@[i].1.points@[j].temp == celsius
    ||| exists|i: int, j: int|
        0 <= i < colors && 0 <= j < config.color_curves@[i].1.points@.len()
            && #[trigger] config.color_curves@[i].1.points@[j].temp == celsius
}

fn precedes(left: Celsius, right: Celsius) -> (result: bool)
    ensures
        result == (total_key(left) < total_key(right)),
{
    if left.bits < SIGN_BIT {
        if right.bits < SIGN_BIT {
            left.bits < right.bits
        } else {
            false
        }
    } else if right.bits < SIGN_BIT {
        true
    } else {
        right.bits < left.bits
    }
}

fn add_temperature(list: &mut Vec<Celsius>, celsius: Celsius)
    requires
        rising(old(list)@),
    ensures
        rising(final(list)@),
        forall|c: Celsius| #[trigger]
            final(list)@.contains(c) <==> old(list)@.contains(c) || c == celsius,
{
    let mut slot: usize = 0;
    while slot < list.len() && precedes(list[slot], celsius)
        invariant
            slot <= list@.len(),
            list@ == old(list)@,
            forall|i: int| 0 <= i < slot ==> total_key(#[trigger] list@[i]) < total_key(celsius),
        decreases list@.len() - slot,
    {
        slot += 1;
    }
    let ghost before = list@;
    if slot < list.len() && list[slot].bits == celsius.bits {
        assert(before[slot as int] == celsius);
        return;
    }
    assert(slot < before.len() ==> total_key(celsius) < total_key(before[slot as int]));
    list.insert(slot, celsius);
    let ghost after = list@;
    assert(after == before.insert(slot as int, celsius));
    assert forall|c: Celsius| #[trigger] after.contains(c) <==> before.contains(c) || c
        == celsius by {
        if after.contains(c) {
            let i = choose|i: int| 0 <= i < after.len() && after[i] == c;
            if i < slot {
                assert(before[i] == c);
            } else if i > slot {
                assert(before[i - 1] == c);
            }
        }
        if before.contains(c) {
            let i = choose|i: int| 0 <= i < before.len() && before[i] == c;
            if i < slot {
                assert(after[i] == c);
            } else {
                assert(after[i + 1] == c);
            }
        }
        assert(after[slot as int] == celsius);
    }
}

/// Lists the temperatures of all curve points, in ascending order and each once.
pub fn preview_temperatures(config: &Config) -> (list: Vec<Celsius>)
    ensures
        rising(list@),
        forall|c: Celsius| #[trigger]
            list@.contains(c) <==> on_curves(
                *config,
                config.curves@.len() as int,
                config.color_curves@.len() as int,
                c,
            ),
{
    let mut list: Vec<Celsius> = Vec::new();
    let fans: usize = config.curves.len();
    let mut at: usize = 0;
    while at < fans
        invariant
            fans == config.curves@.len(),
            at <= fans,
            rising(list@),
            forall|c: Celsius| #[trigger]
                list@.contains(c) <==> on_curves(*config, at as int, 0, c),
        decreases fans - at,
    {
        let points = &config.curves.value_at(at).points;
        let ghost start = list@;
        let mut point: usize = 0;
        while point < points.len()
            invariant
                point <= points@.len(),
                rising(list@),
                forall|c: Celsius| #[trigger]
                    list@.contains(c) <==> start.contains(c) || (exists|j: int|
                        0 <= j < point && #[trigger] points@[j].temp == c),
            decreases points@.len() - point,
        {
            let ghost before = list@;
            add_temperature(&mut list, points[point].temp);
            assert forall|c: Celsius| #[trigger] list@.contains(c) <==> start.contains(c) || (
            exists|j: int| 0 <= j < point + 1 && #[trigger] points@[j].temp == c) by {
                assert(list@.contains(c) <==> before.contains(c) || c
                    == points@[point as int].temp);
            }
            point += 1;
        }
        assert forall|c: Celsius| #[trigger] list@.contains(c) <==> on_curves(
            *config,
            at + 1,
            0,
            c,
        ) by {
            assert(points@ == config.curves@[at as int].1.points@);
            assert(start.contains(c) <==> on_curves(*config, at as int, 0, c));
        }
        at += 1;
    }
    let colors: usize = config.color_curves.len();
    let mut at: usize = 0;
    while at < colors
        invariant
            fans == config.curves@.len(),
            colors == config.color_curves@.len(),
            at <= colors,
            rising(list@),
            forall|c: Celsius| #[trigger]
                list@.contains(c) <==> on_curves(*config, fans as int, at as int, c),
        decreases colors - at,
    {
        let points = &config.color_curves.value_at(at).points;
        let ghost start = list@;
        let mut point: usize = 0;
        while point < points.len()
            invariant
                point <= points@.len(),
                rising(list@),
                forall|c: Celsius| #[trigger]
                    list@.contains(c) <==> start.contains(c) || (exists|j: int|
                        0 <= j < point && #[trigger] points@[j].temp == c),
            decreases points@.len() - point,
        {
            let ghost before = list@;
            add_temperature(&mut list, points[point].temp);
            assert forall|c: Celsius| #[trigger] list@.contains(c) <==> start.contains(c) || (
            exists|j: int| 0 <= j < point + 1 && #[trigger] points@[j].temp == c) by {
                assert(list@.contains(c) <==> before.contains(c) || c
                    == points@[point as int].temp);
            }
            point += 1;
        }
        assert forall|c: Celsius| #[trigger] list@.contains(c) <==> on_curves(
            *config,
            fans as int,
            at + 1,
            c,
        ) by {
            assert(points@ == config.color_curves@[at as int].1.points@);
            assert(start.contains(c) <==> on_curves(*config, fans as int, at as int, c));
        }
        at += 1;
    }
    list
}

/// The value of an output in a preview.
#[derive(Clone, Copy, Debug)]
pub enum PreviewValue {
    /// A fan duty.
    Fan(u8),
    /// A color.
    Rgb([u8; 3]),
    /// A display state.
    Display(DisplayTarget),
}

impl View for PreviewValue {
    type V = PreviewValue;

    open spec fn view(&self) -> PreviewValue {
        *self
    }
}

/// The message of an error.
pub open spec fn message_of(error: ErrorView) -> Seq<char> {
    match error {
        ErrorView::Config(message) => message,
        ErrorView::Driver(message) => message,
        ErrorView::Daemon(message) => message,
        ErrorView::Protocol(message) => message,
        ErrorView::Io(message) => message,
        ErrorView::Json(message) => message,
    }
}

/// The value of an output at a temperature, given the blends of its curves.
pub open spec fn previewed(
    config: Config,
    name: Seq<char>,
    assignment: AssignmentConfig,
    temperature: Celsius,
    hour: u32,
    minute: u32,
    blended: Blended,
) -> Result<PreviewValue, Seq<char>> {
    match names::find(config.outputs@, name) {
        None => Err("unknown output '"@ + name + "'"@),
        Some(OutputConfig::Fan { minimum_percent, .. }) => match policy::fan_points(
            config,
            name,
            assignment,
        ) {
            Err(error) => Err(message_of(error)),
            Ok(points) => Ok(
                PreviewValue::Fan(
                    policy::at_least(
                        curve::fan_value(points, temperature, blended.percent),
                        minimum_percent,
                    ),
                ),
            ),
        },
        Some(OutputConfig::Rgb { .. }) => match policy::color_points(config, name, assignment) {
            Err(error) => Err(message_of(error)),
            Ok(points) => Ok(
                PreviewValue::Rgb(
                    if policy::scheduled_off(config, assignment, hour, minute) {
                        [0u8, 0u8, 0u8]
                    } else {
                        curve::color_value(points, temperature, blended.rgb)
                    },
                ),
            ),
        },
        Some(OutputConfig::Display { brightness_percent, .. }) => Ok(
            PreviewValue::Display(
                policy::display_state(
                    !policy::scheduled_off(config, assignment, hour, minute),
                    brightness_percent,
                ),
            ),
        ),
    }
}

/// Whether blended values are what the blends give for the curves that a preview follows.
pub open spec fn preview_blend<F, G>(
    blends: Blends<F, G>,
    config: Config,
    name: Seq<char>,
    assignment: AssignmentConfig,
    temperature: Celsius,
    hour: u32,
    minute: u32,
    blended: Blended,
) -> bool where
    F: Fn(FanPoint, FanPoint, Celsius) -> u8,
    G: Fn(ColorPoint, ColorPoint, Celsius) -> [u8; 3],
 {
    match names::find(config.outputs@, name) {
        Some(OutputConfig::Fan { .. }) => match policy::fan_points(config, name, assignment) {
            Ok(points) => curve::fan_blend(blends.fan, points, temperature, blended.percent),
            Err(_) => true,
        },
        Some(OutputConfig::Rgb { .. }) => match policy::color_points(config, name, assignment) {
            Ok(points) => policy::scheduled_off(config, assignment, hour, minute)
                || curve::color_blend(blends.color, points, temperature, blended.rgb),
            Err(_) => true,
        },
        _ => true,
    }
}

/// Computes the value of an output at a temperature.
///
/// # Errors
///
/// Returns an error when the output or its curve does not exist.
pub fn preview_output<F, G>(
    config: &Config,
    name: &str,
    assignment: &AssignmentConfig,
    temperature: Celsius,
    hour: u32,
    minute: u32,
    blends: &Blends<F, G>,
) -> (result: Result<PreviewValue, String>) where
    F: Fn(FanPoint, FanPoint, Celsius) -> u8,
    G: Fn(ColorPoint, ColorPoint, Celsius) -> [u8; 3],

    requires
        policy::blendable(*blends),
    ensures
        exists|blended: Blended|
            {
                &&& #[trigger] preview_blend(
                    *blends,
                    *config,
                    name@,
                    *assignment,
                    temperature,
                    hour,
                    minute,
                    blended,
                )
                &&& views::outcome(result) == previewed(
                    *config,
                    name@,
                    *assignment,
                    temperature,
                    hour,
                    minute,
                    blended,
                )
            },
{
    let ghost mut blended = Blended { percent: 0, rgb: [0u8, 0u8, 0u8] };
    let result = match config.outputs.get(name) {
        None => Err(text::concat3("unknown output '", name, "'")),
        Some(OutputConfig::Fan { minimum_percent, .. }) => match &assignment.curve {
            None => Err(text::concat3("output '", name, "' has no fan curve")),
            Some(curve_name) => match config.curves.get(curve_name.as_str()) {
                None => Err(text::concat3("unknown curve '", curve_name.as_str(), "'")),
                Some(found) => {
                    let percent = interpolate_fan(temperature, found, &blends.fan);
                    proof {
                        let given = choose|given: u8|
                            #[trigger] curve::fan_blend(
                                blends.fan,
                                found.points@,
                                temperature,
                                given,
                            ) && percent == curve::fan_value(found.points@, temperature, given);
                        blended = Blended { percent: given, rgb: [0u8, 0u8, 0u8] };
                    }
                    if percent < *minimum_percent {
                        Ok(PreviewValue::Fan(*minimum_percent))
                    } else {
                        Ok(PreviewValue::Fan(percent))
                    }
                },
            },
        },
        Some(OutputConfig::Rgb { .. }) => match &assignment.color_curve {
            None => Err(text::concat3("output '", name, "' has no color curve")),
            Some(curve_name) => match config.color_curves.get(curve_name.as_str()) {
                None => Err(text::concat3("unknown color curve '", curve_name.as_str(), "'")),
                Some(found) => {
                    if is_scheduled_off(config, assignment, hour, minute) {
                        Ok(PreviewValue::Rgb([0u8, 0u8, 0u8]))
                    } else {
                        let rgb = interpolate_color(temperature, found, &blends.color);
                        proof {
                            let given = choose|given: [u8; 3]|
                                #[trigger] curve::color_blend(
                                    blends.color,
                                    found.points@,
                                    temperature,
                                    given,
                                ) && rgb == curve::color_value(
                                    found.points@,
                                    temperature,
                                    given,
                                );
                            blended = Blended { percent: 0, rgb: given };
                        }
                        Ok(PreviewValue::Rgb(rgb))
                    }
                },
            },
        },
        Some(OutputConfig::Display { brightness_percent, .. }) => {
            if is_scheduled_off(config, assignment, hour, minute) {
                Ok(PreviewValue::Display(DisplayTarget::Sleep))
            } else {
                Ok(
                    PreviewValue::Display(
                        DisplayTarget::Awake { brightness_percent: *brightness_percent },
                    ),
                )
            }
        },
    };
    assert(preview_blend(
        *blends,
        *config,
        name@,
        *assignment,
        temperature,
        hour,
        minute,
        blended,
    ));
    result
}

/// The profile that a preview follows.
pub open spec fn previewed_profile(config: Config, profile: Option<Seq<char>>) -> Result<
    Seq<char>,
    Seq<char>,
> {
    let name = match profile {
        Some(name) => name,
        None => config.default_profile@,
    };
    if names::has(config.profiles@, name) {
        Ok(name)
    } else {
        Err("unknown profile '"@ + name + "'"@)
    }
}

/// Selects the profile that a preview follows, the default one if none is named.
///
/// # Errors
///
/// Returns an error when the profile does not exist.
pub fn preview_profile(config: &Config, profile: Option<String>) -> (result: Result<String, String>)
    ensures
        views::outcome(result) == previewed_profile(*config, views::maybe(profile)),
{
    let name = match profile {
        Some(name) => name,
        None => config.default_profile.clone(),
    };
    if config.profiles.contains_key(name.as_str()) {
        Ok(name)
    } else {
        Err(text::concat3("unknown profile '", name.as_str(), "'"))
    }
}

/// The line of an output in a preview.
pub open spec fn value_line(name: Seq<char>, value: PreviewValue) -> Seq<char> {
    "  "@ + name + ": "@ + (match value {
        PreviewValue::Fan(percent) => text::decimal(percent as nat) + "%"@,
        PreviewValue::Rgb(rgb) => "rgb("@ + text::decimal(rgb[0] as nat) + ","@ + text::decimal(
            rgb[1] as nat,
        ) + ","@ + text::decimal(rgb[2] as nat) + ")"@,
        PreviewValue::Display(DisplayTarget::Awake { brightness_percent }) => "on, "@
            + text::decimal(brightness_percent as nat) + "%"@,
        PreviewValue::Display(DisplayTarget::Sleep) => "off"@,
    })
}

/// Writes the line of an output in a preview.
pub fn preview_line(name: &str, value: PreviewValue) -> (line: String)
    ensures
        line@ == value_line(name@, value),
{
    let mut line = text::concat3("  ", name, ": ");
    let ghost start = line@;
    match value {
        PreviewValue::Fan(percent) => {
            text::push_decimal(&mut line, percent as u64);
            line.append("%");
            assert(line@ =~= start + (text::decimal(percent as nat) + "%"@));
        },
        PreviewValue::Rgb(rgb) => {
            line.append("rgb(");
            text::push_decimal(&mut line, rgb[0] as u64);
            line.append(",");
            text::push_decimal(&mut line, rgb[1] as u64);
            line.append(",");
            text::push_decimal(&mut line, rgb[2] as u64);
            line.append(")");
            assert(line@ =~= start + ("rgb("@ + text::decimal(rgb[0] as nat) + ","@ + text::decimal(
                rgb[1] as nat,
            ) + ","@ + text::decimal(rgb[2] as nat) + ")"@));
        },
        PreviewValue::Display(DisplayTarget::Awake { brightness_percent }) => {
            line.append("on, ");
            text::push_decimal(&mut line, brightness_percent as u64);
            line.append("%");
            assert(line@ =~= start + ("on, "@ + text::decimal(brightness_percent as nat) + "%"@));
        },
        PreviewValue::Display(DisplayTarget::Sleep) => {
            line.append("off");
        },
    }
    line
}

/// A preview at one temperature: the lines of the outputs, and what ended it early, if anything.
#[derive(Debug)]
pub struct PreviewStep {
    /// The lines.
    pub lines: Vec<String>,
    /// Why the next output has no line.
    pub error: Option<String>,
}

/// See [`PreviewStep`].
pub ghost struct StepView {
    /// See [`PreviewStep::lines`].
    pub lines: Seq<Seq<char>>,
    /// See [`PreviewStep::error`].
    pub error: Option<Seq<char>>,
}

impl View for PreviewStep {
    type V = StepView;

    open spec fn view(&self) -> StepView {
        StepView { lines: text::texts(self.lines@), error: views::maybe(self.error) }
    }
}

/// The preview of the first outputs, one for each blended value.
pub open spec fn previewed_step(
    config: Config,
    outputs: names::Entries<AssignmentConfig>,
    temperature: Celsius,
    hour: u32,
    minute: u32,
    blended: Seq<Blended>,
) -> StepView
    decreases blended.len(),
{
    if blended.len() == 0 {
        StepView { lines: Seq::empty(), error: None }
    } else {
        let earlier = previewed_step(
            config,
            outputs,
            temperature,
            hour,
            minute,
            blended.drop_last(),
        );
        let (name, assignment) = outputs[blended.len() - 1];
        match previewed(config, name, assignment, temperature, hour, minute, blended.last()) {
            Ok(value) => StepView { lines: earlier.lines.push(value_line(name, value)), ..earlier },
            Err(message) => StepView { error: Some(message), ..earlier },
        }
    }
}

/// Whether blended values are what the blends give for the first outputs, one for each.
pub open spec fn step_blends<F, G>(
    blends: Blends<F, G>,
    config: Config,
    outputs: names::Entries<AssignmentConfig>,
    temperature: Celsius,
    hour: u32,
    minute: u32,
    blended: Seq<Blended>,
) -> bool where
    F: Fn(FanPoint, FanPoint, Celsius) -> u8,
    G: Fn(ColorPoint, ColorPoint, Celsius) -> [u8; 3],
 {
    &&& blended.len() <= outputs.len()
    &&& forall|i: int|
        0 <= i < blended.len() ==> preview_blend(
            blends,
            config,
            outputs[i].0,
            outputs[i].1,
            temperature,
            hour,
            minute,
            #[trigger] blended[i],
        )
}

/// Previews the outputs of a profile at a temperature, up to the first that fails.
pub fn preview_step<F, G>(
    config: &Config,
    outputs: &NameMap<AssignmentConfig>,
    temperature: Celsius,
    hour: u32,
    minute: u32,
    blends: &Blends<F, G>,
) -> (step: PreviewStep) where
    F: Fn(FanPoint, FanPoint, Celsius) -> u8,
    G: Fn(ColorPoint, ColorPoint, Celsius) -> [u8; 3],

    requires
        policy::blendable(*blends),
    ensures
        exists|blended: Seq<Blended>|
            {
                &&& #[trigger] step_blends(
                    *blends,
                    *config,
                    outputs@,
                    temperature,
                    hour,
                    minute,
                    blended,
                )
                &&& step@ == previewed_step(
                    *config,
                    outputs@,
                    temperature,
                    hour,
                    minute,
                    blended,
                )
                &&& match step.error {
                    None => blended.len() == outputs@.len(),
                    Some(_) => step.lines@.len() == blended.len() - 1,
                }
            },
{
    let mut lines: Vec<String> = Vec::new();
    let ghost mut blended: Seq<Blended> = Seq::empty();
    let count: usize = outputs.len();
    let mut at: usize = 0;
    assert(text::texts(lines@) =~= Seq::empty());
    while at < count
        invariant
            count == outputs@.len(),
            at <= count,
            blended.len() == at,
            lines@.len() == at,
            policy::blendable(*blends),
            step_blends(*blends, *config, outputs@, temperature, hour, minute, blended),
            (StepView { lines: text::texts(lines@), error: None }) == previewed_step(
                *config,
                outputs@,
                temperature,
                hour,
                minute,
                blended,
            ),
        decreases count - at,
    {
        let name = outputs.key_at(at).as_str();
        let assignment = outputs.value_at(at);
        let result = preview_output(config, name, assignment, temperature, hour, minute, blends);
        let ghost earlier = blended;
        proof {
            let given = choose|given: Blended|
                {
                    &&& #[trigger] preview_blend(
                        *blends,
                        *config,
                        name@,
                        *assignment,
                        temperature,
                        hour,
                        minute,
                        given,
                    )
                    &&& views::outcome(result) == previewed(
                        *config,
                        name@,
                        *assignment,
                        temperature,
                        hour,
                        minute,
                        given,
                    )
                };
            blended = blended.push(given);
            assert(blended.drop_last() =~= earlier);
            assert(step_blends(
                *blends,
                *config,
                outputs@,
                temperature,
                hour,
                minute,
                blended,
            ));
        }
        match result {
            Ok(value) => {
                let line = preview_line(name, value);
                let ghost before = lines@;
                lines.push(line);
                assert(text::texts(lines@) =~= text::texts(before).push(line@));
            },
            Err(message) => {
                return PreviewStep { lines, error: Some(message) };
            },
        }
        at += 1;
    }
    PreviewStep { lines, error: None }
}

/// A preview shows what the policy decides on an output that has no target yet: the same duty,
/// color, or display state at the temperature of its sensors.
pub proof fn law_preview_matches_policy(
    model: EngineModel,
    name: Seq<char>,
    output: OutputConfig,
    assignment: AssignmentConfig,
    now: Nanos,
    hour: u32,
    minute: u32,
    temperature: Celsius,
    blended: Blended,
)
    requires
        names::find(model.config.outputs@, name) == Some(output),
        names::find(model.outputs, name) is None,
        policy::temperature(
            model.readings,
            model.config.daemon.stale_after,
            assignment.sources@,
            now,
        ) == Some(temperature),
    ensures
        match previewed(model.config, name, assignment, temperature, hour, minute, blended) {
            Ok(PreviewValue::Fan(percent)) => policy::planned(
                model,
                name,
                output,
                assignment,
                now,
                hour,
                minute,
                blended,
            ) == (DecisionView::Fan { percent, health: Health::Healthy }),
            Ok(PreviewValue::Rgb(rgb)) => policy::planned(
                model,
                name,
                output,
                assignment,
                now,
                hour,
                minute,
                blended,
            ) == (DecisionView::Rgb { rgb, health: Health::Healthy }),
            Ok(PreviewValue::Display(target)) => policy::planned(
                model,
                name,
                output,
                assignment,
                now,
                hour,
                minute,
                blended,
            ) == (DecisionView::Display { target }),
            Err(_) => policy::planned(
                model,
                name,
                output,
                assignment,
                now,
                hour,
                minute,
                blended,
            ) is Fail,
        },
{
}

/// A line of a profile begins with its name, and tells whether it is active and whether it is the
/// one to start with.
pub proof fn law_profile_line_tells_its_state(
    profile: Seq<char>,
    active: Seq<char>,
    persisted: Option<Seq<char>>,
)
    ensures
        profile_entry(profile, active, persisted) == profile + (match (
            profile == active,
            persisted == Some(profile),
        ) {
            (true, true) => " (active, startup)"@,
            (true, false) => " (active)"@,
            (false, true) => " (startup)"@,
            (false, false) => Seq::empty(),
        }),
{
    assert(profile + Seq::<char>::empty() =~= profile);
}

/// A duration is taken as it was read unless it is zero.
pub proof fn law_durations_are_positive(parsed: Result<u128, Seq<char>>)
    ensures
        positive(parsed) matches Ok(duration) ==> duration > 0 && parsed == Ok::<u128, Seq<char>>(
            duration,
        ),
        positive(parsed) is Err <==> parsed is Err || parsed == Ok::<u128, Seq<char>>(0),
{
}

/// The preview is of the profile that is named, or else of the default, if there is one.
pub proof fn law_preview_is_of_the_named_profile(config: Config, profile: Option<Seq<char>>)
    ensures
        profile matches Some(name) ==> {
            &&& names::has(config.profiles@, name) ==> previewed_profile(config, profile) == Ok::<
                Seq<char>,
                Seq<char>,
            >(name)
            &&& !names::has(config.profiles@, name) ==> previewed_profile(config, profile) is Err
        },
        profile is None ==> previewed_profile(config, profile) == previewed_profile(
            config,
            Some(config.default_profile@),
        ),
{
}

proof fn lemma_preview_lines(
    config: Config,
    outputs: names::Entries<AssignmentConfig>,
    temperature: Celsius,
    hour: u32,
    minute: u32,
    blended: Seq<Blended>,
    at: int,
)
    requires
        0 <= at < blended.len() <= outputs.len(),
        previewed_step(config, outputs, temperature, hour, minute, blended).error is None,
    ensures
        ({
            let step = previewed_step(config, outputs, temperature, hour, minute, blended);
            &&& step.lines.len() == blended.len()
            &&& previewed(
                config,
                outputs[at].0,
                outputs[at].1,
                temperature,
                hour,
                minute,
                blended[at],
            ) matches Ok(value) && step.lines[at] == value_line(outputs[at].0, value)
        }),
    decreases blended.len(),
{
    let earlier = blended.drop_last();
    if earlier.len() > 0 {
        lemma_preview_lines(
            config,
            outputs,
            temperature,
            hour,
            minute,
            earlier,
            if at < earlier.len() {
                at
            } else {
                0
            },
        );
    } else {
        assert(previewed_step(config, outputs, temperature, hour, minute, earlier).lines.len()
            == 0);
    }
}

/// A preview that succeeds has a line for each output, in order, with the value of that output.
pub proof fn law_preview_has_a_line_for_each_output(
    config: Config,
    outputs: names::Entries<AssignmentConfig>,
    temperature: Celsius,
    hour: u32,
    minute: u32,
    blended: Seq<Blended>,
    at: int,
)
    requires
        0 <= at < blended.len() <= outputs.len(),
        previewed_step(config, outputs, temperature, hour, minute, blended).error is None,
    ensures
        ({
            let lines = previewed_step(config, outputs, temperature, hour, minute, blended).lines;
            &&& lines.len() == blended.len()
            &&& previewed(
                config,
                outputs[at].0,
                outputs[at].1,
                temperature,
                hour,
                minute,
                blended[at],
            ) matches Ok(value) && text::has_prefix(
                lines[at],
                "  "@ + outputs[at].0 + ": "@,
            ) && (value matches PreviewValue::Fan(percent) ==> lines[at] == "  "@ + outputs[at].0
                + ": "@ + text::decimal(percent as nat) + "%"@)
        }),
{
    lemma_preview_lines(config, outputs, temperature, hour, minute, blended, at);
    let value = previewed(
        config,
        outputs[at].0,
        outputs[at].1,
        temperature,
        hour,
        minute,
        blended[at],
    )->Ok_0;
    let front = "  "@ + outputs[at].0 + ": "@;
    let line = value_line(outputs[at].0, value);
    assert(front == line.take(front.len() as int));
    text::law_parts_of_a_text(Seq::empty(), front, line.skip(front.len() as int));
    assert(front + line.skip(front.len() as int) =~= line);
    if let PreviewValue::Fan(percent) = value {
        assert(line =~= "  "@ + outputs[at].0 + ": "@ + text::decimal(percent as nat) + "%"@);
    }
}

} // verus!
