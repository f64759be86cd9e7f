//! The fan test: duty steps under finite overrides, and what the reported speeds say.

use vstd::prelude::*;

use crate::config::Nanos;
use crate::control;
use crate::drivers::corsair;
use crate::drivers::corsair::SpeedReading;
use crate::json;
use crate::json::Json;
use crate::json::JsonView;
use crate::names;
use crate::names::NameMap;
use crate::text;
use crate::types::DaemonStatus;
use crate::types::DaemonStatusView;
use crate::types::OutputKind;
use crate::types::OutputStatus;
use crate::types::OutputStatusView;
use crate::types::OverrideStatus;
use crate::views;

verus! {

/// How long an output may take to reach a duty.
pub const TARGET_TIMEOUT: u128 = 5_000_000_000;

/// How long an override lasts beyond the time that a step takes.
pub const OVERRIDE_GRACE: u128 = 10_000_000_000;

/// Time between two looks at an output.
pub const POLL_INTERVAL: u128 = 250_000_000;

/// Time after which the daemon has evaluated its policy again.
pub const POLICY_RESTORE_DELAY: u128 = 1_100_000_000;

/// The longest time that a duty may be held.
pub const LONGEST_HOLD: u128 = 300_000_000_000;

/// Process exit code of a failed check.
pub const HEALTH_CHECK_FAILED: u8 = 5;

// ---------------------------------------------------------------- options

/// What is wrong with the options of a test.
pub open spec fn options_fault(steps: Seq<u8>, hold: Nanos) -> Option<Seq<char>> {
    if steps.len() < 2 || steps.len() > 10 {
        Some("fan test requires 2 to 10 duty steps"@)
    } else if !ascending(steps) {
        Some("fan test steps must be unique and in ascending order"@)
    } else if hold > LONGEST_HOLD {
        Some("fan test hold time must not exceed 5m per step"@)
    } else {
        None
    }
}

/// Whether every step is higher than those before it.
pub open spec fn ascending(steps: Seq<u8>) -> bool {
    forall|i: int, j: int| 0 <= i < j < steps.len() ==> steps[i] < steps[j]
}

/// Checks the options of a test.
///
/// # Errors
///
/// Returns what is wrong with them.
pub fn validate_options(steps: &[u8], hold: Nanos) -> (result: Result<(), String>)
    ensures
        match options_fault(steps@, hold) {
            None => result is Ok,
            Some(fault) => result matches Err(e) && e@ == fault,
        },
{
    if steps.len() < 2 || steps.len() > 10 {
        return Err("fan test requires 2 to 10 duty steps".to_owned());
    }
    let mut at: usize = 1;
    while at < steps.len()
        invariant
            1 <= at <= steps@.len(),
            2 <= steps@.len() <= 10,
            forall|i: int, j: int| 0 <= i < j < at ==> steps@[i] < steps@[j],
        decreases steps@.len() - at,
    {
        if steps[at - 1] >= steps[at] {
            return Err("fan test steps must be unique and in ascending order".to_owned());
        }
        at += 1;
    }
    if hold > LONGEST_HOLD {
        return Err("fan test hold time must not exceed 5m per step".to_owned());
    }
    Ok(())
}

// ---------------------------------------------------------------- speeds

/// The speeds by channel that an output reports.
pub open spec fn reported_rpm(observed: Option<JsonView>) -> Option<Seq<(Seq<char>, JsonView)>> {
    match observed {
        None => None,
        Some(value) => match json::field(value, "rpm"@) {
            Some(JsonView::Object(fields)) => Some(fields),
            _ => None,
        },
    }
}

/// The speeds from the field `at` on, after those found so far.
pub open spec fn speeds_from(
    output: Seq<char>,
    fields: Seq<(Seq<char>, JsonView)>,
    at: int,
    found: names::Entries<u64>,
) -> Result<names::Entries<u64>, Seq<char>>
    decreases fields.len() - at,
{
    if at >= fields.len() {
        Ok(found)
    } else {
        match json::natural(fields[at].1) {
            None => Err(
                "output '"@ + output + "' returned invalid RPM for channel "@ + fields[at].0,
            ),
            Some(rpm) => speeds_from(
                output,
                fields,
                at + 1,
                names::inserted(found, fields[at].0, rpm),
            ),
        }
    }
}

/// The speeds that an output reports, or why it cannot be tested.
pub open spec fn readings(output: Seq<char>, observed: Option<JsonView>) -> Result<
    names::Entries<u64>,
    Seq<char>,
> {
    match reported_rpm(observed) {
        None => Err(
            "output '"@ + output
                + "' does not report per-channel RPM and cannot be performance tested"@,
        ),
        Some(fields) => match speeds_from(output, fields, 0, Seq::empty()) {
            Err(reason) => Err(reason),
            Ok(found) => if found.len() == 0 {
                Err("output '"@ + output + "' reported no RPM readings"@)
            } else {
                Ok(found)
            },
        },
    }
}

fn speeds_of(output: &str, fields: &Vec<(String, Json)>) -> (result: Result<NameMap<u64>, String>)
    ensures
        views::outcome(result) == speeds_from(
            output@,
            json::fields_view(fields@),
            0,
            Seq::empty(),
        ),
{
    let mut found: NameMap<u64> = NameMap::new();
    let mut at: usize = 0;
    let ghost all = json::fields_view(fields@);
    proof {
        json::lemma_fields_view(fields@);
    }
    while at < fields.len()
        invariant
            at <= fields@.len(),
            all == json::fields_view(fields@),
            all.len() == fields@.len(),
            forall|i: int|
                0 <= i < fields@.len() ==> #[trigger] all[i] == (fields@[i].0@, fields@[i].1@),
            speeds_from(output@, all, 0, Seq::empty()) == speeds_from(
                output@,
                all,
                at as int,
                found@,
            ),
        decreases fields@.len() - at,
    {
        let (channel, value) = &fields[at];
        assert(all[at as int] == (channel@, value@));
        match value.as_u64() {
            None => {
                return Err(
                    text::concat4(
                        "output '",
                        output,
                        "' returned invalid RPM for channel ",
                        channel.as_str(),
                    ),
                );
            },
            Some(rpm) => {
                found.insert(channel.clone(), rpm);
            },
        }
        at += 1;
    }
    Ok(found)
}

/// Takes the speeds out of the state of an output.
///
/// # Errors
///
/// Returns why the output cannot be tested.
pub fn rpm_readings(output: &str, status: &OutputStatus) -> (result: Result<NameMap<u64>, String>)
    ensures
        views::outcome(result) == readings(output@, status@.observed),
{
    if let Some(observed) = &status.observed {
        if let Some(rpm) = observed.get("rpm") {
            if let Json::Object(fields) = rpm {
                let found = speeds_of(output, fields)?;
                if found.is_empty() {
                    return Err(
                        text::concat3("output '", output, "' reported no RPM readings"),
                    );
                }
                return Ok(found);
            }
        }
    }
    Err(
        text::concat3(
            "output '",
            output,
            "' does not report per-channel RPM and cannot be performance tested",
        ),
    )
}

// ---------------------------------------------------------------- analysis

/// What was measured at one duty.
#[derive(Debug)]
pub struct FanTestStep {
    /// The duty.
    pub percent: u8,
    /// Median of the speeds.
    pub median_rpm: u64,
    /// Speeds by channel.
    pub rpm: NameMap<u64>,
    /// Channels that are slow for the median.
    pub low_channels: Vec<String>,
}

/// See [`FanTestStep`].
pub ghost struct StepView {
    /// See [`FanTestStep::percent`].
    pub percent: u8,
    /// See [`FanTestStep::median_rpm`].
    pub median_rpm: u64,
    /// See [`FanTestStep::rpm`].
    pub rpm: names::Entries<u64>,
    /// See [`FanTestStep::low_channels`].
    pub low_channels: Seq<Seq<char>>,
}

impl View for FanTestStep {
    type V = StepView;

    open spec fn view(&self) -> StepView {
        StepView {
            percent: self.percent,
            median_rpm: self.median_rpm,
            rpm: self.rpm@,
            low_channels: text::texts(self.low_channels@),
        }
    }
}

/// The order of speeds.
pub open spec fn slower() -> spec_fn(u64, u64) -> bool {
    |left: u64, right: u64| left <= right
}

/// The speeds of all channels.
pub open spec fn speeds(rpm: names::Entries<u64>) -> Seq<u64> {
    Seq::new(rpm.len(), |i: int| rpm[i].1)
}

/// The median of speeds: the middle one, or the middle of the middle two.
pub open spec fn median(values: Seq<u64>) -> int {
    let ordered = values.sort_by(slower());
    let middle = (ordered.len() / 2) as int;
    if ordered.len() % 2 == 0 {
        ordered[middle - 1] + (ordered[middle] - ordered[middle - 1]) / 2
    } else {
        ordered[middle] as int
    }
}

proof fn lemma_slower()
    ensures
        vstd::relations::total_ordering(slower()),
{
}

fn sorted_values(values: &Vec<u64>) -> (ordered: Vec<u64>)
    ensures
        ordered@ == values@.sort_by(slower()),
        ordered@.len() == values@.len(),
        vstd::relations::sorted_by(ordered@, slower()),
{
    broadcast use vstd::seq_lib::group_to_multiset_ensures;

    let mut ordered: Vec<u64> = Vec::new();
    let mut at: usize = 0;
    assert(values@.take(0) =~= ordered@);
    while at < values.len()
        invariant
            at <= values@.len(),
            ordered@.len() == at,
            ordered@.to_multiset() == values@.take(at as int).to_multiset(),
            vstd::relations::sorted_by(ordered@, slower()),
        decreases values@.len() - at,
    {
        let value: u64 = values[at];
        let mut slot: usize = ordered.len();
        let ghost before = ordered@;
        while slot > 0 && ordered[slot - 1] > value
            invariant
                slot <= ordered@.len(),
                ordered@ == before,
                vstd::relations::sorted_by(before, slower()),
                forall|i: int| slot <= i < before.len() ==> value <= #[trigger] before[i],
            decreases slot,
        {
            slot -= 1;
        }
        proof {
            assert(slot > 0 ==> before[slot - 1] <= value);
            assert forall|i: int| 0 <= i < slot implies #[trigger] before[i] <= value by {
                if i < slot - 1 {
                    assert(slower()(before[i], before[slot - 1]));
                }
            }
        }
        ordered.insert(slot, value);
        proof {
            let after = ordered@;
            assert(after == before.insert(slot as int, value));
            assert forall|i: int, j: int| 0 <= i < j < after.len() implies #[trigger] slower()(
                after[i],
                after[j],
            ) by {
                if j < slot {
                    assert(slower()(before[i], before[j]));
                } else if i > slot {
                    assert(slower()(before[i - 1], before[j - 1]));
                } else if i < slot && j > slot {
                    assert(slower()(before[i], before[j - 1]));
                }
            }
            assert(values@.take(at + 1) =~= values@.take(at as int).push(value));
            vstd::seq_lib::to_multiset_build(values@.take(at as int), value);
            vstd::seq_lib::to_multiset_insert(before, slot as int, value);
        }
        at += 1;
    }
    proof {
        assert(values@.take(at as int) =~= values@);
        lemma_slower();
        values@.lemma_sort_by_ensures(slower());
        vstd::seq_lib::lemma_sorted_unique(ordered@, values@.sort_by(slower()), slower());
    }
    ordered
}

/// A product, or the largest number where it is larger.
pub open spec fn product(left: u64, right: u64) -> u64 {
    if left * right > u64::MAX {
        u64::MAX
    } else {
        (left * right) as u64
    }
}

fn saturating_product(left: u64, right: u64) -> (result: u64)
    ensures
        result == product(left, right),
{
    match left.checked_mul(right) {
        Some(result) => result,
        None => u64::MAX,
    }
}

/// The channels among the first `count` whose speed is below a share of the median.
pub open spec fn low_channels(
    rpm: names::Entries<u64>,
    median: u64,
    minimum_relative_percent: u8,
    count: int,
) -> Seq<Seq<char>>
    decreases count,
{
    if count <= 0 {
        Seq::empty()
    } else {
        let earlier = low_channels(rpm, median, minimum_relative_percent, count - 1);
        if product(rpm[count - 1].1, 100) < product(median, minimum_relative_percent as u64) {
            earlier.push(rpm[count - 1].0)
        } else {
            earlier
        }
    }
}

/// What speeds at a duty amount to.
pub open spec fn analyzed(
    percent: u8,
    rpm: names::Entries<u64>,
    minimum_relative_percent: u8,
) -> Result<StepView, Seq<char>> {
    let middle = median(speeds(rpm)) as u64;
    if middle == 0 {
        Err("all fans reported 0 RPM at "@ + text::decimal(percent as nat) + "%"@)
    } else {
        Ok(
            StepView {
                percent,
                median_rpm: middle,
                rpm,
                low_channels: low_channels(
                    rpm,
                    middle,
                    minimum_relative_percent,
                    rpm.len() as int,
                ),
            },
        )
    }
}

/// Analyzes the speeds at a duty.
///
/// # Errors
///
/// Returns an error when the median speed is zero.
pub fn analyze_step(percent: u8, rpm: NameMap<u64>, minimum_relative_percent: u8) -> (result: Result<
    FanTestStep,
    String,
>)
    requires
        rpm@.len() > 0,
    ensures
        views::outcome(result) == analyzed(percent, rpm@, minimum_relative_percent),
        0 <= median(speeds(rpm@)) <= u64::MAX,
{
    let mut values: Vec<u64> = Vec::new();
    let count: usize = rpm.len();
    let mut at: usize = 0;
    while at < count
        invariant
            count == rpm@.len(),
            at <= count,
            values@ =~= speeds(rpm@).take(at as int),
        decreases count - at,
    {
        values.push(*rpm.value_at(at));
        at += 1;
    }
    assert(values@ =~= speeds(rpm@));
    let ordered = sorted_values(&values);
    let middle: usize = ordered.len() / 2;
    let median_rpm: u64 = if ordered.len() % 2 == 0 {
        let low: u64 = ordered[middle - 1];
        let high: u64 = ordered[middle];
        assert(slower()(ordered@[middle - 1], ordered@[middle as int]));
        low + (high - low) / 2
    } else {
        ordered[middle]
    };
    assert(median_rpm == median(speeds(rpm@)));
    if median_rpm == 0 {
        let mut message = "all fans reported 0 RPM at ".to_owned();
        text::push_decimal(&mut message, percent as u64);
        message.append("%");
        return Err(message);
    }
    let mut low: Vec<String> = Vec::new();
    let mut at: usize = 0;
    assert(text::texts(low@) =~= low_channels(rpm@, median_rpm, minimum_relative_percent, 0));
    while at < count
        invariant
            count == rpm@.len(),
            at <= count,
            text::texts(low@) == low_channels(
                rpm@,
                median_rpm,
                minimum_relative_percent,
                at as int,
            ),
        decreases count - at,
    {
        if saturating_product(*rpm.value_at(at), 100) < saturating_product(
            median_rpm,
            minimum_relative_percent as u64,
        ) {
            let channel = rpm.key_at(at).clone();
            let ghost before = low@;
            low.push(channel);
            assert(text::texts(low@) =~= text::texts(before).push(channel@));
        }
        at += 1;
    }
    Ok(FanTestStep { percent, median_rpm, rpm, low_channels: low })
}

/// What is wrong with a slow channel.
pub open spec fn low_warning(
    step: StepView,
    channel: Seq<char>,
    rpm: u64,
    minimum_relative_percent: u8,
) -> Seq<char> {
    "channel "@ + channel + " reported "@ + text::decimal(rpm as nat) + " RPM at "@
        + text::decimal(step.percent as nat) + "%, below "@ + text::decimal(
        minimum_relative_percent as nat,
    ) + "% of the "@ + text::decimal(step.median_rpm as nat) + " RPM median"@
}

/// What is wrong with the first `count` slow channels of a step.
pub open spec fn step_warnings(step: StepView, minimum_relative_percent: u8, count: int) -> Seq<
    Seq<char>,
>
    decreases count,
{
    if count <= 0 {
        Seq::empty()
    } else {
        let earlier = step_warnings(step, minimum_relative_percent, count - 1);
        let channel = step.low_channels[count - 1];
        match names::find(step.rpm, channel) {
            Some(rpm) => earlier.push(
                low_warning(step, channel, rpm, minimum_relative_percent),
            ),
            None => earlier,
        }
    }
}

/// What is wrong with the slow channels of the first `count` steps.
pub open spec fn slow_warnings(steps: Seq<StepView>, minimum_relative_percent: u8, count: int) -> Seq<
    Seq<char>,
>
    decreases count,
{
    if count <= 0 {
        Seq::empty()
    } else {
        slow_warnings(steps, minimum_relative_percent, count - 1) + step_warnings(
            steps[count - 1],
            minimum_relative_percent,
            steps[count - 1].low_channels.len() as int,
        )
    }
}

/// What is wrong with a channel from the first step to the last: it is gone, or its speed did
/// not grow by a quarter.
pub open spec fn response_warning(first: StepView, last: StepView, at: int) -> Option<Seq<char>> {
    let (channel, before) = first.rpm[at];
    match names::find(last.rpm, channel) {
        None => Some("channel "@ + channel + " disappeared during the fan test"@),
        Some(after) => if product(after, 100) < product(before, 125) {
            Some(
                "channel "@ + channel + " changed from "@ + text::decimal(before as nat) + " to "@
                    + text::decimal(after as nat) + " RPM between "@ + text::decimal(
                    first.percent as nat,
                ) + "% and "@ + text::decimal(last.percent as nat) + "% duty"@,
            )
        } else {
            None
        },
    }
}

/// What is wrong with the first `count` channels from the first step to the last.
pub open spec fn response_warnings(first: StepView, last: StepView, count: int) -> Seq<Seq<char>>
    decreases count,
{
    if count <= 0 {
        Seq::empty()
    } else {
        let earlier = response_warnings(first, last, count - 1);
        match response_warning(first, last, count - 1) {
            Some(warning) => earlier.push(warning),
            None => earlier,
        }
    }
}

/// What is wrong with the measured steps. Whether speeds respond is judged where the duty grew
/// by 20 percent or more.
pub open spec fn all_warnings(steps: Seq<StepView>, minimum_relative_percent: u8) -> Seq<Seq<char>> {
    let slow = slow_warnings(steps, minimum_relative_percent, steps.len() as int);
    if steps.len() > 0 && steps.last().percent - steps[0].percent >= 20 {
        slow + response_warnings(steps[0], steps.last(), steps[0].rpm.len() as int)
    } else {
        slow
    }
}

fn push_step_warnings(step: &FanTestStep, minimum_relative_percent: u8, list: &mut Vec<String>)
    ensures
        text::texts(final(list)@) == text::texts(old(list)@) + step_warnings(
            step@,
            minimum_relative_percent,
            step@.low_channels.len() as int,
        ),
{
    let mut at: usize = 0;
    assert(text::texts(list@) =~= text::texts(old(list)@) + step_warnings(
        step@,
        minimum_relative_percent,
        0,
    ));
    while at < step.low_channels.len()
        invariant
            at <= step.low_channels@.len(),
            text::texts(list@) =~= text::texts(old(list)@) + step_warnings(
                step@,
                minimum_relative_percent,
                at as int,
            ),
        decreases step.low_channels@.len() - at,
    {
        let channel = step.low_channels[at].as_str();
        assert(step@.low_channels[at as int] == channel@);
        if let Some(rpm) = step.rpm.get(channel) {
            let mut warning = text::concat3("channel ", channel, " reported ");
            text::push_decimal(&mut warning, *rpm);
            warning.append(" RPM at ");
            text::push_decimal(&mut warning, step.percent as u64);
            warning.append("%, below ");
            text::push_decimal(&mut warning, minimum_relative_percent as u64);
            warning.append("% of the ");
            text::push_decimal(&mut warning, step.median_rpm);
            warning.append(" RPM median");
            assert(warning@ =~= low_warning(step@, channel@, *rpm, minimum_relative_percent));
            let ghost before = list@;
            list.push(warning);
            assert(text::texts(list@) =~= text::texts(before).push(warning@));
        }
        at += 1;
    }
}

fn push_response_warnings(first: &FanTestStep, last: &FanTestStep, list: &mut Vec<String>)
    ensures
        text::texts(final(list)@) == text::texts(old(list)@) + response_warnings(
            first@,
            last@,
            first@.rpm.len() as int,
        ),
{
    let count: usize = first.rpm.len();
    let mut at: usize = 0;
    assert(text::texts(list@) =~= text::texts(old(list)@) + response_warnings(first@, last@, 0));
    while at < count
        invariant
            count == first@.rpm.len(),
            at <= count,
            text::texts(list@) =~= text::texts(old(list)@) + response_warnings(
                first@,
                last@,
                at as int,
            ),
        decreases count - at,
    {
        let channel = first.rpm.key_at(at).as_str();
        let before: u64 = *first.rpm.value_at(at);
        let ghost earlier = list@;
        match last.rpm.get(channel) {
            None => {
                let warning = text::concat3(
                    "channel ",
                    channel,
                    " disappeared during the fan test",
                );
                list.push(warning);
                assert(text::texts(list@) =~= text::texts(earlier).push(warning@));
            },
            Some(after) => {
                if saturating_product(*after, 100) < saturating_product(before, 125) {
                    let mut warning = text::concat3("channel ", channel, " changed from ");
                    text::push_decimal(&mut warning, before);
                    warning.append(" to ");
                    text::push_decimal(&mut warning, *after);
                    warning.append(" RPM between ");
                    text::push_decimal(&mut warning, first.percent as u64);
                    warning.append("% and ");
                    text::push_decimal(&mut warning, last.percent as u64);
                    warning.append("% duty");
                    assert(warning@ =~= response_warning(first@, last@, at as int)->0);
                    list.push(warning);
                    assert(text::texts(list@) =~= text::texts(earlier).push(warning@));
                }
            },
        }
        at += 1;
    }
}

/// Lists what is wrong with the measured steps.
pub fn warnings(steps: &Vec<FanTestStep>, minimum_relative_percent: u8) -> (list: Vec<String>)
    ensures
        text::texts(list@) == all_warnings(views::list(steps@), minimum_relative_percent),
{
    let mut list: Vec<String> = Vec::new();
    let mut at: usize = 0;
    let ghost all = views::list(steps@);
    assert(text::texts(list@) =~= slow_warnings(all, minimum_relative_percent, 0));
    while at < steps.len()
        invariant
            at <= steps@.len(),
            all == views::list(steps@),
            text::texts(list@) == slow_warnings(all, minimum_relative_percent, at as int),
        decreases steps@.len() - at,
    {
        assert(all[at as int] == steps@[at as int]@);
        push_step_warnings(&steps[at], minimum_relative_percent, &mut list);
        at += 1;
    }
    if steps.len() > 0 {
        let last: usize = steps.len() - 1;
        assert(all[0] == steps@[0]@ && all.last() == steps@[last as int]@);
        if steps[last].percent >= steps[0].percent && steps[last].percent - steps[0].percent
            >= 20 {
            push_response_warnings(&steps[0], &steps[last], &mut list);
        }
    }
    list
}

// ---------------------------------------------------------------- test run

/// Why a test failed, and the process exit code for that.
#[derive(Clone, Debug, PartialEq, Eq)]
pub struct Failure {
    /// What happened.
    pub message: String,
    /// Process exit code.
    pub exit_code: u8,
}

/// See [`Failure`].
pub ghost struct FailureView {
    /// See [`Failure::message`].
    pub message: Seq<char>,
    /// See [`Failure::exit_code`].
    pub exit_code: u8,
}

impl View for Failure {
    type V = FailureView;

    open spec fn view(&self) -> FailureView {
        FailureView { message: self.message@, exit_code: self.exit_code }
    }
}

/// A failure of the test itself.
pub open spec fn plain(message: Seq<char>) -> FailureView {
    FailureView { message, exit_code: 1 }
}

fn plain_failure(message: String) -> (failure: Failure)
    ensures
        failure@ == plain(message@),
{
    Failure { message, exit_code: 1 }
}

/// The report of a test that ran to its end.
#[derive(Debug)]
pub struct FanTestReport {
    /// Output that was tested.
    pub output: String,
    /// Share of the median below which a channel is slow.
    pub minimum_relative_percent: u8,
    /// What was measured.
    pub steps: Vec<FanTestStep>,
    /// What is wrong.
    pub warnings: Vec<String>,
    /// Whether nothing is wrong.
    pub passed: bool,
    /// Whether the configured policy is in force again.
    pub policy_restored: bool,
}

/// See [`FanTestReport`].
pub ghost struct ReportView {
    /// See [`FanTestReport::output`].
    pub output: Seq<char>,
    /// See [`FanTestReport::minimum_relative_percent`].
    pub minimum_relative_percent: u8,
    /// See [`FanTestReport::steps`].
    pub steps: Seq<StepView>,
    /// See [`FanTestReport::warnings`].
    pub warnings: Seq<Seq<char>>,
    /// See [`FanTestReport::passed`].
    pub passed: bool,
    /// See [`FanTestReport::policy_restored`].
    pub policy_restored: bool,
}

impl View for FanTestReport {
    type V = ReportView;

    open spec fn view(&self) -> ReportView {
        ReportView {
            output: self.output@,
            minimum_relative_percent: self.minimum_relative_percent,
            steps: views::list(self.steps@),
            warnings: text::texts(self.warnings@),
            passed: self.passed,
            policy_restored: self.policy_restored,
        }
    }
}

impl FanTestReport {
    /// The process exit code for this report.
    pub fn exit_code(&self) -> (code: u8)
        ensures
            code == (if self@.passed {
                0u8
            } else {
                HEALTH_CHECK_FAILED
            }),
    {
        if self.passed {
            0
        } else {
            HEALTH_CHECK_FAILED
        }
    }
}

/// What a test waits for.
#[derive(Clone, Copy, Debug, PartialEq, Eq, Structural)]
pub enum Stage {
    /// The first status.
    Checking,
    /// The override of the current step to be accepted.
    Overriding,
    /// A status in which the output may have reached its duty.
    Polling {
        /// When it has to.
        deadline: Nanos,
    },
    /// The pause between two such looks.
    Pausing {
        /// When the duty has to be reached.
        deadline: Nanos,
    },
    /// The duty to be held.
    Settling,
    /// The status to measure.
    Measuring,
    /// The status that shows whether an override is left.
    Inspecting,
    /// The override to be cleared.
    Clearing,
    /// The policy to be evaluated.
    Restoring,
    /// The status that shows whether the policy is in force again.
    Verifying,
    /// Nothing.
    Finished,
}

/// What happened.
#[derive(Debug)]
pub enum Event {
    /// A status arrived.
    Status(DaemonStatus),
    /// The daemon accepted a command.
    Accepted,
    /// A time has passed.
    Slept,
    /// The operator ended the test.
    Interrupted,
    /// Something could not be done.
    Failed(Failure),
}

/// See [`Event`].
pub ghost enum EventView {
    /// See [`Event::Status`].
    Status(DaemonStatusView),
    /// See [`Event::Accepted`].
    Accepted,
    /// See [`Event::Slept`].
    Slept,
    /// See [`Event::Interrupted`].
    Interrupted,
    /// See [`Event::Failed`].
    Failed(FailureView),
}

impl View for Event {
    type V = EventView;

    open spec fn view(&self) -> EventView {
        match *self {
            Event::Status(status) => EventView::Status(status@),
            Event::Accepted => EventView::Accepted,
            Event::Slept => EventView::Slept,
            Event::Interrupted => EventView::Interrupted,
            Event::Failed(failure) => EventView::Failed(failure@),
        }
    }
}

/// What to do next.
#[derive(Debug)]
pub enum Action {
    /// Ask the daemon for its status.
    RequestStatus,
    /// Override the output, without permission to go below its minimum.
    SetOverride {
        /// Duty.
        percent: u8,
        /// Lifetime of the override.
        duration_ms: u64,
    },
    /// Clear the override of the output.
    ClearOverride,
    /// Let a time pass.
    Sleep(Nanos),
    /// End the test.
    Finish(Result<FanTestReport, Failure>),
}

/// See [`Action`].
pub ghost enum ActionView {
    /// See [`Action::RequestStatus`].
    RequestStatus,
    /// See [`Action::SetOverride`].
    SetOverride {
        /// Duty.
        percent: u8,
        /// Lifetime of the override.
        duration_ms: u64,
    },
    /// See [`Action::ClearOverride`].
    ClearOverride,
    /// See [`Action::Sleep`].
    Sleep(Nanos),
    /// See [`Action::Finish`].
    Finish(Result<ReportView, FailureView>),
}

impl View for Action {
    type V = ActionView;

    open spec fn view(&self) -> ActionView {
        match *self {
            Action::RequestStatus => ActionView::RequestStatus,
            Action::SetOverride { percent, duration_ms } => ActionView::SetOverride {
                percent,
                duration_ms,
            },
            Action::ClearOverride => ActionView::ClearOverride,
            Action::Sleep(time) => ActionView::Sleep(time),
            Action::Finish(result) => ActionView::Finish(views::outcome(result)),
        }
    }
}

/// A fan test.
#[derive(Debug)]
pub struct FanTest {
    /// Output under test.
    pub output: String,
    /// Duties to apply.
    pub steps: Vec<u8>,
    /// How long to hold each.
    pub hold: Nanos,
    /// Share of the median below which a channel is slow.
    pub minimum_relative_percent: u8,
    /// What was measured so far.
    pub samples: Vec<FanTestStep>,
    /// What ended the steps early.
    pub failure: Option<Failure>,
    /// What the test waits for.
    pub stage: Stage,
}

/// See [`FanTest`].
pub ghost struct TestView {
    /// See [`FanTest::output`].
    pub output: Seq<char>,
    /// See [`FanTest::steps`].
    pub steps: Seq<u8>,
    /// See [`FanTest::hold`].
    pub hold: Nanos,
    /// See [`FanTest::minimum_relative_percent`].
    pub minimum_relative_percent: u8,
    /// See [`FanTest::samples`].
    pub samples: Seq<StepView>,
    /// See [`FanTest::failure`].
    pub failure: Option<FailureView>,
    /// See [`FanTest::stage`].
    pub stage: Stage,
}

impl View for FanTest {
    type V = TestView;

    open spec fn view(&self) -> TestView {
        TestView {
            output: self.output@,
            steps: self.steps@,
            hold: self.hold,
            minimum_relative_percent: self.minimum_relative_percent,
            samples: views::list(self.samples@),
            failure: views::maybe(self.failure),
            stage: self.stage,
        }
    }
}

/// Whether a stage can meet an event.
pub open spec fn meets(stage: Stage, event: EventView) -> bool {
    match stage {
        Stage::Checking => event is Status || event is Failed,
        Stage::Overriding => event is Accepted || event is Failed,
        Stage::Polling { .. } => event is Status || event is Failed,
        Stage::Pausing { .. } => event is Slept || event is Interrupted || event is Failed,
        Stage::Settling => event is Slept || event is Interrupted || event is Failed,
        Stage::Measuring => event is Status || event is Failed,
        Stage::Inspecting => event is Status || event is Failed,
        Stage::Clearing => event is Accepted || event is Failed,
        Stage::Restoring => event is Slept,
        Stage::Verifying => event is Status || event is Failed,
        Stage::Finished => false,
    }
}

/// Whether a test is in order: its options are, and a step is left while it works on one.
pub open spec fn runnable(test: TestView) -> bool {
    &&& options_fault(test.steps, test.hold) is None
    &&& test.samples.len() <= test.steps.len()
    &&& match test.stage {
        Stage::Checking => test.samples.len() == 0,
        Stage::Overriding => test.samples.len() < test.steps.len(),
        Stage::Polling { .. } => test.samples.len() < test.steps.len(),
        Stage::Pausing { .. } => test.samples.len() < test.steps.len(),
        Stage::Settling => test.samples.len() < test.steps.len(),
        Stage::Measuring => test.samples.len() < test.steps.len(),
        _ => true,
    }
}

/// The lifetime of the override of a step: until the output reached its duty and held it, and
/// some time more.
pub open spec fn override_ms(hold: Nanos) -> u64 {
    ((hold + TARGET_TIMEOUT + OVERRIDE_GRACE) / 1_000_000) as u64
}

/// The duties of the step that a test works on.
pub open spec fn current_duty(test: TestView) -> u8 {
    test.steps[test.samples.len() as int]
}

/// The start of a step.
pub open spec fn step_started(test: TestView) -> (TestView, ActionView) {
    (
        TestView { stage: Stage::Overriding, ..test },
        ActionView::SetOverride {
            percent: current_duty(test),
            duration_ms: override_ms(test.hold),
        },
    )
}

/// The start of the cleanup.
pub open spec fn cleanup_started(test: TestView) -> (TestView, ActionView) {
    (TestView { stage: Stage::Inspecting, ..test }, ActionView::RequestStatus)
}

/// The start of the cleanup after a failure.
pub open spec fn abandoned(test: TestView, failure: FailureView) -> (TestView, ActionView) {
    cleanup_started(TestView { failure: Some(failure), ..test })
}

/// The report of a test.
pub open spec fn report_of(test: TestView) -> ReportView {
    let warnings = all_warnings(test.samples, test.minimum_relative_percent);
    ReportView {
        output: test.output,
        minimum_relative_percent: test.minimum_relative_percent,
        steps: test.samples,
        warnings,
        passed: warnings.len() == 0,
        policy_restored: true,
    }
}

/// How a test ends, by what ended its steps early and what went wrong with the cleanup.
pub open spec fn verdict(test: TestView, cleanup: Option<FailureView>) -> Result<
    ReportView,
    FailureView,
> {
    match (test.failure, cleanup) {
        (None, None) => Ok(report_of(test)),
        (Some(failure), None) => Err(failure),
        (None, Some(failure)) => Err(failure),
        (Some(failure), Some(other)) => Err(
            plain(failure.message + "; cleanup also failed: "@ + other.message),
        ),
    }
}

/// The end of a test.
pub open spec fn ended(test: TestView, cleanup: Option<FailureView>) -> (TestView, ActionView) {
    (
        TestView { stage: Stage::Finished, ..test },
        ActionView::Finish(verdict(test, cleanup)),
    )
}

/// Whether an output has an override.
pub open spec fn has_override(status: DaemonStatusView, output: Seq<char>) -> bool {
    exists|i: int| 0 <= i < status.overrides.len() && #[trigger] status.overrides[i].output == output
}

/// What keeps an output from being tested.
pub open spec fn untestable(status: DaemonStatusView, output: Seq<char>) -> Option<Seq<char>> {
    match names::find(status.outputs, output) {
        None => Some("unknown output '"@ + output + "'"@),
        Some(found) => if found.kind != OutputKind::Fan {
            Some("output '"@ + output + "' is not a fan"@)
        } else if has_override(status, output) {
            Some("output '"@ + output + "' already has an active override"@)
        } else {
            match readings(output, found.observed) {
                Ok(_) => None,
                Err(reason) => Some(reason),
            }
        },
    }
}

/// An output that is gone.
pub open spec fn disappeared(output: Seq<char>) -> FailureView {
    plain("output '"@ + output + "' disappeared during the fan test"@)
}

/// Whether the target of an output is a duty.
pub open spec fn reached(status: OutputStatusView, percent: u8) -> bool {
    status.target matches Some(target) && json::natural(target) == Some(percent as u64)
}

/// What a status shows of the output on its way to a duty.
pub open spec fn polled(test: TestView, status: DaemonStatusView, deadline: Nanos, now: Nanos) -> (
    TestView,
    ActionView,
) {
    match names::find(status.outputs, test.output) {
        None => abandoned(test, disappeared(test.output)),
        Some(found) => if reached(found, current_duty(test)) {
            (TestView { stage: Stage::Settling, ..test }, ActionView::Sleep(test.hold))
        } else if now >= deadline {
            abandoned(
                test,
                plain(
                    "output '"@ + test.output + "' did not reach "@ + text::decimal(
                        current_duty(test) as nat,
                    ) + "% within 5s"@,
                ),
            )
        } else {
            (
                TestView { stage: Stage::Pausing { deadline }, ..test },
                ActionView::Sleep(POLL_INTERVAL),
            )
        },
    }
}

/// What a status gives of the current step.
pub open spec fn measured(test: TestView, status: DaemonStatusView) -> (TestView, ActionView) {
    match names::find(status.outputs, test.output) {
        None => abandoned(test, disappeared(test.output)),
        Some(found) => match readings(test.output, found.observed) {
            Err(reason) => abandoned(test, plain(reason)),
            Ok(rpm) => match analyzed(current_duty(test), rpm, test.minimum_relative_percent) {
                Err(reason) => abandoned(test, plain(reason)),
                Ok(sample) => {
                    let next = TestView { samples: test.samples.push(sample), ..test };
                    if next.samples.len() < next.steps.len() {
                        step_started(next)
                    } else {
                        cleanup_started(next)
                    }
                },
            },
        },
    }
}

/// What a status shows of the cleanup.
pub open spec fn restored(output: Seq<char>, status: DaemonStatusView) -> Option<FailureView> {
    if has_override(status, output) {
        Some(
            plain("fan test override for '"@ + output + "' remained active after cleanup"@),
        )
    } else {
        match names::find(status.outputs, output) {
            Some(found) => if found.target is Some {
                None
            } else {
                Some(plain("output '"@ + output + "' had no policy target after fan test cleanup"@))
            },
            None => Some(
                plain("output '"@ + output + "' had no policy target after fan test cleanup"@),
            ),
        }
    }
}

/// The next state and action of a test.
pub open spec fn advanced(test: TestView, event: EventView, now: Nanos) -> (TestView, ActionView) {
    match (test.stage, event) {
        (Stage::Checking, EventView::Failed(failure)) => (
            TestView { stage: Stage::Finished, ..test },
            ActionView::Finish(Err(failure)),
        ),
        (Stage::Checking, EventView::Status(status)) => match untestable(status, test.output) {
            Some(reason) => (
                TestView { stage: Stage::Finished, ..test },
                ActionView::Finish(Err(plain(reason))),
            ),
            None => step_started(test),
        },
        (Stage::Overriding, EventView::Accepted) => if now + TARGET_TIMEOUT > control::CLOCK_LIMIT {
            abandoned(test, plain("fan test deadline overflowed"@))
        } else {
            (
                TestView {
                    stage: Stage::Polling { deadline: (now + TARGET_TIMEOUT) as u128 },
                    ..test
                },
                ActionView::RequestStatus,
            )
        },
        (Stage::Polling { deadline }, EventView::Status(status)) => polled(
            test,
            status,
            deadline,
            now,
        ),
        (Stage::Pausing { deadline }, EventView::Slept) => (
            TestView { stage: Stage::Polling { deadline }, ..test },
            ActionView::RequestStatus,
        ),
        (Stage::Settling, EventView::Slept) => (
            TestView { stage: Stage::Measuring, ..test },
            ActionView::RequestStatus,
        ),
        (Stage::Measuring, EventView::Status(status)) => measured(test, status),
        (Stage::Inspecting, EventView::Status(status)) => if has_override(status, test.output) {
            (TestView { stage: Stage::Clearing, ..test }, ActionView::ClearOverride)
        } else {
            ended(test, None)
        },
        (Stage::Inspecting, EventView::Failed(failure)) => ended(test, Some(failure)),
        (Stage::Clearing, EventView::Accepted) => (
            TestView { stage: Stage::Restoring, ..test },
            ActionView::Sleep(POLICY_RESTORE_DELAY),
        ),
        (Stage::Clearing, EventView::Failed(failure)) => ended(test, Some(failure)),
        (Stage::Restoring, _) => (
            TestView { stage: Stage::Verifying, ..test },
            ActionView::RequestStatus,
        ),
        (Stage::Verifying, EventView::Status(status)) => ended(
            test,
            restored(test.output, status),
        ),
        (Stage::Verifying, EventView::Failed(failure)) => ended(test, Some(failure)),
        (_, EventView::Failed(failure)) => abandoned(test, failure),
        (_, _) => abandoned(test, plain("fan test interrupted"@)),
    }
}

fn find_override(overrides: &Vec<OverrideStatus>, output: &str) -> (found: bool)
    ensures
        found == (exists|i: int|
            0 <= i < overrides@.len() && #[trigger] views::list(overrides@)[i].output == output@),
{
    let mut at: usize = 0;
    let ghost all = views::list(overrides@);
    while at < overrides.len()
        invariant
            at <= overrides@.len(),
            all == views::list(overrides@),
            forall|i: int| 0 <= i < at ==> #[trigger] all[i].output != output@,
        decreases overrides@.len() - at,
    {
        assert(all[at as int] == overrides@[at as int]@);
        if text::same(overrides[at].output.as_str(), output) {
            assert(all[at as int].output == output@);
            return true;
        }
        at += 1;
    }
    false
}

fn check_testable(status: &DaemonStatus, output: &str) -> (fault: Option<String>)
    ensures
        views::maybe(fault) == untestable(status@, output@),
{
    let found = match status.outputs.get(output) {
        None => {
            return Some(text::concat3("unknown output '", output, "'"));
        },
        Some(found) => found,
    };
    if found.kind != OutputKind::Fan {
        return Some(text::concat3("output '", output, "' is not a fan"));
    }
    if find_override(&status.overrides, output) {
        return Some(text::concat3("output '", output, "' already has an active override"));
    }
    match rpm_readings(output, found) {
        Ok(_) => None,
        Err(reason) => Some(reason),
    }
}

fn check_restored(output: &str, status: &DaemonStatus) -> (fault: Option<Failure>)
    ensures
        views::maybe(fault) == restored(output@, status@),
{
    if find_override(&status.overrides, output) {
        return Some(
            plain_failure(
                text::concat3(
                    "fan test override for '",
                    output,
                    "' remained active after cleanup",
                ),
            ),
        );
    }
    if let Some(found) = status.outputs.get(output) {
        if found.target.is_some() {
            return None;
        }
    }
    Some(
        plain_failure(
            text::concat3(
                "output '",
                output,
                "' had no policy target after fan test cleanup",
            ),
        ),
    )
}

impl FanTest {
    /// Prepares a test. It starts with a request for the status.
    ///
    /// # Errors
    ///
    /// Returns what is wrong with the options.
    pub fn new(output: &str, steps: Vec<u8>, hold: Nanos, minimum_relative_percent: u8) -> (result:
        Result<FanTest, String>)
        ensures
            match options_fault(steps@, hold) {
                Some(fault) => result matches Err(e) && e@ == fault,
                None => result matches Ok(test) && runnable(test@) && test@ == (TestView {
                    output: output@,
                    steps: steps@,
                    hold,
                    minimum_relative_percent,
                    samples: Seq::empty(),
                    failure: None,
                    stage: Stage::Checking,
                }),
            },
    {
        validate_options(steps.as_slice(), hold)?;
        let test = FanTest {
            output: output.to_owned(),
            steps,
            hold,
            minimum_relative_percent,
            samples: Vec::new(),
            failure: None,
            stage: Stage::Checking,
        };
        assert(test@.samples =~= Seq::<StepView>::empty());
        Ok(test)
    }

    fn start_step(&mut self) -> (action: Action)
        requires
            runnable(old(self)@),
            old(self)@.samples.len() < old(self)@.steps.len(),
        ensures
            (final(self)@, action@) == step_started(old(self)@),
            runnable(final(self)@),
    {
        self.stage = Stage::Overriding;
        let percent = self.steps[self.samples.len()];
        let lifetime: u128 = (self.hold + TARGET_TIMEOUT + OVERRIDE_GRACE) / 1_000_000;
        Action::SetOverride { percent, duration_ms: lifetime as u64 }
    }

    fn start_cleanup(&mut self) -> (action: Action)
        requires
            runnable(old(self)@),
        ensures
            (final(self)@, action@) == cleanup_started(old(self)@),
            runnable(final(self)@),
    {
        self.stage = Stage::Inspecting;
        Action::RequestStatus
    }

    fn abandon(&mut self, failure: Failure) -> (action: Action)
        requires
            runnable(old(self)@),
        ensures
            (final(self)@, action@) == abandoned(old(self)@, failure@),
            runnable(final(self)@),
    {
        self.failure = Some(failure);
        self.start_cleanup()
    }

    fn finish(&mut self, cleanup: Option<Failure>) -> (action: Action)
        requires
            runnable(old(self)@),
        ensures
            ended(old(self)@, views::maybe(cleanup)).1 == action@,
            final(self)@.stage == Stage::Finished,
    {
        self.stage = Stage::Finished;
        let mut failure: Option<Failure> = None;
        std::mem::swap(&mut failure, &mut self.failure);
        match (failure, cleanup) {
            (None, None) => {
                let mut steps: Vec<FanTestStep> = Vec::new();
                std::mem::swap(&mut steps, &mut self.samples);
                let warnings = warnings(&steps, self.minimum_relative_percent);
                let passed = warnings.len() == 0;
                assert(text::texts(warnings@).len() == warnings@.len());
                Action::Finish(
                    Ok(
                        FanTestReport {
                            output: self.output.clone(),
                            minimum_relative_percent: self.minimum_relative_percent,
                            steps,
                            warnings,
                            passed,
                            policy_restored: true,
                        },
                    ),
                )
            },
            (Some(failure), None) => Action::Finish(Err(failure)),
            (None, Some(failure)) => Action::Finish(Err(failure)),
            (Some(failure), Some(other)) => Action::Finish(
                Err(
                    plain_failure(
                        text::concat3(
                            failure.message.as_str(),
                            "; cleanup also failed: ",
                            other.message.as_str(),
                        ),
                    ),
                ),
            ),
        }
    }

    fn poll(&mut self, status: &DaemonStatus, deadline: Nanos, now: Nanos) -> (action: Action)
        requires
            runnable(old(self)@),
            old(self)@.samples.len() < old(self)@.steps.len(),
        ensures
            (final(self)@, action@) == polled(old(self)@, status@, deadline, now),
            runnable(final(self)@),
    {
        let duty = self.steps[self.samples.len()];
        match status.outputs.get(self.output.as_str()) {
            None => {
                let message = text::concat3(
                    "output '",
                    self.output.as_str(),
                    "' disappeared during the fan test",
                );
                self.abandon(plain_failure(message))
            },
            Some(found) => {
                let at_duty = match &found.target {
                    Some(target) => match target.as_u64() {
                        Some(value) => value == duty as u64,
                        None => false,
                    },
                    None => false,
                };
                if at_duty {
                    self.stage = Stage::Settling;
                    Action::Sleep(self.hold)
                } else if now >= deadline {
                    let mut message = text::concat3(
                        "output '",
                        self.output.as_str(),
                        "' did not reach ",
                    );
                    text::push_decimal(&mut message, duty as u64);
                    message.append("% within 5s");
                    self.abandon(plain_failure(message))
                } else {
                    self.stage = Stage::Pausing { deadline };
                    Action::Sleep(POLL_INTERVAL)
                }
            },
        }
    }

    fn measure(&mut self, status: &DaemonStatus) -> (action: Action)
        requires
            runnable(old(self)@),
            old(self)@.samples.len() < old(self)@.steps.len(),
        ensures
            (final(self)@, action@) == measured(old(self)@, status@),
            runnable(final(self)@),
    {
        let duty = self.steps[self.samples.len()];
        match status.outputs.get(self.output.as_str()) {
            None => {
                let message = text::concat3(
                    "output '",
                    self.output.as_str(),
                    "' disappeared during the fan test",
                );
                self.abandon(plain_failure(message))
            },
            Some(found) => match rpm_readings(self.output.as_str(), found) {
                Err(reason) => self.abandon(plain_failure(reason)),
                Ok(rpm) => match analyze_step(duty, rpm, self.minimum_relative_percent) {
                    Err(reason) => self.abandon(plain_failure(reason)),
                    Ok(sample) => {
                        let ghost before = self.samples@;
                        self.stage = Stage::Inspecting;
                        self.samples.push(sample);
                        assert(views::list(self.samples@) =~= views::list(before).push(sample@));
                        if self.samples.len() < self.steps.len() {
                            self.start_step()
                        } else {
                            self.start_cleanup()
                        }
                    },
                },
            },
        }
    }

    /// Goes on with what happened.
    pub fn advance(&mut self, event: Event, now: Nanos) -> (action: Action)
        requires
            runnable(old(self)@),
            meets(old(self)@.stage, event@),
        ensures
            action@ == advanced(old(self)@, event@, now).1,
            final(self)@.stage == advanced(old(self)@, event@, now).0.stage,
            !(action@ is Finish) ==> final(self)@ == advanced(old(self)@, event@, now).0
                && runnable(final(self)@),
    {
        match (self.stage, event) {
            (Stage::Checking, Event::Failed(failure)) => {
                self.stage = Stage::Finished;
                Action::Finish(Err(failure))
            },
            (Stage::Checking, Event::Status(status)) => {
                match check_testable(&status, self.output.as_str()) {
                    Some(reason) => {
                        self.stage = Stage::Finished;
                        Action::Finish(Err(plain_failure(reason)))
                    },
                    None => self.start_step(),
                }
            },
            (Stage::Overriding, Event::Accepted) => {
                if now > control::CLOCK_LIMIT - TARGET_TIMEOUT {
                    return self.abandon(
                        plain_failure("fan test deadline overflowed".to_owned()),
                    );
                }
                self.stage = Stage::Polling { deadline: now + TARGET_TIMEOUT };
                Action::RequestStatus
            },
            (Stage::Polling { deadline }, Event::Status(status)) => self.poll(
                &status,
                deadline,
                now,
            ),
            (Stage::Pausing { deadline }, Event::Slept) => {
                self.stage = Stage::Polling { deadline };
                Action::RequestStatus
            },
            (Stage::Settling, Event::Slept) => {
                self.stage = Stage::Measuring;
                Action::RequestStatus
            },
            (Stage::Measuring, Event::Status(status)) => self.measure(&status),
            (Stage::Inspecting, Event::Status(status)) => {
                if find_override(&status.overrides, self.output.as_str()) {
                    self.stage = Stage::Clearing;
                    Action::ClearOverride
                } else {
                    self.finish(None)
                }
            },
            (Stage::Inspecting, Event::Failed(failure)) => self.finish(Some(failure)),
            (Stage::Clearing, Event::Accepted) => {
                self.stage = Stage::Restoring;
                Action::Sleep(POLICY_RESTORE_DELAY)
            },
            (Stage::Clearing, Event::Failed(failure)) => self.finish(Some(failure)),
            (Stage::Restoring, _) => {
                self.stage = Stage::Verifying;
                Action::RequestStatus
            },
            (Stage::Verifying, Event::Status(status)) => {
                let fault = check_restored(self.output.as_str(), &status);
                self.finish(fault)
            },
            (Stage::Verifying, Event::Failed(failure)) => self.finish(Some(failure)),
            (_, Event::Failed(failure)) => self.abandon(failure),
            (_, _) => self.abandon(plain_failure("fan test interrupted".to_owned())),
        }
    }
}

// ---------------------------------------------------------------- laws

/// Whether a test has sent an override and may still rely on it.
pub open spec fn stepping(stage: Stage) -> bool {
    match stage {
        Stage::Overriding => true,
        Stage::Polling { .. } => true,
        Stage::Pausing { .. } => true,
        Stage::Settling => true,
        Stage::Measuring => true,
        _ => false,
    }
}

/// A test sends its first override only to a fan output that reports speeds by channel and has
/// no override yet.
pub proof fn law_first_override_needs_testable_output(test: TestView, event: EventView, now: Nanos)
    requires
        meets(test.stage, event),
        test.stage == Stage::Checking,
        advanced(test, event, now).1 is SetOverride,
    ensures
        event matches EventView::Status(status) && {
            &&& names::find(status.outputs, test.output) matches Some(found) && {
                &&& found.kind == OutputKind::Fan
                &&& readings(test.output, found.observed) is Ok
            }
            &&& !has_override(status, test.output)
        },
{
}

/// Every override of a test ends: its lifetime is the time that the step may take and ten
/// seconds more.
pub proof fn law_overrides_are_finite(test: TestView, event: EventView, now: Nanos)
    requires
        runnable(test),
        meets(test.stage, event),
        advanced(test, event, now).1 is SetOverride,
    ensures
        advanced(test, event, now).1->duration_ms == (test.hold + TARGET_TIMEOUT + OVERRIDE_GRACE)
            / 1_000_000,
        0 < advanced(test, event, now).1->duration_ms <= 315_000,
{
}

/// Once a test has sent an override it does not end before the cleanup, whatever happens.
pub proof fn law_steps_end_in_cleanup(test: TestView, event: EventView, now: Nanos)
    requires
        runnable(test),
        meets(test.stage, event),
        stepping(test.stage),
    ensures
        !(advanced(test, event, now).1 is Finish),
        stepping(advanced(test, event, now).0.stage) || advanced(test, event, now).0.stage
            == Stage::Inspecting,
{
}

/// A test reports only once the daemon has shown that no override is left, and that the output
/// has a target again where there was one to clear.
pub proof fn law_report_means_restored(test: TestView, event: EventView, now: Nanos)
    requires
        runnable(test),
        meets(test.stage, event),
        advanced(test, event, now).1 matches ActionView::Finish(Ok(_)),
    ensures
        event matches EventView::Status(status) && {
            &&& !has_override(status, test.output)
            &&& test.stage == Stage::Verifying ==> (names::find(
                status.outputs,
                test.output,
            ) matches Some(found) && found.target is Some)
        },
{
}

proof fn lemma_tally_sorted(selected: Seq<u8>, measured: Seq<SpeedReading>, count: int)
    ensures
        names::sorted(corsair::tallied(selected, measured, count).rpm),
    decreases count,
{
    if count > 0 {
        lemma_tally_sorted(selected, measured, count - 1);
        let earlier = corsair::tallied(selected, measured, count - 1);
        let channel = selected[count - 1];
        if let Some(reading) = corsair::reading_of(measured, channel) {
            if reading.status == 0 && reading.rpm is Some {
                names::lemma_inserted_sorted(
                    earlier.rpm,
                    corsair::shown(channel),
                    reading.rpm->0,
                );
            }
        }
    }
}

/// Speeds as they are read back.
pub open spec fn as_readings(rpm: names::Entries<i16>) -> names::Entries<u64> {
    Seq::new(rpm.len(), |i: int| (rpm[i].0, rpm[i].1 as u64))
}

proof fn lemma_speeds_read_back(output: Seq<char>, rpm: names::Entries<i16>, at: int)
    requires
        names::sorted(rpm),
        0 <= at <= rpm.len(),
        forall|i: int| 0 <= i < rpm.len() ==> (#[trigger] rpm[i]).1 >= 0,
    ensures
        speeds_from(
            output,
            corsair::rpm_json(rpm)->Object_0,
            at,
            as_readings(rpm).take(at),
        ) == Ok::<names::Entries<u64>, Seq<char>>(as_readings(rpm)),
    decreases rpm.len() - at,
{
    let fields = corsair::rpm_json(rpm)->Object_0;
    let wanted = as_readings(rpm);
    if at < rpm.len() {
        assert(rpm[at].1 >= 0);
        assert(json::natural(fields[at].1) == Some(rpm[at].1 as u64));
        assert(names::sorted(wanted)) by {
            assert forall|i: int, j: int| 0 <= i < j < wanted.len() implies text::before(
                #[trigger] wanted[i].0,
                #[trigger] wanted[j].0,
            ) by {
                assert(text::before(rpm[i].0, rpm[j].0));
            }
        }
        names::lemma_append_last(wanted, at);
        lemma_speeds_read_back(output, rpm, at + 1);
    } else {
        assert(wanted.take(at) =~= wanted);
    }
}

/// The speeds that are reported of a write to Corsair fans are read back as they were reported,
/// where there is one and none is negative.
pub proof fn law_reported_speeds_read_back(
    output: Seq<char>,
    alias: Seq<char>,
    percent: u8,
    expected: Option<u8>,
    devices: Seq<corsair::LinkDeviceView>,
    selected: Seq<u8>,
    measured: Seq<SpeedReading>,
)
    requires
        ({
            let rpm = corsair::tallied(selected, measured, selected.len() as int).rpm;
            &&& rpm.len() > 0
            &&& forall|i: int| 0 <= i < rpm.len() ==> (#[trigger] rpm[i]).1 >= 0
        }),
    ensures
        readings(
            output,
            Some(
                corsair::fan_report(
                    alias,
                    percent,
                    expected,
                    devices,
                    selected,
                    measured,
                ).observed,
            ),
        ) == Ok::<names::Entries<u64>, Seq<char>>(
            as_readings(corsair::tallied(selected, measured, selected.len() as int).rpm),
        ),
{
    let rpm = corsair::tallied(selected, measured, selected.len() as int).rpm;
    let observed = corsair::fan_report(
        alias,
        percent,
        expected,
        devices,
        selected,
        measured,
    ).observed;
    lemma_tally_sorted(selected, measured, selected.len() as int);
    lemma_speeds_read_back(output, rpm, 0);
    assert(as_readings(rpm).take(0) =~= Seq::<(Seq<char>, u64)>::empty());
    let fields = observed->Object_0;
    reveal_strlit("percent");
    reveal_strlit("channels");
    reveal_strlit("fan_channels");
    reveal_strlit("rpm");
    assert(fields[0].0 == "percent"@ && fields[1].0 == "channels"@ && fields[2].0
        == "fan_channels"@ && fields[3].0 == "rpm"@);
    assert("percent"@.len() != "rpm"@.len() && "channels"@.len() != "rpm"@.len()
        && "fan_channels"@.len() != "rpm"@.len());
    reveal_with_fuel(json::field_of, 5);
    assert(json::field(observed, "rpm"@) == Some(corsair::rpm_json(rpm)));
}

// ---------------------------------------------------------------- what a test finds

/// The median of fan speeds is the one in the middle of them once they stand in order, and half
/// way between the two in the middle, rounded down, where there are two.
pub proof fn law_median_is_in_the_middle(values: Seq<u64>, ordered: Seq<u64>)
    requires
        values.len() > 0,
        ordered.to_multiset() == values.to_multiset(),
        forall|i: int, j: int| 0 <= i < j < ordered.len() ==> ordered[i] <= ordered[j],
    ensures
        ordered.len() == values.len(),
        values.len() % 2 == 1 ==> median(values) == ordered[(values.len() - 1) / 2],
        values.len() % 2 == 0 ==> ({
            let low = ordered[values.len() / 2 - 1];
            let high = ordered[values.len() as int / 2];
            2 * median(values) == low + high || 2 * median(values) + 1 == low + high
        }),
{
    broadcast use vstd::seq_lib::group_to_multiset_ensures;

    lemma_slower();
    assert(vstd::relations::sorted_by(ordered, slower()));
    values.lemma_sort_by_ensures(slower());
    vstd::seq_lib::lemma_sorted_unique(ordered, values.sort_by(slower()), slower());
    assert(ordered.len() == ordered.to_multiset().len());
    assert(values.len() == values.to_multiset().len());
}

proof fn lemma_low_channels(
    rpm: names::Entries<u64>,
    middle: u64,
    minimum_relative_percent: u8,
    count: int,
    channel: Seq<char>,
)
    requires
        0 <= count <= rpm.len(),
    ensures
        low_channels(rpm, middle, minimum_relative_percent, count).contains(channel) <==> exists|
            i: int,
        |
            0 <= i < count && (#[trigger] rpm[i]).0 == channel && product(rpm[i].1, 100) < product(
                middle,
                minimum_relative_percent as u64,
            ),
    decreases count,
{
    let low = low_channels(rpm, middle, minimum_relative_percent, count);
    if count > 0 {
        lemma_low_channels(rpm, middle, minimum_relative_percent, count - 1, channel);
        let earlier = low_channels(rpm, middle, minimum_relative_percent, count - 1);
        let last = rpm[count - 1];
        if product(last.1, 100) < product(middle, minimum_relative_percent as u64) {
            assert(low == earlier.push(last.0));
            if low.contains(channel) {
                let at = choose|at: int| 0 <= at < low.len() && low[at] == channel;
                if at < earlier.len() {
                    assert(earlier[at] == channel);
                    assert(earlier.contains(channel));
                } else {
                    assert(rpm[count - 1].0 == channel);
                }
            }
            if last.0 == channel {
                assert(low[earlier.len() as int] == channel);
            } else if earlier.contains(channel) {
                let at = choose|at: int| 0 <= at < earlier.len() && earlier[at] == channel;
                assert(low[at] == channel);
            }
        }
    }
}

/// A step tells the median speed and the speeds that were read, and marks just the channels that
/// turn slower than the given share of the median.
pub proof fn law_slow_channels_are_marked(
    percent: u8,
    rpm: names::Entries<u64>,
    minimum_relative_percent: u8,
    step: StepView,
    at: int,
)
    requires
        names::sorted(rpm),
        analyzed(percent, rpm, minimum_relative_percent) == Ok::<StepView, Seq<char>>(step),
        0 <= at < rpm.len(),
        rpm[at].1 * 100 <= u64::MAX,
        step.median_rpm * minimum_relative_percent <= u64::MAX,
    ensures
        step.percent == percent,
        step.rpm == rpm,
        step.median_rpm == median(speeds(rpm)) as u64,
        step.median_rpm > 0,
        step.low_channels.contains(rpm[at].0) <==> rpm[at].1 * 100 < step.median_rpm
            * minimum_relative_percent,
{
    lemma_low_channels(
        rpm,
        step.median_rpm,
        minimum_relative_percent,
        rpm.len() as int,
        rpm[at].0,
    );
    assert forall|i: int| 0 <= i < rpm.len() && (#[trigger] rpm[i]).0 == rpm[at].0 implies i
        == at by {
        text::lemma_before_irreflexive(rpm[at].0);
    }
}

/// Fans that all stand still cannot be judged, and others can.
pub proof fn law_standing_fans_are_not_judged(
    percent: u8,
    rpm: names::Entries<u64>,
    minimum_relative_percent: u8,
)
    ensures
        analyzed(percent, rpm, minimum_relative_percent) is Err <==> median(speeds(rpm)) as u64
            == 0,
{
}

proof fn lemma_step_warnings(step: StepView, minimum_relative_percent: u8, count: int)
    requires
        0 <= count <= step.low_channels.len(),
    ensures
        step_warnings(step, minimum_relative_percent, count).len() == 0 <==> forall|i: int|
            0 <= i < count ==> !names::has(step.rpm, #[trigger] step.low_channels[i]),
    decreases count,
{
    if count > 0 {
        lemma_step_warnings(step, minimum_relative_percent, count - 1);
        let last = step.low_channels[count - 1];
        if names::has(step.rpm, last) {
            assert(!names::has(step.rpm, step.low_channels[count - 1]) == false);
        }
    }
}

proof fn lemma_slow_warnings(steps: Seq<StepView>, minimum_relative_percent: u8, count: int)
    requires
        0 <= count <= steps.len(),
    ensures
        slow_warnings(steps, minimum_relative_percent, count).len() == 0 <==> forall|i: int, j: int|
            0 <= i < count && 0 <= j < steps[i].low_channels.len() ==> !names::has(
                steps[i].rpm,
                #[trigger] steps[i].low_channels[j],
            ),
    decreases count,
{
    if count > 0 {
        lemma_slow_warnings(steps, minimum_relative_percent, count - 1);
        let last = steps[count - 1];
        lemma_step_warnings(last, minimum_relative_percent, last.low_channels.len() as int);
        if slow_warnings(steps, minimum_relative_percent, count).len() == 0 {
            assert forall|i: int, j: int|
                0 <= i < count && 0 <= j < steps[i].low_channels.len() implies !names::has(
                steps[i].rpm,
                #[trigger] steps[i].low_channels[j],
            ) by {
                if i == count - 1 {
                    assert(last.low_channels[j] == steps[i].low_channels[j]);
                }
            }
        }
        if forall|i: int, j: int|
            0 <= i < count && 0 <= j < steps[i].low_channels.len() ==> !names::has(
                steps[i].rpm,
                #[trigger] steps[i].low_channels[j],
            ) {
            assert forall|j: int| 0 <= j < last.low_channels.len() implies !names::has(
                last.rpm,
                #[trigger] last.low_channels[j],
            ) by {
                assert(!names::has(steps[count - 1].rpm, steps[count - 1].low_channels[j]));
            }
        }
    }
}

/// Whether a fan turns at least a quarter faster at the end of a test than at its beginning.
pub open spec fn sped_up(first: StepView, last: StepView, at: int) -> bool {
    names::find(last.rpm, first.rpm[at].0) matches Some(after) && product(after, 100) >= product(
        first.rpm[at].1,
        125,
    )
}

proof fn lemma_response_warnings(first: StepView, last: StepView, count: int)
    requires
        0 <= count <= first.rpm.len(),
    ensures
        response_warnings(first, last, count).len() == 0 <==> forall|i: int|
            0 <= i < count ==> #[trigger] sped_up(first, last, i),
    decreases count,
{
    if count > 0 {
        lemma_response_warnings(first, last, count - 1);
        assert(response_warning(first, last, count - 1) is None <==> sped_up(
            first,
            last,
            count - 1,
        ));
    }
}

/// A test passes just where no step marks a channel as slow and, where the duty rose by twenty
/// percent or more, every fan turns at least a quarter faster at the end.
pub proof fn law_test_passes_with_sound_fans(test: TestView)
    ensures
        report_of(test).steps == test.samples,
        report_of(test).output == test.output,
        report_of(test).passed <==> {
            &&& forall|i: int, j: int|
                0 <= i < test.samples.len() && 0 <= j < test.samples[i].low_channels.len()
                    ==> !names::has(
                    test.samples[i].rpm,
                    #[trigger] test.samples[i].low_channels[j],
                )
            &&& test.samples.len() > 0 && test.samples.last().percent >= test.samples[0].percent
                + 20 ==> forall|i: int|
                0 <= i < test.samples[0].rpm.len() ==> #[trigger] sped_up(
                    test.samples[0],
                    test.samples.last(),
                    i,
                )
        },
{
    let steps = test.samples;
    lemma_slow_warnings(steps, test.minimum_relative_percent, steps.len() as int);
    if steps.len() > 0 {
        lemma_response_warnings(steps[0], steps.last(), steps[0].rpm.len() as int);
    }
}

/// Speeds that are not enormous are compared without rounding: a fan has sped up just where four
/// times its last speed is at least five times its first.
pub proof fn law_speeds_are_compared_exactly(first: StepView, last: StepView, at: int, after: u64)
    requires
        0 <= at < first.rpm.len(),
        names::find(last.rpm, first.rpm[at].0) == Some(after),
        after * 100 <= u64::MAX,
        first.rpm[at].1 * 125 <= u64::MAX,
    ensures
        sped_up(first, last, at) <==> 4 * after >= 5 * first.rpm[at].1,
{
}

proof fn lemma_speeds_from(
    output: Seq<char>,
    fields: Seq<(Seq<char>, JsonView)>,
    at: int,
    found: names::Entries<u64>,
    known: int,
)
    requires
        0 <= at <= fields.len(),
        0 <= known < fields.len(),
        names::sorted(found),
        forall|j: int| known < j < fields.len() ==> (#[trigger] fields[j]).0 != fields[known].0,
        known < at ==> names::find(found, fields[known].0) == json::natural(fields[known].1),
    ensures
        speeds_from(output, fields, at, found) matches Ok(all) ==> {
            &&& names::find(all, fields[known].0) == json::natural(fields[known].1)
            &&& forall|j: int| at <= j < fields.len() ==> json::natural((#[trigger] fields[j]).1)
                is Some
        },
        (forall|j: int| at <= j < fields.len() ==> json::natural((#[trigger] fields[j]).1) is Some)
            ==> speeds_from(output, fields, at, found) is Ok,
    decreases fields.len() - at,
{
    if at < fields.len() {
        if let Some(rpm) = json::natural(fields[at].1) {
            names::lemma_inserted_sorted(found, fields[at].0, rpm);
            names::lemma_find_inserted(found, fields[at].0, rpm, fields[known].0);
            lemma_speeds_from(
                output,
                fields,
                at + 1,
                names::inserted(found, fields[at].0, rpm),
                known,
            );
        }
    }
}

/// The speeds of an output are read from its report: a report with a speed for each channel is
/// read, and each channel has the speed that the report gives it.
pub proof fn law_speeds_are_those_reported(
    output: Seq<char>,
    observed: JsonView,
    fields: Seq<(Seq<char>, JsonView)>,
    at: int,
)
    requires
        json::field(observed, "rpm"@) == Some(JsonView::Object(fields)),
        0 <= at < fields.len(),
        forall|j: int| at < j < fields.len() ==> (#[trigger] fields[j]).0 != fields[at].0,
    ensures
        (exists|j: int| 0 <= j < fields.len() && json::natural((#[trigger] fields[j]).1) is None)
            ==> readings(output, Some(observed)) is Err,
        (forall|j: int| 0 <= j < fields.len() ==> json::natural((#[trigger] fields[j]).1) is Some)
            ==> (readings(output, Some(observed)) matches Ok(rpm) && names::find(rpm, fields[at].0)
            == json::natural(fields[at].1)),
{
    let none: names::Entries<u64> = Seq::empty();
    lemma_speeds_from(output, fields, 0, none, at);
    if let Ok(all) = speeds_from(output, fields, 0, none) {
        if all.len() == 0 {
            assert(!names::has(all, fields[at].0));
            assert(json::natural(fields[at].1) is Some);
        }
    }
}

/// A whole number in a report is read as that number, and anything else is not.
pub proof fn law_speeds_are_whole_numbers(value: JsonView)
    ensures
        json::natural(value) is Some <==> exists|number: u64|
            #[trigger] json::number_view(number as nat) == value,
        forall|number: u64|
            json::natural(#[trigger] json::number_view(number as nat)) == Some(number),
{
    if let Some(number) = json::natural(value) {
        assert(json::number_view(number as nat) == value);
    }
}

/// The options of a test are accepted just where it has two to ten duties that rise, held for
/// five minutes each at most.
pub proof fn law_options_are_accepted(steps: Seq<u8>, hold: Nanos)
    ensures
        options_fault(steps, hold) is None <==> {
            &&& 2 <= steps.len() <= 10
            &&& forall|i: int, j: int| 0 <= i < j < steps.len() ==> steps[i] < steps[j]
            &&& hold <= 300_000_000_000
        },
{
}

// ---------------------------------------------------------------- how a test goes on

/// A test sets its duties one after the other: it begins with the first, and sets the next once
/// it has a sample of each before it.
pub proof fn law_duties_are_set_in_order(test: TestView, event: EventView, now: Nanos)
    requires
        runnable(test),
        meets(test.stage, event),
    ensures
        advanced(test, event, now).1 matches ActionView::SetOverride { percent, duration_ms } ==> {
            let next = advanced(test, event, now).0;
            &&& next.samples.len() < test.steps.len()
            &&& percent == test.steps[next.samples.len() as int]
            &&& duration_ms * 1_000_000 <= test.hold + 15_000_000_000
            &&& test.hold + 15_000_000_000 < duration_ms * 1_000_000 + 1_000_000
            &&& next.stage == Stage::Overriding
            &&& test.stage == Stage::Checking ==> next.samples == test.samples
            &&& test.stage != Stage::Checking ==> {
                &&& test.stage == Stage::Measuring
                &&& next.samples.len() == test.samples.len() + 1
                &&& next.samples.last().percent == test.steps[test.samples.len() as int]
            }
        },
{
}

/// A duty is held, and then measured, only once the output reports it as its target. The test
/// asks again every quarter of a second, and gives up five seconds after the duty was accepted.
pub proof fn law_duty_is_awaited(test: TestView, event: EventView, now: Nanos)
    requires
        runnable(test),
        meets(test.stage, event),
    ensures
        ({
            let (next, action) = advanced(test, event, now);
            &&& next.stage == Stage::Settling ==> {
                &&& action == ActionView::Sleep(test.hold)
                &&& event matches EventView::Status(status) && (names::find(
                    status.outputs,
                    test.output,
                ) matches Some(found) && found.target == Some(
                    JsonView::Number(
                        json::Number::Positive(
                            test.steps[test.samples.len() as int] as u64,
                        ),
                    ),
                ))
            }
            &&& next.stage == Stage::Measuring ==> test.stage == Stage::Settling && event is Slept
            &&& test.stage == Stage::Overriding ==> (next.stage matches Stage::Polling { deadline }
                ==> deadline == now + 5_000_000_000)
            &&& next.stage matches Stage::Pausing { deadline } ==> {
                &&& action == ActionView::Sleep(250_000_000)
                &&& now < deadline
                &&& test.stage == (Stage::Polling { deadline })
            }
            &&& test.stage matches Stage::Pausing { deadline } ==> (event is Slept ==> next.stage
                == Stage::Polling { deadline })
        }),
{
}

/// A sample is taken of the speeds that the output reports, at the duty that was set, and stands
/// behind the samples before it.
pub proof fn law_samples_are_of_the_report(
    test: TestView,
    status: DaemonStatusView,
    now: Nanos,
    found: OutputStatusView,
    rpm: names::Entries<u64>,
    step: StepView,
)
    requires
        runnable(test),
        test.stage == Stage::Measuring,
        names::find(status.outputs, test.output) == Some(found),
        readings(test.output, found.observed) == Ok::<names::Entries<u64>, Seq<char>>(rpm),
        analyzed(
            test.steps[test.samples.len() as int],
            rpm,
            test.minimum_relative_percent,
        ) == Ok::<StepView, Seq<char>>(step),
    ensures
        ({
            let (next, action) = advanced(test, EventView::Status(status), now);
            &&& next.samples == test.samples.push(step)
            &&& next.failure == test.failure
            &&& next.samples.len() == test.steps.len() ==> next.stage == Stage::Inspecting
                && action == ActionView::RequestStatus
            &&& next.samples.len() < test.steps.len() ==> action is SetOverride
        }),
{
}

/// An override that is still active at the end of a test is cleared, the policy gets a little more
/// than a second to act, and the test ends only after the daemon was asked again.
pub proof fn law_override_is_cleared_in_the_end(test: TestView, event: EventView, now: Nanos)
    requires
        meets(test.stage, event),
    ensures
        ({
            let (next, action) = advanced(test, event, now);
            &&& test.stage == Stage::Inspecting ==> (event matches EventView::Status(status) ==> (
            (exists|i: int|
                0 <= i < status.overrides.len() && (#[trigger] status.overrides[i]).output
                    == test.output) <==> action == ActionView::ClearOverride))
            &&& action == ActionView::ClearOverride ==> next.stage == Stage::Clearing
            &&& test.stage == Stage::Clearing && event is Accepted ==> next.stage
                == Stage::Restoring && action == ActionView::Sleep(1_100_000_000)
            &&& test.stage == Stage::Restoring ==> next.stage == Stage::Verifying && action
                == ActionView::RequestStatus
            &&& test.stage == Stage::Verifying ==> action is Finish
        }),
{
    if let EventView::Status(status) = event {
        if has_override(status, test.output) {
            let i = choose|i: int|
                0 <= i < status.overrides.len() && #[trigger] status.overrides[i].output
                    == test.output;
            assert(status.overrides[i].output == test.output);
        }
        if exists|i: int|
            0 <= i < status.overrides.len() && (#[trigger] status.overrides[i]).output
                == test.output {
            let i = choose|i: int|
                0 <= i < status.overrides.len() && (#[trigger] status.overrides[i]).output
                    == test.output;
            assert(status.overrides[i].output == test.output);
        }
    }
}

/// A failure on the way is kept to the end: the test never succeeds once a step has failed, and
/// tells the failure.
pub proof fn law_failures_are_told(test: TestView, event: EventView, now: Nanos, failure: FailureView)
    requires
        meets(test.stage, event),
    ensures
        test.failure == Some(failure) && (test.stage == Stage::Inspecting || test.stage
            == Stage::Clearing || test.stage == Stage::Restoring || test.stage == Stage::Verifying)
            ==> {
            &&& advanced(test, event, now).1 matches ActionView::Finish(outcome) ==> outcome is Err
            &&& advanced(test, event, now).0.failure == Some(failure)
        },
        stepping(test.stage) && event == EventView::Failed(failure) ==> advanced(
            test,
            event,
            now,
        ).0.failure == Some(failure),
        stepping(test.stage) && event is Interrupted ==> advanced(test, event, now).0.failure
            is Some,
        test.stage == Stage::Verifying && test.failure is None && event == EventView::Failed(failure)
            ==> advanced(test, event, now).1 == ActionView::Finish(Err(failure)),
{
}

} // verus!
