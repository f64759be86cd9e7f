//! Pure fan, color, and schedule evaluation.
//!
//! A curve is evaluated in two steps: finding the points that a temperature lies between, and
//! blending their values. The second step is floating-point arithmetic, so callers supply it.

use vstd::prelude::*;

use crate::celsius::Celsius;
use crate::config;
use crate::config::parse_time;
use crate::config::ColorCurve;
use crate::config::ColorPoint;
use crate::config::FanCurve;
use crate::config::FanPoint;
use crate::guarantees;
use crate::search;
use crate::validation;

verus! {

/// Where a temperature falls on a curve.
#[derive(Clone, Copy, Debug, PartialEq, Eq, Structural)]
pub enum Segment {
    /// The curve has no points.
    Empty,
    /// The value of one point holds.
    Point(usize),
    /// The values of a point and the next one are blended.
    Between(usize),
}

/// The pairs of neighbouring points that enclose a temperature.
pub open spec fn enclosing_at(temps: Seq<Celsius>, temperature: Celsius) -> spec_fn(int) -> Option<
    int,
> {
    |at: int|
        if temps[at].at_most(temperature) && temperature.at_most(temps[at + 1]) {
            Some(at)
        } else {
            None
        }
}

/// Where `temperature` falls among the temperatures of a curve.
pub open spec fn located(temps: Seq<Celsius>, temperature: Celsius) -> Segment {
    if temps.len() == 0 {
        Segment::Empty
    } else if temperature.at_most(temps[0]) {
        Segment::Point(0)
    } else if temps.last().at_most(temperature) {
        Segment::Point((temps.len() - 1) as usize)
    } else {
        match search::first(enclosing_at(temps, temperature), 0, temps.len() - 1) {
            Some(at) => Segment::Between(at as usize),
            None => Segment::Point((temps.len() - 1) as usize),
        }
    }
}

/// The value of a fan curve, given the blend of the enclosing points where there are two.
pub open spec fn fan_value(points: Seq<FanPoint>, temperature: Celsius, blended: u8) -> u8 {
    let value = match located(validation::fan_temps(points), temperature) {
        Segment::Empty => 0u8,
        Segment::Point(at) => points[at as int].percent,
        Segment::Between(_) => blended,
    };
    if value > 100 {
        100
    } else {
        value
    }
}

/// The value of a color curve, given the blend of the enclosing points where there are two.
pub open spec fn color_value(points: Seq<ColorPoint>, temperature: Celsius, blended: [u8; 3]) -> [u8;
    3] {
    match located(validation::color_temps(points), temperature) {
        Segment::Empty => [0u8, 0u8, 0u8],
        Segment::Point(at) => points[at as int].rgb,
        Segment::Between(_) => blended,
    }
}

/// Whether `blended` is what `blend` gives for the fan points around `temperature`.
pub open spec fn fan_blend<F: Fn(FanPoint, FanPoint, Celsius) -> u8>(
    blend: F,
    points: Seq<FanPoint>,
    temperature: Celsius,
    blended: u8,
) -> bool {
    match located(validation::fan_temps(points), temperature) {
        Segment::Between(at) => call_ensures(
            blend,
            (points[at as int], points[at + 1], temperature),
            blended,
        ),
        _ => true,
    }
}

/// Whether `blended` is what `blend` gives for the color points around `temperature`.
pub open spec fn color_blend<F: Fn(ColorPoint, ColorPoint, Celsius) -> [u8; 3]>(
    blend: F,
    points: Seq<ColorPoint>,
    temperature: Celsius,
    blended: [u8; 3],
) -> bool {
    match located(validation::color_temps(points), temperature) {
        Segment::Between(at) => call_ensures(
            blend,
            (points[at as int], points[at + 1], temperature),
            blended,
        ),
        _ => true,
    }
}

/// Finds where `temperature` falls on a fan curve.
pub fn fan_segment(temperature: Celsius, curve: &FanCurve) -> (segment: Segment)
    ensures
        segment == located(validation::fan_temps(curve.points@), temperature),
        segment matches Segment::Point(at) ==> at < curve.points@.len(),
        segment matches Segment::Between(at) ==> at + 1 < curve.points@.len() && at < usize::MAX,
{
    let points = &curve.points;
    let ghost temps = validation::fan_temps(points@);
    if points.len() == 0 {
        return Segment::Empty;
    }
    if temperature.is_at_most(&points[0].temp) {
        return Segment::Point(0);
    }
    let last: usize = points.len() - 1;
    if points[last].temp.is_at_most(&temperature) {
        return Segment::Point(last);
    }
    let mut at: usize = 0;
    while at < last
        invariant
            temps == validation::fan_temps(points@),
            points@ == curve.points@,
            last == points@.len() - 1,
            at <= last,
            search::first(enclosing_at(temps, temperature), 0, last as int) == search::first(
                enclosing_at(temps, temperature),
                at as int,
                last as int,
            ),
            !temperature.at_most(temps[0]),
            !temps.last().at_most(temperature),
        decreases last - at,
    {
        if points[at].temp.is_at_most(&temperature) && temperature.is_at_most(
            &points[at + 1].temp,
        ) {
            return Segment::Between(at);
        }
        at += 1;
    }
    Segment::Point(last)
}

/// Finds where `temperature` falls on a color curve.
pub fn color_segment(temperature: Celsius, curve: &ColorCurve) -> (segment: Segment)
    ensures
        segment == located(validation::color_temps(curve.points@), temperature),
        segment matches Segment::Point(at) ==> at < curve.points@.len(),
        segment matches Segment::Between(at) ==> at + 1 < curve.points@.len() && at < usize::MAX,
{
    let points = &curve.points;
    let ghost temps = validation::color_temps(points@);
    if points.len() == 0 {
        return Segment::Empty;
    }
    if temperature.is_at_most(&points[0].temp) {
        return Segment::Point(0);
    }
    let last: usize = points.len() - 1;
    if points[last].temp.is_at_most(&temperature) {
        return Segment::Point(last);
    }
    let mut at: usize = 0;
    while at < last
        invariant
            temps == validation::color_temps(points@),
            points@ == curve.points@,
            last == points@.len() - 1,
            at <= last,
            search::first(enclosing_at(temps, temperature), 0, last as int) == search::first(
                enclosing_at(temps, temperature),
                at as int,
                last as int,
            ),
            !temperature.at_most(temps[0]),
            !temps.last().at_most(temperature),
        decreases last - at,
    {
        if points[at].temp.is_at_most(&temperature) && temperature.is_at_most(
            &points[at + 1].temp,
        ) {
            return Segment::Between(at);
        }
        at += 1;
    }
    Segment::Point(last)
}

/// Interpolates a fan curve at `temperature` and returns a duty from 0 through 100.
///
/// `blend` weighs the percentages of the two points around a temperature.
pub fn interpolate_fan<F: Fn(FanPoint, FanPoint, Celsius) -> u8>(
    temperature: Celsius,
    curve: &FanCurve,
    blend: &F,
) -> (percent: u8)
    requires
        forall|left: FanPoint, right: FanPoint, at: Celsius|
            call_requires(*blend, (left, right, at)),
    ensures
        percent <= 100,
        exists|blended: u8|
            #[trigger] fan_blend(*blend, curve.points@, temperature, blended) && percent
                == fan_value(curve.points@, temperature, blended),
{
    let blended = match fan_segment(temperature, curve) {
        Segment::Empty => 0u8,
        Segment::Point(at) => curve.points[at].percent,
        Segment::Between(at) => blend(curve.points[at], curve.points[at + 1], temperature),
    };
    assert(fan_blend(*blend, curve.points@, temperature, blended));
    if blended > 100 {
        100
    } else {
        blended
    }
}

/// Interpolates an RGB curve at `temperature`.
///
/// `blend` weighs the colors of the two points around a temperature.
pub fn interpolate_color<F: Fn(ColorPoint, ColorPoint, Celsius) -> [u8; 3]>(
    temperature: Celsius,
    curve: &ColorCurve,
    blend: &F,
) -> (rgb: [u8; 3])
    requires
        forall|left: ColorPoint, right: ColorPoint, at: Celsius|
            call_requires(*blend, (left, right, at)),
    ensures
        exists|blended: [u8; 3]|
            #[trigger] color_blend(*blend, curve.points@, temperature, blended) && rgb
                == color_value(curve.points@, temperature, blended),
{
    let blended = match color_segment(temperature, curve) {
        Segment::Empty => [0u8, 0u8, 0u8],
        Segment::Point(at) => curve.points[at].rgb,
        Segment::Between(at) => blend(curve.points[at], curve.points[at + 1], temperature),
    };
    assert(color_blend(*blend, curve.points@, temperature, blended));
    blended
}

// ---------------------------------------------------------------- schedules

/// Minutes since midnight.
pub open spec fn minutes(time: (int, int)) -> int {
    60 * time.0 + time.1
}

/// Whether a minute of the day lies in a window that starts at `start` and ends before `end`,
/// crossing midnight where it ends earlier than it starts.
pub open spec fn in_window(now: int, start: int, end: int) -> bool {
    if start <= end {
        start <= now < end
    } else {
        now >= start || now < end
    }
}

/// Whether a wall-clock time falls within a schedule.
pub open spec fn active(hour: u32, minute: u32, start: Seq<char>, end: Seq<char>) -> bool {
    match (config::time_of_day(start), config::time_of_day(end)) {
        (Ok(from), Ok(to)) => hour <= 23 && minute <= 59 && in_window(
            minutes((hour as int, minute as int)),
            minutes(from),
            minutes(to),
        ),
        _ => false,
    }
}

/// Returns whether a local wall-clock time falls within a configured schedule.
///
/// A schedule may cross midnight. Invalid times and equal start and end times
/// are inactive.
pub fn schedule_active(hour: u32, minute: u32, start: &str, end: &str) -> (result: bool)
    ensures
        result == active(hour, minute, start@, end@),
{
    match (parse_time(start), parse_time(end)) {
        (Ok(start), Ok(end)) => {
            if hour > 23 || minute > 59 {
                return false;
            }
            let now: u32 = hour * 60 + minute;
            let start: u32 = (start.0 as u32) * 60 + start.1 as u32;
            let end: u32 = (end.0 as u32) * 60 + end.1 as u32;
            if start == end {
                false
            } else if start < end {
                start <= now && now < end
            } else {
                now >= start || now < end
            }
        },
        _ => false,
    }
}

/// A schedule is active from its start up to its end, by the minutes of the day: between them
/// where it ends later than it starts, and outside the time from its end to its start where it
/// ends earlier.
pub proof fn law_schedule_is_active_between_its_ends(
    hour: u32,
    minute: u32,
    start: Seq<char>,
    end: Seq<char>,
    from: (int, int),
    to: (int, int),
)
    requires
        config::time_of_day(start) == Ok::<(int, int), Seq<char>>(from),
        config::time_of_day(end) == Ok::<(int, int), Seq<char>>(to),
        hour < 24,
        minute < 60,
    ensures
        ({
            let now = 60 * hour + minute;
            let first = 60 * from.0 + from.1;
            let last = 60 * to.0 + to.1;
            &&& first < last ==> (active(hour, minute, start, end) <==> first <= now && now < last)
            &&& first > last ==> (active(hour, minute, start, end) <==> !(last <= now && now
                < first))
            &&& first == last ==> !active(hour, minute, start, end)
        }),
{
}

/// A schedule whose ends are the same time is never active.
pub proof fn law_equal_ends_inactive(hour: u32, minute: u32, time: Seq<char>)
    ensures
        !active(hour, minute, time, time),
{
}

/// A window is active at its start and inactive at its end.
pub proof fn law_half_open(start: int, end: int)
    requires
        start != end,
    ensures
        in_window(start, start, end),
        !in_window(end, start, end),
{
}

/// At every minute of the day exactly one of a window and the window with its ends exchanged
/// is active.
pub proof fn law_exchanged_ends(now: int, start: int, end: int)
    requires
        start != end,
    ensures
        in_window(now, start, end) != in_window(now, end, start),
{
}

/// A temperature at or below the first point, or at or above the last, takes that point's
/// value, whatever a blend would give.
pub proof fn law_clamped(points: Seq<FanPoint>, temperature: Celsius, blended: u8)
    requires
        guarantees::well_shaped(validation::fan_temps(points)),
        forall|i: int| 0 <= i < points.len() ==> (#[trigger] points[i]).percent <= 100,
        points.len() <= usize::MAX,
    ensures
        temperature.at_most(points[0].temp) ==> fan_value(points, temperature, blended)
            == points[0].percent,
        points.last().temp.at_most(temperature) ==> fan_value(points, temperature, blended)
            == points.last().percent,
{
    let temps = validation::fan_temps(points);
    assert(temps[0] == points[0].temp);
    assert(temps.last() == points.last().temp);
    if temps.len() > 1 {
        assert(temps[0].lower(temps[temps.len() - 1]));
    }
}

/// A finite temperature strictly inside a well-shaped curve lies between two neighbouring
/// points of it.
pub proof fn law_enclosed(temps: Seq<Celsius>, temperature: Celsius)
    requires
        guarantees::well_shaped(temps),
        temperature.finite(),
        !temperature.at_most(temps[0]),
        !temps.last().at_most(temperature),
        temps.len() <= usize::MAX,
    ensures
        located(temps, temperature) matches Segment::Between(at) && at + 1 < temps.len()
            && temps[at as int].at_most(temperature) && temperature.at_most(temps[at + 1]),
{
    let check = enclosing_at(temps, temperature);
    let last = temps.len() - 1;
    if search::first(check, 0, last) is None {
        search::lemma_none(check, 0, last);
        lemma_climbs(temps, temperature, last);
    } else {
        let at = search::lemma_some(check, 0, last);
    }
}

/// Whether a blend stays between the values of its points, never falls while the temperature
/// rises, and gives the value of a point at its temperature.
pub open spec fn rising_blend<F: Fn(FanPoint, FanPoint, Celsius) -> u8>(blend: F) -> bool {
    forall|left: FanPoint, right: FanPoint, a: Celsius, b: Celsius, low: u8, high: u8|
        #![trigger call_ensures(blend, (left, right, a), low), call_ensures(
            blend,
            (left, right, b),
            high,
        )]
        call_ensures(blend, (left, right, a), low) && call_ensures(blend, (left, right, b), high)
            && left.percent <= right.percent && left.temp.at_most(a) && a.at_most(b) && b.at_most(
            right.temp,
        ) ==> {
            &&& left.percent <= low <= high <= right.percent
            &&& right.temp.at_most(a) ==> low == right.percent
            &&& b.at_most(left.temp) ==> high == left.percent
        }
}

/// Whether the points of a fan curve are in order, and so are their duties, none above 100.
pub open spec fn rising_points(points: Seq<FanPoint>) -> bool {
    &&& guarantees::well_shaped(validation::fan_temps(points))
    &&& points.len() <= usize::MAX
    &&& forall|i: int| 0 <= i < points.len() ==> (#[trigger] points[i]).percent <= 100
    &&& forall|i: int, j: int|
        0 <= i <= j < points.len() ==> (#[trigger] points[i]).percent <= (
        #[trigger] points[j]).percent
}

proof fn lemma_enclosed_value<F: Fn(FanPoint, FanPoint, Celsius) -> u8>(
    blend: F,
    points: Seq<FanPoint>,
    temperature: Celsius,
    blended: u8,
) -> (at: int)
    requires
        rising_points(points),
        rising_blend(blend),
        temperature.finite(),
        fan_blend(blend, points, temperature, blended),
        !temperature.at_most(points[0].temp),
        !points.last().temp.at_most(temperature),
    ensures
        0 <= at < points.len() - 1,
        located(validation::fan_temps(points), temperature) == Segment::Between(at as usize),
        points[at].temp.at_most(temperature),
        temperature.at_most(points[at + 1].temp),
        points[at].percent <= blended <= points[at + 1].percent,
        fan_value(points, temperature, blended) == blended,
        call_ensures(blend, (points[at], points[at + 1], temperature), blended),
        forall|i: int|
            0 <= i < at ==> (#[trigger] enclosing_at(
                validation::fan_temps(points),
                temperature,
            )(i)) is None,
{
    let temps = validation::fan_temps(points);
    assert(temps[0] == points[0].temp);
    assert(temps.last() == points.last().temp);
    law_enclosed(temps, temperature);
    let check = enclosing_at(temps, temperature);
    let at = search::lemma_some(check, 0, temps.len() - 1);
    assert(check(at) == Some(at));
    assert(temps[at] == points[at].temp);
    assert(temps[at + 1] == points[at + 1].temp);
    assert(temperature.at_most(temperature));
    assert(call_ensures(blend, (points[at], points[at + 1], temperature), blended));
    at
}

/// A higher temperature never gives a lower duty, and no temperature a duty outside those of the
/// first and the last point, on a curve whose duties rise and with a blend that rises.
pub proof fn law_hotter_is_never_slower<F: Fn(FanPoint, FanPoint, Celsius) -> u8>(
    blend: F,
    points: Seq<FanPoint>,
    cooler: Celsius,
    hotter: Celsius,
    low: u8,
    high: u8,
)
    requires
        rising_points(points),
        rising_blend(blend),
        cooler.finite(),
        hotter.finite(),
        cooler.at_most(hotter),
        fan_blend(blend, points, cooler, low),
        fan_blend(blend, points, hotter, high),
    ensures
        points[0].percent <= fan_value(points, cooler, low) <= fan_value(points, hotter, high)
            <= points.last().percent <= 100,
{
    let temps = validation::fan_temps(points);
    let last = points.len() - 1;
    assert(temps[0] == points[0].temp && temps[0].finite());
    assert(temps.last() == points.last().temp && temps.last().finite());
    law_clamped(points, cooler, low);
    law_clamped(points, hotter, high);
    assert(points[0].percent <= points[last].percent);
    if cooler.at_most(points[0].temp) {
        if !hotter.at_most(points[0].temp) && !points.last().temp.at_most(hotter) {
            let j = lemma_enclosed_value(blend, points, hotter, high);
            assert(points[0].percent <= points[j].percent);
            assert(points[j + 1].percent <= points[last].percent);
        }
    } else if !points.last().temp.at_most(cooler) {
        let i = lemma_enclosed_value(blend, points, cooler, low);
        assert(points[0].percent <= points[i].percent);
        assert(points[i + 1].percent <= points[last].percent);
        if !points.last().temp.at_most(hotter) {
            let j = lemma_enclosed_value(blend, points, hotter, high);
            assert(points[j + 1].percent <= points[last].percent);
            if i < j {
                assert(points[i + 1].percent <= points[j].percent);
            } else if i > j {
                assert(temps[j] == points[j].temp && temps[j + 1] == points[j + 1].temp);
                assert(temps[i] == points[i].temp);
                assert(temps[j].lower(temps[i]));
                assert(j + 1 < i ==> temps[j + 1].lower(temps[i]));
                assert(enclosing_at(temps, cooler)(j) is None);
            }
        }
    }
}

/// At the temperature of a point a curve has the duty of the point, with a blend that does.
pub proof fn law_points_are_met<F: Fn(FanPoint, FanPoint, Celsius) -> u8>(
    blend: F,
    points: Seq<FanPoint>,
    at: int,
    blended: u8,
)
    requires
        rising_points(points),
        rising_blend(blend),
        0 <= at < points.len(),
        fan_blend(blend, points, points[at].temp, blended),
    ensures
        fan_value(points, points[at].temp, blended) == points[at].percent,
{
    let temps = validation::fan_temps(points);
    let temperature = points[at].temp;
    assert(temps[at].finite());
    assert(temps[at] == temperature);
    assert(temps[0] == points[0].temp);
    assert(temps.last() == points.last().temp);
    law_clamped(points, temperature, blended);
    if at > 0 {
        assert(temps[0].lower(temps[at]));
    }
    if at < points.len() - 1 {
        assert(temps[at].lower(temps[points.len() - 1]));
    }
    if 0 < at < points.len() - 1 {
        let found = lemma_enclosed_value(blend, points, temperature, blended);
        assert(temps[found] == points[found].temp && temps[found + 1] == points[found + 1].temp);
        if found + 1 < at {
            assert(temps[found + 1].lower(temps[at]));
        }
        if at < found {
            assert(temps[at].lower(temps[found]));
        }
        if found == at {
            assert(temps[at - 1].lower(temps[at]));
            assert(enclosing_at(temps, temperature)(at - 1) is None);
        }
    }
}

/// At a finite temperature strictly inside a fan curve the duty is what the blend gives for two
/// neighbouring points around that temperature, at most 100.
pub proof fn law_duty_is_blended_around<F: Fn(FanPoint, FanPoint, Celsius) -> u8>(
    blend: F,
    points: Seq<FanPoint>,
    temperature: Celsius,
    blended: u8,
) -> (at: int)
    requires
        guarantees::well_shaped(validation::fan_temps(points)),
        points.len() <= usize::MAX,
        temperature.finite(),
        points[0].temp.lower(temperature),
        temperature.lower(points.last().temp),
        fan_blend(blend, points, temperature, blended),
    ensures
        0 <= at < points.len() - 1,
        points[at].temp.at_most(temperature),
        temperature.at_most(points[at + 1].temp),
        call_ensures(blend, (points[at], points[at + 1], temperature), blended),
        fan_value(points, temperature, blended) == (if blended > 100 {
            100
        } else {
            blended
        }),
{
    let temps = validation::fan_temps(points);
    assert(temps[0] == points[0].temp);
    assert(temps.last() == points.last().temp);
    law_enclosed(temps, temperature);
    let at = located(temps, temperature)->Between_0 as int;
    assert(temps[at] == points[at].temp && temps[at + 1] == points[at + 1].temp);
    at
}

/// A temperature at or below the first point of a color curve, or at or above the last, takes
/// that point's color, whatever a blend would give.
pub proof fn law_colors_are_clamped(
    points: Seq<ColorPoint>,
    temperature: Celsius,
    blended: [u8; 3],
)
    requires
        guarantees::well_shaped(validation::color_temps(points)),
        points.len() <= usize::MAX,
    ensures
        temperature.at_most(points[0].temp) ==> color_value(points, temperature, blended)
            == points[0].rgb,
        points.last().temp.at_most(temperature) ==> color_value(points, temperature, blended)
            == points.last().rgb,
{
    let temps = validation::color_temps(points);
    assert(temps[0] == points[0].temp);
    assert(temps.last() == points.last().temp);
    if temps.len() > 1 {
        assert(temps[0].lower(temps[temps.len() - 1]));
    }
}

/// At a finite temperature strictly inside a color curve the color is what the blend gives for
/// two neighbouring points around that temperature, and for the earlier pair at the temperature
/// of a point.
pub proof fn law_color_is_blended_around<F: Fn(ColorPoint, ColorPoint, Celsius) -> [u8; 3]>(
    blend: F,
    points: Seq<ColorPoint>,
    temperature: Celsius,
    blended: [u8; 3],
) -> (at: int)
    requires
        guarantees::well_shaped(validation::color_temps(points)),
        points.len() <= usize::MAX,
        temperature.finite(),
        points[0].temp.lower(temperature),
        temperature.lower(points.last().temp),
        color_blend(blend, points, temperature, blended),
    ensures
        0 <= at < points.len() - 1,
        points[at].temp.lower(temperature),
        temperature.at_most(points[at + 1].temp),
        call_ensures(
            blend,
            (points[at], points[at + 1], temperature),
            color_value(points, temperature, blended),
        ),
{
    let temps = validation::color_temps(points);
    assert(temps[0] == points[0].temp);
    assert(temps.last() == points.last().temp);
    law_enclosed(temps, temperature);
    let check = enclosing_at(temps, temperature);
    let at = search::lemma_some(check, 0, temps.len() - 1);
    assert(check(at) == Some(at));
    assert(temps[at] == points[at].temp && temps[at + 1] == points[at + 1].temp);
    if !points[at].temp.lower(temperature) {
        assert(temps[at - 1].lower(temps[at]));
        assert(check(at - 1) is None);
    }
    at
}

/// Whether a blend of colors gives the color of a point at its temperature.
pub open spec fn meeting_blend<F: Fn(ColorPoint, ColorPoint, Celsius) -> [u8; 3]>(
    blend: F,
) -> bool {
    forall|left: ColorPoint, right: ColorPoint, at: Celsius, rgb: [u8; 3]|
        #[trigger] call_ensures(blend, (left, right, at), rgb) ==> {
            &&& at == left.temp ==> rgb == left.rgb
            &&& at == right.temp ==> rgb == right.rgb
        }
}

/// At the temperature of a point a color curve has the color of the point, with a blend that
/// does.
pub proof fn law_color_points_are_met<F: Fn(ColorPoint, ColorPoint, Celsius) -> [u8; 3]>(
    blend: F,
    points: Seq<ColorPoint>,
    at: int,
    blended: [u8; 3],
)
    requires
        guarantees::well_shaped(validation::color_temps(points)),
        points.len() <= usize::MAX,
        meeting_blend(blend),
        0 <= at < points.len(),
        color_blend(blend, points, points[at].temp, blended),
    ensures
        color_value(points, points[at].temp, blended) == points[at].rgb,
{
    let temps = validation::color_temps(points);
    let temperature = points[at].temp;
    assert(temps[at].finite());
    assert(temps[at] == temperature);
    assert(temps[0] == points[0].temp);
    assert(temps.last() == points.last().temp);
    law_colors_are_clamped(points, temperature, blended);
    if at > 0 {
        assert(temps[0].lower(temps[at]));
    }
    if at < points.len() - 1 {
        assert(temps[at].lower(temps[points.len() - 1]));
    }
    if 0 < at < points.len() - 1 {
        let found = law_color_is_blended_around(blend, points, temperature, blended);
        assert(temps[found] == points[found].temp && temps[found + 1] == points[found + 1].temp);
        if found + 1 < at {
            assert(temps[found + 1].lower(temps[at]));
        }
        if at < found {
            assert(temps[at].lower(temps[found]));
        }
    }
}

proof fn lemma_climbs(temps: Seq<Celsius>, temperature: Celsius, at: int)
    requires
        guarantees::well_shaped(temps),
        temperature.finite(),
        !temperature.at_most(temps[0]),
        0 <= at < temps.len(),
        forall|i: int|
            0 <= i < temps.len() - 1 ==> (#[trigger] enclosing_at(temps, temperature)(i)) is None,
    ensures
        temps[at].at_most(temperature),
    decreases at,
{
    assert(temps[at].finite());
    assert(temps[0].finite());
    if at > 0 {
        lemma_climbs(temps, temperature, at - 1);
        assert(enclosing_at(temps, temperature)(at - 1) is None);
    }
}

} // verus!
