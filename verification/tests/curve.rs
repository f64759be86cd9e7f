use feather::celsius::Celsius;
use feather::config::{parse_time, ColorCurve, ColorPoint, FanCurve, FanPoint};
use feather::curve::{interpolate_color, interpolate_fan, schedule_active};

fn celsius(value: f64) -> Celsius {
    Celsius { bits: value.to_bits() }
}

fn weigh(left: f64, right: f64, from: Celsius, to: Celsius, at: Celsius) -> f64 {
    let (from, to, at) = (
        f64::from_bits(from.bits),
        f64::from_bits(to.bits),
        f64::from_bits(at.bits),
    );
    (left + (at - from) / (to - from) * (right - left)).round()
}

fn blend_fan(left: FanPoint, right: FanPoint, at: Celsius) -> u8 {
    weigh(
        f64::from(left.percent),
        f64::from(right.percent),
        left.temp,
        right.temp,
        at,
    ) as u8
}

fn blend_color(left: ColorPoint, right: ColorPoint, at: Celsius) -> [u8; 3] {
    std::array::from_fn(|index| {
        weigh(
            f64::from(left.rgb[index]),
            f64::from(right.rgb[index]),
            left.temp,
            right.temp,
            at,
        ) as u8
    })
}

#[test]
fn parses_wrapping_schedule_times() {
    assert_eq!(parse_time("22:00").unwrap(), (22, 0));
    assert!(parse_time("24:00").is_err());
    assert!(parse_time("7:00").is_err());
}

#[test]
fn times_outside_the_day_and_times_in_another_form_are_told_apart() {
    assert_eq!(
        parse_time("24:00").unwrap_err(),
        "must be a valid 24-hour time"
    );
    assert_eq!(
        parse_time("23:60").unwrap_err(),
        "must be a valid 24-hour time"
    );
    for other in ["7:00", "07-00", "", "ab:cd", "07:000", "\u{e9}:00", "-1:00", "+7:00", "07:+5"] {
        assert_eq!(parse_time(other).unwrap_err(), "must use HH:MM format");
    }
    assert_eq!(parse_time("23:59").unwrap(), (23, 59));
}

#[test]
fn interpolates_and_clamps_fan_curve() {
    let curve = FanCurve {
        points: vec![
            FanPoint { temp: celsius(40.0), percent: 30 },
            FanPoint { temp: celsius(80.0), percent: 100 },
        ],
    };
    assert_eq!(interpolate_fan(celsius(20.0), &curve, &blend_fan), 30);
    assert_eq!(interpolate_fan(celsius(60.0), &curve, &blend_fan), 65);
    assert_eq!(interpolate_fan(celsius(90.0), &curve, &blend_fan), 100);
}

#[test]
fn interpolates_color_channels() {
    let curve = ColorCurve {
        points: vec![
            ColorPoint { temp: celsius(40.0), rgb: [0, 80, 0] },
            ColorPoint { temp: celsius(60.0), rgb: [200, 0, 0] },
        ],
    };
    assert_eq!(
        interpolate_color(celsius(50.0), &curve, &blend_color),
        [100, 40, 0]
    );
    assert_eq!(
        interpolate_color(celsius(10.0), &curve, &blend_color),
        [0, 80, 0]
    );
    assert_eq!(
        interpolate_color(celsius(f64::NAN), &curve, &blend_color),
        [200, 0, 0]
    );
}

#[test]
fn curves_without_points_are_off() {
    assert_eq!(
        interpolate_fan(celsius(50.0), &FanCurve { points: vec![] }, &blend_fan),
        0
    );
    assert_eq!(
        interpolate_color(celsius(50.0), &ColorCurve { points: vec![] }, &blend_color),
        [0, 0, 0]
    );
}

#[test]
fn fan_percentages_stay_within_one_hundred() {
    let curve = FanCurve {
        points: vec![
            FanPoint { temp: celsius(-10.0), percent: 200 },
            FanPoint { temp: celsius(10.0), percent: 220 },
        ],
    };
    assert_eq!(interpolate_fan(celsius(-20.0), &curve, &blend_fan), 100);
    assert_eq!(interpolate_fan(celsius(0.0), &curve, &blend_fan), 100);
}

#[test]
fn handles_night_windows() {
    assert!(schedule_active(23, 0, "22:00", "07:00"));
    assert!(schedule_active(6, 59, "22:00", "07:00"));
    assert!(!schedule_active(12, 0, "22:00", "07:00"));
    assert!(!schedule_active(22, 0, "22:00", "22:00"));
}

#[test]
fn windows_include_their_start_and_exclude_their_end() {
    assert!(schedule_active(8, 0, "08:00", "17:30"));
    assert!(!schedule_active(17, 30, "08:00", "17:30"));
    assert!(schedule_active(17, 29, "08:00", "17:30"));
    assert!(!schedule_active(24, 0, "08:00", "17:30"));
    assert!(!schedule_active(9, 0, "8:00", "17:30"));
}

#[test]
fn temperatures_compare_as_numbers() {
    assert!(celsius(-1.0).is_lower(&celsius(1.0)));
    assert!(celsius(-2.0).is_lower(&celsius(-1.0)));
    assert!(celsius(-0.0).is_at_most(&celsius(0.0)));
    assert!(celsius(0.0).is_at_most(&celsius(-0.0)));
    assert!(!celsius(f64::NAN).is_at_most(&celsius(0.0)));
    assert!(celsius(-50.0).is_plausible());
    assert!(celsius(150.0).is_plausible());
    assert!(!celsius(150.1).is_plausible());
    assert!(!celsius(-50.1).is_plausible());
    assert!(!celsius(f64::INFINITY).is_plausible());
    assert!(!celsius(f64::NAN).is_plausible());
    assert!(!celsius(f64::INFINITY).is_finite());
}

#[test]
fn a_higher_temperature_never_gives_a_lower_duty() {
    let curve = FanCurve {
        points: vec![
            FanPoint { temp: celsius(30.0), percent: 20 },
            FanPoint { temp: celsius(50.0), percent: 20 },
            FanPoint { temp: celsius(60.0), percent: 70 },
            FanPoint { temp: celsius(80.5), percent: 95 },
        ],
    };
    let mut previous = 20;
    for step in 0..1000 {
        let duty = interpolate_fan(celsius(f64::from(step) * 0.1), &curve, &blend_fan);
        assert!(previous <= duty && duty <= 95);
        previous = duty;
    }
    for point in &curve.points {
        assert_eq!(interpolate_fan(point.temp, &curve, &blend_fan), point.percent);
    }
}
