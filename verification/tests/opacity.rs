use renderer::opacity_calculator::{
    get_opacity_by_center_distance, LineCap, OpacityCalculator, SCALE,
};

// A distance or opacity of SCALE fixed-point steps is 1.0 raster units.

#[test]
fn solid_line_full_coverage_at_center() {
    // line width 4.0, no dashes, no cap
    let calc = OpacityCalculator::new(4 * SCALE, &None, &None);
    let d = calc.calculate(0, 0);
    assert_eq!(d.opacity, SCALE);
    assert!(d.is_in_line);
}

#[test]
fn solid_line_zero_coverage_outside_feather() {
    // half width 2.0, feather ends at 2.5 < 3.0
    let calc = OpacityCalculator::new(4 * SCALE, &None, &None);
    let d = calc.calculate(3 * SCALE, 0);
    assert_eq!(d.opacity, 0);
    assert!(!d.is_in_line);
}

#[test]
fn empty_dash_pattern_is_solid_line() {
    let calc = OpacityCalculator::new(4 * SCALE, &Some(vec![]), &None);
    for start in [0, 100, 5000, 123456] {
        let sd = calc.get_opacity_by_start_distance(start);
        assert_eq!(sd.opacity, SCALE);
        assert_eq!(sd.distance_in_cap, None);
    }
}

#[test]
fn zero_width_line_is_invisible() {
    let calc = OpacityCalculator::new(0, &None, &None);
    let d = calc.calculate(0, 0);
    assert_eq!(d.opacity, 0);
    assert!(!d.is_in_line);
}

#[test]
fn leading_edge_ramps_up_over_one_unit() {
    // dash pattern [4.0, 2.0], no cap, line width 2.0: the first dash's
    // leading feather ramps from 0 half a unit before the dash starts up to
    // full opacity half a unit after, so at distance 0 it is halfway up.
    let calc = OpacityCalculator::new(2 * SCALE, &Some(vec![4 * SCALE, 2 * SCALE]), &None);
    assert_eq!(calc.get_opacity_by_start_distance(0).opacity, SCALE / 2);
    assert_eq!(calc.get_opacity_by_start_distance(SCALE / 4).opacity, 3 * SCALE / 4);
    assert_eq!(calc.get_opacity_by_start_distance(SCALE / 2).opacity, SCALE);
    // non-decreasing over the whole ramp
    let mut last = calc.get_opacity_by_start_distance(0).opacity;
    for d in 1..=(SCALE / 2) {
        let op = calc.get_opacity_by_start_distance(d).opacity;
        assert!(op >= last);
        assert!(op - last <= 1);
        last = op;
    }
}

#[test]
fn gap_between_dashes_is_transparent() {
    // dash pattern [4.0, 2.0]: the middle of the gap, distance 5.0, is well
    // past the trailing feather (ends at 4.5) and before the leading feather
    // of the wrapped first dash (starts at 5.5).
    let calc = OpacityCalculator::new(2 * SCALE, &Some(vec![4 * SCALE, 2 * SCALE]), &None);
    let sd = calc.get_opacity_by_start_distance(5 * SCALE);
    assert_eq!(sd.opacity, 0);
    assert_eq!(sd.distance_in_cap, None);
}

#[test]
fn along_path_opacity_is_periodic() {
    let calc = OpacityCalculator::new(2 * SCALE, &Some(vec![4 * SCALE, 2 * SCALE]), &None);
    let total = 6 * SCALE;
    for d in [0, 77, SCALE / 2, 3 * SCALE, 5 * SCALE + 3] {
        let a = calc.get_opacity_by_start_distance(d);
        let b = calc.get_opacity_by_start_distance(d + total);
        assert_eq!(a.opacity, b.opacity);
        assert_eq!(a.distance_in_cap, b.distance_in_cap);
    }
}

#[test]
fn advancing_by_full_cycle_changes_nothing() {
    let dashes = Some(vec![4 * SCALE, 2 * SCALE]);
    let plain = OpacityCalculator::new(2 * SCALE, &dashes, &None);
    let mut advanced = OpacityCalculator::new(2 * SCALE, &dashes, &None);
    advanced.add_traveled_distance(6 * SCALE);
    for start in [0, 100, SCALE, 4 * SCALE, 11 * SCALE] {
        for center in [0, SCALE / 2, SCALE] {
            let a = plain.calculate(center, start);
            let b = advanced.calculate(center, start);
            assert_eq!(a.opacity, b.opacity);
            assert_eq!(a.is_in_line, b.is_in_line);
        }
    }
}

#[test]
fn traveled_distance_accumulates_across_segments() {
    let dashes = Some(vec![4 * SCALE, 2 * SCALE]);
    let mut stepped = OpacityCalculator::new(2 * SCALE, &dashes, &None);
    stepped.add_traveled_distance(100);
    stepped.add_traveled_distance(200);
    let plain = OpacityCalculator::new(2 * SCALE, &dashes, &None);
    for start in [0, SCALE, 3 * SCALE] {
        assert_eq!(
            stepped.get_opacity_by_start_distance(start).opacity,
            plain.get_opacity_by_start_distance(start + 300).opacity
        );
    }
}

#[test]
fn butt_cap_leaves_dash_unextended() {
    // dash [2.0, 2.0], width 2.0: with a butt cap the dash starts at 0, so
    // distance 0 sits halfway up the leading feather.
    let calc = OpacityCalculator::new(2 * SCALE, &Some(vec![2 * SCALE, 2 * SCALE]), &None);
    assert_eq!(calc.get_opacity_by_start_distance(0).opacity, SCALE / 2);
}

#[test]
fn absent_cap_behaves_as_butt_cap() {
    let dashes = Some(vec![2 * SCALE, 2 * SCALE]);
    let none = OpacityCalculator::new(2 * SCALE, &dashes, &None);
    let butt = OpacityCalculator::new(2 * SCALE, &dashes, &Some(LineCap::Butt));
    for start in [0, SCALE / 2, SCALE, 3 * SCALE] {
        for center in [0, SCALE / 2, 2 * SCALE] {
            let a = none.calculate(center, start);
            let b = butt.calculate(center, start);
            assert_eq!(a.opacity, b.opacity);
            assert_eq!(a.is_in_line, b.is_in_line);
        }
    }
}

#[test]
fn square_cap_extends_dash_by_half_width() {
    // same pattern with a square cap: the dash is extended one half width
    // (1.0) on both ends, so distance 0 is deep inside the flat zone.
    let calc = OpacityCalculator::new(
        2 * SCALE,
        &Some(vec![2 * SCALE, 2 * SCALE]),
        &Some(LineCap::Square),
    );
    let sd = calc.get_opacity_by_start_distance(0);
    assert_eq!(sd.opacity, SCALE);
    assert_eq!(sd.distance_in_cap, None);
}

#[test]
fn short_dash_peak_opacity_is_capped() {
    // a 0.5-unit dash never reaches full coverage: its peak is 0.5
    let calc = OpacityCalculator::new(2 * SCALE, &Some(vec![SCALE / 2, 3 * SCALE / 2]), &None);
    let mut peak = 0;
    for d in 0..(2 * SCALE) {
        let op = calc.get_opacity_by_start_distance(d).opacity;
        if op > peak {
            peak = op;
        }
    }
    assert_eq!(peak, SCALE / 2);
}

#[test]
fn round_cap_reports_distance_into_cap() {
    // round cap, line width 2.0 (half width 1.0), dash pattern [2.0, 2.0]:
    // half a unit past the dash's true end the sample is inside the
    // trailing circular cap.
    let calc = OpacityCalculator::new(
        2 * SCALE,
        &Some(vec![2 * SCALE, 2 * SCALE]),
        &Some(LineCap::Round),
    );
    let sd = calc.get_opacity_by_start_distance(2 * SCALE + SCALE / 2);
    assert_eq!(sd.distance_in_cap, Some(SCALE / 2));
}

#[test]
fn round_cap_narrows_cross_section() {
    // Half a unit into the cap the effective half width shrinks to
    // sqrt(1.0^2 - 0.5^2) ~ 0.866 (221 steps, rounded down), so a sample
    // one unit off the centerline sees the feather ramp value
    // (221 + 128 - 256) = 93 instead of the full-width value 128.
    let calc = OpacityCalculator::new(
        2 * SCALE,
        &Some(vec![2 * SCALE, 2 * SCALE]),
        &Some(LineCap::Round),
    );
    let in_cap = calc.calculate(SCALE, 2 * SCALE + SCALE / 2);
    assert_eq!(in_cap.opacity, 93);
    assert!(in_cap.is_in_line);
    // on the centerline the cap is still fully covered
    let center = calc.calculate(0, 2 * SCALE + SCALE / 2);
    assert_eq!(center.opacity, SCALE);
}

#[test]
fn beyond_round_cap_radius_coverage_is_zero() {
    // dash pattern [2.0, 6.0] keeps the next dash's cap out of reach: 1.5
    // units past the dash end the cap residual (1.5) exceeds the half width
    // (1.0), so the sample is outside the rounded cap entirely.
    let calc = OpacityCalculator::new(
        2 * SCALE,
        &Some(vec![2 * SCALE, 6 * SCALE]),
        &Some(LineCap::Round),
    );
    let d = calc.calculate(0, 2 * SCALE + 3 * SCALE / 2);
    assert_eq!(d.opacity, 0);
    assert!(!d.is_in_line);
}

#[test]
fn across_opacity_is_zero_past_outer_feather_edge() {
    // half width 2.0: the feather ends at 2.5 from the centerline
    assert_eq!(get_opacity_by_center_distance(2 * SCALE + SCALE / 2, 2 * SCALE), 0);
    assert_eq!(get_opacity_by_center_distance(3 * SCALE, 2 * SCALE), 0);
}

#[test]
fn across_opacity_peaks_inside_the_body() {
    // half width 2.0: full coverage through 1.5 from the centerline
    assert_eq!(get_opacity_by_center_distance(0, 2 * SCALE), SCALE);
    assert_eq!(get_opacity_by_center_distance(SCALE + SCALE / 2, 2 * SCALE), SCALE);
    // half width 0.25: the peak is clamped to twice the half width
    assert_eq!(get_opacity_by_center_distance(0, SCALE / 4), SCALE / 2);
}

#[test]
fn narrow_line_feather_reaches_one_full_unit() {
    // For half widths under half a unit the outer feather edge sits at one
    // full unit from the centerline, not at half width plus half a unit: a
    // sample at 0.75 from the centerline of a 0.5-wide line is still
    // faintly covered, and coverage only vanishes from 1.0 outward.
    assert_eq!(get_opacity_by_center_distance(3 * SCALE / 4, SCALE / 4), SCALE / 8);
    assert_eq!(get_opacity_by_center_distance(SCALE, SCALE / 4), 0);
}

#[test]
fn odd_length_pattern_keeps_alternating() {
    // [1.0] alternates on/off across periods: the period is 1.0 and the
    // single dash is "on", so every period repeats the same feathered dash.
    let calc = OpacityCalculator::new(2 * SCALE, &Some(vec![SCALE]), &None);
    let a = calc.get_opacity_by_start_distance(SCALE / 2);
    let b = calc.get_opacity_by_start_distance(SCALE / 2 + SCALE);
    assert_eq!(a.opacity, b.opacity);
}
