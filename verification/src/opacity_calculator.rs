//! Per-sample coverage for stroked, dashed, capped polylines.
//!
//! All distances and opacities are fixed-point numbers: an `i64` counts steps
//! of `1 / SCALE` of a raster unit (one pixel). The grid is fine enough for
//! anti-aliasing and keeps every formula of the model exact, so each function
//! can carry a contract that pins its result down to the step.

use vstd::prelude::*;

verus! {

use vstd::arithmetic::mul::lemma_mul_inequality;
use vstd::arithmetic::mul::lemma_mul_nonnegative;
use vstd::arithmetic::div_mod::lemma_div_is_ordered;
use vstd::arithmetic::div_mod::lemma_div_pos_is_pos;
use vstd::arithmetic::div_mod::lemma_div_multiples_vanish;
use vstd::arithmetic::div_mod::lemma_mod_add_multiples_vanish;
use vstd::arithmetic::div_mod::lemma_hoist_over_denominator;

/// Fixed-point steps per raster unit: a distance or opacity of `SCALE`
/// means `1.0`.
pub const SCALE: i64 = 256;

/// Half of a raster unit, the half-width of every feather ramp.
pub const HALF_UNIT: i64 = 128;

/// Largest accepted line width (in fixed-point steps), so that squaring the
/// half line width stays well inside `i64`.
pub const MAX_LINE_WIDTH: i64 = 0x8000_0000;

/// Largest accepted half line width, `MAX_LINE_WIDTH / 2`.
pub const MAX_HALF_WIDTH: i64 = 0x4000_0000;

/// Largest accepted total length of a dash pattern (in fixed-point steps).
pub const MAX_PATTERN_TOTAL: i64 = 0x100_0000_0000;

/// Largest accepted accumulated distance (in fixed-point steps): the sum of
/// the traveled distance and a query distance must stay addable in `i64`.
pub const MAX_DISTANCE: i64 = 0x1000_0000_0000_0000;

/// Bound on every coordinate of a well-formed dash segment; it leaves room
/// for sums and differences of a few coordinates in `i64`.
pub const MAX_POS: i64 = 0x400_0000_0000;

/// Cap style at the ends of each drawn dash.
#[derive(Clone, Copy, PartialEq, Eq, Structural, Debug)]
pub enum LineCap {
    Butt,
    Square,
    Round,
}

/// One feathered "on" interval of the dash pattern, laid out on the periodic
/// path-distance axis. Opacity ramps up linearly on `[start_from, start_to]`,
/// is flat in between, and ramps down on `[end_from, end_to]`; the peak is
/// capped by `opacity_mul`. For round caps, `original_endpoints` keeps the
/// pre-extension span of the dash.
pub struct DashSegment {
    pub start_from: i64,
    pub start_to: i64,
    pub end_from: i64,
    pub end_to: i64,
    pub opacity_mul: i64,
    pub original_endpoints: Option<(i64, i64)>,
}

/// The mathematical view of a dash segment: the same five zones, as plain
/// integers.
pub ghost struct SegModel {
    pub start_from: int,
    pub start_to: int,
    pub end_from: int,
    pub end_to: int,
    pub opacity_mul: int,
    pub original_endpoints: Option<(int, int)>,
}

impl View for DashSegment {
    type V = SegModel;

    open spec fn view(&self) -> SegModel {
        SegModel {
            start_from: self.start_from as int,
            start_to: self.start_to as int,
            end_from: self.end_from as int,
            end_to: self.end_to as int,
            opacity_mul: self.opacity_mul as int,
            original_endpoints: match self.original_endpoints {
                Some(p) => Some((p.0 as int, p.1 as int)),
                None => None,
            },
        }
    }
}

/// A dash segment the resolver can work on: both feather ramps span exactly
/// one raster unit, the zones are ordered, the peak opacity is positive and
/// at most full, and all coordinates are small enough for exact arithmetic.
pub open spec fn seg_wf(s: SegModel) -> bool {
    &&& s.start_to == s.start_from + SCALE
    &&& s.end_to == s.end_from + SCALE
    &&& s.start_to <= s.end_from
    &&& 0 < s.opacity_mul <= SCALE
    &&& -MAX_POS <= s.start_from
    &&& s.end_to <= MAX_POS
    &&& match s.original_endpoints {
        Some(p) => -MAX_POS <= p.0 <= p.1 <= MAX_POS,
        None => true,
    }
}

/// The view of an optional fixed-point value as an optional integer.
pub open spec fn opt_int(o: Option<i64>) -> Option<int> {
    match o {
        Some(v) => Some(v as int),
        None => None,
    }
}

/// Opacity contributed by one dash segment at distance `dist`, or `None`
/// outside the segment's feathered footprint `[start_from, end_to]`.
pub open spec fn seg_opacity(s: SegModel, dist: int) -> Option<int> {
    if dist < s.start_from {
        None
    } else if dist <= s.start_to {
        Some((dist - s.start_from) * s.opacity_mul / (SCALE as int))
    } else if dist < s.end_from {
        Some(SCALE * s.opacity_mul / (SCALE as int))
    } else if dist <= s.end_to {
        Some((s.end_to - dist) * s.opacity_mul / (SCALE as int))
    } else {
        None
    }
}

/// How far `dist` sits inside a round cap of this segment: the distance from
/// the nearer pre-extension endpoint, or `None` when the point lies in the
/// dash body proper or the segment carries no round cap.
pub open spec fn seg_cap_distance(s: SegModel, dist: int) -> Option<int> {
    match s.original_endpoints {
        None => None,
        Some(p) => {
            if dist < p.0 {
                Some(p.0 - dist)
            } else if dist <= p.1 {
                None
            } else {
                Some(dist - p.1)
            }
        }
    }
}

/// A product of a base opacity and a peak cap, both at most `SCALE`, scaled
/// back down, stays within `[0, SCALE]`; a full base hands back the cap.
proof fn lemma_scaled_product_bounds(base: int, mul: int)
    requires
        0 <= base <= SCALE,
        0 <= mul <= SCALE,
    ensures
        0 <= base * mul <= SCALE * SCALE,
        0 <= base * mul / (SCALE as int) <= SCALE,
        base == SCALE ==> base * mul / (SCALE as int) == mul,
        base * mul / (SCALE as int) <= mul,
{
    lemma_mul_nonnegative(base, mul);
    lemma_mul_inequality(base, SCALE as int, mul);
    lemma_mul_inequality(mul, SCALE as int, SCALE as int);
    lemma_div_pos_is_pos(base * mul, SCALE as int);
    lemma_div_is_ordered(base * mul, SCALE * SCALE, SCALE as int);
    lemma_div_is_ordered(base * mul, SCALE * mul, SCALE as int);
    lemma_div_multiples_vanish(mul, SCALE as int);
    lemma_div_multiples_vanish(SCALE as int, SCALE as int);
}

/// Opacity of one dash segment at a path distance, as the dash interval
/// table's resolver asks for it.
pub fn get_opacity_by_segment(dist: i64, segment: &DashSegment) -> (r: Option<i64>)
    requires
        seg_wf(segment@),
        -MAX_POS <= dist <= MAX_POS,
    ensures
        opt_int(r) == seg_opacity(segment@, dist as int),
        match r {
            Some(op) => 0 <= op <= segment.opacity_mul,
            None => true,
        },
{
    if dist < segment.start_from {
        None
    } else if dist <= segment.start_to {
        proof {
            lemma_scaled_product_bounds(dist - segment.start_from, segment.opacity_mul as int);
        }
        Some((dist - segment.start_from) * segment.opacity_mul / SCALE)
    } else if dist < segment.end_from {
        proof {
            lemma_scaled_product_bounds(SCALE as int, segment.opacity_mul as int);
        }
        Some(SCALE * segment.opacity_mul / SCALE)
    } else if dist <= segment.end_to {
        proof {
            lemma_scaled_product_bounds(segment.end_to - dist, segment.opacity_mul as int);
        }
        Some((segment.end_to - dist) * segment.opacity_mul / SCALE)
    } else {
        None
    }
}

/// Residual distance inside a round cap, for the across-path narrowing.
pub fn get_distance_in_cap(dist: i64, segment: &DashSegment) -> (r: Option<i64>)
    requires
        seg_wf(segment@),
        -MAX_POS <= dist <= MAX_POS,
    ensures
        opt_int(r) == seg_cap_distance(segment@, dist as int),
        match r {
            Some(cd) => 0 < cd <= 2 * MAX_POS,
            None => true,
        },
{
    match segment.original_endpoints {
        None => None,
        Some((a, b)) => {
            if dist < a {
                Some(a - dist)
            } else if dist <= b {
                None
            } else {
                Some(dist - b)
            }
        }
    }
}

/// Edge-feathered coverage across the stroke: full inside the body, a linear
/// ramp over the one-unit feather band around the edge, zero outside; the
/// peak is capped at twice the half width for sub-unit strokes.
pub open spec fn spec_across(center_distance: int, half_width: int) -> int {
    let feather_from = if half_width - HALF_UNIT > 0 {
        half_width - HALF_UNIT
    } else {
        0
    };
    let feather_to = if half_width + HALF_UNIT > SCALE {
        half_width + HALF_UNIT
    } else {
        SCALE as int
    };
    let edge_mul = if 2 * half_width < SCALE {
        2 * half_width
    } else {
        SCALE as int
    };
    if center_distance < feather_from {
        edge_mul
    } else if center_distance < feather_to {
        (feather_to - center_distance) * edge_mul / (SCALE as int)
    } else {
        0
    }
}

/// Across-path opacity for a sample at `center_distance` from the centerline
/// of a stroke with the given effective half width.
pub fn get_opacity_by_center_distance(center_distance: i64, half_line_width: i64) -> (r: i64)
    requires
        0 <= center_distance,
        0 <= half_line_width <= MAX_HALF_WIDTH,
    ensures
        r as int == spec_across(center_distance as int, half_line_width as int),
        0 <= r <= SCALE,
{
    let feather_from = if half_line_width - HALF_UNIT > 0 {
        half_line_width - HALF_UNIT
    } else {
        0
    };
    let feather_to = if half_line_width + HALF_UNIT > SCALE {
        half_line_width + HALF_UNIT
    } else {
        SCALE
    };
    let edge_mul = if 2 * half_line_width < SCALE {
        2 * half_line_width
    } else {
        SCALE
    };
    if center_distance < feather_from {
        edge_mul
    } else if center_distance < feather_to {
        proof {
            lemma_scaled_product_bounds(feather_to - center_distance, edge_mul as int);
        }
        (feather_to - center_distance) * edge_mul / SCALE
    } else {
        0
    }
}

/// `r` is the integer square root of `n`, rounded down.
pub open spec fn is_sqrt_floor(n: int, r: int) -> bool {
    0 <= r && r * r <= n && n < (r + 1) * (r + 1)
}

/// The integer square root of `n >= 0`, rounded down.
pub open spec fn sqrt_floor(n: int) -> int {
    choose|r: int| is_sqrt_floor(n, r)
}

/// Two integer square roots of the same value agree.
pub proof fn lemma_sqrt_floor_unique(n: int, r1: int, r2: int)
    requires
        is_sqrt_floor(n, r1),
        is_sqrt_floor(n, r2),
    ensures
        r1 == r2,
{
    assert(!(r1 < r2)) by (nonlinear_arith)
        requires
            0 <= r1,
            0 <= r2,
            r2 * r2 <= n,
            n < (r1 + 1) * (r1 + 1),
    ;
    assert(!(r2 < r1)) by (nonlinear_arith)
        requires
            0 <= r1,
            0 <= r2,
            r1 * r1 <= n,
            n < (r2 + 1) * (r2 + 1),
    ;
}

/// Integer square root, rounded down, by bisection.
fn isqrt(n: i64) -> (r: i64)
    requires
        0 <= n < 0x4000_0000_0000_0000,
    ensures
        is_sqrt_floor(n as int, r as int),
        r as int == sqrt_floor(n as int),
{
    let mut lo: i64 = 0;
    let mut hi: i64 = 0x8000_0000;
    while hi - lo > 1
        invariant
            0 <= lo < hi <= 0x8000_0000,
            lo * lo <= n,
            n < hi * hi,
        decreases hi - lo,
    {
        let mid = lo + (hi - lo) / 2;
        proof {
            assert(lo < mid < hi);
            assert(mid * mid <= 0x4000_0000_0000_0000) by (nonlinear_arith)
                requires
                    0 <= mid <= 0x8000_0000,
            ;
        }
        if mid * mid <= n {
            lo = mid;
        } else {
            hi = mid;
        }
    }
    proof {
        assert(is_sqrt_floor(n as int, lo as int));
        lemma_sqrt_floor_unique(n as int, lo as int, sqrt_floor(n as int));
    }
    lo
}

/// The sum of the first `n` lengths of a dash pattern.
pub open spec fn dash_prefix_sum(dashes: Seq<i64>, n: int) -> int
    decreases n,
{
    if n <= 0 {
        0
    } else {
        dash_prefix_sum(dashes, n - 1) + dashes[n - 1]
    }
}

/// The total periodic length of a dash pattern.
pub open spec fn dash_total(dashes: Seq<i64>) -> int {
    dash_prefix_sum(dashes, dashes.len() as int)
}

/// An accepted dash pattern: every length positive (a zero-length "on" dash
/// is a configuration error), and the total short enough for exact
/// fixed-point arithmetic.
pub open spec fn pattern_wf(dashes: Seq<i64>) -> bool {
    &&& forall|i: int| 0 <= i < dashes.len() ==> 0 < #[trigger] dashes[i]
    &&& dash_total(dashes) <= MAX_PATTERN_TOTAL
}

/// Prefix sums of a positive pattern grow with the prefix.
pub proof fn lemma_prefix_sum_mono(dashes: Seq<i64>, m: int, n: int)
    requires
        0 <= m <= n <= dashes.len(),
        forall|i: int| 0 <= i < dashes.len() ==> 0 < #[trigger] dashes[i],
    ensures
        0 <= dash_prefix_sum(dashes, m) <= dash_prefix_sum(dashes, n),
    decreases n,
{
    if m < n {
        lemma_prefix_sum_mono(dashes, m, n - 1);
    } else if n > 0 {
        lemma_prefix_sum_mono(dashes, 0, n - 1);
    }
}

/// Whether a cap style extends each dash geometrically by the half width.
pub open spec fn cap_extends(line_cap: Option<LineCap>) -> bool {
    line_cap == Some(LineCap::Square) || line_cap == Some(LineCap::Round)
}

/// The dash segment built for an "on" dash spanning `[pos, pos + len)` of
/// the dash axis, for a stroke with the given half width and cap style:
/// square and round caps extend the span by the half width on both ends,
/// the feather zones are one unit wide, clamped so they never cross the
/// midpoint nor shrink the footprint below one unit, and the peak opacity
/// is capped by the extended length.
pub open spec fn seg_of(pos: int, len: int, half_width: int, line_cap: Option<LineCap>) -> SegModel {
    let s = if cap_extends(line_cap) { pos - half_width } else { pos };
    let e = if cap_extends(line_cap) { pos + len + half_width } else { pos + len };
    let mid = (s + e) / 2;
    SegModel {
        start_from: if s - HALF_UNIT < mid - SCALE { s - HALF_UNIT } else { mid - SCALE },
        start_to: if s + HALF_UNIT < mid { s + HALF_UNIT } else { mid },
        end_from: if e - HALF_UNIT > mid { e - HALF_UNIT } else { mid },
        end_to: if e + HALF_UNIT > mid + SCALE { e + HALF_UNIT } else { mid + SCALE },
        opacity_mul: if e - s < SCALE { e - s } else { SCALE as int },
        original_endpoints: if line_cap == Some(LineCap::Round) {
            Some((pos, pos + len))
        } else {
            None
        },
    }
}

/// The whole interval table of a non-empty dash pattern: one segment per
/// even ("on") index, and a wrap-safety copy of the first dash one full
/// period later, so the feathered leading cap of the first dash is not
/// missed when distances wrap modulo the total length.
pub open spec fn spec_segments(
    dashes: Seq<i64>,
    half_width: int,
    line_cap: Option<LineCap>,
) -> Seq<SegModel> {
    if dashes.len() == 0 {
        Seq::empty()
    } else {
        let on_count = (dashes.len() + 1) as int / 2;
        Seq::new(
            (on_count + 1) as nat,
            |k: int|
                if k < on_count {
                    seg_of(
                        dash_prefix_sum(dashes, 2 * k),
                        dashes[2 * k] as int,
                        half_width,
                        line_cap,
                    )
                } else {
                    seg_of(dash_total(dashes), dashes[0] as int, half_width, line_cap)
                },
        )
    }
}

/// Build the feathered segment for an "on" dash spanning `[start, start + dash)`.
fn make_segment(start: i64, dash: i64, half_line_width: i64, line_cap: &Option<LineCap>) -> (seg:
    DashSegment)
    requires
        0 <= half_line_width <= MAX_HALF_WIDTH,
        0 <= start,
        0 < dash,
        start + dash <= 2 * MAX_PATTERN_TOTAL,
    ensures
        seg@ == seg_of(start as int, dash as int, half_line_width as int, *line_cap),
        seg_wf(seg@),
{
    let extend = match line_cap {
        Some(LineCap::Square) | Some(LineCap::Round) => true,
        _ => false,
    };
    let s = if extend {
        start - half_line_width
    } else {
        start
    };
    let e = if extend {
        start + dash + half_line_width
    } else {
        start + dash
    };
    let original_endpoints = match line_cap {
        Some(LineCap::Round) => Some((start, start + dash)),
        _ => None,
    };
    proof {
        lemma_div_is_ordered(2 * (s as int), s + e, 2);
        lemma_div_is_ordered(s + e, 2 * (e as int), 2);
        lemma_div_multiples_vanish(s as int, 2);
        lemma_div_multiples_vanish(e as int, 2);
    }
    let midpoint = (s + e) / 2;
    let start_from = if s - HALF_UNIT < midpoint - SCALE {
        s - HALF_UNIT
    } else {
        midpoint - SCALE
    };
    let start_to = if s + HALF_UNIT < midpoint {
        s + HALF_UNIT
    } else {
        midpoint
    };
    let end_from = if e - HALF_UNIT > midpoint {
        e - HALF_UNIT
    } else {
        midpoint
    };
    let end_to = if e + HALF_UNIT > midpoint + SCALE {
        e + HALF_UNIT
    } else {
        midpoint + SCALE
    };
    let opacity_mul = if e - s < SCALE {
        e - s
    } else {
        SCALE
    };
    DashSegment { start_from, start_to, end_from, end_to, opacity_mul, original_endpoints }
}

/// Walk the dash pattern and fill `segments` with the feathered interval
/// table and `len_before` with the total periodic length. Even indices are
/// "on" dashes and produce a segment; odd indices are gaps and only advance
/// the cursor; a wrap-safety copy of the first dash is appended one full
/// period later.
fn compute_segments(
    half_line_width: i64,
    dashes: &Vec<i64>,
    line_cap: &Option<LineCap>,
    segments: &mut Vec<DashSegment>,
    len_before: &mut i64,
)
    requires
        0 <= half_line_width <= MAX_HALF_WIDTH,
        pattern_wf(dashes@),
        old(segments)@.len() == 0,
        *old(len_before) == 0,
    ensures
        final(segments)@.len() == spec_segments(dashes@, half_line_width as int, *line_cap).len(),
        forall|k: int| 0 <= k < final(segments)@.len() ==> #[trigger] final(segments)@[k]@
            == spec_segments(dashes@, half_line_width as int, *line_cap)[k],
        forall|k: int| 0 <= k < final(segments)@.len() ==> seg_wf(#[trigger] final(segments)@[k]@),
        *final(len_before) == dash_total(dashes@),
{
    let ghost pattern = dashes@;
    let ghost half = half_line_width as int;
    let n = dashes.len();
    let mut segs: Vec<DashSegment> = Vec::new();
    let mut total: i64 = 0;
    let mut idx: usize = 0;
    while idx < n
        invariant
            n == pattern.len(),
            pattern == dashes@,
            half == half_line_width as int,
            0 <= half_line_width <= MAX_HALF_WIDTH,
            pattern_wf(pattern),
            idx <= n,
            total == dash_prefix_sum(pattern, idx as int),
            segs@.len() == (idx as int + 1) / 2,
            forall|k: int| 0 <= k < segs@.len() ==> #[trigger] segs@[k]@
                == seg_of(dash_prefix_sum(pattern, 2 * k), pattern[2 * k] as int, half, *line_cap),
            forall|k: int| 0 <= k < segs@.len() ==> seg_wf(#[trigger] segs@[k]@),
        decreases n - idx,
    {
        proof {
            lemma_prefix_sum_mono(pattern, idx as int, idx as int + 1);
            lemma_prefix_sum_mono(pattern, idx as int + 1, n as int);
        }
        let dash = dashes[idx];
        let start = total;
        total = total + dash;
        if idx % 2 == 0 {
            let seg = make_segment(start, dash, half_line_width, line_cap);
            segs.push(seg);
            proof {
                assert(2 * ((idx as int) / 2) == idx as int);
            }
        }
        idx += 1;
    }
    if n > 0 {
        proof {
            assert(dash_prefix_sum(pattern, 0) == 0);
            assert(dash_prefix_sum(pattern, 1) == pattern[0]);
            lemma_prefix_sum_mono(pattern, 1, n as int);
        }
        let seg = make_segment(total, dashes[0], half_line_width, line_cap);
        segs.push(seg);
    }
    *segments = segs;
    *len_before = total;
}

/// Along-path opacity and cap residual resolved for one query.
pub struct StartDistanceOpacityData {
    pub opacity: i64,
    pub distance_in_cap: Option<i64>,
}

/// The best (maximum-opacity) hit among the dash segments at distance
/// `dist`, together with that segment's round-cap residual; `None` when no
/// segment's footprint contains `dist`. Ties go to the later segment.
pub open spec fn best_hit(segs: Seq<SegModel>, dist: int) -> Option<(int, Option<int>)>
    decreases segs.len(),
{
    if segs.len() == 0 {
        None
    } else {
        let rest = best_hit(segs.drop_last(), dist);
        match seg_opacity(segs.last(), dist) {
            None => rest,
            Some(op) => match rest {
                None => Some((op, seg_cap_distance(segs.last(), dist))),
                Some(r) => if op >= r.0 {
                    Some((op, seg_cap_distance(segs.last(), dist)))
                } else {
                    Some(r)
                },
            },
        }
    }
}

/// Along-path opacity at an accumulated distance `dist`, and the round-cap
/// residual of the winning segment: a solid line (no dashes) is fully
/// opaque; otherwise the distance is reduced modulo the total dash length
/// and resolved against the interval table, an uncovered distance being
/// fully transparent.
pub open spec fn spec_along(segs: Seq<SegModel>, total: int, dist: int) -> (int, Option<int>) {
    if segs.len() == 0 {
        (SCALE as int, None)
    } else {
        match best_hit(segs, dist % total) {
            None => (0int, None),
            Some(r) => r,
        }
    }
}

/// Effective half width of the stroke's cross-section at a sample: the full
/// half width outside any round cap; inside a round cap, the narrowing
/// circular cross-section by the square-root relation; `None` when the
/// sample lies beyond the cap's radius entirely.
pub open spec fn spec_effective_half(half_width: int, cap_distance: Option<int>) -> Option<int> {
    match cap_distance {
        None => Some(half_width),
        Some(cd) => if cd <= half_width {
            Some(sqrt_floor(half_width * half_width - cd * cd))
        } else {
            None
        },
    }
}

/// The combined coverage of one sample: the minimum of the along-path and
/// across-path opacities, and whether the sample lies within the stroke at
/// all. `dist` is the accumulated along-path distance of the sample.
pub open spec fn spec_calculate(
    segs: Seq<SegModel>,
    total: int,
    half_width: int,
    dist: int,
    center_distance: int,
) -> (int, bool) {
    let along = spec_along(segs, total, dist);
    match spec_effective_half(half_width, along.1) {
        None => (0int, false),
        Some(h) => {
            let across = spec_across(center_distance, h);
            (if along.0 < across { along.0 } else { across }, across > 0)
        },
    }
}

/// Per-sample coverage of one stroked path: immutable stroke parameters,
/// the precomputed dash interval table, and the distance traveled over the
/// segments rendered so far.
pub struct OpacityCalculator {
    pub half_line_width: i64,
    pub dashes: Vec<DashSegment>,
    pub total_dash_len: i64,
    pub traveled_distance: i64,
}

/// The combined coverage and in-line flag handed back for one sample.
pub struct OpacityData {
    pub opacity: i64,
    pub is_in_line: bool,
}

impl OpacityCalculator {
    /// The interval table seen as its mathematical model.
    pub open spec fn segs_view(&self) -> Seq<SegModel> {
        Seq::new(self.dashes@.len(), |k: int| self.dashes@[k]@)
    }

    /// The calculator's invariant: the half width and travel accumulator in
    /// range, every segment well-formed, and the total dash length positive
    /// exactly when there are dashes.
    pub open spec fn wf(&self) -> bool {
        &&& 0 <= self.half_line_width <= MAX_HALF_WIDTH
        &&& 0 <= self.traveled_distance <= MAX_DISTANCE
        &&& forall|k: int| 0 <= k < self.dashes@.len() ==> seg_wf(#[trigger] self.dashes@[k]@)
        &&& self.dashes@.len() > 0 ==> 0 < self.total_dash_len <= MAX_PATTERN_TOTAL
        &&& self.dashes@.len() == 0 ==> self.total_dash_len == 0
    }

    /// Set up the coverage model for one stroked path: half the line width,
    /// the feathered dash interval table, and a zero travel accumulator.
    pub fn new(line_width: i64, dashes: &Option<Vec<i64>>, line_cap: &Option<LineCap>) -> (r: Self)
        requires
            0 <= line_width <= MAX_LINE_WIDTH,
            match *dashes {
                Some(ref ds) => pattern_wf(ds@),
                None => true,
            },
        ensures
            r.wf(),
            r.half_line_width == line_width as int / 2,
            r.traveled_distance == 0,
            r.segs_view() == match *dashes {
                Some(ref ds) => spec_segments(ds@, line_width as int / 2, *line_cap),
                None => Seq::<SegModel>::empty(),
            },
            r.total_dash_len == match *dashes {
                Some(ref ds) => dash_total(ds@),
                None => 0int,
            },
    {
        let half_line_width = line_width / 2;
        let mut dash_segments: Vec<DashSegment> = Vec::new();
        let mut len_before: i64 = 0;
        match dashes {
            Some(ds) => {
                compute_segments(half_line_width, ds, line_cap, &mut dash_segments, &mut len_before);
            },
            None => {},
        }
        let r = OpacityCalculator {
            half_line_width,
            dashes: dash_segments,
            total_dash_len: len_before,
            traveled_distance: 0,
        };
        proof {
            match *dashes {
                Some(ref ds) => {
                    assert(r.segs_view() =~= spec_segments(ds@, line_width as int / 2, *line_cap));
                    if ds@.len() > 0 {
                        assert(dash_prefix_sum(ds@, 0) == 0);
                        assert(dash_prefix_sum(ds@, 1) == ds@[0]);
                        lemma_prefix_sum_mono(ds@, 1, ds@.len() as int);
                    }
                },
                None => {
                    assert(r.segs_view() =~= Seq::<SegModel>::empty());
                },
            }
        }
        r
    }

    /// Resolve the along-path opacity and round-cap residual for a query at
    /// `start_distance` past the start of the current path segment.
    pub fn get_opacity_by_start_distance(&self, start_distance: i64) -> (r:
        StartDistanceOpacityData)
        requires
            self.wf(),
            0 <= start_distance <= MAX_DISTANCE,
        ensures
            (r.opacity as int, opt_int(r.distance_in_cap)) == spec_along(
                self.segs_view(),
                self.total_dash_len as int,
                self.traveled_distance + start_distance,
            ),
            0 <= r.opacity <= SCALE,
            match r.distance_in_cap {
                Some(cd) => 0 < cd <= 2 * MAX_POS,
                None => true,
            },
    {
        let ghost segs = self.segs_view();
        if self.dashes.len() == 0 {
            return StartDistanceOpacityData { opacity: SCALE, distance_in_cap: None };
        }
        let dist_rem = (self.traveled_distance + start_distance) % self.total_dash_len;
        let n = self.dashes.len();
        let mut best: Option<(i64, usize)> = None;
        let mut i: usize = 0;
        while i < n
            invariant
                self.wf(),
                segs == self.segs_view(),
                n == self.dashes@.len(),
                0 <= dist_rem < self.total_dash_len,
                i <= n,
                match best {
                    None => best_hit(segs.take(i as int), dist_rem as int) is None,
                    Some((op, j)) => {
                        &&& j < i
                        &&& 0 <= op <= SCALE
                        &&& seg_opacity(segs[j as int], dist_rem as int) == Some(op as int)
                        &&& best_hit(segs.take(i as int), dist_rem as int) == Some(
                            (op as int, seg_cap_distance(segs[j as int], dist_rem as int)),
                        )
                    },
                },
            decreases n - i,
        {
            proof {
                assert(segs.take(i as int + 1).drop_last() =~= segs.take(i as int));
                assert(segs.take(i as int + 1).last() == segs[i as int]);
            }
            let op_i = get_opacity_by_segment(dist_rem, &self.dashes[i]);
            match op_i {
                Some(op) => {
                    let replace = match best {
                        None => true,
                        Some((best_op, _)) => op >= best_op,
                    };
                    if replace {
                        best = Some((op, i));
                    }
                },
                None => {},
            }
            i += 1;
        }
        proof {
            assert(segs.take(n as int) =~= segs);
        }
        match best {
            None => StartDistanceOpacityData { opacity: 0, distance_in_cap: None },
            Some((op, j)) => StartDistanceOpacityData {
                opacity: op,
                distance_in_cap: get_distance_in_cap(dist_rem, &self.dashes[j]),
            },
        }
    }

    /// Combined coverage for one sample at `center_distance` from the
    /// centerline and `start_distance` past the start of the current path
    /// segment.
    pub fn calculate(&self, center_distance: i64, start_distance: i64) -> (r: OpacityData)
        requires
            self.wf(),
            0 <= center_distance,
            0 <= start_distance <= MAX_DISTANCE,
        ensures
            (r.opacity as int, r.is_in_line) == spec_calculate(
                self.segs_view(),
                self.total_dash_len as int,
                self.half_line_width as int,
                self.traveled_distance + start_distance,
                center_distance as int,
            ),
            0 <= r.opacity <= SCALE,
    {
        let sd = self.get_opacity_by_start_distance(start_distance);
        let across = match sd.distance_in_cap {
            None => get_opacity_by_center_distance(center_distance, self.half_line_width),
            Some(cap_dist) => {
                if cap_dist <= self.half_line_width {
                    proof {
                        assert(cap_dist * cap_dist <= self.half_line_width * self.half_line_width
                            <= 0x1000_0000_0000_0000) by (nonlinear_arith)
                            requires
                                0 <= cap_dist <= self.half_line_width <= MAX_HALF_WIDTH,
                        ;
                    }
                    let h_eff = isqrt(
                        self.half_line_width * self.half_line_width - cap_dist * cap_dist,
                    );
                    proof {
                        assert(h_eff <= self.half_line_width) by (nonlinear_arith)
                            requires
                                0 <= h_eff,
                                0 <= self.half_line_width,
                                h_eff * h_eff <= self.half_line_width * self.half_line_width,
                        ;
                    }
                    get_opacity_by_center_distance(center_distance, h_eff)
                } else {
                    0
                }
            },
        };
        let opacity = if sd.opacity < across {
            sd.opacity
        } else {
            across
        };
        OpacityData { opacity, is_in_line: across > 0 }
    }

    /// Advance the travel accumulator by the length of one rendered path
    /// segment, so the dash phase stays continuous across vertices.
    pub fn add_traveled_distance(&mut self, distance: i64)
        requires
            old(self).wf(),
            0 <= distance,
            old(self).traveled_distance + distance <= MAX_DISTANCE,
        ensures
            final(self).wf(),
            final(self).traveled_distance == old(self).traveled_distance + distance,
            final(self).half_line_width == old(self).half_line_width,
            final(self).dashes == old(self).dashes,
            final(self).total_dash_len == old(self).total_dash_len,
            final(self).segs_view() == old(self).segs_view(),
    {
        self.traveled_distance = self.traveled_distance + distance;
    }
}

/// Law: a sample at least half a unit beyond the effective half width is
/// fully transparent across the path. For half widths below half a unit the
/// outer feather edge sits at one full unit rather than at
/// `half_width + HALF_UNIT`, so the hypothesis also keeps the sample at
/// least one unit out.
pub proof fn lemma_across_zero_beyond_edge(center_distance: int, half_width: int)
    requires
        0 <= half_width,
        center_distance >= half_width + HALF_UNIT,
        center_distance >= SCALE,
    ensures
        spec_across(center_distance, half_width) == 0,
{
}

/// Law: a sample within the body of the stroke — at most
/// `max(half_width - HALF_UNIT, 0)` from the centerline — gets the full
/// clamped peak opacity `min(2 * half_width, SCALE)`.
pub proof fn lemma_across_peak_in_body(center_distance: int, half_width: int)
    requires
        0 <= half_width,
        0 <= center_distance,
        center_distance <= if half_width - HALF_UNIT > 0 {
            half_width - HALF_UNIT
        } else {
            0
        },
    ensures
        spec_across(center_distance, half_width) == if 2 * half_width < SCALE {
            2 * half_width
        } else {
            SCALE as int
        },
{
    let edge_mul = if 2 * half_width < SCALE {
        2 * half_width
    } else {
        SCALE as int
    };
    // On the inner feather edge itself the ramp still evaluates to the peak.
    lemma_div_multiples_vanish(edge_mul, SCALE as int);
}

/// Law: with no dash pattern the along-path opacity is full at every
/// accumulated distance, whatever distance has been traveled before.
pub proof fn lemma_solid_line_always_opaque(total: int, dist: int)
    ensures
        spec_along(Seq::<SegModel>::empty(), total, dist) == (SCALE as int, None::<int>),
{
}

/// Law: for a non-empty dash pattern the along-path opacity (and the cap
/// residual with it) is periodic with the total dash length.
pub proof fn lemma_along_periodic(segs: Seq<SegModel>, total: int, dist: int)
    requires
        segs.len() > 0,
        total > 0,
    ensures
        spec_along(segs, total, dist + total) == spec_along(segs, total, dist),
{
    lemma_mod_add_multiples_vanish(dist, total);
}

/// Law: advancing the accumulated distance by exactly the total dash length
/// leaves the coverage of every subsequent sample unchanged: the dash phase
/// wraps cleanly.
pub proof fn lemma_full_cycle_same_coverage(
    segs: Seq<SegModel>,
    total: int,
    half_width: int,
    dist: int,
    center_distance: int,
)
    requires
        segs.len() > 0,
        total > 0,
    ensures
        spec_calculate(segs, total, half_width, dist + total, center_distance) == spec_calculate(
            segs,
            total,
            half_width,
            dist,
            center_distance,
        ),
{
    lemma_along_periodic(segs, total, dist);
}

/// Law: the resolved hit is the maximum among the segments' defined
/// opacities — it dominates every candidate and is itself contributed,
/// together with its cap residual, by one of them — and when no segment's
/// footprint contains the distance there is no hit.
pub proof fn lemma_best_hit_is_max(segs: Seq<SegModel>, dist: int)
    ensures
        best_hit(segs, dist) is None ==> forall|k: int|
            0 <= k < segs.len() ==> seg_opacity(#[trigger] segs[k], dist) is None,
        best_hit(segs, dist) matches Some(r) ==> exists|k: int|
            0 <= k < segs.len() && seg_opacity(#[trigger] segs[k], dist) == Some(r.0)
                && seg_cap_distance(segs[k], dist) == r.1,
        best_hit(segs, dist) matches Some(r) ==> forall|k: int|
            0 <= k < segs.len() && seg_opacity(#[trigger] segs[k], dist) is Some
                ==> seg_opacity(segs[k], dist)->Some_0 <= r.0,
    decreases segs.len(),
{
    if segs.len() > 0 {
        lemma_best_hit_is_max(segs.drop_last(), dist);
        assert(forall|k: int|
            0 <= k < segs.len() - 1 ==> segs.drop_last()[k] == #[trigger] segs[k]);
        assert(segs.last() == segs[segs.len() - 1]);
    }
}

/// Law: along the leading feather ramp of a segment the opacity is
/// non-decreasing, and it moves by at most one opacity step per distance
/// step — the discrete counterpart of continuity.
pub proof fn lemma_ramp_up_monotone(s: SegModel, d1: int, d2: int)
    requires
        seg_wf(s),
        s.start_from <= d1 <= d2 <= s.start_to,
    ensures
        seg_opacity(s, d1) is Some,
        seg_opacity(s, d2) is Some,
        seg_opacity(s, d1)->Some_0 <= seg_opacity(s, d2)->Some_0,
        seg_opacity(s, d2)->Some_0 - seg_opacity(s, d1)->Some_0 <= d2 - d1,
{
    let b1 = d1 - s.start_from;
    let b2 = d2 - s.start_from;
    lemma_mul_inequality(b1, b2, s.opacity_mul);
    lemma_div_is_ordered(b1 * s.opacity_mul, b2 * s.opacity_mul, SCALE as int);
    assert(b2 * s.opacity_mul <= b1 * s.opacity_mul + (b2 - b1) * SCALE) by (nonlinear_arith)
        requires
            0 <= b1 <= b2,
            0 < s.opacity_mul <= SCALE,
    ;
    lemma_hoist_over_denominator(b1 * s.opacity_mul, b2 - b1, SCALE as nat);
    lemma_div_is_ordered(
        b2 * s.opacity_mul,
        b1 * s.opacity_mul + (b2 - b1) * SCALE,
        SCALE as int,
    );
}

/// Law: along the trailing feather ramp of a segment the opacity is
/// non-increasing, and it moves by at most one opacity step per distance
/// step — the discrete counterpart of continuity.
pub proof fn lemma_ramp_down_monotone(s: SegModel, d1: int, d2: int)
    requires
        seg_wf(s),
        s.end_from <= d1 <= d2 <= s.end_to,
    ensures
        seg_opacity(s, d1) is Some,
        seg_opacity(s, d2) is Some,
        seg_opacity(s, d2)->Some_0 <= seg_opacity(s, d1)->Some_0,
        seg_opacity(s, d1)->Some_0 - seg_opacity(s, d2)->Some_0 <= d2 - d1,
{
    let b1 = s.end_to - d1;
    let b2 = s.end_to - d2;
    lemma_mul_inequality(b2, b1, s.opacity_mul);
    lemma_div_is_ordered(b2 * s.opacity_mul, b1 * s.opacity_mul, SCALE as int);
    assert(b1 * s.opacity_mul <= b2 * s.opacity_mul + (b1 - b2) * SCALE) by (nonlinear_arith)
        requires
            0 <= b2 <= b1,
            0 < s.opacity_mul <= SCALE,
    ;
    lemma_hoist_over_denominator(b2 * s.opacity_mul, b1 - b2, SCALE as nat);
    lemma_div_is_ordered(
        b1 * s.opacity_mul,
        b2 * s.opacity_mul + (b1 - b2) * SCALE,
        SCALE as int,
    );
}

} // verus!
