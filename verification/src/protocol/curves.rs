//! The CCD's own response curves, `DataType::CcdData`
//!
//! A three-line sensor reads film through rows of photosites that do not share
//! a transfer curve, so a flat patch comes off the bar with a pattern repeating
//! every three rows. The block interleave spreads that along the feed, and it is
//! the banding a single-line pass does not have.
//!
//! The unit measures its own rows and hands the result over: one curve per row
//! per type, each sampled at the levels `CcdMeasurement` lists. Correcting a row
//! is re-mapping it onto the reference row. Every curve is sampled at the same
//! levels, so the level cancels and the remap goes through the shared point
//! index rather than through any absolute value.
//!
//! Nothing is measured from the image and nothing is per column: the same raw
//! value off the same row always becomes the same corrected value.
//!
//! Thanks to @a6o for working out what Nikon Scan does with this page.

use crate::protocol::caps::ccd::CcdMeasurement;
use vstd::prelude::*;

verus! {

/// Samples a lookup table covers
pub const LEVELS: usize = 65536;

/// One row's remap onto the reference row, as a table
///
/// A table per row rather than an interpolation per sample: a pass has hundreds
/// of millions of samples and only a handful of rows.
#[derive(Debug, PartialEq, Eq)]
pub struct Curves {
    rows: Vec<Vec<u16>>,
}

/// The point below a sample, walking up the curve from `point`: the last but
/// one at most, so that there is always a segment above it
pub open spec fn segment(curve: Seq<u16>, sample: int, point: int) -> int
    decreases curve.len() - point,
{
    if point + 2 < curve.len() && curve[point + 1] <= sample {
        segment(curve, sample, point + 1)
    } else {
        point
    }
}

/// How far along a straight line from `a` to `b` a step of `along` out of `span`
/// comes, cutting the fraction off, and no further than a sample can be
pub open spec fn interpolated(a: int, b: int, along: int, span: int) -> int {
    let mapped = if b >= a {
        a + along * (b - a) / span
    } else {
        a - along * (a - b) / span
    };
    if mapped < 0 {
        0
    } else if mapped > 65535 {
        65535
    } else {
        mapped
    }
}

/// Where `from` reads `sample`, what `onto` reads at the same point on its own
/// curve
///
/// Between points the two curves are taken as straight, and outside them the
/// value is left alone. A segment the walk stopped in ends above the sample,
/// but for the last one, past whose end nothing was measured. A sample on a
/// flat step is left alone too: the step says nothing about where inside it a
/// sample sits.
pub open spec fn remap(from: Seq<u16>, onto: Seq<u16>, sample: int) -> int {
    let p = segment(from, sample, 0);
    if sample < from[0] || sample > from[p + 1] || from[p + 1] <= from[p] {
        sample
    } else {
        interpolated(
            onto[p] as int,
            onto[p + 1] as int,
            if sample >= from[p] {
                sample - from[p]
            } else {
                0
            },
            from[p + 1] - from[p],
        )
    }
}

/// One row's curve among the words of a reply
///
/// They come as `repeat * types + type`: curves `i`, `i + types` and
/// `i + 2 * types` are the rows of one type.
pub open spec fn row_curve(
    words: Seq<u16>,
    points: int,
    types: int,
    kind: int,
    row: int,
) -> Seq<u16> {
    words.subrange((row * types + kind) * points, (row * types + kind) * points + points)
}

/// Whether a reply holds what its page says it does, and the rows and the type
/// that are asked for
pub open spec fn fits_page(ccd: &CcdMeasurement, words: int, rows: int, kind: int) -> bool {
    &&& ccd.points@.len() >= 2
    &&& rows > 0
    &&& words >= ccd.curve_count() * ccd.points@.len()
    &&& kind < ccd.types
    &&& rows * ccd.types <= ccd.curve_count()
}

/// Every row asked for lies within the reply
proof fn lemma_row_inside(row: int, rows: int, types: int, kind: int, curves: int, points: int)
    requires
        0 <= row < rows,
        0 <= kind < types,
        rows * types <= curves,
        0 <= points,
    ensures
        0 <= row * types + kind < curves,
        0 <= (row * types + kind) * points,
        (row * types + kind) * points + points <= curves * points,
{
    assert(row * types + types <= rows * types) by (nonlinear_arith)
        requires
            row + 1 <= rows,
            0 <= types,
    ;
    assert(0 <= row * types) by (nonlinear_arith)
        requires
            0 <= row,
            0 <= types,
    ;
    let at = row * types + kind;
    assert(at * points + points <= curves * points) by (nonlinear_arith)
        requires
            at + 1 <= curves,
            0 <= points,
    ;
    assert(0 <= at * points) by (nonlinear_arith)
        requires
            0 <= at,
            0 <= points,
    ;
}

impl Clone for Curves {
    fn clone(&self) -> (r: Curves)
        ensures
            r.same(self),
    {
        proof {
            use_type_invariant(self);
        }
        let mut rows: Vec<Vec<u16>> = Vec::new();
        let mut row: usize = 0;
        while row < self.rows.len()
            invariant
                row <= self.rows@.len(),
                rows@.len() == row,
                self.wf(),
                forall|k: int| 0 <= k < row ==> (#[trigger] rows@[k])@ == self.rows@[k]@,
            decreases self.rows@.len() - row,
        {
            let table = self.rows[row].clone();
            assert(table@ =~= self.rows@[row as int]@);
            rows.push(table);
            row += 1;
        }
        Curves { rows }
    }
}

impl Curves {
    #[verifier::type_invariant]
    spec fn wf(self) -> bool {
        forall|row: int| 0 <= row < self.rows@.len() ==> (#[trigger] self.rows@[row])@.len() == LEVELS
    }

    /// How many rows the tables cover
    pub closed spec fn row_count(&self) -> nat {
        self.rows@.len()
    }

    /// The corrected value of a sample, read off a row
    pub closed spec fn corrected(&self, row: int, sample: u16) -> u16 {
        if 0 <= row < self.rows@.len() {
            self.rows@[row]@[sample as int]
        } else {
            sample
        }
    }

    /// Whether two measurements correct alike
    pub open spec fn same(&self, other: &Curves) -> bool {
        &&& self.row_count() == other.row_count()
        &&& forall|row: int, sample: u16|
            #[trigger] self.corrected(row, sample) == other.corrected(row, sample)
    }

    /// A row the tables do not cover is passed through
    pub proof fn law_uncovered_rows_pass_through(&self, row: int, sample: u16)
        requires
            row < 0 || row >= self.row_count(),
        ensures
            self.corrected(row, sample) == sample,
    {
    }

    /// Build the tables from a `DataType::CcdData` reply
    ///
    /// `words` is the reply's valid data and `ccd` is the page describing it.
    /// `None` where the two disagree about how much there should be, since a
    /// correction from a misread table would be worse than none.
    ///
    /// The middle row is the reference: it is the one the others sit either side
    /// of, so it moves the fewest samples.
    pub fn parse(ccd: &CcdMeasurement, words: &[u16], rows: usize, kind: usize) -> (r: Option<
        Curves,
    >)
        ensures
            r is Some <==> fits_page(ccd, words@.len() as int, rows as int, kind as int),
            r matches Some(curves) ==> curves.row_count() == rows && forall|row: int, sample: u16|
                0 <= row < rows ==> #[trigger] curves.corrected(row, sample) == remap(
                    row_curve(
                        words@,
                        ccd.points@.len() as int,
                        ccd.types as int,
                        kind as int,
                        row,
                    ),
                    row_curve(
                        words@,
                        ccd.points@.len() as int,
                        ccd.types as int,
                        kind as int,
                        rows as int / 2,
                    ),
                    sample as int,
                ),
    {
        let points: usize = ccd.points.len();
        let curves: usize = ccd.curves();
        let types: usize = ccd.types as usize;
        if points < 2 || rows == 0 {
            return None;
        }
        // As many words as curves times points, without the product
        proof {
            assert(words@.len() as int / points as int >= curves <==> words@.len() >= curves * points)
                by (nonlinear_arith)
                requires
                    points > 0,
                    words@.len() >= 0,
                    curves >= 0,
            ;
        }
        if words.len() / points < curves {
            return None;
        }
        if kind >= types {
            return None;
        }
        proof {
            assert(curves as int / types as int >= rows <==> curves >= rows * types)
                by (nonlinear_arith)
                requires
                    types > 0,
                    curves >= 0,
                    rows >= 0,
            ;
        }
        if curves / types < rows {
            return None;
        }
        let middle: usize = rows / 2;
        proof {
            lemma_row_inside(
                middle as int,
                rows as int,
                types as int,
                kind as int,
                curves as int,
                points as int,
            );
        }
        assert(words@.len() == words.len());
        let at: usize = (middle * types + kind) * points;
        let reference: &[u16] = &words[at..at + points];
        let mut tables: Vec<Vec<u16>> = Vec::new();
        let mut row: usize = 0;
        while row < rows
            invariant
                row <= rows,
                points == ccd.points@.len(),
                points >= 2,
                types == ccd.types,
                kind < types,
                rows * types <= curves,
                curves * points <= words@.len(),
                words@.len() == words.len(),
                reference@.len() == points,
                reference@ == row_curve(
                    words@,
                    points as int,
                    types as int,
                    kind as int,
                    rows as int / 2,
                ),
                tables@.len() == row,
                forall|k: int|
                    0 <= k < row ==> (#[trigger] tables@[k])@ == Seq::new(
                        LEVELS as nat,
                        |s: int|
                            remap(
                                row_curve(words@, points as int, types as int, kind as int, k),
                                reference@,
                                s,
                            ) as u16,
                    ),
            decreases rows - row,
        {
            proof {
                lemma_row_inside(
                    row as int,
                    rows as int,
                    types as int,
                    kind as int,
                    curves as int,
                    points as int,
                );
            }
            let at: usize = (row * types + kind) * points;
            tables.push(table(&words[at..at + points], reference));
            row += 1;
        }
        let made = Curves { rows: tables };
        proof {
            assert forall|row: int, sample: u16| 0 <= row < rows implies #[trigger] made.corrected(
                row,
                sample,
            ) == remap(
                row_curve(words@, points as int, types as int, kind as int, row),
                reference@,
                sample as int,
            ) by {
                assert(made.rows@[row] == tables@[row]);
                lemma_remap_is_a_sample(
                    row_curve(words@, points as int, types as int, kind as int, row),
                    reference@,
                    sample as int,
                );
            }
        }
        Some(made)
    }

    /// The corrected value of `sample`, read off CCD row `row`
    ///
    /// A row the tables do not cover is passed through: an uncorrected sample is
    /// what comes of having no correction.
    pub fn correct(&self, row: usize, sample: u16) -> (r: u16)
        ensures
            r == self.corrected(row as int, sample),
            row >= self.row_count() ==> r == sample,
    {
        proof {
            use_type_invariant(self);
        }
        if row < self.rows.len() {
            self.rows[row][sample as usize]
        } else {
            sample
        }
    }

    /// How many rows the tables cover
    pub fn rows(&self) -> (r: usize)
        ensures
            r == self.row_count(),
    {
        self.rows.len()
    }
}

/// A remapped sample is a sample
proof fn lemma_remap_is_a_sample(from: Seq<u16>, onto: Seq<u16>, sample: int)
    requires
        0 <= sample < LEVELS,
    ensures
        0 <= remap(from, onto, sample) < LEVELS,
{
}

/// The walk up a curve goes through every point at or below the sample
proof fn lemma_segment_skips(curve: Seq<u16>, sample: int, from: int, point: int)
    requires
        0 <= from <= point,
        point == from || point + 1 < curve.len(),
        forall|q: int| from < q <= point ==> (#[trigger] curve[q]) <= sample,
    ensures
        segment(curve, sample, from) == segment(curve, sample, point),
    decreases point - from,
{
    if from < point {
        assert(curve[from + 1] <= sample);
        lemma_segment_skips(curve, sample, from + 1, point);
    }
}

/// The point below a sample leaves a segment above it
proof fn lemma_segment_inside(curve: Seq<u16>, sample: int, point: int)
    requires
        0 <= point,
        point + 1 < curve.len(),
    ensures
        point <= segment(curve, sample, point),
        segment(curve, sample, point) + 1 < curve.len(),
    decreases curve.len() - point,
{
    if point + 2 < curve.len() && curve[point + 1] <= sample {
        lemma_segment_inside(curve, sample, point + 1);
    }
}

/// A step along a straight line
fn interpolate(a: u16, b: u16, along: u32, span: u32) -> (r: u16)
    requires
        0 < span,
        along <= 65535,
    ensures
        r == interpolated(a as int, b as int, along as int, span as int),
{
    let rise: u64 = if b >= a {
        (b - a) as u64
    } else {
        (a - b) as u64
    };
    assert(along * rise <= 65535 * 65535) by (nonlinear_arith)
        requires
            along <= 65535,
            rise <= 65535,
    ;
    let product: u64 = along as u64 * rise;
    let step: u64 = product / span as u64;
    if b >= a {
        let mapped: u64 = a as u64 + step;
        if mapped > 65535 {
            65535
        } else {
            mapped as u16
        }
    } else if step > a as u64 {
        0
    } else {
        (a as u64 - step) as u16
    }
}

/// One row's table: where `from` reads a value, what `onto` reads at the same
/// point on its own curve
///
/// Both are sampled at the same levels, so the point index is the common ground
/// and the levels never enter the arithmetic.
fn table(from: &[u16], onto: &[u16]) -> (r: Vec<u16>)
    requires
        from@.len() == onto@.len(),
        from@.len() >= 2,
    ensures
        r@ == Seq::new(LEVELS as nat, |s: int| remap(from@, onto@, s) as u16),
{
    let mut out: Vec<u16> = Vec::new();
    let mut point: usize = 0;
    let mut sample: u32 = 0;
    let last: usize = from.len() - 1;
    while sample < 65536
        invariant
            sample <= 65536,
            from@.len() == onto@.len(),
            from@.len() >= 2,
            from@.len() == from.len(),
            last == from@.len() - 1,
            point + 1 < from@.len(),
            forall|q: int| 0 < q <= point ==> (#[trigger] from@[q]) <= sample,
            out@.len() == sample,
            forall|s: int| 0 <= s < sample ==> #[trigger] out@[s] == remap(from@, onto@, s) as u16,
        decreases 65536 - sample,
    {
        // The curves rise, so one walk covers every sample
        while point < last - 1 && from[point + 1] as u32 <= sample
            invariant
                sample < 65536,
                from@.len() >= 2,
                from@.len() == from.len(),
                last == from@.len() - 1,
                point + 1 < from@.len(),
                forall|q: int| 0 < q <= point ==> (#[trigger] from@[q]) <= sample,
            decreases last - point,
        {
            point += 1;
        }
        proof {
            lemma_segment_skips(from@, sample as int, 0, point as int);
        }
        assert(segment(from@, sample as int, 0) == point);
        // Outside the points the curves say nothing. Both start at the dark
        // offset, so mapping into the first segment would lift everything under
        // it onto that offset and crush the bottom of the range to one value
        let lo: u32 = from[point] as u32;
        let hi: u32 = from[point + 1] as u32;
        let value: u16 = if sample < from[0] as u32 || sample > hi || hi <= lo {
            sample as u16
        } else {
            let along: u32 = if sample >= lo {
                sample - lo
            } else {
                0
            };
            interpolate(onto[point], onto[point + 1], along, hi - lo)
        };
        assert(value == remap(from@, onto@, sample as int) as u16);
        out.push(value);
        sample += 1;
    }
    proof {
        assert(out@ =~= Seq::new(LEVELS as nat, |s: int| remap(from@, onto@, s) as u16));
    }
    out
}

/// Whether a curve never falls
pub open spec fn rises(curve: Seq<u16>) -> bool {
    forall|i: int, j: int| 0 <= i <= j < curve.len() ==> curve[i] <= curve[j]
}

/// Rows that already agree have nothing between them: every sample comes back
/// as it went in
pub proof fn law_matching_rows_leave_samples_alone(curve: Seq<u16>, sample: u16)
    requires
        curve.len() >= 2,
        rises(curve),
    ensures
        remap(curve, curve, sample as int) == sample,
{
    let s = sample as int;
    let p = segment(curve, s, 0);
    lemma_segment_inside(curve, s, 0);
    if !(s < curve[0] || s > curve[p + 1] || curve[p + 1] <= curve[p]) {
        lemma_segment_below(curve, s, 0);
        let span = curve[p + 1] - curve[p];
        let along = s - curve[p];
        assert(along * span / span == along) by (nonlinear_arith)
            requires
                span > 0,
        ;
    }
}

/// The point a walk stops at is at or below the sample, where it started so
proof fn lemma_segment_below(curve: Seq<u16>, sample: int, point: int)
    requires
        0 <= point,
        point + 1 < curve.len(),
        curve[point] <= sample,
    ensures
        curve[segment(curve, sample, point)] <= sample,
    decreases curve.len() - point,
{
    if point + 2 < curve.len() && curve[point + 1] <= sample {
        lemma_segment_below(curve, sample, point + 1);
    }
}

/// Samples outside what was measured, below the first point or above every one,
/// are left alone
pub proof fn law_unmeasured_samples_are_left_alone(from: Seq<u16>, onto: Seq<u16>, sample: u16)
    requires
        from.len() >= 2,
        sample < from[0] || forall|q: int| 0 <= q < from.len() ==> (#[trigger] from[q]) < sample,
    ensures
        remap(from, onto, sample as int) == sample,
{
    if sample >= from[0] {
        lemma_segment_skips(from, sample as int, 0, from.len() - 2);
    }
}

/// A sample between measured points goes along the segment that the walk up the
/// curve stops in, whether or not the curve falls back after it
pub proof fn law_measured_segments_are_straight(from: Seq<u16>, onto: Seq<u16>, sample: u16)
    requires
        from.len() >= 2,
        from[0] <= sample,
        ({
            let p = segment(from, sample as int, 0);
            p + 2 < from.len() || sample <= from[p + 1] && from[p] < from[p + 1]
        }),
    ensures
        ({
            let p = segment(from, sample as int, 0);
            &&& from[p] <= sample <= from[p + 1]
            &&& remap(from, onto, sample as int) == interpolated(
                onto[p] as int,
                onto[p + 1] as int,
                sample - from[p],
                from[p + 1] - from[p],
            )
        }),
{
    lemma_segment_inside(from, sample as int, 0);
    lemma_segment_below(from, sample as int, 0);
    lemma_segment_stops(from, sample as int, 0);
}

/// A walk that stops before the last segment stops under a point above the sample
proof fn lemma_segment_stops(curve: Seq<u16>, sample: int, point: int)
    requires
        0 <= point,
        point + 1 < curve.len(),
    ensures
        ({
            let p = segment(curve, sample, point);
            p + 2 < curve.len() ==> sample < curve[p + 1]
        }),
    decreases curve.len() - point,
{
    if point + 2 < curve.len() && curve[point + 1] <= sample {
        lemma_segment_stops(curve, sample, point + 1);
    }
}

/// A measured point of a rising curve goes to the same point of the reference
pub proof fn law_points_map_onto_points(from: Seq<u16>, onto: Seq<u16>, point: int)
    requires
        from.len() == onto.len(),
        0 <= point < from.len(),
        forall|i: int, j: int| 0 <= i < j < from.len() ==> from[i] < from[j],
        from.len() >= 2,
    ensures
        remap(from, onto, from[point] as int) == onto[point],
{
    let s = from[point] as int;
    let stop = if point + 1 < from.len() {
        point
    } else {
        point - 1
    };
    lemma_segment_skips(from, s, 0, stop);
    assert(segment(from, s, stop) == stop);
    let span = from[stop + 1] - from[stop];
    let a = onto[stop] as int;
    let b = onto[stop + 1] as int;
    assert(0 * (b - a) / span == 0) by (nonlinear_arith)
        requires
            span > 0,
    ;
    assert(0 * (a - b) / span == 0) by (nonlinear_arith)
        requires
            span > 0,
    ;
    assert(span * (b - a) / span == b - a) by (nonlinear_arith)
        requires
            span > 0,
    ;
    assert(span * (a - b) / span == a - b) by (nonlinear_arith)
        requires
            span > 0,
    ;
}

/// A walk up a curve goes past every point at or under the sample, and stops
/// under the first one above it or at the last segment
proof fn lemma_segment_is(curve: Seq<u16>, sample: int, p: int)
    requires
        0 <= p,
        p + 1 < curve.len(),
        forall|q: int| 0 < q <= p ==> (#[trigger] curve[q]) <= sample,
        sample < curve[p + 1] || p + 2 == curve.len(),
    ensures
        segment(curve, sample, 0) == p,
{
    lemma_segment_skips(curve, sample, 0, p);
}

/// Between two points of a curve that are both measured, the value `v` of a
/// sample lies on the straight line between the same two points of the
/// reference, with the fraction cut off on the side of the lower point: scaled up
/// by the distance between the points, it is off by less than that distance
pub proof fn law_between_points_is_a_straight_line(
    from: Seq<u16>,
    onto: Seq<u16>,
    p: int,
    sample: u16,
)
    requires
        from.len() == onto.len(),
        0 <= p,
        p + 1 < from.len(),
        forall|q: int| 0 <= q <= p ==> (#[trigger] from[q]) <= sample,
        from[p] < from[p + 1],
        sample < from[p + 1] || p + 2 == from.len() && sample == from[p + 1],
    ensures
        ({
            let v = remap(from, onto, sample as int);
            let span = from[p + 1] - from[p];
            let along = sample - from[p];
            let (a, b) = (onto[p] as int, onto[p + 1] as int);
            &&& -span < (v - a) * span - along * (b - a) < span
            &&& a <= b ==> a <= v <= b && (v - a) * span <= along * (b - a) < (v - a + 1) * span
            &&& b <= a ==> b <= v <= a && (a - v) * span <= along * (a - b) < (a - v + 1) * span
            &&& sample == from[p] ==> v == a
            &&& sample == from[p + 1] ==> v == b
        }),
{
    let s = sample as int;
    lemma_segment_is(from, s, p);
    let span = from[p + 1] - from[p];
    let along = s - from[p];
    let (a, b) = (onto[p] as int, onto[p + 1] as int);
    let rise = if b >= a {
        b - a
    } else {
        a - b
    };
    let step = along * rise / span;
    assert(step * span <= along * rise < (step + 1) * span && 0 <= step <= rise) by (
        nonlinear_arith)
        requires
            step == along * rise / span,
            0 < span,
            0 <= along <= span,
            0 <= rise,
    ;
    assert((step + 1) * span == step * span + span) by (nonlinear_arith);
    let v = remap(from, onto, s);
    if b >= a {
        assert(v == a + step);
        assert(v - a == step);
        assert(along * (b - a) == along * rise);
    } else {
        assert(v == a - step);
        assert((v - a) * span == -(step * span)) by (nonlinear_arith)
            requires
                v - a == -step,
        ;
        assert(along * (b - a) == -(along * rise)) by (nonlinear_arith)
            requires
                b - a == -rise,
        ;
    }
    if a == b {
        assert(along * 0 == 0 && step * span <= 0) by (nonlinear_arith)
            requires
                step * span <= along * rise,
                rise == 0,
        ;
    }
    if along == 0 {
        assert(step == 0) by (nonlinear_arith)
            requires
                along == 0,
                0 < span,
                step == along * rise / span,
        ;
    }
    if along == span {
        assert(step == rise) by (nonlinear_arith)
            requires
                along == span,
                0 < span,
                step == along * rise / span,
        ;
    }
}

/// A sample at or above every point but the last is left alone where the last
/// segment does not rise, and where the sample is above its end
pub proof fn law_past_the_end_is_left_alone(from: Seq<u16>, onto: Seq<u16>, sample: u16)
    requires
        from.len() >= 2,
        forall|q: int| 0 <= q < from.len() - 1 ==> (#[trigger] from[q]) <= sample,
        from[from.len() - 1] <= from[from.len() - 2] || sample > from[from.len() - 1],
    ensures
        remap(from, onto, sample as int) == sample,
{
    lemma_segment_is(from, sample as int, from.len() - 2);
}

/// Over a segment that the reference rises along too, a brighter sample never
/// comes out darker
pub proof fn law_brighter_stays_brighter(from: Seq<u16>, onto: Seq<u16>, p: int, s: u16, t: u16)
    requires
        from.len() == onto.len(),
        0 <= p,
        p + 1 < from.len(),
        forall|q: int| 0 <= q <= p ==> (#[trigger] from[q]) <= s,
        from[p] < from[p + 1],
        onto[p] <= onto[p + 1],
        s <= t < from[p + 1],
    ensures
        remap(from, onto, s as int) <= remap(from, onto, t as int),
{
    law_between_points_is_a_straight_line(from, onto, p, s);
    law_between_points_is_a_straight_line(from, onto, p, t);
    let span = from[p + 1] - from[p];
    let rise = onto[p + 1] - onto[p];
    let (v, w) = (remap(from, onto, s as int) - onto[p], remap(from, onto, t as int) - onto[p]);
    assert(v <= w) by (nonlinear_arith)
        requires
            v * span <= (s - from[p]) * rise,
            (t - from[p]) * rise < (w + 1) * span,
            s <= t,
            0 <= rise,
            0 < span,
    ;
}

/// A curve is its row's run of the words: point `i` of one row's curve is as many
/// words in as there are points in the curves before it, which are those of the
/// rows before, every type of them, and of this row's types before
pub proof fn law_curves_are_laid_out_by_row_and_type(
    words: Seq<u16>,
    points: int,
    types: int,
    kind: int,
    row: int,
    i: int,
)
    requires
        0 <= i < points,
        0 <= kind < types,
        0 <= row,
        (row * types + kind) * points + points <= words.len(),
    ensures
        row_curve(words, points, types, kind, row).len() == points,
        row_curve(words, points, types, kind, row)[i] == words[row * (types * points) + kind
            * points + i],
{
    assert((row * types + kind) * points == row * (types * points) + kind * points && 0 <= row
        * types) by (nonlinear_arith)
        requires
            0 <= row,
            0 < types,
    ;
    assert(0 <= (row * types + kind) * points) by (nonlinear_arith)
        requires
            0 <= row * types + kind,
            0 < points,
    ;
}

/// A reply is made use of exactly where the page lists two points at least, a row
/// is asked for, the type is one the page has, the page has a curve for every row
/// of every type, and the words hold every point of every curve
pub proof fn law_what_a_reply_has_to_hold(ccd: &CcdMeasurement, words: int, rows: int, kind: int)
    ensures
        fits_page(ccd, words, rows, kind) <==> {
            &&& 2 <= ccd.points@.len()
            &&& 0 < rows
            &&& kind < ccd.types
            &&& ccd.types * rows <= ccd.curve_count()
            &&& ccd.points@.len() * ccd.curve_count() <= words
        },
{
    assert(ccd.types * rows == rows * ccd.types) by (nonlinear_arith);
    assert(ccd.points@.len() * ccd.curve_count() == ccd.curve_count() * ccd.points@.len())
        by (nonlinear_arith);
}

/// Along a curve that rises from point to point every sample within it is
/// followed: whichever two points it lies between, both of them included, its
/// value is on the straight line between the same two of the reference, to less
/// than one
pub proof fn law_a_rising_curve_is_followed(from: Seq<u16>, onto: Seq<u16>, p: int, sample: u16)
    requires
        from.len() == onto.len(),
        forall|i: int, j: int| 0 <= i < j < from.len() ==> from[i] < from[j],
        0 <= p,
        p + 1 < from.len(),
        from[p] <= sample <= from[p + 1],
    ensures
        ({
            let v = remap(from, onto, sample as int);
            let span = from[p + 1] - from[p];
            let off = (v - onto[p]) * span - (sample - from[p]) * (onto[p + 1] - onto[p]);
            -span < off < span
        }),
{
    assert(from[p] < from[p + 1]);
    if sample < from[p + 1] || p + 2 == from.len() {
        law_between_points_is_a_straight_line(from, onto, p, sample);
    } else {
        assert(from[p + 1] < from[p + 2]);
        law_between_points_is_a_straight_line(from, onto, p + 1, sample);
        let span = from[p + 1] - from[p];
        let rise = onto[p + 1] - onto[p];
        assert(rise * span == span * rise) by (nonlinear_arith);
    }
}

/// The middle row is the one the others are brought onto, so where its curve
/// rises none of its own samples moves; and a row that was not asked for is left
/// alone as well
pub proof fn law_the_middle_row_is_the_reference(
    ccd: &CcdMeasurement,
    words: &[u16],
    rows: usize,
    kind: usize,
    r: Option<Curves>,
    row: int,
    sample: u16,
)
    requires
        call_ensures(Curves::parse, (ccd, words, rows, kind), r),
        r is Some,
        2 * row == rows || 2 * row + 1 == rows || row < 0 || row >= rows,
        0 <= row < rows ==> rises(
            row_curve(words@, ccd.points@.len() as int, ccd.types as int, kind as int, row),
        ),
    ensures
        r->0.corrected(row, sample) == sample,
{
    let curves = r->0;
    if 0 <= row < rows {
        let points = ccd.points@.len() as int;
        let types = ccd.types as int;
        let curve = row_curve(words@, points, types, kind as int, row);
        assert(row == rows as int / 2);
        lemma_row_inside(row, rows as int, types, kind as int, ccd.curve_count(), points);
        assert(curve.len() == points);
        law_matching_rows_leave_samples_alone(curve, sample);
        assert(curves.corrected(row, sample) == remap(curve, curve, sample as int));
    } else {
        curves.law_uncovered_rows_pass_through(row, sample);
    }
}

} // verus!
