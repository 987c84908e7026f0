//! The windowing engine: which span of days a chart shows, where each record
//! falls in it, and the bounds and labels of its axes.

use crate::date::{
    days_in_month, lemma_order_is_day_order, month_shift, styled_text, Date, DateStyle, MIN_YEAR,
};
use crate::store::{Record, RecordStore};
use vstd::prelude::*;

verus! {

/// Margin kept below the lightest and above the heaviest point, in tenths.
pub const PAD: u32 = 20;

/// Lower bound of the value axis of a chart without points, in tenths.
pub const EMPTY_LOW: i64 = 20;

/// Upper bound of the value axis of a chart without points, in tenths.
pub const EMPTY_HIGH: i64 = 980;

/// The span of time a chart shows.
#[derive(Clone, Copy, Debug, PartialEq, Eq, Structural)]
pub enum ViewMode {
    /// The calendar month of the anchor.
    Month,
    /// The calendar year of the anchor.
    Year,
    /// The twelve months that end on the anchor.
    RollingYear,
}

/// The first and the last day shown, both included.
#[derive(Clone, Copy, Debug, PartialEq, Eq, Structural)]
pub struct Window {
    pub left: Date,
    pub right: Date,
}

/// A record as the chart draws it.
#[derive(Clone, Copy, Debug, PartialEq, Eq, Structural)]
pub struct PlotPoint {
    /// Days since the window's first day.
    pub day: u32,
    /// The weight, in tenths.
    pub tenths: u32,
}

impl Window {
    /// Both ends exist and the right one is not the earlier.
    pub open spec fn wf(&self) -> bool {
        self.left.wf() && self.right.wf() && !self.right.before(&self.left)
    }

    /// The day lies in the window, ends included.
    pub open spec fn contains(&self, date: Date) -> bool {
        !date.before(&self.left) && !self.right.before(&date)
    }

    /// Days from the first to the last day of the window.
    pub open spec fn span(&self) -> int {
        self.right.ordinal() - self.left.ordinal()
    }

    /// The point that stands for a record of the window.
    pub open spec fn point_of(&self, record: Record) -> PlotPoint {
        PlotPoint {
            day: (record.date.ordinal() - self.left.ordinal()) as u32,
            tenths: record.tenths,
        }
    }

    /// The points of the records that lie in the window, in the records'
    /// order; the others are left out.
    pub open spec fn points(&self, records: Seq<Record>) -> Seq<PlotPoint>
        decreases records.len(),
    {
        if records.len() == 0 {
            Seq::empty()
        } else {
            let before = self.points(records.drop_last());
            if self.contains(records.last().date) {
                before.push(self.point_of(records.last()))
            } else {
                before
            }
        }
    }

    /// Days from the first to the last day of the window; never negative.
    pub fn delta(&self) -> (r: i64)
        requires
            self.wf(),
        ensures
            r == self.span(),
            r >= 0,
    {
        proof {
            lemma_order_is_day_order(self.left, self.right);
        }
        self.left.days_until(&self.right)
    }

    /// The plot points of a store's records: each record of the window gives
    /// one point, the days since the window's first day and its weight; a
    /// record outside the window gives none.
    pub fn plot_points(&self, store: &RecordStore) -> (r: Vec<PlotPoint>)
        requires
            self.wf(),
            store.wf(),
        ensures
            r@ == self.points(store@),
    {
        let span = self.delta();
        let mut out: Vec<PlotPoint> = Vec::new();
        let count: usize = store.len();
        let mut i: usize = 0;
        while i < count
            invariant
                0 <= i <= count,
                count == store@.len(),
                self.wf(),
                store.wf(),
                span == self.span(),
                out@ == self.points(store@.take(i as int)),
            decreases count - i,
        {
            let record = store.get(i).unwrap();
            let since = self.left.days_until(&record.date);
            proof {
                lemma_order_is_day_order(self.left, record.date);
                lemma_order_is_day_order(record.date, self.right);
                lemma_order_is_day_order(record.date, Date::latest());
                lemma_order_is_day_order(Date::earliest(), self.left);
                assert(store@.take(i + 1).drop_last() == store@.take(i as int));
                assert(store@.take(i + 1).last() == record);
            }
            if 0 <= since && since <= span {
                out.push(PlotPoint { day: since as u32, tenths: record.tenths });
            }
            i = i + 1;
        }
        proof {
            assert(store@.take(count as int) == store@);
        }
        out
    }
}

/// The window of a mode anchored on a day. `Month`: the anchor's month, first
/// to last day. `Year`: 1 January to 31 December of the anchor's year.
/// `RollingYear`: from twelve calendar months before the anchor to the anchor;
/// there is none where that start lies before year 1.
pub open spec fn window_of(mode: ViewMode, anchor: Date) -> Option<Window> {
    match mode {
        ViewMode::Month => Some(
            Window {
                left: Date { year: anchor.year, month: anchor.month, day: 1 },
                right: Date {
                    year: anchor.year,
                    month: anchor.month,
                    day: days_in_month(anchor.year as int, anchor.month as int) as u32,
                },
            },
        ),
        ViewMode::Year => Some(
            Window {
                left: Date { year: anchor.year, month: 1, day: 1 },
                right: Date { year: anchor.year, month: 12, day: 31 },
            },
        ),
        ViewMode::RollingYear => match Date::of_triple(
            month_shift(anchor.year as int, anchor.month as int, anchor.day as int, -12),
        ) {
            Some(left) => Some(Window { left, right: anchor }),
            None => None,
        },
    }
}

/// The window that a mode shows around its anchor.
pub fn window_bounds(mode: ViewMode, anchor: Date) -> (r: Option<Window>)
    requires
        anchor.wf(),
    ensures
        r == window_of(mode, anchor),
        r matches Some(w) ==> w.wf(),
        r is None <==> (mode == ViewMode::RollingYear && anchor.year == MIN_YEAR),
{
    match mode {
        ViewMode::Month => Some(
            Window { left: anchor.first_of_month(), right: anchor.last_of_month() },
        ),
        ViewMode::Year => Some(
            Window {
                left: Date { year: anchor.year, month: 1, day: 1 },
                right: Date { year: anchor.year, month: 12, day: 31 },
            },
        ),
        ViewMode::RollingYear => match anchor.minus_months(12) {
            Some(left) => Some(Window { left, right: anchor }),
            None => None,
        },
    }
}

/// A record outside the window adds no point, wherever it stands among the
/// records.
pub proof fn lemma_outside_is_clipped(window: Window, records: Seq<Record>, at: int, extra: Record)
    requires
        0 <= at <= records.len(),
        !window.contains(extra.date),
    ensures
        window.points(records.insert(at, extra)) == window.points(records),
    decreases records.len() - at,
{
    let more = records.insert(at, extra);
    if at == records.len() {
        assert(more.drop_last() =~= records);
    } else {
        lemma_outside_is_clipped(window, records.drop_last(), at, extra);
        assert(more.drop_last() =~= records.drop_last().insert(at, extra));
        assert(more.last() == records.last());
    }
}

/// A record of the day before the window's first day adds no point.
pub proof fn lemma_day_before_is_clipped(
    window: Window,
    records: Seq<Record>,
    at: int,
    extra: Record,
)
    requires
        window.wf(),
        extra.date.wf(),
        0 <= at <= records.len(),
        extra.date.ordinal() == window.left.ordinal() - 1,
    ensures
        window.points(records.insert(at, extra)) == window.points(records),
{
    lemma_order_is_day_order(extra.date, window.left);
    lemma_outside_is_clipped(window, records, at, extra);
}

/// The lightest weight among the points, where there is a point.
pub open spec fn is_lightest(points: Seq<PlotPoint>, tenths: int) -> bool {
    &&& exists|i: int| 0 <= i < points.len() && (#[trigger] points[i]).tenths == tenths
    &&& forall|i: int| 0 <= i < points.len() ==> tenths <= (#[trigger] points[i]).tenths
}

/// The heaviest weight among the points, where there is a point.
pub open spec fn is_heaviest(points: Seq<PlotPoint>, tenths: int) -> bool {
    &&& exists|i: int| 0 <= i < points.len() && (#[trigger] points[i]).tenths == tenths
    &&& forall|i: int| 0 <= i < points.len() ==> tenths >= (#[trigger] points[i]).tenths
}

/// `low` and `high` bound the value axis of some points, in tenths: the
/// lightest point less the margin and the heaviest point plus the margin;
/// without points 2.0 and 98.0.
pub open spec fn are_value_bounds(points: Seq<PlotPoint>, low: int, high: int) -> bool {
    if points.len() == 0 {
        low == EMPTY_LOW && high == EMPTY_HIGH
    } else {
        is_lightest(points, low + PAD) && is_heaviest(points, high - PAD)
    }
}

/// Bounds of the value axis, in tenths.
pub fn value_bounds(points: &Vec<PlotPoint>) -> (r: (i64, i64))
    ensures
        are_value_bounds(points@, r.0 as int, r.1 as int),
{
    if points.len() == 0 {
        return (EMPTY_LOW, EMPTY_HIGH);
    }
    let mut low: u32 = points[0].tenths;
    let mut high: u32 = points[0].tenths;
    let mut i: usize = 1;
    proof {
        assert(points@.take(1)[0] == points@[0]);
    }
    while i < points.len()
        invariant
            1 <= i <= points.len(),
            is_lightest(points@.take(i as int), low as int),
            is_heaviest(points@.take(i as int), high as int),
        decreases points.len() - i,
    {
        let ghost seen = points@.take(i as int);
        let ghost next = points@.take(i + 1);
        let ghost at_low = choose|k: int| 0 <= k < seen.len() && (#[trigger] seen[k]).tenths == low;
        let ghost at_high = choose|k: int|
            0 <= k < seen.len() && (#[trigger] seen[k]).tenths == high;
        let t = points[i].tenths;
        if t < low {
            low = t;
        }
        if t > high {
            high = t;
        }
        proof {
            assert(next[i as int].tenths == t);
            assert(next[at_low] == seen[at_low]);
            assert(next[at_high] == seen[at_high]);
            assert forall|k: int| 0 <= k < next.len() implies low <= (#[trigger] next[k]).tenths
                && high >= next[k].tenths by {
                if k < i {
                    assert(next[k] == seen[k]);
                }
            }
        }
        i = i + 1;
    }
    proof {
        assert(points@.take(points.len() as int) == points@);
    }
    (low as i64 - PAD as i64, high as i64 + PAD as i64)
}

/// The anchor after one step. `Month` moves by one calendar month, `Year` by
/// twelve, both clamping the day to the month reached; `RollingYear` moves by
/// one day. A step that would leave the years 1 to 9999 leaves the anchor
/// where it is.
pub open spec fn stepped(mode: ViewMode, anchor: Date, forward: bool) -> Date {
    match mode {
        ViewMode::Month => stepped_by_months(anchor, 1, forward),
        ViewMode::Year => stepped_by_months(anchor, 12, forward),
        ViewMode::RollingYear => if forward {
            if anchor == Date::latest() { anchor } else { anchor.following() }
        } else {
            if anchor == Date::earliest() { anchor } else { anchor.preceding() }
        },
    }
}

/// Moves the anchor of a mode one step forward or back.
pub fn step_anchor(mode: ViewMode, anchor: Date, forward: bool) -> (r: Date)
    requires
        anchor.wf(),
    ensures
        r == stepped(mode, anchor, forward),
        r.wf(),
{
    let moved = match mode {
        ViewMode::Month => if forward { anchor.plus_months(1) } else { anchor.minus_months(1) },
        ViewMode::Year => if forward { anchor.plus_months(12) } else { anchor.minus_months(12) },
        ViewMode::RollingYear => if forward { anchor.next_day() } else { anchor.previous_day() },
    };
    match moved {
        Some(date) => date,
        None => anchor,
    }
}

/// The anchor moved by a number of calendar months, or the anchor itself
/// where the move would leave the years 1 to 9999.
pub open spec fn stepped_by_months(anchor: Date, months: int, forward: bool) -> Date {
    match Date::of_triple(
        month_shift(
            anchor.year as int,
            anchor.month as int,
            anchor.day as int,
            if forward { months } else { -months },
        ),
    ) {
        Some(date) => date,
        None => anchor,
    }
}

/// How the labels of the time axis are written in a mode.
pub open spec fn label_style(mode: ViewMode) -> DateStyle {
    match mode {
        ViewMode::Month => DateStyle::DayNumber,
        ViewMode::Year => DateStyle::MonthName,
        ViewMode::RollingYear => DateStyle::Full,
    }
}

/// The days that the labels of the time axis name: in `Month` the two ends of
/// the window; in the other modes the left end, four and eight calendar months
/// after it, and the right end.
pub open spec fn label_dates(mode: ViewMode, window: Window) -> Seq<Date> {
    match mode {
        ViewMode::Month => seq![window.left, window.right],
        _ => seq![
            window.left,
            stepped_by_months(window.left, 4, true),
            stepped_by_months(window.left, 8, true),
            window.right,
        ],
    }
}

/// The labels are those of the time axis of a window: each day of
/// [`label_dates`], written as a day number in `Month`, as a month's name in
/// `Year`, in full in `RollingYear`.
pub open spec fn are_axis_labels(labels: Seq<String>, mode: ViewMode, window: Window) -> bool {
    &&& labels.len() == label_dates(mode, window).len()
    &&& forall|i: int|
        0 <= i < labels.len() ==> (#[trigger] labels[i])@ == styled_text(
            label_style(mode),
            label_dates(mode, window)[i].year as int,
            label_dates(mode, window)[i].month as int,
            label_dates(mode, window)[i].day as int,
        )
}

/// The labels of the time axis for a window.
pub fn axis_labels(mode: ViewMode, window: &Window) -> (r: Vec<String>)
    requires
        window.wf(),
    ensures
        are_axis_labels(r@, mode, *window),
{
    let style = match mode {
        ViewMode::Month => DateStyle::DayNumber,
        ViewMode::Year => DateStyle::MonthName,
        ViewMode::RollingYear => DateStyle::Full,
    };
    let mut out: Vec<String> = Vec::new();
    out.push(window.left.format(style));
    match mode {
        ViewMode::Month => {},
        _ => {
            let third = match window.left.plus_months(4) {
                Some(date) => date,
                None => window.left,
            };
            let two_thirds = match window.left.plus_months(8) {
                Some(date) => date,
                None => window.left,
            };
            out.push(third.format(style));
            out.push(two_thirds.format(style));
        },
    }
    out.push(window.right.format(style));
    out
}

/// The title of the chart: the month and the year in `Month`, the year in
/// `Year`, a fixed title for the rolling window.
pub open spec fn title_of(mode: ViewMode, anchor: Date) -> Seq<char> {
    match mode {
        ViewMode::Month => styled_text(
            DateStyle::MonthYear,
            anchor.year as int,
            anchor.month as int,
            anchor.day as int,
        ),
        ViewMode::Year => styled_text(
            DateStyle::Year,
            anchor.year as int,
            anchor.month as int,
            anchor.day as int,
        ),
        ViewMode::RollingYear => "One Year Window"@,
    }
}

/// The title of the chart.
pub fn chart_title(mode: ViewMode, anchor: Date) -> (r: String)
    requires
        anchor.wf(),
    ensures
        r@ == title_of(mode, anchor),
{
    match mode {
        ViewMode::Month => anchor.format(DateStyle::MonthYear),
        ViewMode::Year => anchor.format(DateStyle::Year),
        ViewMode::RollingYear => "One Year Window".to_owned(),
    }
}

/// All that a chart draws.
pub struct Chart {
    /// The days shown.
    pub window: Window,
    /// Span of the time axis, in days.
    pub delta: i64,
    /// The records of the window.
    pub points: Vec<PlotPoint>,
    /// Lower bound of the value axis, in tenths.
    pub low: i64,
    /// Upper bound of the value axis, in tenths.
    pub high: i64,
    /// Labels of the time axis, left to right.
    pub labels: Vec<String>,
    /// The title.
    pub title: String,
}

/// The chart of a mode anchored on a day, over the records of a store: the
/// window of the mode, its span, the points of the records in it, the bounds
/// of the value axis over those points, the labels of the time axis and the
/// title. There is none exactly where the mode has no window.
pub fn chart(mode: ViewMode, anchor: Date, store: &RecordStore) -> (r: Option<Chart>)
    requires
        anchor.wf(),
        store.wf(),
    ensures
        r is Some == window_of(mode, anchor) is Some,
        r matches Some(c) ==> {
            &&& Some(c.window) == window_of(mode, anchor)
            &&& c.delta == c.window.span()
            &&& c.delta >= 0
            &&& c.points@ == c.window.points(store@)
            &&& are_value_bounds(c.points@, c.low as int, c.high as int)
            &&& are_axis_labels(c.labels@, mode, c.window)
            &&& c.title@ == title_of(mode, anchor)
        },
{
    match window_bounds(mode, anchor) {
        Some(window) => {
            let delta = window.delta();
            let points = window.plot_points(store);
            let (low, high) = value_bounds(&points);
            let labels = axis_labels(mode, &window);
            let title = chart_title(mode, anchor);
            Some(Chart { window, delta, points, low, high, labels, title })
        },
        None => None,
    }
}

} // verus!
