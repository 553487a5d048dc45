//! The event history: spike and change events, and the time window by
//! which they are queried. Timestamps are milliseconds since the Unix epoch,
//! in UTC.

use vstd::prelude::*;
use crate::order::{lemma_newest_first, lemma_since, newest_first, select_since, since, Stamped};

verus! {

/// Milliseconds in one day.
pub const MILLIS_PER_DAY: i64 = 86_400_000;

/// A short-lived resource-usage excursion above a fixed threshold.
/// `peak_value` is in hundredths of the metric's unit (of a percent for
/// `Cpu`).
#[derive(Clone, Debug)]
pub struct SpikeEvent {
    pub id: Option<i64>,
    pub start_utc: i64,
    pub end_utc: i64,
    pub pid: Option<i32>,
    pub process_name: Option<String>,
    pub metric: String,
    pub peak_value: u128,
    pub duration_seconds: u64,
    pub context: Option<String>,
    pub possible_leak: bool,
}

/// An audit-log entry for a state change (a kill, a toggle, a service
/// action, a completed scan).
#[derive(Clone, Debug)]
pub struct ChangeEvent {
    pub id: Option<i64>,
    pub detected_utc: i64,
    pub category: String,
    pub change_type: String,
    pub name: Option<String>,
    pub path: Option<String>,
    pub details: Option<String>,
    pub is_approved: bool,
    pub is_ignored: bool,
}

/// The view of an optional text.
pub open spec fn opt_seq(s: Option<String>) -> Option<Seq<char>> {
    match s {
        Some(t) => Some(t@),
        None => None,
    }
}

/// A spike event with its texts as character sequences.
pub struct SpikeView {
    pub id: Option<i64>,
    pub start_utc: i64,
    pub end_utc: i64,
    pub pid: Option<i32>,
    pub process_name: Option<Seq<char>>,
    pub metric: Seq<char>,
    pub peak_value: u128,
    pub duration_seconds: u64,
    pub context: Option<Seq<char>>,
    pub possible_leak: bool,
}

impl View for SpikeEvent {
    type V = SpikeView;

    open spec fn view(&self) -> SpikeView {
        SpikeView {
            id: self.id,
            start_utc: self.start_utc,
            end_utc: self.end_utc,
            pid: self.pid,
            process_name: opt_seq(self.process_name),
            metric: self.metric@,
            peak_value: self.peak_value,
            duration_seconds: self.duration_seconds,
            context: opt_seq(self.context),
            possible_leak: self.possible_leak,
        }
    }
}

/// A change event with its texts as character sequences.
pub struct ChangeView {
    pub id: Option<i64>,
    pub detected_utc: i64,
    pub category: Seq<char>,
    pub change_type: Seq<char>,
    pub name: Option<Seq<char>>,
    pub path: Option<Seq<char>>,
    pub details: Option<Seq<char>>,
    pub is_approved: bool,
    pub is_ignored: bool,
}

impl View for ChangeEvent {
    type V = ChangeView;

    open spec fn view(&self) -> ChangeView {
        ChangeView {
            id: self.id,
            detected_utc: self.detected_utc,
            category: self.category@,
            change_type: self.change_type@,
            name: opt_seq(self.name),
            path: opt_seq(self.path),
            details: opt_seq(self.details),
            is_approved: self.is_approved,
            is_ignored: self.is_ignored,
        }
    }
}

/// How many days a history request covers when it names none.
pub const DEFAULT_HISTORY_DAYS: i64 = 7;

/// The days a history request covers: the given number, or a week.
pub fn history_days(days_back: Option<i64>) -> (r: i64)
    ensures
        r == match days_back {
            Some(d) => d,
            None => DEFAULT_HISTORY_DAYS,
        },
{
    match days_back {
        Some(d) => d,
        None => DEFAULT_HISTORY_DAYS,
    }
}

/// How many days back a query reaches: at least one.
pub open spec fn effective_days(days_back: int) -> int {
    if days_back < 1 {
        1
    } else {
        days_back
    }
}

/// The earliest timestamp that a query made at `now` for `days_back` days
/// returns.
pub open spec fn window_floor(now: int, days_back: int) -> int {
    now - effective_days(days_back) * MILLIS_PER_DAY
}

/// Whether an event stamped `ts` lies in the window of a query made at `now`
/// for `days_back` days.
pub open spec fn in_window(ts: int, now: int, days_back: int) -> bool {
    ts >= window_floor(now, days_back)
}

/// The earliest timestamp in the window of a query made at `now` for
/// `days_back` days (at least one day); where that lies before the earliest
/// representable instant, the earliest representable instant.
pub fn window_start(now: i64, days_back: i64) -> (r: i64)
    ensures
        r == if window_floor(now as int, days_back as int) < i64::MIN {
            i64::MIN as int
        } else {
            window_floor(now as int, days_back as int)
        },
        forall|ts: i64| ts >= r <==> in_window(ts as int, now as int, days_back as int),
{
    let days: i64 = if days_back < 1 {
        1
    } else {
        days_back
    };
    let span: i128 = days as i128 * 86_400_000i128;
    assert(span == days * MILLIS_PER_DAY);
    let floor: i128 = now as i128 - span;
    if floor < i64::MIN as i128 {
        i64::MIN
    } else {
        floor as i64
    }
}

impl Stamped for SpikeEvent {
    open spec fn stamp_spec(&self) -> int {
        self.start_utc as int
    }

    fn stamp(&self) -> (r: i64) {
        self.start_utc
    }
}

impl Stamped for ChangeEvent {
    open spec fn stamp_spec(&self) -> int {
        self.detected_utc as int
    }

    fn stamp(&self) -> (r: i64) {
        self.detected_utc
    }
}

/// What a query made at `now` for `days_back` days returns from the stored
/// records: those in the window, newest first (equal stamps in storage
/// order).
pub open spec fn query_result<T: Stamped>(rows: Seq<T>, now: i64, days_back: i64) -> Seq<T> {
    newest_first(since(rows, window_floor(now as int, days_back as int)))
}

/// A stamp at or after the clamped floor is one at or after the exact floor.
proof fn lemma_since_clamped<T: Stamped>(rows: Seq<T>, floor: i64, exact: int)
    requires
        forall|t: T| #[trigger] t.stamp_spec() >= i64::MIN && t.stamp_spec() <= i64::MAX,
        floor as int == if exact < i64::MIN {
            i64::MIN as int
        } else {
            exact
        },
    ensures
        since(rows, floor as int) == since(rows, exact),
    decreases rows.len(),
{
    if rows.len() > 0 {
        lemma_since_clamped(rows.drop_last(), floor, exact);
        let ts = rows.last().stamp_spec();
        assert(ts >= floor <==> ts >= exact);
    }
}

/// Every stamp of a spike event is an `i64`.
proof fn lemma_spike_stamps()
    ensures
        forall|t: SpikeEvent| #[trigger] t.stamp_spec() >= i64::MIN && t.stamp_spec() <= i64::MAX,
{
}

/// Every stamp of a change event is an `i64`.
proof fn lemma_change_stamps()
    ensures
        forall|t: ChangeEvent| #[trigger] t.stamp_spec() >= i64::MIN && t.stamp_spec() <= i64::MAX,
{
}

/// The stored spike events that a query made at `now` for `days_back` days
/// returns: those started no earlier than `max(days_back, 1)` days before
/// `now`, newest first.
pub fn select_spikes(rows: Vec<SpikeEvent>, now: i64, days_back: i64) -> (r: Vec<SpikeEvent>)
    ensures
        r@ == query_result(rows@, now, days_back),
{
    let floor = window_start(now, days_back);
    proof {
        lemma_spike_stamps();
        lemma_since_clamped(rows@, floor, window_floor(now as int, days_back as int));
    }
    select_since(rows, floor)
}

/// The stored change events that a query made at `now` for `days_back`
/// days returns: those detected no earlier than `max(days_back, 1)` days
/// before `now`, newest first.
pub fn select_changes(rows: Vec<ChangeEvent>, now: i64, days_back: i64) -> (r: Vec<ChangeEvent>)
    ensures
        r@ == query_result(rows@, now, days_back),
{
    let floor = window_start(now, days_back);
    proof {
        lemma_change_stamps();
        lemma_since_clamped(rows@, floor, window_floor(now as int, days_back as int));
    }
    select_since(rows, floor)
}

/// A query returns each stored record exactly when it lies in the window,
/// unchanged, and returns the records newest first.
pub proof fn lemma_query_result<T: Stamped>(rows: Seq<T>, now: i64, days_back: i64)
    ensures
        forall|e: T|
            query_result(rows, now, days_back).contains(e) <==> (rows.contains(e) && in_window(
                e.stamp_spec(),
                now as int,
                days_back as int,
            )),
        crate::order::is_newest_first(query_result(rows, now, days_back)),
{
    let f = window_floor(now as int, days_back as int);
    lemma_since(rows, f);
    lemma_newest_first(since(rows, f));
}

/// A record stored with a stamp no earlier than one day before a query is
/// returned by that query, unchanged, for any `days_back` (one included).
pub proof fn lemma_recent_record_returned<T: Stamped>(rows: Seq<T>, e: T, now: i64, days_back: i64)
    requires
        rows.contains(e),
        e.stamp_spec() >= now - MILLIS_PER_DAY,
    ensures
        query_result(rows, now, days_back).contains(e),
{
    lemma_query_result(rows, now, days_back);
    assert(effective_days(days_back as int) * MILLIS_PER_DAY >= MILLIS_PER_DAY) by (nonlinear_arith)
        requires
            effective_days(days_back as int) >= 1,
    ;
}

/// The window's edge: a record stamped exactly `d` days before the query
/// is returned exactly when the query reaches back at least `d` days
/// (`days_back` below one counting as one).
pub proof fn lemma_window_edge(now: int, d: int, days_back: int)
    ensures
        in_window(now - d * MILLIS_PER_DAY, now, days_back) <==> d <= effective_days(days_back),
{
    let e = effective_days(days_back);
    assert(d * MILLIS_PER_DAY <= e * MILLIS_PER_DAY <==> d <= e) by (nonlinear_arith);
}

} // verus!
