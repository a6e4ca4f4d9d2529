//! What the scatter and box plots show, computed from the users' solves.

use vstd::prelude::*;

use crate::models::ResultEntry;
use crate::order::{dated, sort_by_date, sorted_by_date};
use crate::stats::{
    compute_average_time, compute_moving_averages, mean_time, moving_average_dates,
    moving_average_values,
};

verus! {

/// Why a plot cannot be drawn.
#[derive(Debug, Clone, Copy, PartialEq, Eq, Structural)]
pub enum PlottingError {
    /// There are no users, or some user has no solves.
    NotEnoughEntries,
    /// No moving average to take the least of; never returned by
    /// `scatter_plot_data`, where every user with solves has averages.
    MinMovingAverageNotFound,
    /// No moving average to take the greatest of; never returned either.
    MaxMovingAverageNotFound,
}

impl PlottingError {
    /// The message shown for the error.
    pub fn to_string(&self) -> (r: String)
        ensures
            *self == PlottingError::NotEnoughEntries ==> r@
                == "Plotting error: User doesn't have enough entries to generate plot"@,
            *self == PlottingError::MinMovingAverageNotFound ==> r@
                == "Plotting error: Couldn't find minimum moving average"@,
            *self == PlottingError::MaxMovingAverageNotFound ==> r@
                == "Plotting error: Couldn't find maximum moving average"@,
    {
        match self {
            PlottingError::NotEnoughEntries => String::from_str(
                "Plotting error: User doesn't have enough entries to generate plot",
            ),
            PlottingError::MinMovingAverageNotFound => String::from_str(
                "Plotting error: Couldn't find minimum moving average",
            ),
            PlottingError::MaxMovingAverageNotFound => String::from_str(
                "Plotting error: Couldn't find maximum moving average",
            ),
        }
    }
}

/// Window of the moving average on the scatter plot.
pub const MOVING_AVERAGE_WINDOW: usize = 30;

/// Users with at most this many solves get partial windows on the scatter plot.
pub const PARTIAL_WINDOW_LIMIT: usize = 60;

/// Some user has no solves, or there are no users.
pub open spec fn lacks_entries(all: Seq<Vec<ResultEntry>>) -> bool {
    all.len() == 0 || exists|i: int| 0 <= i < all.len() && (#[trigger] all[i])@.len() == 0
}

/// `t` is `s` sorted by date, entries of one date in their order in `s`.
pub open spec fn is_sorted_by_date_from(t: Seq<ResultEntry>, s: Seq<ResultEntry>) -> bool {
    sorted_by_date(t) && forall|d: Seq<char>| #[trigger] dated(t, d) == dated(s, d)
}

/// One user's line on the scatter plot.
#[derive(Debug)]
pub struct LineTrace {
    pub dates: Vec<String>,
    pub averages: Vec<i32>,
}

/// `trace` is the moving average of `s`, taken over its entries in date order.
pub open spec fn is_moving_average_of(
    trace: LineTrace,
    s: Seq<ResultEntry>,
    include_partial: bool,
) -> bool {
    exists|t: Seq<ResultEntry>|
        #[trigger] is_sorted_by_date_from(t, s) && trace.dates@.map_values(|d: String| d@)
            == moving_average_dates(t, MOVING_AVERAGE_WINDOW as int, include_partial)
            && trace.averages@.map_values(|a: i32| a as int) == moving_average_values(
            t,
            MOVING_AVERAGE_WINDOW as int,
            include_partial,
        )
}

/// `m` is the least average of all the traces.
pub open spec fn is_lowest_average(traces: Seq<LineTrace>, m: int) -> bool {
    &&& forall|i: int, k: int|
        0 <= i < traces.len() && 0 <= k < traces[i].averages@.len() ==> m
            <= #[trigger] traces[i].averages@[k]
    &&& exists|i: int, k: int|
        0 <= i < traces.len() && 0 <= k < traces[i].averages@.len() && m
            == #[trigger] traces[i].averages@[k]
}

/// `m` is the greatest average of all the traces.
pub open spec fn is_highest_average(traces: Seq<LineTrace>, m: int) -> bool {
    &&& forall|i: int, k: int|
        0 <= i < traces.len() && 0 <= k < traces[i].averages@.len() ==> m
            >= #[trigger] traces[i].averages@[k]
    &&& exists|i: int, k: int|
        0 <= i < traces.len() && 0 <= k < traces[i].averages@.len() && m
            == #[trigger] traces[i].averages@[k]
}

/// The moving-average scatter plot: one line per user and the time axis range.
#[derive(Debug)]
pub struct ScatterPlotData {
    pub traces: Vec<LineTrace>,
    pub include_partial: bool,
    pub min_average: i32,
    pub max_average: i32,
    /// Bottom of the time axis: 90% of the least average, rounded down.
    pub y_min: i64,
    /// Top of the time axis: 110% of the greatest average, rounded down.
    pub y_max: i64,
}

/// `x * num / 10`, rounded down.
fn tenths_floor(x: i32, num: i64) -> (r: i64)
    requires
        0 <= num <= 20,
    ensures
        r == (x * num) / 10,
{
    assert(-0x8000_0000 * 20 <= (x as i64) * num <= 0x8000_0000 * 20) by (nonlinear_arith)
        requires
            -0x8000_0000 <= x < 0x8000_0000,
            0 <= num <= 20,
    ;
    let p: i64 = (x as i64) * num;
    if p >= 0 {
        p / 10
    } else {
        let q = -((-p + 9) / 10);
        assert(q == p / 10) by (nonlinear_arith)
            requires
                p < 0,
                q == -((-p + 9) / 10),
        ;
        q
    }
}

/// Least and greatest value of a non-empty vector.
fn extremes(v: &Vec<i32>) -> (r: (i32, i32))
    requires
        v@.len() > 0,
    ensures
        forall|k: int| 0 <= k < v@.len() ==> r.0 <= #[trigger] v@[k] <= r.1,
        exists|k: int| 0 <= k < v@.len() && r.0 == #[trigger] v@[k],
        exists|k: int| 0 <= k < v@.len() && r.1 == #[trigger] v@[k],
{
    let mut lo = v[0];
    let mut hi = v[0];
    let mut k: usize = 1;
    while k < v.len()
        invariant
            1 <= k <= v@.len(),
            forall|j: int| 0 <= j < k ==> lo <= #[trigger] v@[j] <= hi,
            exists|j: int| 0 <= j < k && lo == #[trigger] v@[j],
            exists|j: int| 0 <= j < k && hi == #[trigger] v@[j],
        decreases v@.len() - k,
    {
        if v[k] < lo {
            lo = v[k];
        }
        if v[k] > hi {
            hi = v[k];
        }
        k = k + 1;
    }
    (lo, hi)
}

proof fn lemma_extremes_push(
    traces: Seq<LineTrace>,
    t: LineTrace,
    lo: int,
    hi: int,
    t_lo: int,
    t_hi: int,
)
    requires
        traces.len() > 0 ==> is_lowest_average(traces, lo) && is_highest_average(traces, hi),
        forall|k: int| 0 <= k < t.averages@.len() ==> t_lo <= #[trigger] t.averages@[k] <= t_hi,
        exists|k: int| 0 <= k < t.averages@.len() && t_lo == #[trigger] t.averages@[k],
        exists|k: int| 0 <= k < t.averages@.len() && t_hi == #[trigger] t.averages@[k],
    ensures
        is_lowest_average(
            traces.push(t),
            if traces.len() > 0 && lo <= t_lo {
                lo
            } else {
                t_lo
            },
        ),
        is_highest_average(
            traces.push(t),
            if traces.len() > 0 && hi >= t_hi {
                hi
            } else {
                t_hi
            },
        ),
{
    let all = traces.push(t);
    let n = traces.len() as int;
    assert(all[n] == t);
    assert forall|i: int| 0 <= i < n implies all[i] == traces[i] by {}
    let kl = choose|k: int| 0 <= k < t.averages@.len() && t_lo == #[trigger] t.averages@[k];
    let kh = choose|k: int| 0 <= k < t.averages@.len() && t_hi == #[trigger] t.averages@[k];
    assert(all[n].averages@[kl] == t_lo);
    assert(all[n].averages@[kh] == t_hi);
    if n > 0 {
        let (il, jl) = choose|i: int, k: int|
            0 <= i < traces.len() && 0 <= k < traces[i].averages@.len() && lo
                == #[trigger] traces[i].averages@[k];
        let (ih, jh) = choose|i: int, k: int|
            0 <= i < traces.len() && 0 <= k < traces[i].averages@.len() && hi
                == #[trigger] traces[i].averages@[k];
        assert(all[il].averages@[jl] == lo);
        assert(all[ih].averages@[jh] == hi);
    }
}

/// The data of the moving-average scatter plot of several users' solves.
///
/// Each user's solves are put in date order and averaged over windows of
/// `MOVING_AVERAGE_WINDOW`, with partial windows when some user has at most
/// `PARTIAL_WINDOW_LIMIT` solves. The time axis runs from 90% of the least
/// average to 110% of the greatest, both rounded down.
pub fn scatter_plot_data(all_user_entries: &[Vec<ResultEntry>]) -> (r: Result<
    ScatterPlotData,
    PlottingError,
>)
    ensures
        r is Err <==> lacks_entries(all_user_entries@),
        r matches Err(e) ==> e == PlottingError::NotEnoughEntries,
        r matches Ok(p) ==> {
            &&& p.traces@.len() == all_user_entries@.len()
            &&& p.include_partial == exists|i: int|
                0 <= i < all_user_entries@.len() && (#[trigger] all_user_entries@[i])@.len()
                    <= PARTIAL_WINDOW_LIMIT
            &&& forall|i: int|
                0 <= i < all_user_entries@.len() ==> is_moving_average_of(
                    #[trigger] p.traces@[i],
                    all_user_entries@[i]@,
                    p.include_partial,
                )
            &&& is_lowest_average(p.traces@, p.min_average as int)
            &&& is_highest_average(p.traces@, p.max_average as int)
            &&& p.y_min == (p.min_average * 9) / 10
            &&& p.y_max == (p.max_average * 11) / 10
        },
{
    let n = all_user_entries.len();
    if n == 0 {
        return Err(PlottingError::NotEnoughEntries);
    }
    let mut shortest: usize = all_user_entries[0].len();
    let mut j: usize = 1;
    while j < n
        invariant
            n == all_user_entries@.len(),
            1 <= j <= n,
            forall|i: int| 0 <= i < j ==> shortest <= (#[trigger] all_user_entries@[i])@.len(),
            exists|i: int| 0 <= i < j && shortest == (#[trigger] all_user_entries@[i])@.len(),
        decreases n - j,
    {
        if all_user_entries[j].len() < shortest {
            shortest = all_user_entries[j].len();
        }
        j = j + 1;
    }
    if shortest == 0 {
        return Err(PlottingError::NotEnoughEntries);
    }
    let include_partial = shortest <= PARTIAL_WINDOW_LIMIT;
    let mut traces: Vec<LineTrace> = Vec::new();
    let mut min_average: i32 = 0;
    let mut max_average: i32 = 0;
    let mut u: usize = 0;
    while u < n
        invariant
            n == all_user_entries@.len(),
            u <= n,
            forall|i: int| 0 <= i < n ==> shortest <= (#[trigger] all_user_entries@[i])@.len(),
            shortest > 0,
            include_partial == (shortest <= PARTIAL_WINDOW_LIMIT),
            traces@.len() == u,
            forall|i: int|
                0 <= i < u ==> is_moving_average_of(
                    #[trigger] traces@[i],
                    all_user_entries@[i]@,
                    include_partial,
                ),
            u > 0 ==> is_lowest_average(traces@, min_average as int),
            u > 0 ==> is_highest_average(traces@, max_average as int),
        decreases n - u,
    {
        let sorted = sort_by_date(all_user_entries[u].as_slice());
        let (dates, averages) = compute_moving_averages(
            sorted.as_slice(),
            MOVING_AVERAGE_WINDOW,
            include_partial,
        );
        proof {
            assert(averages@.map_values(|a: i32| a as int).len() == averages@.len());
            assert(sorted@.len() >= shortest);
        }
        let (lo, hi) = extremes(&averages);
        let trace = LineTrace { dates, averages };
        proof {
            assert(is_sorted_by_date_from(sorted@, all_user_entries@[u as int]@));
            assert(is_moving_average_of(trace, all_user_entries@[u as int]@, include_partial));
            lemma_extremes_push(
                traces@,
                trace,
                min_average as int,
                max_average as int,
                lo as int,
                hi as int,
            );
        }
        if u == 0 || lo < min_average {
            min_average = lo;
        }
        if u == 0 || hi > max_average {
            max_average = hi;
        }
        traces.push(trace);
        u = u + 1;
    }
    let y_min = tenths_floor(min_average, 9);
    let y_max = tenths_floor(max_average, 11);
    Ok(ScatterPlotData { traces, include_partial, min_average, max_average, y_min, y_max })
}

/// One user's box on the box plot.
#[derive(Debug)]
pub struct BoxTrace {
    /// The user's name, taken from their first solve.
    pub name: String,
    pub times: Vec<i32>,
}

/// The box plot of solving times: one box per user and the top of the time axis.
#[derive(Debug)]
pub struct BoxPlotData {
    pub traces: Vec<BoxTrace>,
    /// The greatest of the users' mean times.
    pub max_average: i32,
    /// Top of the time axis: three times the greatest mean time.
    pub y_max: i64,
}

/// The solving times of `s`, in order.
fn times_of(s: &Vec<ResultEntry>) -> (r: Vec<i32>)
    ensures
        r@ == s@.map_values(|e: ResultEntry| e.time),
{
    let mut out: Vec<i32> = Vec::new();
    let mut k: usize = 0;
    while k < s.len()
        invariant
            k <= s@.len(),
            out@ == s@.subrange(0, k as int).map_values(|e: ResultEntry| e.time),
        decreases s@.len() - k,
    {
        out.push(s[k].time);
        k = k + 1;
        assert(out@ =~= s@.subrange(0, k as int).map_values(|e: ResultEntry| e.time));
    }
    assert(s@.subrange(0, k as int) =~= s@);
    out
}

/// The data of the box plot of several users' solving times.
///
/// Each user gets a box of all their times, named after their first solve;
/// the time axis runs up to three times the greatest of the users' mean times.
pub fn box_plot_data(all_user_entries: &[Vec<ResultEntry>]) -> (r: Result<
    BoxPlotData,
    PlottingError,
>)
    ensures
        r is Err <==> lacks_entries(all_user_entries@),
        r matches Err(e) ==> e == PlottingError::NotEnoughEntries,
        r matches Ok(p) ==> {
            &&& p.traces@.len() == all_user_entries@.len()
            &&& forall|i: int|
                0 <= i < all_user_entries@.len() ==> {
                    &&& (#[trigger] p.traces@[i]).name == all_user_entries@[i]@[0].username
                    &&& p.traces@[i].times@ == all_user_entries@[i]@.map_values(
                        |e: ResultEntry| e.time,
                    )
                }
            &&& forall|i: int|
                0 <= i < all_user_entries@.len() ==> mean_time(
                    (#[trigger] all_user_entries@[i])@,
                ) <= p.max_average
            &&& exists|i: int|
                0 <= i < all_user_entries@.len() && mean_time(
                    (#[trigger] all_user_entries@[i])@,
                ) == p.max_average
            &&& p.y_max == 3 * p.max_average
        },
{
    let n = all_user_entries.len();
    if n == 0 {
        return Err(PlottingError::NotEnoughEntries);
    }
    let mut j: usize = 0;
    while j < n
        invariant
            n == all_user_entries@.len(),
            j <= n,
            forall|i: int| 0 <= i < j ==> (#[trigger] all_user_entries@[i])@.len() > 0,
        decreases n - j,
    {
        if all_user_entries[j].len() == 0 {
            return Err(PlottingError::NotEnoughEntries);
        }
        j = j + 1;
    }
    let mut traces: Vec<BoxTrace> = Vec::new();
    let mut max_average: i32 = 0;
    let mut u: usize = 0;
    while u < n
        invariant
            n == all_user_entries@.len(),
            u <= n,
            forall|i: int| 0 <= i < n ==> (#[trigger] all_user_entries@[i])@.len() > 0,
            traces@.len() == u,
            forall|i: int|
                0 <= i < u ==> {
                    &&& (#[trigger] traces@[i]).name == all_user_entries@[i]@[0].username
                    &&& traces@[i].times@ == all_user_entries@[i]@.map_values(
                        |e: ResultEntry| e.time,
                    )
                },
            forall|i: int|
                0 <= i < u ==> mean_time((#[trigger] all_user_entries@[i])@) <= max_average,
            u > 0 ==> exists|i: int|
                0 <= i < u && mean_time((#[trigger] all_user_entries@[i])@) == max_average,
        decreases n - u,
    {
        let entries = &all_user_entries[u];
        let average = compute_average_time(entries.as_slice()).unwrap();
        if u == 0 || average > max_average {
            max_average = average;
        }
        let trace = BoxTrace { name: entries[0].username.clone(), times: times_of(entries) };
        traces.push(trace);
        u = u + 1;
    }
    Ok(BoxPlotData { traces, max_average, y_max: 3 * (max_average as i64) })
}

} // verus!
