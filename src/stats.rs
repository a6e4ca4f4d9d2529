//! Averages over sequences of solves.

use vstd::prelude::*;

use crate::models::ResultEntry;

verus! {

/// Sum of the solving times of `s`.
pub open spec fn sum_times(s: Seq<ResultEntry>) -> int
    decreases s.len(),
{
    if s.len() == 0 {
        0
    } else {
        sum_times(s.drop_last()) + s.last().time
    }
}

/// Integer quotient of `a` by a positive `b`, truncated toward zero.
pub open spec fn div_toward_zero(a: int, b: int) -> int {
    if a >= 0 {
        a / b
    } else {
        -((-a) / b)
    }
}

/// Mean solving time of `s`, truncated toward zero.
pub open spec fn mean_time(s: Seq<ResultEntry>) -> int {
    div_toward_zero(sum_times(s), s.len() as int)
}

/// First index of the window of `interval` entries that ends at index `i`.
pub open spec fn window_start(i: int, interval: int) -> int {
    if i - (interval - 1) > 0 {
        i - (interval - 1)
    } else {
        0
    }
}

/// Mean of the window of `interval` entries (fewer at the start) that ends at index `i`.
pub open spec fn moving_average_at(s: Seq<ResultEntry>, i: int, interval: int) -> int {
    mean_time(s.subrange(window_start(i, interval), i + 1))
}

/// Index of the first entry that gets a moving average.
pub open spec fn first_averaged(interval: int, include_partial: bool) -> int {
    if include_partial {
        0
    } else {
        interval - 1
    }
}

/// Number of moving averages over `len` entries.
pub open spec fn moving_average_count(len: int, interval: int, include_partial: bool) -> nat {
    let first = first_averaged(interval, include_partial);
    if len > first {
        (len - first) as nat
    } else {
        0
    }
}

/// The dates at which moving averages are reported, in input order.
pub open spec fn moving_average_dates(s: Seq<ResultEntry>, interval: int, include_partial: bool) -> Seq<
    Seq<char>,
> {
    let first = first_averaged(interval, include_partial);
    Seq::new(
        moving_average_count(s.len() as int, interval, include_partial),
        |k: int| s[k + first].date@,
    )
}

/// The moving averages, in input order.
pub open spec fn moving_average_values(s: Seq<ResultEntry>, interval: int, include_partial: bool) -> Seq<
    int,
> {
    let first = first_averaged(interval, include_partial);
    Seq::new(
        moving_average_count(s.len() as int, interval, include_partial),
        |k: int| moving_average_at(s, k + first, interval),
    )
}

/// Failures of the statistics functions.
#[derive(Debug, Clone, Copy, PartialEq, Eq, Structural)]
pub enum StatsError {
    /// There are not enough entries to compute the value.
    InsufficientData,
    /// A selected position lies past the end of the data.
    IndexOutOfBounds,
}

proof fn lemma_quotient_bounds(sum: int, n: int, lo: int, hi: int)
    requires
        n > 0,
        lo <= 0 <= hi,
        n * lo <= sum <= n * hi,
    ensures
        lo <= div_toward_zero(sum, n) <= hi,
{
    if sum >= 0 {
        vstd::arithmetic::div_mod::lemma_div_is_ordered(sum, n * hi, n);
        vstd::arithmetic::div_mod::lemma_div_multiples_vanish(hi, n);
        vstd::arithmetic::div_mod::lemma_div_pos_is_pos(sum, n);
    } else {
        assert(-sum <= n * (-lo)) by (nonlinear_arith)
            requires
                n * lo <= sum,
        ;
        vstd::arithmetic::div_mod::lemma_div_is_ordered(-sum, n * (-lo), n);
        vstd::arithmetic::div_mod::lemma_div_multiples_vanish(-lo, n);
        vstd::arithmetic::div_mod::lemma_div_pos_is_pos(-sum, n);
    }
}

/// Sums the times of `entries[start..end]`.
fn window_sum(entries: &[ResultEntry], start: usize, end: usize) -> (r: i128)
    requires
        start <= end <= entries@.len(),
    ensures
        r == sum_times(entries@.subrange(start as int, end as int)),
        (end - start) * (i32::MIN as int) <= r <= (end - start) * (i32::MAX as int),
{
    let mut sum: i128 = 0;
    let mut i: usize = start;
    while i < end
        invariant
            start <= i <= end <= entries@.len(),
            sum == sum_times(entries@.subrange(start as int, i as int)),
            (i - start) * (i32::MIN as int) <= sum <= (i - start) * (i32::MAX as int),
        decreases end - i,
    {
        assert(entries@.subrange(start as int, i + 1).drop_last()
            =~= entries@.subrange(start as int, i as int));
        sum = sum + entries[i].time as i128;
        i = i + 1;
    }
    sum
}

/// Truncating quotient of a window sum by the window length.
fn window_mean(sum: i128, n: usize) -> (r: i32)
    requires
        n > 0,
        n * (i32::MIN as int) <= sum <= n * (i32::MAX as int),
    ensures
        r == div_toward_zero(sum as int, n as int),
{
    proof {
        lemma_quotient_bounds(sum as int, n as int, i32::MIN as int, i32::MAX as int);
    }
    let q: i128 = if sum >= 0 {
        sum / (n as i128)
    } else {
        -((-sum) / (n as i128))
    };
    q as i32
}

/// Mean solving time of `entries`, truncated toward zero.
pub fn compute_average_time(entries: &[ResultEntry]) -> (r: Result<i32, StatsError>)
    ensures
        entries@.len() == 0 ==> r == Err::<i32, StatsError>(StatsError::InsufficientData),
        entries@.len() > 0 ==> r == Ok::<i32, StatsError>(mean_time(entries@) as i32),
        r matches Ok(v) ==> v == mean_time(entries@),
{
    let n = entries.len();
    if n == 0 {
        return Err(StatsError::InsufficientData);
    }
    let sum = window_sum(entries, 0, n);
    assert(entries@.subrange(0, n as int) =~= entries@);
    Ok(window_mean(sum, n))
}

/// Moving averages of the solving times over windows of `interval` entries.
///
/// Entry `i` gets the mean of entries `max(0, i - interval + 1) ..= i`; with
/// `include_partial` false only entries with a full window are reported. The
/// dates of the reported entries come back alongside, in input order.
pub fn compute_moving_averages(entries: &[ResultEntry], interval: usize, include_partial: bool) -> (r: (
    Vec<String>,
    Vec<i32>,
))
    requires
        interval >= 1,
    ensures
        r.0@.map_values(|d: String| d@) == moving_average_dates(
            entries@,
            interval as int,
            include_partial,
        ),
        r.1@.map_values(|a: i32| a as int) == moving_average_values(
            entries@,
            interval as int,
            include_partial,
        ),
{
    let n = entries.len();
    let first: usize = if include_partial {
        0
    } else {
        interval - 1
    };
    let mut dates: Vec<String> = Vec::new();
    let mut averages: Vec<i32> = Vec::new();
    let mut i: usize = first;
    while i < n
        invariant
            n == entries@.len(),
            first == first_averaged(interval as int, include_partial),
            interval >= 1,
            first <= i,
            i <= n || i == first,
            dates@.len() == averages@.len(),
            dates@.len() == if i <= n { i - first } else { 0 },
            forall|k: int|
                0 <= k < dates@.len() ==> #[trigger] dates@[k]@ == entries@[k + first].date@,
            forall|k: int|
                0 <= k < averages@.len() ==> #[trigger] averages@[k] == moving_average_at(
                    entries@,
                    k + first,
                    interval as int,
                ),
        decreases n - i,
    {
        let start: usize = if i >= interval - 1 {
            i - (interval - 1)
        } else {
            0
        };
        let sum = window_sum(entries, start, i + 1);
        let average = window_mean(sum, i + 1 - start);
        dates.push(entries[i].date.clone());
        averages.push(average);
        i = i + 1;
    }
    assert(dates@.map_values(|d: String| d@) =~= moving_average_dates(
        entries@,
        interval as int,
        include_partial,
    ));
    assert(averages@.map_values(|a: i32| a as int) =~= moving_average_values(
        entries@,
        interval as int,
        include_partial,
    ));
    (dates, averages)
}

/// Position that percent `p` selects among `len` entries, before clamping.
pub open spec fn percentile_position(p: int, len: int) -> int {
    p * len / 100
}

/// Position that percent `p` selects among `len` entries; the end clamps to the last entry.
pub open spec fn percentile_index(p: int, len: int) -> int {
    if percentile_position(p, len) == len {
        len - 1
    } else {
        percentile_position(p, len)
    }
}

/// The times at the positions that `percents` select, in reverse order of `percents`.
pub open spec fn percentile_times(entries: Seq<ResultEntry>, percents: Seq<u32>) -> Seq<int> {
    Seq::new(
        percents.len(),
        |k: int|
            entries[percentile_index(percents[percents.len() - 1 - k] as int, entries.len() as int)].time
                as int,
    )
}

/// Whether some percent selects a position past the end of `len` entries.
pub open spec fn percentile_out_of_bounds(percents: Seq<u32>, len: int) -> bool {
    exists|j: int| 0 <= j < percents.len() && percentile_position(#[trigger] percents[j] as int, len) > len
}

/// Times at the given percents of `sorted_entries`, which callers keep in
/// ascending order of time.
///
/// Percent `p` selects position `floor(p / 100 * len)`, clamped to the last
/// entry when it equals the length. The result lists the selected times in
/// reverse order of `percents`, so ascending percents give the slowest first.
pub fn compute_percentiles(sorted_entries: &[ResultEntry], percents: &[u32]) -> (r: Result<
    Vec<i32>,
    StatsError,
>)
    ensures
        sorted_entries@.len() == 0 ==> r == Err::<Vec<i32>, StatsError>(
            StatsError::InsufficientData,
        ),
        sorted_entries@.len() > 0 && percentile_out_of_bounds(
            percents@,
            sorted_entries@.len() as int,
        ) ==> r == Err::<Vec<i32>, StatsError>(StatsError::IndexOutOfBounds),
        sorted_entries@.len() > 0 && !percentile_out_of_bounds(
            percents@,
            sorted_entries@.len() as int,
        ) ==> r is Ok,
        r matches Ok(times) ==> times@.map_values(|t: i32| t as int) == percentile_times(
            sorted_entries@,
            percents@,
        ),
{
    let n = sorted_entries.len();
    if n == 0 {
        return Err(StatsError::InsufficientData);
    }
    let m = percents.len();
    let mut times: Vec<i32> = Vec::new();
    let mut k: usize = 0;
    while k < m
        invariant
            n == sorted_entries@.len(),
            n > 0,
            m == percents@.len(),
            k <= m,
            times@.len() == k,
            forall|j: int|
                m - k <= j < m ==> percentile_position(#[trigger] percents@[j] as int, n as int)
                    <= n,
            forall|i: int|
                0 <= i < k ==> #[trigger] times@[i] as int == percentile_times(
                    sorted_entries@,
                    percents@,
                )[i],
        decreases m - k,
    {
        let p = percents[m - 1 - k];
        assert((p as u128) * (n as u128) <= 0x1_0000_0000u128 * 0x1_0000_0000_0000_0000u128)
            by (nonlinear_arith)
            requires
                (p as u128) < 0x1_0000_0000u128,
                (n as u128) < 0x1_0000_0000_0000_0000u128,
        ;
        let position: u128 = (p as u128) * (n as u128) / 100;
        if position > n as u128 {
            assert(percentile_position(percents@[m - 1 - k] as int, n as int) > n);
            return Err(StatsError::IndexOutOfBounds);
        }
        let index: usize = if position == n as u128 {
            n - 1
        } else {
            position as usize
        };
        times.push(sorted_entries[index].time);
        k = k + 1;
    }
    assert(!percentile_out_of_bounds(percents@, n as int));
    assert(times@.map_values(|t: i32| t as int) =~= percentile_times(sorted_entries@, percents@));
    Ok(times)
}

/// With every percent below 100 nothing is clamped: the result is the time at
/// position `floor(p / 100 * len)` for each percent `p`, listed in reverse
/// order of the percents.
pub proof fn lemma_percentiles_reverse_selection(entries: Seq<ResultEntry>, percents: Seq<u32>)
    requires
        entries.len() > 0,
        forall|j: int| 0 <= j < percents.len() ==> #[trigger] percents[j] < 100,
    ensures
        !percentile_out_of_bounds(percents, entries.len() as int),
        percentile_times(entries, percents) == percents.map_values(
            |p: u32| entries[(p * entries.len()) / 100].time as int,
        ).reverse(),
{
    let n = entries.len() as int;
    assert forall|j: int| 0 <= j < percents.len() implies 0 <= percentile_position(
        #[trigger] percents[j] as int,
        n,
    ) < n by {
        let p = percents[j] as int;
        assert(0 <= p * n < 100 * n) by (nonlinear_arith)
            requires
                0 <= p < 100,
                n > 0,
        ;
        vstd::arithmetic::div_mod::lemma_div_is_ordered(p * n, 100 * n - 1, 100);
        vstd::arithmetic::div_mod::lemma_div_pos_is_pos(p * n, 100);
        assert((100 * n - 1) / 100 < n) by {
            vstd::arithmetic::div_mod::lemma_div_is_ordered(100 * n - 1, 100 * n, 100);
            vstd::arithmetic::div_mod::lemma_div_by_multiple(n, 100);
            assert((100 * n - 1) / 100 != n) by {
                vstd::arithmetic::div_mod::lemma_fundamental_div_mod(100 * n - 1, 100);
            }
        }
    }
    assert(percentile_times(entries, percents) =~= percents.map_values(
        |p: u32| entries[(p * entries.len()) / 100].time as int,
    ).reverse());
}

/// With partial windows every entry gets a moving average; without them only
/// the `len - interval + 1` entries with a full window do (none when
/// `interval` exceeds the length).
pub proof fn lemma_moving_average_count(entries: Seq<ResultEntry>, interval: int)
    requires
        interval >= 1,
    ensures
        moving_average_values(entries, interval, true).len() == entries.len(),
        moving_average_dates(entries, interval, true).len() == entries.len(),
        moving_average_values(entries, interval, false).len() == if entries.len() - interval + 1
            > 0 {
            entries.len() - interval + 1
        } else {
            0
        },
        moving_average_dates(entries, interval, false).len() == moving_average_values(
            entries,
            interval,
            false,
        ).len(),
{
}

/// Each moving average is the mean time of its window, the same value that
/// `compute_average_time` gives on that window; with windows of one entry the
/// averages are the times themselves.
pub proof fn lemma_moving_average_is_window_mean(
    entries: Seq<ResultEntry>,
    interval: int,
    include_partial: bool,
)
    requires
        interval >= 1,
    ensures
        forall|k: int|
            0 <= k < moving_average_values(entries, interval, include_partial).len() ==> {
                let i = k + first_averaged(interval, include_partial);
                #[trigger] moving_average_values(entries, interval, include_partial)[k]
                    == mean_time(entries.subrange(window_start(i, interval), i + 1))
            },
        moving_average_values(entries, 1, include_partial) == entries.map_values(
            |e: ResultEntry| e.time as int,
        ),
{
    assert forall|i: int| 0 <= i < entries.len() implies moving_average_at(entries, i, 1)
        == entries[i].time as int by {
        let w = entries.subrange(i, i + 1);
        assert(w.drop_last() =~= Seq::<ResultEntry>::empty());
        assert(sum_times(w.drop_last()) == 0);
        assert(w.last() == entries[i]);
        assert(sum_times(w) == entries[i].time);
        vstd::arithmetic::div_mod::lemma_div_basics(sum_times(w));
        vstd::arithmetic::div_mod::lemma_div_basics(-sum_times(w));
    }
    assert(moving_average_values(entries, 1, include_partial) =~= entries.map_values(
        |e: ResultEntry| e.time as int,
    ));
}

} // verus!
