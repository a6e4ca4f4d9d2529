//! Per-user views of the solves: weekday filtering and the podium.

use vstd::prelude::*;

use crate::calendar::{CivilDate, SATURDAY, days_from_civil, iso_date_parse, weekday_index};
use crate::models::ResultEntry;

verus! {

/// The entry's date reads as a day that is not a Saturday.
pub open spec fn is_kept_weekday(e: ResultEntry) -> bool {
    match iso_date_parse(e.date@) {
        Some((y, m, d)) => weekday_index(days_from_civil(y, m, d)) != SATURDAY,
        None => false,
    }
}

pub open spec fn kept_weekday() -> spec_fn(ResultEntry) -> bool {
    |e: ResultEntry| is_kept_weekday(e)
}

/// The entries of `s` whose date reads as a day other than Saturday, in order.
pub open spec fn without_saturdays(s: Seq<ResultEntry>) -> Seq<ResultEntry> {
    s.filter(kept_weekday())
}

/// Whether an entry whose date read as `date` is kept: it read as a day, and
/// that day is not a Saturday.
pub fn is_kept_date(date: &Option<CivilDate>) -> (r: bool)
    requires
        date matches Some(d) ==> d.wf(),
    ensures
        r == match *date {
            Some(d) => weekday_index(d.day_number()) != SATURDAY,
            None => false,
        },
{
    match date {
        Some(d) => !d.is_saturday(),
        None => false,
    }
}

/// Keeps the entries whose date reads as a day other than Saturday, in order.
///
/// An entry whose date does not read as `YYYY-MM-DD` is dropped.
pub fn exclude_saturday(entries: &[ResultEntry]) -> (r: Vec<ResultEntry>)
    ensures
        r@ == without_saturdays(entries@),
{
    let n = entries.len();
    let mut out: Vec<ResultEntry> = Vec::new();
    let mut i: usize = 0;
    while i < n
        invariant
            n == entries@.len(),
            i <= n,
            out@ == without_saturdays(entries@.subrange(0, i as int)),
        decreases n - i,
    {
        let keep = is_kept_date(&CivilDate::parse(entries[i].date.as_str()));
        proof {
            reveal(Seq::filter);
            assert(entries@.subrange(0, i + 1).drop_last() =~= entries@.subrange(0, i as int));
        }
        if keep {
            out.push(entries[i].clone());
        }
        i = i + 1;
    }
    assert(entries@.subrange(0, n as int) =~= entries@);
    out
}

proof fn lemma_filter_keeps_all(s: Seq<ResultEntry>, pred: spec_fn(ResultEntry) -> bool)
    requires
        forall|i: int| 0 <= i < s.len() ==> pred(#[trigger] s[i]),
    ensures
        s.filter(pred) == s,
    decreases s.len(),
{
    reveal(Seq::filter);
    if s.len() > 0 {
        lemma_filter_keeps_all(s.drop_last(), pred);
        assert(s.drop_last().push(s.last()) =~= s);
    }
}

/// Dropping Saturdays keeps only entries of the input, in their order, and
/// dropping them again changes nothing.
pub proof fn lemma_exclude_saturday_subset_idempotent(entries: Seq<ResultEntry>)
    ensures
        forall|x: ResultEntry| #[trigger] without_saturdays(entries).contains(x) ==> entries.contains(x),
        without_saturdays(without_saturdays(entries)) == without_saturdays(entries),
{
    let kept = without_saturdays(entries);
    assert forall|x: ResultEntry| #[trigger] kept.contains(x) implies entries.contains(x) by {
        entries.lemma_filter_contains_rev(kept_weekday(), x);
    }
    assert forall|i: int| 0 <= i < kept.len() implies kept_weekday()(#[trigger] kept[i]) by {
        entries.lemma_filter_pred(kept_weekday(), i);
    }
    lemma_filter_keeps_all(kept, kept_weekday());
}

/// A user's solves, fastest first, and those of them not on a Saturday.
#[derive(Debug)]
pub struct UserData {
    pub all_times: Vec<ResultEntry>,
    pub times_excluding_saturday: Vec<ResultEntry>,
}

impl UserData {
    pub open spec fn wf(&self) -> bool {
        self.times_excluding_saturday@ == without_saturdays(self.all_times@)
    }

    /// Builds the view of a user's solves as the store returns them.
    pub fn from_results(all_times: Vec<ResultEntry>) -> (r: UserData)
        ensures
            r.wf(),
            r.all_times@ == all_times@,
    {
        let times_excluding_saturday = exclude_saturday(all_times.as_slice());
        UserData { all_times, times_excluding_saturday }
    }
}

/// Number of results on the podium.
pub const PODIUM_SIZE: usize = 10;

/// The first `PODIUM_SIZE` results, in the given order.
pub fn podium_entries(results: Vec<ResultEntry>) -> (r: Vec<ResultEntry>)
    ensures
        r@ == results@.take(
            if results@.len() < PODIUM_SIZE {
                results@.len() as int
            } else {
                PODIUM_SIZE as int
            },
        ),
{
    let mut top = results;
    top.truncate(PODIUM_SIZE);
    assert(top@ =~= results@.take(
        if results@.len() < PODIUM_SIZE {
            results@.len() as int
        } else {
            PODIUM_SIZE as int
        },
    ));
    top
}

} // verus!
