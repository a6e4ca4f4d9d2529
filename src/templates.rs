//! What each page shows, assembled from the statistics.

use vstd::prelude::*;

use crate::models::ResultEntry;
use crate::user::UserData;

verus! {

/// Number of best times shown on a user's page.
pub const TOP_TIMES: usize = 3;

/// A user's page: both plots and their best times.
#[derive(Debug)]
pub struct UserTemplate {
    pub username: String,
    pub scatter_plot_html: String,
    pub box_plot_html: String,
    pub top_times: Vec<ResultEntry>,
}

impl UserTemplate {
    /// Assembles the page; the best times are the first `TOP_TIMES` of the
    /// user's solves, which come fastest first.
    pub fn new(username: String, data: &UserData, scatter_plot_html: String, box_plot_html: String) -> (r:
        UserTemplate)
        ensures
            r.username == username,
            r.scatter_plot_html == scatter_plot_html,
            r.box_plot_html == box_plot_html,
            r.top_times@ == data.all_times@.take(
                if data.all_times@.len() < TOP_TIMES {
                    data.all_times@.len() as int
                } else {
                    TOP_TIMES as int
                },
            ),
    {
        let count = if data.all_times.len() < TOP_TIMES {
            data.all_times.len()
        } else {
            TOP_TIMES
        };
        let mut top_times: Vec<ResultEntry> = Vec::new();
        let mut k: usize = 0;
        while k < count
            invariant
                count <= data.all_times@.len(),
                k <= count,
                top_times@ == data.all_times@.take(k as int),
            decreases count - k,
        {
            top_times.push(data.all_times[k].clone());
            k = k + 1;
            assert(top_times@ =~= data.all_times@.take(k as int));
        }
        UserTemplate { username, scatter_plot_html, box_plot_html, top_times }
    }
}

/// The podium page: the fastest solves of all time.
#[derive(Debug)]
pub struct PodiumTemplate {
    pub data: Vec<ResultEntry>,
}

/// The results of one date.
#[derive(Debug)]
pub struct HistoryTemplate {
    pub date: String,
    pub data: Vec<ResultEntry>,
}

/// Links to the most recent dates.
#[derive(Debug)]
pub struct RecentTemplate {
    pub dates: Vec<String>,
}

/// Today's live leaderboard, as decoded from the feed.
#[derive(Debug)]
pub struct TodayTemplate {
    pub data: Vec<ResultEntry>,
}

} // verus!
