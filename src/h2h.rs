//! Head-to-head statistics between two users.

use vstd::prelude::*;

use crate::stats::StatsError;
use crate::text::{decimal_digits, digit_char, push_char, push_decimal};

verus! {

/// The times of both users on one date that both solved.
#[derive(Debug, Clone, Copy, PartialEq, Eq, Structural)]
pub struct MatchTimes {
    pub time_player1: i32,
    pub time_player2: i32,
}

/// Dates on which the first user was faster.
pub open spec fn wins_first(s: Seq<MatchTimes>) -> nat
    decreases s.len(),
{
    if s.len() == 0 {
        0
    } else {
        wins_first(s.drop_last()) + if s.last().time_player1 < s.last().time_player2 {
            1nat
        } else {
            0nat
        }
    }
}

/// Dates on which the second user was faster.
pub open spec fn wins_second(s: Seq<MatchTimes>) -> nat
    decreases s.len(),
{
    if s.len() == 0 {
        0
    } else {
        wins_second(s.drop_last()) + if s.last().time_player1 > s.last().time_player2 {
            1nat
        } else {
            0nat
        }
    }
}

/// Dates on which both users took the same time.
pub open spec fn ties(s: Seq<MatchTimes>) -> nat
    decreases s.len(),
{
    if s.len() == 0 {
        0
    } else {
        ties(s.drop_last()) + if s.last().time_player1 == s.last().time_player2 {
            1nat
        } else {
            0nat
        }
    }
}

/// Sum over the dates of the first user's time minus the second's.
pub open spec fn difference_sum(s: Seq<MatchTimes>) -> int
    decreases s.len(),
{
    if s.len() == 0 {
        0
    } else {
        difference_sum(s.drop_last()) + (s.last().time_player1 - s.last().time_player2)
    }
}

/// `|total| / n` in tenths, rounded to the nearest tenth, halves to even.
pub open spec fn rounded_tenths(total: int, n: int) -> int {
    let a = if total < 0 {
        -total
    } else {
        total
    };
    let q = a * 10 / n;
    let rem = a * 10 % n;
    if 2 * rem > n || (2 * rem == n && q % 2 == 1) {
        q + 1
    } else {
        q
    }
}

/// A number of tenths written with one decimal place.
pub open spec fn tenths_text(t: nat) -> Seq<char> {
    decimal_digits(t / 10) + seq!['.', digit_char((t % 10) as int)]
}

/// The sentence that names the faster of the two users and by how much.
pub open spec fn time_difference_text(
    user1: Seq<char>,
    user2: Seq<char>,
    user1_faster: bool,
    tenths: nat,
) -> Seq<char> {
    let faster = if user1_faster {
        user1
    } else {
        user2
    };
    let slower = if user1_faster {
        user2
    } else {
        user1
    };
    "On average, "@ + faster + " is "@ + tenths_text(tenths) + " seconds faster than "@ + slower
        + "."@
}

/// Writes `On average, <faster> is <x.y> seconds faster than <slower>.`, where
/// the faster user is `user1` when `user1_faster` and `user2` otherwise, and
/// `tenths` is the average gap in tenths of a second.
pub fn describe_time_difference(user1: &str, user2: &str, user1_faster: bool, tenths: u64) -> (r:
    String)
    ensures
        r@ == time_difference_text(user1@, user2@, user1_faster, tenths as nat),
{
    let (faster, slower) = if user1_faster {
        (user1, user2)
    } else {
        (user2, user1)
    };
    let mut out = String::new();
    out.append("On average, ");
    out.append(faster);
    out.append(" is ");
    push_decimal(&mut out, tenths / 10);
    push_char(&mut out, '.');
    push_char(&mut out, crate::text::digit(tenths % 10));
    out.append(" seconds faster than ");
    out.append(slower);
    out.append(".");
    assert(out@ =~= time_difference_text(user1@, user2@, user1_faster, tenths as nat));
    out
}

/// Head-to-head statistics of two users over the dates both solved.
#[derive(Debug)]
pub struct HeadToHeadStats {
    pub user1: String,
    pub user2: String,
    pub wins_user1: usize,
    pub wins_user2: usize,
    pub ties: usize,
    pub total_matches: usize,
    /// Sum over the dates of `user1`'s time minus `user2`'s; the average
    /// difference is this over `total_matches`.
    pub total_time_difference: i128,
    pub time_diff_description: String,
}

/// Tallies the per-date times of two users.
///
/// The description names `user1` as faster when the average of
/// `time_player1 - time_player2` is negative and `user2` otherwise (a zero
/// average included), with the average's magnitude to one decimal place.
pub fn head_to_head_from_matches(user1: String, user2: String, matches: &[MatchTimes]) -> (r:
    Result<HeadToHeadStats, StatsError>)
    ensures
        matches@.len() == 0 <==> r is Err,
        r matches Err(e) ==> e == StatsError::InsufficientData,
        r matches Ok(h) ==> {
            &&& h.user1 == user1
            &&& h.user2 == user2
            &&& h.wins_user1 == wins_first(matches@)
            &&& h.wins_user2 == wins_second(matches@)
            &&& h.ties == ties(matches@)
            &&& h.total_matches == matches@.len()
            &&& h.total_time_difference == difference_sum(matches@)
            &&& h.time_diff_description@ == time_difference_text(
                user1@,
                user2@,
                difference_sum(matches@) < 0,
                rounded_tenths(difference_sum(matches@), matches@.len() as int) as nat,
            )
        },
{
    let n = matches.len();
    if n == 0 {
        return Err(StatsError::InsufficientData);
    }
    let mut wins1: usize = 0;
    let mut wins2: usize = 0;
    let mut tied: usize = 0;
    let mut total: i128 = 0;
    let mut i: usize = 0;
    while i < n
        invariant
            n == matches@.len(),
            i <= n,
            wins1 == wins_first(matches@.subrange(0, i as int)),
            wins2 == wins_second(matches@.subrange(0, i as int)),
            tied == ties(matches@.subrange(0, i as int)),
            wins1 + wins2 + tied == i,
            total == difference_sum(matches@.subrange(0, i as int)),
            -(i * 0x1_0000_0000) <= total <= i * 0x1_0000_0000,
        decreases n - i,
    {
        let m = matches[i];
        assert(matches@.subrange(0, i + 1).drop_last() =~= matches@.subrange(0, i as int));
        if m.time_player1 < m.time_player2 {
            wins1 = wins1 + 1;
        } else if m.time_player1 > m.time_player2 {
            wins2 = wins2 + 1;
        } else {
            tied = tied + 1;
        }
        total = total + (m.time_player1 as i128 - m.time_player2 as i128);
        i = i + 1;
    }
    assert(matches@.subrange(0, n as int) =~= matches@);
    let magnitude: u128 = if total < 0 {
        (-total) as u128
    } else {
        total as u128
    };
    let scaled: u128 = magnitude * 10;
    let q: u128 = scaled / (n as u128);
    let rem: u128 = scaled % (n as u128);
    proof {
        vstd::arithmetic::div_mod::lemma_div_is_ordered(
            scaled as int,
            (n * 0x1_0000_0000 * 10) as int,
            n as int,
        );
        assert(n * 0x1_0000_0000 * 10 == n * (0x1_0000_0000 * 10)) by (nonlinear_arith);
        vstd::arithmetic::div_mod::lemma_div_multiples_vanish(0x1_0000_0000int * 10, n as int);
    }
    let tenths: u128 = if 2 * rem > n as u128 || (2 * rem == n as u128 && q % 2 == 1) {
        q + 1
    } else {
        q
    };
    let time_diff_description = describe_time_difference(
        user1.as_str(),
        user2.as_str(),
        total < 0,
        tenths as u64,
    );
    Ok(
        HeadToHeadStats {
            user1,
            user2,
            wins_user1: wins1,
            wins_user2: wins2,
            ties: tied,
            total_matches: n,
            total_time_difference: total,
            time_diff_description,
        },
    )
}

/// On every set of per-date times, the wins of each user and the ties add up
/// to the number of dates.
pub proof fn lemma_results_add_up(matches: Seq<MatchTimes>)
    ensures
        wins_first(matches) + wins_second(matches) + ties(matches) == matches.len(),
    decreases matches.len(),
{
    if matches.len() > 0 {
        lemma_results_add_up(matches.drop_last());
    }
}

} // verus!
