//! Decoding the live leaderboard feed.

use vstd::prelude::*;

use crate::models::{NytApiResponse, NytResultEntry, ResultEntry};

verus! {

/// An ASCII decimal digit.
pub open spec fn is_digit(c: char) -> bool {
    '0' <= c <= '9'
}

/// The value of a decimal digit.
pub open spec fn digit_value(c: char) -> int {
    (c as u32) - ('0' as u32)
}

/// `s` is one or more decimal digits.
pub open spec fn all_digits(s: Seq<char>) -> bool {
    s.len() > 0 && forall|i: int| 0 <= i < s.len() ==> is_digit(#[trigger] s[i])
}

/// The value of a run of decimal digits.
pub open spec fn digits_value(s: Seq<char>) -> int
    decreases s.len(),
{
    if s.len() == 0 {
        0
    } else {
        digits_value(s.drop_last()) * 10 + digit_value(s.last())
    }
}

/// The integer that `s` writes: an optional sign and one or more digits.
pub open spec fn integer_value(s: Seq<char>) -> Option<int> {
    if s.len() > 0 && s[0] == '-' && all_digits(s.drop_first()) {
        Some(-digits_value(s.drop_first()))
    } else if s.len() > 0 && s[0] == '+' && all_digits(s.drop_first()) {
        Some(digits_value(s.drop_first()))
    } else if all_digits(s) {
        Some(digits_value(s))
    } else {
        None
    }
}

/// The `i32` that `s` writes, if it writes one in range.
pub open spec fn i32_value(s: Seq<char>) -> Option<i32> {
    match integer_value(s) {
        Some(v) => if i32::MIN <= v <= i32::MAX {
            Some(v as i32)
        } else {
            None
        },
        None => None,
    }
}

/// Reads an `i32` written as an optional `+` or `-` and one or more decimal
/// digits, with nothing around them.
pub fn parse_i32(text: &str) -> (r: Option<i32>)
    ensures
        r == i32_value(text@),
{
    let n = text.unicode_len();
    if n == 0 {
        return None;
    }
    let first = text.get_char(0);
    let start: usize = if first == '-' || first == '+' {
        1
    } else {
        0
    };
    let ghost s = text@;
    if start == n {
        assert(!all_digits(s));
        return None;
    }
    let mut acc: i64 = 0;
    let mut big = false;
    let mut i: usize = start;
    assert(s.subrange(start as int, start as int) =~= Seq::<char>::empty());
    while i < n
        invariant
            n == s.len(),
            s == text@,
            start <= i <= n,
            start < n,
            start == 1 <==> (s[0] == '-' || s[0] == '+'),
            start == 0 || start == 1,
            forall|j: int| start <= j < i ==> is_digit(#[trigger] s[j]),
            digits_value(s.subrange(start as int, i as int)) >= 0,
            !big ==> acc == digits_value(s.subrange(start as int, i as int)),
            !big ==> 0 <= acc <= 0x8000_0000,
            big ==> digits_value(s.subrange(start as int, i as int)) > 0x8000_0000,
        decreases n - i,
    {
        let c = text.get_char(i);
        if !('0' <= c && c <= '9') {
            proof {
                if start == 1 {
                    assert(s.drop_first()[i - 1] == c);
                    assert(!all_digits(s.drop_first()));
                }
                assert(!all_digits(s));
            }
            return None;
        }
        let d: i64 = (c as u32 - '0' as u32) as i64;
        assert(s.subrange(start as int, i + 1).drop_last() =~= s.subrange(start as int, i as int));
        if !big {
            let next = acc * 10 + d;
            if next > 0x8000_0000 {
                big = true;
            } else {
                acc = next;
            }
        }
        i = i + 1;
    }
    proof {
        if start == 1 {
            assert(s.drop_first() =~= s.subrange(1, n as int));
            assert(all_digits(s.drop_first()));
        } else {
            assert(s =~= s.subrange(0, n as int));
            assert(all_digits(s));
        }
    }
    if big {
        None
    } else if first == '-' {
        Some((-acc) as i32)
    } else if acc > 0x7fff_ffff {
        None
    } else {
        Some(acc as i32)
    }
}

/// The rank that a row of the feed states, if it states a readable one.
pub open spec fn stated_rank(e: NytResultEntry) -> Option<i32> {
    match e.rank {
        Some(t) => i32_value(t@),
        None => None,
    }
}

/// The rank of row `i`: its own, or else that of the nearest row before it
/// that states one.
pub open spec fn resolved_rank(s: Seq<NytResultEntry>, i: int) -> Option<i32>
    decreases i,
{
    if i < 0 || i >= s.len() {
        None
    } else {
        match stated_rank(s[i]) {
            Some(v) => Some(v),
            None => if i == 0 {
                None
            } else {
                resolved_rank(s, i - 1)
            },
        }
    }
}

/// The first `k` rows are scored and row `k`, if there is one, is not.
pub open spec fn scored_prefix(s: Seq<NytResultEntry>, k: int) -> bool {
    &&& 0 <= k <= s.len()
    &&& forall|i: int| 0 <= i < k ==> (#[trigger] s[i]).score is Some
    &&& k == s.len() || s[k].score is None
}

/// The feed breaks the decoding rules: its first row is scored but states no rank.
pub open spec fn feed_is_malformed(s: Seq<NytResultEntry>) -> bool {
    s.len() > 0 && s[0].score is Some && stated_rank(s[0]) is None
}

/// Failure to decode the live feed.
#[derive(Debug, Clone, Copy, PartialEq, Eq, Structural)]
pub enum FeedError {
    /// The first finisher has no readable rank to resolve ties against.
    MalformedFeed,
}

/// Decodes the live feed into solves, in feed order.
///
/// Decoding stops at the first row without a score: it and every row after it
/// are unfinished solves. A row without a readable rank ties with the row
/// before it. The decoded solves carry an empty date.
pub fn decode_live_feed(feed: &NytApiResponse) -> (r: Result<Vec<ResultEntry>, FeedError>)
    ensures
        r is Err <==> feed_is_malformed(feed.data@),
        r matches Err(e) ==> e == FeedError::MalformedFeed,
        r matches Ok(out) ==> {
            &&& scored_prefix(feed.data@, out@.len() as int)
            &&& forall|i: int|
                0 <= i < out@.len() ==> {
                    &&& (#[trigger] out@[i]).date@ == Seq::<char>::empty()
                    &&& out@[i].username == feed.data@[i].name
                    &&& feed.data@[i].score == Some(
                        crate::models::NytScore { seconds_spent_solving: out@[i].time },
                    )
                    &&& resolved_rank(feed.data@, i) == Some(out@[i].rank)
                }
        },
{
    let ghost s = feed.data@;
    let n = feed.data.len();
    let mut out: Vec<ResultEntry> = Vec::new();
    let mut previous: Option<i32> = None;
    let mut i: usize = 0;
    while i < n && feed.data[i].score.is_some()
        invariant
            s == feed.data@,
            n == s.len(),
            i <= n,
            out@.len() == i,
            forall|j: int| 0 <= j < i ==> (#[trigger] s[j]).score is Some,
            previous == resolved_rank(s, i - 1),
            i > 0 ==> previous is Some,
            forall|j: int|
                0 <= j < i ==> {
                    &&& (#[trigger] out@[j]).date@ == Seq::<char>::empty()
                    &&& out@[j].username == s[j].name
                    &&& s[j].score == Some(
                        crate::models::NytScore { seconds_spent_solving: out@[j].time },
                    )
                    &&& resolved_rank(s, j) == Some(out@[j].rank)
                },
        decreases n - i,
    {
        let row = &feed.data[i];
        let own: Option<i32> = match &row.rank {
            Some(t) => parse_i32(t.as_str()),
            None => None,
        };
        let rank: i32 = match own {
            Some(v) => v,
            None => match previous {
                Some(p) => p,
                None => {
                    return Err(FeedError::MalformedFeed);
                },
            },
        };
        let time = row.score.unwrap().seconds_spent_solving;
        out.push(
            ResultEntry { date: String::new(), time, username: row.name.clone(), rank },
        );
        previous = Some(rank);
        i = i + 1;
    }
    proof {
        if i > 0 {
            assert(resolved_rank(s, 0) == Some(out@[0].rank));
        }
    }
    Ok(out)
}

} // verus!
