//! The records the leaderboard works on.

use vstd::prelude::*;

verus! {

/// One user's solve of one daily crossword.
#[derive(Debug, Default)]
pub struct ResultEntry {
    /// Calendar date of the puzzle, written `YYYY-MM-DD`.
    pub date: String,
    /// Solving time in seconds.
    pub time: i32,
    pub username: String,
    /// 1-based finishing position on that date.
    pub rank: i32,
}

impl Clone for ResultEntry {
    fn clone(&self) -> (r: Self)
        ensures
            r == *self,
    {
        ResultEntry {
            date: self.date.clone(),
            time: self.time,
            username: self.username.clone(),
            rank: self.rank,
        }
    }
}

/// A solve's score in the live feed.
#[derive(Debug, Clone, Copy, PartialEq, Eq, Structural)]
pub struct NytScore {
    pub seconds_spent_solving: i32,
}

/// One row of the live feed.
#[derive(Debug)]
pub struct NytResultEntry {
    pub name: String,
    /// Finishing position as text; absent on a tie with the row before.
    pub rank: Option<String>,
    /// Absent while the puzzle is not solved yet.
    pub score: Option<NytScore>,
}

/// The live feed: its rows in leaderboard order.
#[derive(Debug)]
pub struct NytApiResponse {
    pub data: Vec<NytResultEntry>,
}

/// A row of the users table, of which only the name is read.
#[derive(Debug)]
pub struct UsernameData {
    pub username: String,
}

/// The envelope in which the store returns the result of a procedure call.
#[derive(Debug)]
pub struct Wrapper<T> {
    pub inner: T,
}

} // verus!
