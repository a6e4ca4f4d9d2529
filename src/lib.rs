//! Statistics, feed decoding and page assembly for a daily crossword leaderboard.

pub mod calendar;
pub mod feed;
pub mod h2h;
pub mod models;
pub mod order;
pub mod plot;
pub mod stats;
pub mod templates;
pub mod text;
pub mod user;
