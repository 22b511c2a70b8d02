//! Scoring engine for a weekly football pick'em pool.
//!
//! - `model`: matches, pooler records, the weekly feature bet, results.
//! - `teams`: team names, codes, roster ids and emoji ids.
//! - `scoring`: outcomes, uniqueness, the points table, weekly and feature
//!   scores, and when a score may be stored for good.
//! - `ranking`: stable ordering by a key, highest first.
//! - `season`: records grouped by week, and season standings.
//! - `stats`: unanimous, unique and over/under statistics of a season.
//! - `feed`: the schedule feed's week numbering, schedules by week, and the
//!   decoding and checking of stored picks.

pub mod feed;
pub mod model;
pub mod ranking;
pub mod scoring;
pub mod season;
pub mod stats;
pub mod teams;
