//! Persisted states and records, and the decisions the persistence layer
//! takes between its queries.
//!
//! The SQL itself runs in the application. Every choice it makes on the rows
//! it reads (which error a request gets, which candidate a claim takes, how a
//! refill advances its cursor, which folders block a move) is a function here.

pub mod backfill;
pub mod email;
pub mod folders;
pub mod imports;
pub mod jobs;
pub mod limits;
pub mod records;
pub mod states;
pub mod trash;
pub mod uploads;
