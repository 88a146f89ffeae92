//! Strife: the verified core of a self-hosted file archive.
//!
//! The archive keeps a folder hierarchy, imports a watched inbox, extracts
//! text and email structure from files, and runs background work through a
//! durable job queue. Persistence itself is plain SQL run by the application;
//! this crate holds the decisions that surround it, each with a contract:
//!
//! - `domain`: folder identifiers and the folder hierarchy rules.
//! - `text`: the string primitives the rules are written with.
//! - `grouping`: deterministic thread and duplicate grouping of email.
//! - `db`: persisted states, records, and the decisions that the
//!   persistence layer takes between its queries.
//! - `importer`: the watched-folder scanner's decisions.
//! - `directories`: the parent-first order of the directories a scan finds.
//!
//! Identifiers are 128-bit UUID values (`u128`, big-endian as in
//! `uuid::Uuid::as_u128`); timestamps are microseconds since the Unix epoch
//! in UTC.

pub mod db;
pub mod directories;
pub mod domain;
pub mod grouping;
pub mod importer;
pub mod text;
