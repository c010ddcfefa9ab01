//! A verified core for a small tool that, on a cron-like schedule or once
//! on demand, fetches a dated image asset from a photo host and posts it
//! to a chat webhook.
//!
//! The library holds everything that decides or computes: the calendar
//! model, the asset path and URL resolution, the permissive decoding of
//! asset records, the message construction, the schedule parser with its
//! next-occurrence search, and the per-occurrence dispatch state machine.
//! The thin binary around it only reads the clock, sleeps, and performs
//! the two HTTP calls the state machine asks for.

use vstd::prelude::*;

pub mod asset;
pub mod decode;
pub mod dispatch;
pub mod fmt;
pub mod host;
pub mod message;
pub mod schedule;
pub mod time;

verus! {

/// Errors that the pipeline can report, one variant per failure source.
#[derive(Debug, Clone, Copy, PartialEq, Eq, Structural)]
pub enum Error {
    UrlResolution,
    Network,
    HttpStatus,
    Decode,
    MissingAttachment,
    WebhookSend,
    InvalidSchedule,
    Clock,
}

} // verus!
