//! Verified core of a podcast RSS proxy: it turns an upstream audio
//! catalog into an RSS feed per brand (show) id, with a TTL response
//! cache, a persistent episode-size store consulted before any network
//! probe, Moscow-local date normalization, and XML rendering that escapes
//! field text. Network, database and HTTP plumbing live outside this
//! crate and drive the decision procedures defined here.

use vstd::prelude::*;

pub mod cache;
pub mod calendar;
pub mod custom_date;
pub mod enrich;
pub mod feed;
pub mod text;
pub mod xml;

verus! {

/// Runtime configuration, as handed over by the process's entry point.
pub struct Args {
    /// Address to bind.
    pub ip: String,
    /// Port to bind.
    pub port: u16,
    /// Episodes requested from the upstream catalog per feed.
    pub limit: u16,
    /// Cache lifetime in seconds.
    pub cache_lifetime: u16,
    /// Path of the persistent size store.
    pub db_path: String,
}

} // verus!
