//! Configuration consumed by the core. Loading it (file, environment) is the
//! embedding program's concern; the core reads these plain values only.

use vstd::prelude::*;
use vstd::string::StringExecFns;

verus! {

/// Top-level configuration: the store path, the bus capacity, the log level
/// and one optional section per poller and consumer.
#[derive(Clone, Debug)]
pub struct Config {
    /// Path of the durable store file.
    pub db_path: String,
    /// Per-subscriber buffer capacity of the event bus.
    pub channel_size: usize,
    /// Log level name: ERROR, WARN, INFO, DEBUG or TRACE.
    pub log_level: String,
    /// Feed poller section, when feeds are watched.
    pub caster_feed: Option<FeedConfig>,
    /// Registry poller section, when registry items are watched.
    pub caster_crates: Option<CratesConfig>,
    /// Chat consumer section, when a chat sink is configured.
    pub consumer_telegram: Option<TelegramConfig>,
}

/// The feed poller's configuration.
#[derive(Clone, Debug)]
pub struct FeedConfig {
    /// The feed URLs to poll.
    pub urls: Vec<String>,
    /// How old, in days, a newly seen entry must be to be recorded silently.
    pub ignore_days: u64,
    /// Interval between fetch rounds, in milliseconds.
    pub interval_ms: u64,
}

/// The registry poller's configuration.
#[derive(Clone, Debug)]
pub struct CratesConfig {
    /// The registry item names to track.
    pub crates: Vec<String>,
    /// Interval between index refreshes, in milliseconds.
    pub interval_ms: u64,
}

/// The chat consumer's configuration.
#[derive(Clone, Debug)]
pub struct TelegramConfig {
    pub api_token: String,
    /// The chats every message is sent to.
    pub chats: Vec<i64>,
    /// Longest content block, in bytes, sent without truncation.
    pub content_max_length: usize,
}

/// The log level used when none is configured.
pub fn default_log_level() -> (r: String)
    ensures
        r@ == "INFO"@,
{
    "INFO".to_owned()
}

/// The store path used when none is configured.
pub fn default_db_path() -> (r: String)
    ensures
        r@ == "/tmp/caster/sled"@,
{
    "/tmp/caster/sled".to_owned()
}

/// The bus capacity used when none is configured.
pub fn default_channel_size() -> (r: usize)
    ensures
        r == 15,
{
    15
}

/// The poll interval used when none is configured: one minute.
pub fn default_feed_interval_ms() -> (r: u64)
    ensures
        r == 60000,
{
    60000
}

/// The staleness horizon used when none is configured, in days.
pub fn default_feed_ignore_days() -> (r: u64)
    ensures
        r == 30,
{
    30
}

/// The content length bound used when none is configured.
pub fn default_telegram_content_max_length() -> (r: usize)
    ensures
        r == 100,
{
    100
}

} // verus!
