//! Ingestion-and-deduplication core for a content-watching notifier.
//!
//! External sources (feeds, a package registry) are polled on independent
//! schedules; fingerprints of the last-seen state of every item are kept in a
//! [`store::Store`] so that only new or changed items are announced; change
//! events fan out to any number of subscribers through a [`bus::Bus`] with
//! bounded per-subscriber buffering.

pub mod bus;
pub mod config;
pub mod crates;
pub mod event;
pub mod feed;
pub mod recon;
pub mod store;
pub mod telegram;
pub mod utils;

pub use bus::{Bus, RecvOutcome, Subscriber};
pub use config::{Config, CratesConfig, FeedConfig, TelegramConfig};
pub use event::Event;
pub use store::Store;
pub use utils::{get_hash, ts_to_systemtime, Interval};
