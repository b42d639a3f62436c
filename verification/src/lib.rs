//! Core of a usage-percentage monitor.
//!
//! The library turns noisy page text into one trustworthy usage percentage,
//! filters samples that changed too little to be worth emitting, decides the
//! single-retry delivery protocol of the event bridge, guards the periodic
//! scheduler so that at most one loop is ever active, and prepares and
//! classifies alert dispatches over the system-notification and webhook
//! channels. All I/O (the page scrape, the timer, the HTTP post, the OS
//! notification) stays with the caller; the functions here work on plain
//! values and carry contracts for what they compute.

pub mod bridge;
pub mod config;
pub mod dedup;
pub mod dispatch;
pub mod extractor;
pub mod patterns;
pub mod percent;
pub mod scheduler;
pub mod strutil;

pub use config::AppConfig;
pub use config::Locale;
pub use dedup::DedupOutcome;
pub use extractor::Candidate;
pub use extractor::Priority;
pub use extractor::extract_usage;
pub use percent::round_tenths;
pub use percent::tenths_diff;
pub use scheduler::RunState;
