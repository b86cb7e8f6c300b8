//! Metrics and request coordination of a validator's RPC service.
//!
//! The metrics are counted in [`PullMetrics`] and rendered when they are scraped. The
//! answers to largest-accounts requests are kept for a while by a
//! [`LargestAccountsCache`], and computed by one producer at a time for each filter,
//! under a [`LargestAccountsSingleflight`].

pub mod abort_flag;
pub mod accounts;
pub mod clock;
pub mod exposition;
pub mod generation;
pub mod largest_accounts_cache;
pub mod metrics_laws;
pub mod moving_stat;
pub mod outcome_channel;
pub mod pull_metrics;
pub mod registry;
pub mod rpc_methods;
pub mod series_laws;
pub mod singleflight;
pub mod singleflight_laws;
pub mod text;
pub mod token_counter;

pub use crate::accounts::{AccountBalance, LargestAccountsFilter, LargestAccountsOutcome};
pub use crate::clock::Timestamp;
pub use crate::generation::{GenerationState, InflightEntry, WaitEvent, WaitStep};
pub use crate::largest_accounts_cache::LargestAccountsCache;
pub use crate::moving_stat::MovingStat;
pub use crate::pull_metrics::PullMetrics;
pub use crate::registry::{pull_metrics, pull_metrics_exposition};
pub use crate::rpc_methods::{rpc_method_slot, RPC_METHOD_LABELS, RPC_METHOD_SLOTS};
pub use crate::singleflight::{
    EntryHandle, LargestAccountsSingleflight, SingleflightAdmission, SingleflightLease,
    SingleflightWaiterLease,
};
pub use crate::token_counter::{CountDatapoint, CounterToken, TokenCounter};
