//! Verified core of a commander deck-list validation pipeline.
//!
//! A deck list is checked by six independent validators. Each validator
//! consults an external data provider (a card-oracle-text search service or a
//! combo-discovery service) through a gateway that is fronted by a
//! time-bounded lookup cache. The partial results of the six validators are
//! merged into one aggregate, from which the overall validity of the deck and
//! the final report are derived, while a progress tracker counts completions
//! and produces one status message per completed validator.
//!
//! Everything that decides or computes lives here with a contract: the cache
//! and its time-to-live rule, the gateway classification of provider
//! responses, the query builders, the six validator checks, the merge and
//! validity rules, the progress counter, and the report construction. The
//! network transport, the asynchronous scheduling and the delivery of
//! progress messages are left to the (unverified) caller, which hands this
//! library plain values and takes plain values back.

pub mod cache;
pub mod errors;
pub mod gateways;
pub mod models;
pub mod progress;
pub mod text;
pub mod validators;
pub mod validation_results;
