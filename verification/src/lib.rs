//! Betting on prediction markets: placing, cancelling, settling and paying out
//! bets, the limits on them, and the event topics they are published under.
//!
//! Every operation works on a [`ledger::Ledger`], which holds the entries of one
//! invocation, and leaves the effects that only the host can perform in it.

pub mod analytics;
pub mod batch;
pub mod batch_laws;
pub mod bet_laws;
pub mod bookkeeping;
pub mod books;
pub mod cancellation;
pub mod error;
pub mod event_topics;
pub mod funds;
pub mod host;
pub mod laws;
pub mod ledger;
pub mod limits;
pub mod manager;
pub mod math;
pub mod payout;
pub mod placement;
pub mod record_laws;
pub mod rule_laws;
pub mod settlement;
pub mod settlement_laws;
pub mod storage;
pub mod table;
pub mod topic_laws;
pub mod types;
pub mod upgrade_laws;
pub mod validator;
