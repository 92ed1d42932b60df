//! Verified core of the MentorMinds Soroban contracts.
//!
//! Every contract of the platform is modelled here as a plain state value
//! together with the operations that the contract's entry points perform on
//! it.  Accounts and symbols are handed to the library as integer handles
//! (`AccountId`, `SymbolId`); token transfers, cross-contract calls, event
//! publication and authorization checks stay with the host, which feeds the
//! results of those calls back into the functions here.

pub mod arith;
pub mod ids;
pub mod insurance;
pub mod anomaly_detector;
pub mod reentrancy_guard;
pub mod state_machine;
pub mod escrow_math;
pub mod payment_router;
pub mod reputation;
pub mod lending_pool;
pub mod multisig_admin;
pub mod prediction_market;
pub mod referral;
pub mod referral_leaderboard;
pub mod digest;
pub mod proposal_templates;
pub mod regulatory_reporting;
pub mod session_oracle;
pub mod dispute_evidence;
pub mod escrow_invariants;
pub mod delegation;
pub mod certificates;
pub mod cert_showcase;
pub mod rbac;
pub mod sanctions;
pub mod snapshot;
