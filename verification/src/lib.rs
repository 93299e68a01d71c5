//! Paged verification of election solutions.
//!
//! A candidate solution arrives in pages, is sealed with the score it claims, and is
//! then checked one page per tick. Pages that pass are collected in a scratch slot; only
//! when every page has passed and the score recomputed from them equals the claimed one
//! does the scratch slot become the queued solution that readers see.
//!
//! [`pallet::Pallet`] is the verifier. It is made of the candidate under verification
//! ([`verifying`]) and the queued solution with its scratch ([`queued`]), both kept in
//! paged stores ([`paged_store`]). A page is checked against the snapshot ([`snapshot`])
//! by the feasibility check ([`feasibility`]); the arithmetic of stakes, supports and
//! scores is that of `sp-npos-elections` ([`election`]). [`score`] says what a score is,
//! and [`tally`] adds up the backings that a score is computed from. [`laws`] holds what
//! is true of every run.

pub mod election;
pub mod error;
pub mod feasibility;
pub mod laws;
pub mod paged_store;
pub mod pallet;
pub mod queued;
pub mod score;
pub mod snapshot;
pub mod tally;
pub mod types;
pub mod usage_info;
pub mod verifying;
