//! Dynamic DNS for Cloudflare-hosted zones: the decisions of one update pass.
//!
//! The crate decides, from plain values, which zones are managed, which "A"
//! records of a zone are to be removed, and whether a record for the current
//! public address has to be created. It never touches the network itself: every
//! decision comes back as an [`cloudflare::ApiCall`] for the caller to perform.

pub mod cloudflare;
pub mod config;
pub mod json;
pub mod reconcile;
pub mod seqs;
pub mod text;
