//! Treeline: a personal ledger that gathers accounts and transactions from
//! several sources and keeps them free of duplicates.
//!
//! The sources share no identity: an aggregator names its records in its
//! own way, a spreadsheet file names nothing at all. The library decides,
//! for every record that comes in, whether the ledger already holds it:
//! accounts are matched by the identifier their source gave them,
//! transactions by that identifier or by a fingerprint of their content.
//! It plans the range of each sync, and it projects balances backward from
//! the current one. Storage and network stay outside; the services say
//! what to read and what to write.

use vstd::prelude::*;

pub mod amount;
pub mod calendar;
pub mod desktop;
pub mod domain;
pub mod fingerprint;
pub mod ident;
pub mod infra;
pub mod matching;
pub mod projection;
pub mod reconcile;
pub mod repository;
pub mod services;
pub mod string_map;
pub mod text;
pub mod window;
