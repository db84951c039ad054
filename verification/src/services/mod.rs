//! The services: what the ledger offers to a front end.

pub mod account;
pub mod backfill;
pub mod db;
pub mod import;
pub mod status;
pub mod sync;

pub use self::account::AccountService;
pub use self::backfill::{BackfillResult, BackfillService};
pub use self::db::DbService;
pub use self::import::{ImportResult, ImportService};
pub use self::status::{StatusData, StatusService};
pub use self::sync::{IntegrationSyncResult, SyncResult, SyncService};
pub use crate::reconcile::TransactionStats;
