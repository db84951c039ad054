//! The sources of records: spreadsheet files, the demo data, and the
//! bank-data aggregator.

pub mod columns;
pub mod csv_provider;
pub mod demo_provider;
pub mod simplefin;

pub use self::csv_provider::{CSVProvider, ColumnMapping};
pub use self::demo_provider::DemoDataProvider;
pub use self::simplefin::SimpleFINProvider;
