//! An in-memory data layer: tables that issue stable ids to the values
//! inserted into them and hand out shared handles to those values, plus
//! secondary indexes from derived keys to sets of records.
//!
//! `store` holds the verified heart of a table (the id counter and the
//! mapping from id to record); `table` puts a store behind a reader/writer
//! lock and runs the table's indexer after each insert; `index` holds the
//! secondary indexes and the `Indexer` policy.
pub mod errors;
pub mod index;
pub mod record;
pub mod store;
mod sync;
pub mod table;

pub use errors::Error;
pub use index::{Bucket, Index, Indexer};
pub use record::Record;
pub use store::Store;
pub use table::{PlainTable, Table};
