//! An offline-first synchronisation engine for a site's local store.
//!
//! Pull: batches of legacy records are staged, their tables are put in dependency order,
//! each record is translated into a typed row operation and applied to the local store,
//! and only then does the pull cursor advance.
//!
//! Push: local changes are appended to a changelog with increasing sequences, written back
//! in the legacy wire shape, and compacted once acknowledged; the push cursor only moves
//! over a run of acknowledged changes.
mod text;

pub mod record;
pub mod json;
pub mod translator;
pub mod registry;
pub mod rows;
pub mod store;
pub mod staging;
pub mod pull;
pub mod push;
pub mod synchroniser;
pub mod remote;
pub mod repository_error;
pub mod test_data;

pub mod mock_stats;
pub mod inbound_shipment;
pub mod sensor;
pub mod program_indicator;
pub mod stock_out;

pub use record::{ChangelogEntry, PullBatch, RawSyncRecord, SyncAction};
pub use registry::{DependencyGraphError, DuplicateTableError, TranslatorRegistry};
pub use rows::{IntegrationOp, TypedRow};
pub use store::LocalStore;
pub use synchroniser::{CentralSyncError, PullAction, PullStep, PullSummary, PushBatch, RemoteSyncError, SyncError, Synchroniser};
pub use translator::{TableMapping, TranslationError, Translator};
