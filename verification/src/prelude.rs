//! Convenient imports.

pub use crate::config::{SaveMode, SyncConfig};
pub use crate::cursor::{SyncCursor, SyncCursors, SyncWatermarks};
pub use crate::delta::{BatchId, SupabaseDeltaSync};
pub use crate::error::RequestError;
pub use crate::event::{FetchView, SyncComplete, SyncError, SyncToSupabase};
pub use crate::event::{ViewFetchFailed, ViewFetched};
pub use crate::http::{Request, Response};
pub use crate::plugin::{SupabaseConfig, SupabasePlugin};
pub use crate::query::{Order, TableQuery};
pub use crate::queue::{ResultQueue, SyncOutcome, ViewOutcome};
pub use crate::request::{build_select_request, build_write_request};
pub use crate::request::{execute_batch_insert, execute_batch_upsert, execute_insert};
pub use crate::request::{execute_select, execute_sync, execute_update, execute_upsert};
pub use crate::request::{execute_write, execute_write_returning, Exchange};
pub use crate::request::{PrimaryKeyResponse, SupabaseConnection, WriteOptions};
pub use crate::state::SyncState;
pub use crate::traits::{SupabaseRow, SupabaseView};
pub use crate::view::{SupabaseViewConfig, SupabaseViewPlugin};
