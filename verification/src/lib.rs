//! A headless row-window engine for tables bound to typed records.
//!
//! A table shows a window of a long, sorted sequence of rows that lives in a store.
//! The engine fetches only the rows that the display needs and keeps a bounded cache
//! of them, keyed by position, while the user scrolls, pages, sorts and selects.
//!
//! The parts:
//!
//! - [`sorting`]: the direction of a column and the multi-column sort state.
//! - [`selection`]: the set of selected rows under a selection mode.
//! - [`provider`]: what the engine asks of the store.
//! - [`reload_controller`]: the version counter by which stale results are told.
//! - [`cache`]: the cache of fetched rows, which coalesces misses into fetches.
//! - [`display_strategy`]: virtualization, infinite scroll and pagination, each of
//!   which says which window is needed.
//! - [`table_row`]: what the engine asks of a row, and a plain row of numbers.
//! - [`window`]: half-open ranges of row positions.
//! - [`engine`]: the engine that composes the parts.
//!
//! The engine never waits.  It decides which calls are to be made and takes their
//! results back when they are there; a result that belongs to an earlier version is
//! dropped.  Every function carries a contract over a mathematical model of the
//! state, and the contract is proved.

pub mod cache;
pub mod display_strategy;
pub mod engine;
pub mod provider;
pub mod reload_controller;
pub mod selection;
pub mod sorting;
pub mod table_row;
pub mod window;

pub use cache::{
    CacheEntry, CacheLookupResult, CacheModel, FetchOutcome, FetchRequest, RowWindowCache, Slot,
};
pub use display_strategy::{
    DisplayStrategy, ExtentHint, InfiniteScroll, Pagination, StrategyKind, Virtualization,
};
pub use engine::{EngineAction, EngineConfig, EngineModel, RowCount, RowWindowEngine};
pub use provider::{ProviderError, RowDataProvider};
pub use reload_controller::ReloadController;
pub use selection::{
    InvalidSelectionMode, RowIdentity, SelectionAction, SelectionMode, SelectionState,
};
pub use sorting::{ColumnKey, ColumnSort, SortState};
pub use table_row::{FieldGetter, Record, TableRow};
pub use window::{RowIndex, Window};
