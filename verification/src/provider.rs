//! The contract between the engine and the store that supplies the rows.

use vstd::prelude::*;
use crate::sorting::SortState;
use crate::window::Window;

verus! {

/// Why a call to the backing store failed.
#[derive(Copy, Clone, Debug, PartialEq, Eq, Structural)]
pub enum ProviderError {
    /// The store could not be reached.
    Network,
    /// The store answered with a failure.
    Backend,
    /// The store did not answer in time.
    Timeout,
}

/// A store of rows, as the engine consumes it.
///
/// The engine itself never calls these methods while it decides: it hands out
/// requests and takes results back, so an implementation may answer at once or
/// after a suspension.  Nothing is assumed of what an implementation returns.
pub trait RowDataProvider<R> {
    /// The total number of logical rows under the given sort.
    fn row_count(&self, sort: &SortState) -> Result<u64, ProviderError>;

    /// The rows of `range` under the given sort, in ascending position order.  Fewer
    /// rows than the range holds mean that the data ends inside the range.
    fn fetch_rows(&self, range: Window, sort: &SortState) -> Result<Vec<R>, ProviderError>;
}

} // verus!
