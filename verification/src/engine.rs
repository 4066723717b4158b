//! The engine that composes cache, display strategy, sort state and selection into one
//! table, and decides what to ask of the store.

use vstd::prelude::*;
use crate::cache::{
    rows_of, CacheEntry, CacheLookupResult, CacheModel, FetchOutcome, FetchRequest,
    RowWindowCache, Slot,
};
use crate::display_strategy::{DisplayStrategy, ExtentHint, StrategyKind};
use crate::provider::{ProviderError, RowDataProvider};
use crate::selection::{
    after_action, after_retain, allowed, forbidden, order_after_action, order_after_retain,
    InvalidSelectionMode, RowIdentity, SelectionAction, SelectionMode, SelectionState,
};
use crate::sorting::{toggled, toggled_multi, well_formed, ColumnKey, ColumnSort, SortState};
use crate::table_row::TableRow;
use crate::window::{RowIndex, Window};

verus! {

/// The options of an engine.
#[derive(Copy, Clone, Debug, PartialEq, Eq, Structural)]
pub struct EngineConfig {
    /// The strategy that decides which rows are needed.
    pub display_strategy: StrategyKind,
    /// The number of rows requested around the visible ones; under infinite scroll, how
    /// near to the end of the window the last visible row must come to extend it.
    pub overscan: u32,
    /// The number of rows of a page.
    pub page_size: u32,
    /// How many rows can be selected.
    pub selection_mode: SelectionMode,
    /// The number of rows around the window that an eviction spares.
    pub retention_margin: u32,
}

/// What the engine knows of the number of rows.
#[derive(Copy, Clone, Debug, PartialEq, Eq, Structural)]
pub enum RowCount {
    /// Nothing, and the store has not been asked.
    Unknown,
    /// Nothing yet: the store has been asked.
    Requested,
    /// The number of rows.
    Known(u64),
    /// The store failed to count the rows.  No window can be shown.
    Failed(ProviderError),
}

impl RowCount {
    /// The position below which windows are cut off: the number of rows where it is
    /// known, and the end of the range of positions where it is not.
    pub open spec fn limit(self) -> u64 {
        match self {
            RowCount::Known(n) => n,
            _ => u64::MAX,
        }
    }

    /// The position below which windows are cut off.
    pub fn bound(&self) -> (n: u64)
        ensures
            n == self.limit(),
    {
        match self {
            RowCount::Known(n) => *n,
            _ => u64::MAX,
        }
    }
}

/// A call to the store that the engine asks its owner to make.
#[derive(Copy, Clone, Debug, PartialEq, Eq, Structural)]
pub enum EngineAction {
    /// Count the rows, and hand the result back with `version`.
    CountRows { version: u64 },
    /// Fetch the rows of the request, and hand the result back with its window and
    /// version.
    FetchRows(FetchRequest),
}

/// The fetch requests among `actions` from place `skip` on.
pub open spec fn requests_in(actions: Seq<EngineAction>, skip: int) -> Seq<FetchRequest> {
    Seq::new(
        (actions.len() - skip) as nat,
        |k: int|
            match actions[skip + k] {
                EngineAction::FetchRows(request) => request,
                EngineAction::CountRows { version } => FetchRequest {
                    window: Window { start: 0, end: 0 },
                    version,
                },
            },
    )
}

/// The state of an engine as a mathematical value.
pub struct EngineModel<R> {
    /// The options.
    pub config: EngineConfig,
    /// The cache.
    pub cache: CacheModel<R>,
    /// The sort state.
    pub sort: Seq<(ColumnKey, ColumnSort)>,
    /// The selected rows.
    pub selected: Set<RowIdentity>,
    /// The selected rows in the order in which they were selected.
    pub selection_order: Seq<RowIdentity>,
    /// The display strategy with its state.
    pub strategy: DisplayStrategy,
    /// What is known of the number of rows.
    pub row_count: RowCount,
}

impl<R> EngineModel<R> {
    /// The parts are well formed, and the selection is one that the mode allows and
    /// holds each of its rows once.
    pub open spec fn wf(self) -> bool {
        &&& self.cache.wf()
        &&& well_formed(self.sort)
        &&& allowed(self.config.selection_mode, self.selected)
        &&& self.selection_order.no_duplicates()
        &&& self.selection_order.to_set() == self.selected
    }

    /// The window that is needed for display.
    pub open spec fn window(self) -> Window {
        self.strategy.needed(self.row_count.limit())
    }

    /// The cache after the eviction of a display tick.  Under infinite scroll the window
    /// never shrinks and nothing is evicted.
    pub open spec fn swept(self) -> CacheModel<R> {
        if self.strategy is InfiniteScroll {
            self.cache
        } else {
            self.cache.evicted(self.window().widened(self.config.retention_margin as nat))
        }
    }

    /// The state after a display tick.  While the count of the rows has failed, a tick
    /// does nothing.
    pub open spec fn ticked(self) -> EngineModel<R> {
        if self.row_count is Failed {
            self
        } else {
            EngineModel {
                cache: self.swept().with_pending(self.window()),
                row_count: if self.row_count is Unknown {
                    RowCount::Requested
                } else {
                    self.row_count
                },
                ..self
            }
        }
    }

    /// The state after a reload: the cache is invalidated, and the number of rows is
    /// unknown again.
    pub open spec fn reloaded(self) -> EngineModel<R> {
        EngineModel { cache: self.cache.invalidated(), row_count: RowCount::Unknown, ..self }
    }

    /// The state after the sort state became `sort`: where that is a change, the engine
    /// reloads; where it is none, nothing happens.
    pub open spec fn sorted_by(self, sort: Seq<(ColumnKey, ColumnSort)>) -> EngineModel<R> {
        if sort == self.sort {
            self
        } else {
            EngineModel { sort, ..self.reloaded() }
        }
    }

    /// The state after the store answered the count of the rows that was asked for under
    /// `version`.  An answer of another version than the current one is dropped.
    pub open spec fn counted(self, version: u64, result: Result<u64, ProviderError>) -> EngineModel<
        R,
    > {
        if version != self.cache.version {
            self
        } else {
            EngineModel {
                row_count: match result {
                    Ok(n) => RowCount::Known(n),
                    Err(error) => RowCount::Failed(error),
                },
                ..self
            }
        }
    }

    /// The state after the result of a fetch arrived.  Where the store returned fewer
    /// rows than asked for, the data ends there, and that is the number of rows from now
    /// on, unless the count of the rows has failed.
    pub open spec fn fetched(
        self,
        w: Window,
        version: u64,
        result: Result<Seq<R>, ProviderError>,
    ) -> EngineModel<R> {
        EngineModel {
            cache: self.cache.after_result(w, version, result),
            row_count: match self.cache.outcome(w, version, result) {
                FetchOutcome::Truncated { row_count } => if self.row_count is Failed {
                    self.row_count
                } else {
                    RowCount::Known(row_count)
                },
                _ => self.row_count,
            },
            ..self
        }
    }

    /// The state after a change of strategy: the strategy starts anew, and the cache
    /// stays as it is.
    pub open spec fn switched(self, kind: StrategyKind) -> EngineModel<R> {
        EngineModel {
            config: EngineConfig { display_strategy: kind, ..self.config },
            strategy: DisplayStrategy::initial_state(
                kind,
                self.config.overscan,
                self.config.page_size,
            ),
            ..self
        }
    }
}

impl<R: TableRow> EngineModel<R> {
    /// Whether position `i` is on display and holds the row of identity `id`.
    pub open spec fn shows_row(self, i: RowIndex, id: RowIdentity) -> bool {
        &&& self.window().has(i as int)
        &&& self.cache.slot(i) matches Some(Slot::Hit(entry))
        &&& entry.row.identity_of() == id
    }
}

/// A change of the sort state reloads exactly once, and no change reloads not at all.
/// A click on a column header always is a change, in either mode.
pub proof fn lemma_sort_change_reloads_once<R>(
    m: EngineModel<R>,
    sort: Seq<(ColumnKey, ColumnSort)>,
    column: ColumnKey,
)
    requires
        m.wf(),
        m.cache.version < u64::MAX,
    ensures
        sort != m.sort ==> m.sorted_by(sort).cache == m.cache.invalidated() && m.sorted_by(
            sort,
        ).cache.version == m.cache.version + 1,
        sort == m.sort ==> m.sorted_by(sort) == m,
        m.sorted_by(toggled(m.sort, column)).cache.version == m.cache.version + 1,
        m.sorted_by(toggled_multi(m.sort, column)).cache.version == m.cache.version + 1,
{
    crate::sorting::lemma_toggle_changes_content(m.sort, column);
}

/// A fetch that was started before a change of the sort state leaves no trace when its
/// result arrives after the change.
pub proof fn lemma_result_after_sort_change_is_dropped<R>(
    m: EngineModel<R>,
    sort: Seq<(ColumnKey, ColumnSort)>,
    w: Window,
    result: Result<Seq<R>, ProviderError>,
)
    requires
        m.cache.version < u64::MAX,
        sort != m.sort,
    ensures
        ({
            let changed = m.ticked().sorted_by(sort);
            &&& changed.fetched(w, m.cache.version, result) == changed
            &&& forall|i: RowIndex| changed.fetched(w, m.cache.version, result).cache.slot(i) is None
        }),
{
}

/// The engine of one table.
pub struct RowWindowEngine<R> {
    config: EngineConfig,
    cache: RowWindowCache<R>,
    sort: SortState,
    selection: SelectionState,
    strategy: DisplayStrategy,
    row_count: RowCount,
}

impl<R> View for RowWindowEngine<R> {
    type V = EngineModel<R>;

    closed spec fn view(&self) -> EngineModel<R> {
        EngineModel {
            config: self.config,
            cache: self.cache@,
            sort: self.sort@,
            selected: self.selection@,
            selection_order: self.selection.order(),
            strategy: self.strategy,
            row_count: self.row_count,
        }
    }
}

impl<R> RowWindowEngine<R> {
    /// The parts of the engine are well formed and follow the options.
    pub closed spec fn wf(&self) -> bool {
        &&& self.cache.wf()
        &&& self.sort.wf()
        &&& self.selection.wf()
        &&& self.selection.mode_of() == self.config.selection_mode
        &&& self.cache.margin() == self.config.retention_margin
    }

    /// The state of a well-formed engine is well formed.
    pub proof fn lemma_wf_view(&self)
        requires
            self.wf(),
        ensures
            self@.wf(),
    {
        self.selection.lemma_wf_is_allowed();
    }

    /// An engine with an empty cache at version zero, no sort, no selection, the
    /// strategy of the options in its initial state, and an unknown number of rows.
    pub fn new(config: EngineConfig) -> (engine: RowWindowEngine<R>)
        ensures
            engine.wf(),
            engine@ == (EngineModel::<R> {
                config,
                cache: CacheModel { version: 0, slots: Map::empty() },
                sort: Seq::empty(),
                selected: Set::empty(),
                selection_order: Seq::empty(),
                strategy: DisplayStrategy::initial_state(
                    config.display_strategy,
                    config.overscan,
                    config.page_size,
                ),
                row_count: RowCount::Unknown,
            }),
    {
        RowWindowEngine {
            config,
            cache: RowWindowCache::new(config.retention_margin),
            sort: SortState::new(),
            selection: SelectionState::new(config.selection_mode),
            strategy: DisplayStrategy::initial(
                config.display_strategy,
                config.overscan,
                config.page_size,
            ),
            row_count: RowCount::Unknown,
        }
    }

    /// The options.
    pub fn config(&self) -> (config: EngineConfig)
        ensures
            config == self@.config,
    {
        self.config
    }

    /// The current reload version.
    pub fn current_version(&self) -> (v: u64)
        ensures
            v == self@.cache.version,
    {
        self.cache.current_version()
    }

    /// Whether the engine can still reload.
    pub fn can_invalidate(&self) -> (ok: bool)
        ensures
            ok == (self@.cache.version < u64::MAX),
    {
        self.cache.can_invalidate()
    }

    /// What is known of the number of rows.
    pub fn row_count(&self) -> (count: RowCount)
        ensures
            count == self@.row_count,
    {
        self.row_count
    }

    /// The display strategy with its state.
    pub fn strategy(&self) -> (strategy: DisplayStrategy)
        ensures
            strategy == self@.strategy,
    {
        self.strategy
    }

    /// The sort state, to read.
    pub fn sort(&self) -> (sort: &SortState)
        requires
            self.wf(),
        ensures
            sort@ == self@.sort,
            sort.wf(),
    {
        &self.sort
    }

    /// The selection, to read.
    pub fn selection(&self) -> (selection: &SelectionState)
        requires
            self.wf(),
        ensures
            selection@ == self@.selected,
            selection.order() == self@.selection_order,
            selection.mode_of() == self@.config.selection_mode,
            selection.wf(),
    {
        &self.selection
    }

    /// The window that is needed for display.
    pub fn current_window(&self) -> (w: Window)
        ensures
            w == self@.window(),
            w.start <= w.end <= self@.row_count.limit(),
    {
        self.strategy.window(self.row_count.bound())
    }

    /// The hint on the total extent of the table, once the number of rows is known.
    pub fn extent_hint(&self) -> (hint: Option<ExtentHint>)
        ensures
            self@.row_count matches RowCount::Known(n) ==> hint == Some(self@.strategy.extent(n)),
            !(self@.row_count is Known) ==> hint.is_none(),
    {
        match self.row_count {
            RowCount::Known(n) => Some(self.strategy.extent_hint(n)),
            _ => None,
        }
    }

    /// The rows of the window on display, in ascending order, each position with its
    /// classification.  A pure read: nothing is fetched.  Where the count of the rows has
    /// failed, no window can be shown, and the failure is returned instead.
    pub fn current_rows(&self) -> (rows: Result<
        Vec<(RowIndex, CacheLookupResult<'_, R>)>,
        ProviderError,
    >)
        ensures
            self@.row_count matches RowCount::Failed(error) ==> (rows matches Err(e) && e == error),
            !(self@.row_count is Failed) ==> (rows matches Ok(found) && {
                &&& found@.len() == self@.window().count()
                &&& forall|k: int|
                    0 <= k < found@.len() ==> {
                        &&& (#[trigger] found@[k]).0 == self@.window().start + k
                        &&& found@[k].1.describes(self@.cache.slot(found@[k].0))
                    }
            }),
    {
        match self.row_count {
            RowCount::Failed(error) => {
                return Err(error);
            },
            _ => {},
        }
        let window = self.current_window();
        let mut found: Vec<(RowIndex, CacheLookupResult<'_, R>)> = Vec::new();
        let mut i: u64 = window.start;
        while i < window.end
            invariant
                window.start <= i <= window.end,
                found@.len() == i - window.start,
                forall|k: int|
                    0 <= k < found@.len() ==> {
                        &&& (#[trigger] found@[k]).0 == window.start + k
                        &&& found@[k].1.describes(self@.cache.slot(found@[k].0))
                    },
            decreases window.end - i,
        {
            let one = self.cache.lookup(i);
            found.push((i, one));
            i = i + 1;
        }
        Ok(found)
    }

    /// One display tick: decides what to ask of the store.
    ///
    /// The window of the strategy is computed anew.  What lies outside it and its
    /// retention margin is evicted, except under infinite scroll.  Fetches are started for
    /// the misses of the window, one per maximal run of misses, and where the number of
    /// rows is unknown and has not been asked for, the count is asked for first.  While
    /// the count of the rows has failed, nothing is asked.
    pub fn tick(&mut self) -> (actions: Vec<EngineAction>)
        requires
            old(self).wf(),
        ensures
            final(self).wf(),
            final(self)@ == old(self)@.ticked(),
            old(self)@.row_count is Failed ==> actions@.len() == 0,
            !(old(self)@.row_count is Failed) ==> {
                let skip: int = if old(self)@.row_count is Unknown {
                    1
                } else {
                    0
                };
                &&& actions@.len() >= skip
                &&& skip == 1 ==> actions@[0] == (EngineAction::CountRows {
                    version: old(self)@.cache.version,
                })
                &&& forall|k: int| skip <= k < actions@.len() ==> #[trigger] actions@[k] is FetchRows
                &&& old(self)@.swept().coalesces(old(self)@.window(), requests_in(actions@, skip))
            },
    {
        let mut actions: Vec<EngineAction> = Vec::new();
        match self.row_count {
            RowCount::Failed(_) => {
                return actions;
            },
            RowCount::Unknown => {
                actions.push(EngineAction::CountRows { version: self.cache.current_version() });
                self.row_count = RowCount::Requested;
            },
            _ => {},
        }
        let ghost skip: int = actions@.len() as int;
        let window = self.current_window();
        match self.strategy {
            DisplayStrategy::InfiniteScroll(_) => {},
            _ => {
                self.cache.evict(window);
            },
        }
        let requests = self.cache.ensure(window);
        let mut k: usize = 0;
        while k < requests.len()
            invariant
                k <= requests.len(),
                0 <= skip <= 1,
                actions@.len() == skip + k,
                skip == 1 ==> actions@[0] == (EngineAction::CountRows {
                    version: old(self)@.cache.version,
                }),
                forall|j: int|
                    0 <= j < k ==> #[trigger] actions@[skip + j] == EngineAction::FetchRows(
                        requests@[j],
                    ),
            decreases requests.len() - k,
        {
            actions.push(EngineAction::FetchRows(requests[k]));
            k = k + 1;
        }
        proof {
            assert(requests_in(actions@, skip) =~= requests@);
            assert forall|j: int| skip <= j < actions@.len() implies #[trigger] actions@[j]
                is FetchRows by {
                assert(actions@[skip + (j - skip)] == EngineAction::FetchRows(requests@[j - skip]));
            }
        }
        actions
    }

    /// Tries again what failed: forgets the failures recorded in the window on display
    /// and starts fetches for those positions and for the other misses of the window.
    /// Nothing is evicted and the count of the rows is not asked for; while the count
    /// has failed, nothing happens.
    pub fn retry(&mut self) -> (requests: Vec<FetchRequest>)
        requires
            old(self).wf(),
        ensures
            final(self).wf(),
            old(self)@.row_count is Failed ==> requests@.len() == 0 && final(self)@ == old(self)@,
            !(old(self)@.row_count is Failed) ==> {
                &&& final(self)@ == (EngineModel {
                    cache: old(self)@.cache.without_failures(old(self)@.window()).with_pending(
                        old(self)@.window(),
                    ),
                    ..old(self)@
                })
                &&& old(self)@.cache.without_failures(old(self)@.window()).coalesces(
                    old(self)@.window(),
                    requests@,
                )
            },
    {
        match self.row_count {
            RowCount::Failed(_) => {
                return Vec::new();
            },
            _ => {},
        }
        let window = self.current_window();
        self.cache.retry(window)
    }

    /// Takes the answer of the store to the count of the rows that was asked for under
    /// `version`.  An answer of an earlier version is dropped.  Returns whether the
    /// answer was taken.
    pub fn on_row_count(&mut self, version: u64, result: Result<u64, ProviderError>) -> (taken:
        bool)
        requires
            old(self).wf(),
        ensures
            final(self).wf(),
            final(self)@ == old(self)@.counted(version, result),
            taken == (version == old(self)@.cache.version),
    {
        if version != self.cache.current_version() {
            return false;
        }
        self.row_count = match result {
            Ok(n) => RowCount::Known(n),
            Err(error) => RowCount::Failed(error),
        };
        true
    }

    /// Takes the result of a fetch for `window` that was started under `version`, and
    /// hands it to the cache.  Where fewer rows came than were asked for, the number of
    /// rows is known from then on.
    pub fn on_fetch_result(
        &mut self,
        window: Window,
        version: u64,
        result: Result<Vec<R>, ProviderError>,
    ) -> (outcome: FetchOutcome)
        requires
            old(self).wf(),
        ensures
            final(self).wf(),
            final(self)@ == old(self)@.fetched(window, version, rows_of(result)),
            outcome == old(self)@.cache.outcome(window, version, rows_of(result)),
            version != old(self)@.cache.version ==> final(self)@ == old(self)@,
    {
        let outcome = self.cache.on_fetch_result(window, version, result);
        match outcome {
            FetchOutcome::Truncated { row_count } => {
                match self.row_count {
                    RowCount::Failed(_) => {},
                    _ => {
                        self.row_count = RowCount::Known(row_count);
                    },
                }
            },
            _ => {},
        }
        outcome
    }

    /// Reloads: the version advances, the cache is emptied, and the number of rows is
    /// unknown again.  Sort state, selection and strategy stay as they are.
    pub fn invalidate(&mut self)
        requires
            old(self).wf(),
            old(self)@.cache.version < u64::MAX,
        ensures
            final(self).wf(),
            final(self)@ == old(self)@.reloaded(),
            final(self)@.cache.version == old(self)@.cache.version + 1,
    {
        self.cache.invalidate();
        self.row_count = RowCount::Unknown;
    }

    /// A click on the header of `column` in single-column mode.  The sort state changes,
    /// and the engine reloads exactly once.
    pub fn toggle_sort(&mut self, column: ColumnKey)
        requires
            old(self).wf(),
            old(self)@.cache.version < u64::MAX,
        ensures
            final(self).wf(),
            final(self)@ == old(self)@.sorted_by(toggled(old(self)@.sort, column)),
            final(self)@.sort != old(self)@.sort,
            final(self)@.cache.version == old(self)@.cache.version + 1,
    {
        self.sort = self.sort.toggle(column);
        self.invalidate();
    }

    /// A click on the header of `column` in multi-column mode.  The sort state changes,
    /// and the engine reloads exactly once.
    pub fn toggle_sort_multi(&mut self, column: ColumnKey)
        requires
            old(self).wf(),
            old(self)@.cache.version < u64::MAX,
        ensures
            final(self).wf(),
            final(self)@ == old(self)@.sorted_by(toggled_multi(old(self)@.sort, column)),
            final(self)@.sort != old(self)@.sort,
            final(self)@.cache.version == old(self)@.cache.version + 1,
    {
        self.sort = self.sort.toggle_multi(column);
        self.invalidate();
    }

    /// Replaces the sort state.  Where the new state differs from the old one the engine
    /// reloads exactly once; where it does not, nothing happens.  Returns whether the
    /// engine reloaded.
    pub fn set_sort(&mut self, sort: SortState) -> (reloaded: bool)
        requires
            old(self).wf(),
            sort.wf(),
            sort@ != old(self)@.sort ==> old(self)@.cache.version < u64::MAX,
        ensures
            final(self).wf(),
            final(self)@ == old(self)@.sorted_by(sort@),
            reloaded == (sort@ != old(self)@.sort),
            final(self)@.cache.version == old(self)@.cache.version + if reloaded {
                1int
            } else {
                0int
            },
    {
        if self.sort.same_as(&sort) {
            false
        } else {
            self.sort = sort;
            self.invalidate();
            true
        }
    }

    /// Applies a change of the selection that the rendering layer asks for.  Returns
    /// whether the selection changed, which is when the owner is to be told of a
    /// selection change; selecting all under a mode other than `Multiple` is an error and
    /// changes nothing.
    pub fn on_selection_change(&mut self, action: &SelectionAction) -> (done: Result<
        bool,
        InvalidSelectionMode,
    >)
        requires
            old(self).wf(),
        ensures
            final(self).wf(),
            final(self)@ == (EngineModel {
                selected: after_action(old(self)@.config.selection_mode, old(self)@.selected, *action),
                selection_order: order_after_action(
                    old(self)@.config.selection_mode,
                    old(self)@.selection_order,
                    *action,
                ),
                ..old(self)@
            }),
            !forbidden(old(self)@.config.selection_mode, *action) ==> done == Ok::<
                bool,
                InvalidSelectionMode,
            >(final(self)@.selected != old(self)@.selected),
            forbidden(old(self)@.config.selection_mode, *action) ==> done == Err::<
                bool,
                InvalidSelectionMode,
            >(InvalidSelectionMode { mode: old(self)@.config.selection_mode }) && final(self)@
                == old(self)@,
    {
        self.selection.apply(action)
    }

    /// Drops the selected rows that are not among `present`, the rows that the logical
    /// sequence holds after a reload.  Returns whether the selection changed: one
    /// notification for the whole step.
    pub fn reconcile_selection(&mut self, present: &Vec<RowIdentity>) -> (changed: bool)
        requires
            old(self).wf(),
        ensures
            final(self).wf(),
            final(self)@ == (EngineModel {
                selected: after_retain(old(self)@.selected, present@),
                selection_order: order_after_retain(old(self)@.selection_order, present@),
                ..old(self)@
            }),
            changed == (final(self)@.selected != old(self)@.selected),
    {
        self.selection.retain_present(present)
    }

    /// Switches to the strategy of the given kind, which starts in its initial state.
    /// The cache is not touched: the rows that were fetched stay valid.
    pub fn set_display_strategy(&mut self, kind: StrategyKind)
        requires
            old(self).wf(),
        ensures
            final(self).wf(),
            final(self)@ == old(self)@.switched(kind),
            final(self)@.cache == old(self)@.cache,
    {
        self.config.display_strategy = kind;
        self.strategy = DisplayStrategy::initial(kind, self.config.overscan, self.config.page_size);
    }

    /// Takes the scroll position and the height of the viewport, in pixels.  Only
    /// virtualization listens.  Returns whether the signal was taken.
    pub fn set_viewport(&mut self, scroll_top: u64, viewport_height: u64) -> (taken: bool)
        requires
            old(self).wf(),
        ensures
            final(self).wf(),
            taken == (old(self)@.strategy is Virtualization),
            old(self)@.strategy matches DisplayStrategy::Virtualization(v) ==> final(self)@ == (
            EngineModel {
                strategy: DisplayStrategy::Virtualization(
                    crate::display_strategy::Virtualization { scroll_top, viewport_height, ..v },
                ),
                ..old(self)@
            }),
            !taken ==> final(self)@ == old(self)@,
    {
        match self.strategy {
            DisplayStrategy::Virtualization(v) => {
                let mut v = v;
                v.set_viewport(scroll_top, viewport_height);
                self.strategy = DisplayStrategy::Virtualization(v);
                true
            },
            _ => false,
        }
    }

    /// Takes a measurement of the rendering layer after layout: the top of row `index`
    /// lies at `measured_offset` pixels.  Only virtualization listens.  Returns whether
    /// the signal was taken.
    pub fn correct_row_offset(&mut self, index: RowIndex, measured_offset: u64) -> (taken: bool)
        requires
            old(self).wf(),
        ensures
            final(self).wf(),
            taken == (old(self)@.strategy is Virtualization),
            old(self)@.strategy matches DisplayStrategy::Virtualization(v) ==> final(self)@ == (
            EngineModel {
                strategy: DisplayStrategy::Virtualization(
                    if index > 0 {
                        crate::display_strategy::Virtualization {
                            row_height: (measured_offset / index) as u64,
                            ..v
                        }
                    } else {
                        v
                    },
                ),
                ..old(self)@
            }),
            !taken ==> final(self)@ == old(self)@,
    {
        match self.strategy {
            DisplayStrategy::Virtualization(v) => {
                let mut v = v;
                v.correct_offset(index, measured_offset);
                self.strategy = DisplayStrategy::Virtualization(v);
                true
            },
            _ => false,
        }
    }

    /// Moves to `page`.  Only pagination listens.  Returns whether the signal was taken.
    pub fn set_page(&mut self, page: u64) -> (taken: bool)
        requires
            old(self).wf(),
        ensures
            final(self).wf(),
            taken == (old(self)@.strategy is Pagination),
            old(self)@.strategy matches DisplayStrategy::Pagination(p) ==> final(self)@ == (EngineModel {
                strategy: DisplayStrategy::Pagination(
                    crate::display_strategy::Pagination { page, ..p },
                ),
                ..old(self)@
            }),
            !taken ==> final(self)@ == old(self)@,
    {
        match self.strategy {
            DisplayStrategy::Pagination(p) => {
                let mut p = p;
                p.set_page(page);
                self.strategy = DisplayStrategy::Pagination(p);
                true
            },
            _ => false,
        }
    }

    /// Takes a scroll position, given as the position of the last visible row.  Only
    /// infinite scroll listens: its window grows by a page where the position crosses the
    /// threshold, and never shrinks.  Returns whether the window grew.
    pub fn on_scroll(&mut self, last_visible: RowIndex) -> (extended: bool)
        requires
            old(self).wf(),
        ensures
            final(self).wf(),
            old(self)@.strategy matches DisplayStrategy::InfiniteScroll(s) ==> {
                &&& final(self)@ == (EngineModel {
                    strategy: DisplayStrategy::InfiniteScroll(
                        s.scrolled(last_visible, old(self)@.row_count.limit()),
                    ),
                    ..old(self)@
                })
                &&& extended == s.crosses(last_visible, old(self)@.row_count.limit())
                &&& final(self)@.window().start == 0
                &&& forall|i: int| old(self)@.window().has(i) ==> final(self)@.window().has(i)
            },
            !(old(self)@.strategy is InfiniteScroll) ==> !extended && final(self)@ == old(self)@,
    {
        match self.strategy {
            DisplayStrategy::InfiniteScroll(s) => {
                let mut s = s;
                let extended = s.on_scroll(last_visible, self.row_count.bound());
                self.strategy = DisplayStrategy::InfiniteScroll(s);
                extended
            },
            _ => false,
        }
    }
}

/// Whether `action` fetches the row at position `i`.
pub open spec fn fetches_row(action: EngineAction, i: RowIndex) -> bool {
    action matches EngineAction::FetchRows(request) && request.window.has(i as int)
}

impl<R> RowWindowEngine<R> {
    /// One display tick against a store that answers at once: the calls that the tick
    /// decides on are made one after the other, and each answer is handed back before the
    /// next call.  Returns the number of calls made.
    ///
    /// Whatever the store answers, the version, the sort state, the selection and the
    /// strategy stay as they are, and no fetch is left in flight that was not in flight
    /// before.
    pub fn load<P: RowDataProvider<R>>(&mut self, provider: &P) -> (calls: usize)
        requires
            old(self).wf(),
        ensures
            final(self).wf(),
            final(self)@.config == old(self)@.config,
            final(self)@.sort == old(self)@.sort,
            final(self)@.selected == old(self)@.selected,
            final(self)@.strategy == old(self)@.strategy,
            final(self)@.cache.version == old(self)@.cache.version,
            forall|i: RowIndex|
                final(self)@.cache.is_pending(i) ==> old(self)@.cache.is_pending(i),
            old(self)@.row_count is Failed ==> calls == 0 && final(self)@ == old(self)@,
            !(old(self)@.row_count is Failed) ==> calls == (if old(self)@.row_count is Unknown {
                1int
            } else {
                0int
            }) + old(self)@.swept().missing_run_count(old(self)@.window()),
    {
        let ghost before = self@;
        match self.row_count {
            RowCount::Failed(_) => {
                return 0;
            },
            _ => {},
        }
        let actions = self.tick();
        let ghost skip: int = if before.row_count is Unknown {
            1
        } else {
            0
        };
        proof {
            let requests = requests_in(actions@, skip);
            assert forall|j: int| 0 <= j < actions@.len() implies (
            #[trigger] actions@[j] matches EngineAction::FetchRows(request) ==> request.version
                == before.cache.version) by {
                if skip <= j {
                    assert(requests[j - skip].version == before.cache.version);
                }
            }
            assert forall|i: RowIndex| self@.cache.is_pending(i) implies before.cache.is_pending(
                i,
            ) || exists|j: int| 0 <= j < actions@.len() && fetches_row(#[trigger] actions@[j], i) by {
                if !before.cache.is_pending(i) {
                    assert(before.swept().is_miss(i));
                    let k = choose|k: int|
                        0 <= k < requests.len() && (#[trigger] requests[k]).window.has(i as int);
                    assert(fetches_row(actions@[skip + k], i));
                }
            }
        }
        let mut k: usize = 0;
        while k < actions.len()
            invariant
                k <= actions.len(),
                actions@.len() == skip + before.swept().missing_run_count(before.window()),
                self.wf(),
                self@.config == before.config,
                self@.sort == before.sort,
                self@.selected == before.selected,
                self@.strategy == before.strategy,
                self@.cache.version == before.cache.version,
                forall|j: int|
                    0 <= j < actions@.len() ==> (#[trigger] actions@[j] matches EngineAction::FetchRows(
                        request,
                    ) ==> request.version == before.cache.version),
                forall|i: RowIndex|
                    self@.cache.is_pending(i) ==> before.cache.is_pending(i) || exists|j: int|
                        k <= j < actions@.len() && fetches_row(#[trigger] actions@[j], i),
            decreases actions.len() - k,
        {
            match actions[k] {
                EngineAction::CountRows { version } => {
                    let answer = provider.row_count(&self.sort);
                    self.on_row_count(version, answer);
                },
                EngineAction::FetchRows(request) => {
                    let answer = provider.fetch_rows(request.window, &self.sort);
                    self.on_fetch_result(request.window, request.version, answer);
                },
            }
            proof {
                assert forall|i: RowIndex| self@.cache.is_pending(i) implies before.cache.is_pending(
                    i,
                ) || exists|j: int|
                    k + 1 <= j < actions@.len() && fetches_row(#[trigger] actions@[j], i) by {
                    if !before.cache.is_pending(i) {
                        let j = choose|j: int|
                            k <= j < actions@.len() && fetches_row(#[trigger] actions@[j], i);
                        assert(j != k);
                    }
                }
            }
            k = k + 1;
        }
        actions.len()
    }
}

impl<R: TableRow> RowWindowEngine<R> {
    /// The first position on display that holds the row of the given identity, with the
    /// row.
    pub fn find_row(&self, identity: RowIdentity) -> (found: Option<(RowIndex, &R)>)
        ensures
            found matches Some((i, row)) ==> {
                &&& self@.shows_row(i, identity)
                &&& self@.cache.slot(i) matches Some(Slot::Hit(entry)) && entry.row == *row
                &&& forall|j: RowIndex| j < i ==> !self@.shows_row(j, identity)
            },
            found is None ==> forall|j: RowIndex| !self@.shows_row(j, identity),
    {
        let window = self.current_window();
        let mut i: u64 = window.start;
        while i < window.end
            invariant
                window == self@.window(),
                window.start <= i <= window.end,
                forall|j: RowIndex| j < i ==> !self@.shows_row(j, identity),
            decreases window.end - i,
        {
            match self.cache.lookup(i) {
                CacheLookupResult::Hit(row) => {
                    if row.identity() == identity {
                        return Some((i, row));
                    }
                },
                _ => {},
            }
            i = i + 1;
        }
        None
    }

    /// An edit of a cell: writes `value` to `column` of the row of the given identity,
    /// where that row is on display.  The edit is applied to the cached copy of the row,
    /// which becomes a new entry of the current version; the store is not called.
    /// Returns the position of the row, at which the applied row can be read, and which
    /// the owner is to be told of; `None` where no row of that identity is on display, in
    /// which case nothing changes.
    pub fn on_cell_edit(&mut self, identity: RowIdentity, column: ColumnKey, value: R::Cell) -> (edited:
        Option<RowIndex>)
        requires
            old(self).wf(),
        ensures
            final(self).wf(),
            edited matches Some(i) ==> {
                &&& old(self)@.shows_row(i, identity)
                &&& forall|j: RowIndex| j < i ==> !old(self)@.shows_row(j, identity)
                &&& old(self)@.cache.slot(i) matches Some(Slot::Hit(before))
                &&& final(self)@.cache.slot(i) matches Some(Slot::Hit(after))
                &&& after.row.is_edit_of(&before.row, column, value)
                &&& final(self)@ == (EngineModel {
                    cache: old(self)@.cache.with_row(i, after.row),
                    ..old(self)@
                })
            },
            edited is None ==> {
                &&& forall|j: RowIndex| !old(self)@.shows_row(j, identity)
                &&& final(self)@ == old(self)@
            },
    {
        let applied = match self.find_row(identity) {
            Some((i, row)) => Some((i, row.with_cell(column, value))),
            None => None,
        };
        match applied {
            Some((i, row)) => {
                self.cache.replace_row(i, row);
                Some(i)
            },
            None => None,
        }
    }
}

} // verus!
