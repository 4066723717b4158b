use leptos_struct_table::{
    CacheLookupResult, ColumnSort, DisplayStrategy, EngineAction, EngineConfig, ExtentHint,
    FetchOutcome, FetchRequest, InvalidSelectionMode, Pagination, ProviderError, Record, RowCount,
    RowDataProvider, RowWindowEngine, SelectionAction, SelectionMode, SortState, StrategyKind,
    Window,
};
use std::cell::Cell;

fn config(kind: StrategyKind) -> EngineConfig {
    EngineConfig {
        display_strategy: kind,
        overscan: 2,
        page_size: 3,
        selection_mode: SelectionMode::Multiple,
        retention_margin: 1,
    }
}

fn record(id: u64) -> Record {
    Record::new(id, vec![id as i64 * 10, -(id as i64)])
}

fn records(from: u64, to: u64) -> Vec<Record> {
    (from..to).map(record).collect()
}

fn fetch(start: u64, end: u64, version: u64) -> EngineAction {
    EngineAction::FetchRows(FetchRequest {
        window: Window::new(start, end),
        version,
    })
}

fn shown(engine: &RowWindowEngine<Record>) -> Vec<(u64, Option<u64>)> {
    engine
        .current_rows()
        .unwrap()
        .iter()
        .map(|(index, found)| match found {
            CacheLookupResult::Hit(row) => (*index, Some(row.id)),
            _ => (*index, None),
        })
        .collect()
}

struct Store {
    rows: u64,
    count_error: Option<ProviderError>,
    fetch_error: Option<ProviderError>,
    counts: Cell<usize>,
    fetches: Cell<usize>,
    last_sort_len: Cell<usize>,
}

impl Store {
    fn with_rows(rows: u64) -> Store {
        Store {
            rows,
            count_error: None,
            fetch_error: None,
            counts: Cell::new(0),
            fetches: Cell::new(0),
            last_sort_len: Cell::new(0),
        }
    }
}

impl RowDataProvider<Record> for Store {
    fn row_count(&self, sort: &SortState) -> Result<u64, ProviderError> {
        self.counts.set(self.counts.get() + 1);
        self.last_sort_len.set(sort.len());
        match self.count_error {
            Some(error) => Err(error),
            None => Ok(self.rows),
        }
    }

    fn fetch_rows(&self, range: Window, sort: &SortState) -> Result<Vec<Record>, ProviderError> {
        self.fetches.set(self.fetches.get() + 1);
        self.last_sort_len.set(sort.len());
        match self.fetch_error {
            Some(error) => Err(error),
            None => Ok(records(range.start.min(self.rows), range.end.min(self.rows))),
        }
    }
}

#[test]
fn engine_starts_with_nothing_known() {
    let engine: RowWindowEngine<Record> = RowWindowEngine::new(config(StrategyKind::Pagination));
    assert_eq!(engine.config(), config(StrategyKind::Pagination));
    assert_eq!(engine.current_version(), 0);
    assert_eq!(engine.row_count(), RowCount::Unknown);
    assert_eq!(
        engine.strategy(),
        DisplayStrategy::Pagination(Pagination {
            page_size: 3,
            page: 0
        })
    );
    assert_eq!(engine.current_window(), Window::new(0, 3));
    assert_eq!(shown(&engine), vec![(0, None), (1, None), (2, None)]);
    assert!(engine
        .current_rows()
        .unwrap()
        .iter()
        .all(|(_, found)| matches!(found, CacheLookupResult::Miss)));
    assert_eq!(engine.extent_hint(), None);
    assert_eq!(engine.sort().len(), 0);
    assert_eq!(engine.selection().count(), 0);
    assert_eq!(engine.selection().mode(), SelectionMode::Multiple);
}

#[test]
fn row_count_bounds_windows_only_when_known() {
    assert_eq!(RowCount::Unknown.bound(), u64::MAX);
    assert_eq!(RowCount::Requested.bound(), u64::MAX);
    assert_eq!(RowCount::Known(53).bound(), 53);
    assert_eq!(RowCount::Failed(ProviderError::Network).bound(), u64::MAX);
}

#[test]
fn tick_asks_for_the_count_and_the_window_once() {
    let mut engine: RowWindowEngine<Record> = RowWindowEngine::new(config(StrategyKind::Pagination));
    let actions = engine.tick();
    assert_eq!(
        actions,
        vec![EngineAction::CountRows { version: 0 }, fetch(0, 3, 0)]
    );
    assert_eq!(engine.row_count(), RowCount::Requested);
    assert!(engine
        .current_rows()
        .unwrap()
        .iter()
        .all(|(_, found)| matches!(found, CacheLookupResult::Pending)));
    assert!(engine.tick().is_empty());
}

#[test]
fn known_row_count_cuts_the_window_off() {
    let mut engine: RowWindowEngine<Record> = RowWindowEngine::new(config(StrategyKind::Pagination));
    assert!(engine.on_row_count(0, Ok(2)));
    assert_eq!(engine.row_count(), RowCount::Known(2));
    assert_eq!(engine.current_window(), Window::new(0, 2));
    assert_eq!(engine.extent_hint(), Some(ExtentHint::TotalPages(1)));
    assert_eq!(engine.tick(), vec![fetch(0, 2, 0)]);
}

#[test]
fn failed_row_count_is_a_state_of_its_own() {
    let mut engine: RowWindowEngine<Record> = RowWindowEngine::new(config(StrategyKind::Pagination));
    engine.tick();
    assert!(engine.on_row_count(0, Err(ProviderError::Backend)));
    assert_eq!(engine.row_count(), RowCount::Failed(ProviderError::Backend));
    assert!(matches!(
        engine.current_rows(),
        Err(ProviderError::Backend)
    ));
    assert_eq!(engine.extent_hint(), None);
    engine.set_page(1);
    assert!(engine.tick().is_empty());
    engine.invalidate();
    assert_eq!(engine.row_count(), RowCount::Unknown);
    assert_eq!(
        engine.tick(),
        vec![EngineAction::CountRows { version: 1 }, fetch(3, 6, 1)]
    );
}

#[test]
fn stale_row_count_is_dropped() {
    let mut engine: RowWindowEngine<Record> = RowWindowEngine::new(config(StrategyKind::Pagination));
    engine.tick();
    engine.invalidate();
    assert!(!engine.on_row_count(0, Ok(5)));
    assert_eq!(engine.row_count(), RowCount::Unknown);
    assert!(!engine.on_row_count(0, Err(ProviderError::Timeout)));
    assert_eq!(engine.row_count(), RowCount::Unknown);
    assert!(engine.on_row_count(1, Ok(5)));
    assert_eq!(engine.row_count(), RowCount::Known(5));
}

#[test]
fn fetched_rows_are_shown() {
    let mut engine: RowWindowEngine<Record> = RowWindowEngine::new(config(StrategyKind::Pagination));
    engine.tick();
    let outcome = engine.on_fetch_result(Window::new(0, 3), 0, Ok(records(0, 3)));
    assert_eq!(outcome, FetchOutcome::Installed);
    assert_eq!(shown(&engine), vec![(0, Some(0)), (1, Some(1)), (2, Some(2))]);
    assert_eq!(engine.row_count(), RowCount::Requested);
}

#[test]
fn truncated_fetch_tells_the_number_of_rows() {
    let mut cfg = config(StrategyKind::Pagination);
    cfg.page_size = 25;
    let mut engine: RowWindowEngine<Record> = RowWindowEngine::new(cfg);
    assert!(engine.set_page(2));
    assert_eq!(engine.current_window(), Window::new(50, 75));
    assert_eq!(
        engine.tick(),
        vec![EngineAction::CountRows { version: 0 }, fetch(50, 75, 0)]
    );
    let outcome = engine.on_fetch_result(Window::new(50, 75), 0, Ok(records(50, 53)));
    assert_eq!(outcome, FetchOutcome::Truncated { row_count: 53 });
    assert_eq!(engine.row_count(), RowCount::Known(53));
    assert_eq!(engine.current_window(), Window::new(50, 53));
    assert_eq!(engine.extent_hint(), Some(ExtentHint::TotalPages(3)));
    assert_eq!(
        shown(&engine),
        vec![(50, Some(50)), (51, Some(51)), (52, Some(52))]
    );
    assert!(engine.tick().is_empty());
}

#[test]
fn failed_fetch_is_shown_per_row_and_not_repeated() {
    let mut engine: RowWindowEngine<Record> = RowWindowEngine::new(config(StrategyKind::Pagination));
    engine.tick();
    let outcome = engine.on_fetch_result(Window::new(0, 3), 0, Err(ProviderError::Network));
    assert_eq!(outcome, FetchOutcome::Failed);
    let rows = engine.current_rows().unwrap();
    assert_eq!(rows.len(), 3);
    assert!(rows.iter().all(|(_, found)| matches!(
        found,
        CacheLookupResult::Error(ProviderError::Network)
    )));
    drop(rows);
    assert!(engine.tick().is_empty());
}

#[test]
fn sort_toggle_reloads_exactly_once() {
    let mut engine: RowWindowEngine<Record> = RowWindowEngine::new(config(StrategyKind::Pagination));
    engine.tick();
    engine.on_row_count(0, Ok(10));
    engine.on_fetch_result(Window::new(0, 3), 0, Ok(records(0, 3)));
    engine.toggle_sort(1);
    assert_eq!(engine.current_version(), 1);
    assert_eq!(engine.sort().direction_of(1), ColumnSort::Ascending);
    assert_eq!(engine.row_count(), RowCount::Unknown);
    assert_eq!(shown(&engine), vec![(0, None), (1, None), (2, None)]);
    engine.toggle_sort(1);
    assert_eq!(engine.current_version(), 2);
    assert_eq!(engine.sort().direction_of(1), ColumnSort::Descending);
    engine.toggle_sort(1);
    assert_eq!(engine.current_version(), 3);
    assert_eq!(engine.sort().len(), 0);
    engine.toggle_sort_multi(1);
    engine.toggle_sort_multi(4);
    assert_eq!(engine.current_version(), 5);
    assert_eq!(engine.sort().entry(0), Some((1, ColumnSort::Ascending)));
    assert_eq!(engine.sort().entry(1), Some((4, ColumnSort::Ascending)));
}

#[test]
fn set_sort_reloads_only_on_a_change() {
    let mut engine: RowWindowEngine<Record> = RowWindowEngine::new(config(StrategyKind::Pagination));
    engine.on_fetch_result(Window::new(0, 3), 0, Ok(records(0, 3)));
    assert!(!engine.set_sort(SortState::new()));
    assert_eq!(engine.current_version(), 0);
    assert_eq!(shown(&engine), vec![(0, Some(0)), (1, Some(1)), (2, Some(2))]);
    assert!(engine.set_sort(SortState::new().toggle(2)));
    assert_eq!(engine.current_version(), 1);
    assert_eq!(shown(&engine), vec![(0, None), (1, None), (2, None)]);
    assert!(!engine.set_sort(SortState::new().toggle(2)));
    assert_eq!(engine.current_version(), 1);
    assert!(engine.set_sort(SortState::new().toggle(2).toggle(2)));
    assert_eq!(engine.current_version(), 2);
}

#[test]
fn result_that_arrives_after_a_sort_change_is_dropped() {
    let mut engine: RowWindowEngine<Record> = RowWindowEngine::new(config(StrategyKind::Pagination));
    let before = engine.tick();
    assert_eq!(before[1], fetch(0, 3, 0));
    engine.toggle_sort(0);
    let after = engine.tick();
    assert_eq!(
        after,
        vec![EngineAction::CountRows { version: 1 }, fetch(0, 3, 1)]
    );
    assert_eq!(
        engine.on_fetch_result(Window::new(0, 3), 1, Ok(records(100, 103))),
        FetchOutcome::Installed
    );
    assert_eq!(
        engine.on_fetch_result(Window::new(0, 3), 0, Ok(records(0, 3))),
        FetchOutcome::StaleResultDiscarded
    );
    assert_eq!(
        shown(&engine),
        vec![(0, Some(100)), (1, Some(101)), (2, Some(102))]
    );
}

#[test]
fn stale_truncated_result_does_not_set_the_row_count() {
    let mut engine: RowWindowEngine<Record> = RowWindowEngine::new(config(StrategyKind::Pagination));
    engine.tick();
    engine.invalidate();
    assert_eq!(
        engine.on_fetch_result(Window::new(0, 3), 0, Ok(records(0, 1))),
        FetchOutcome::StaleResultDiscarded
    );
    assert_eq!(engine.row_count(), RowCount::Unknown);
}

#[test]
fn selection_changes_are_reported_once() {
    let mut engine: RowWindowEngine<Record> = RowWindowEngine::new(config(StrategyKind::Pagination));
    assert_eq!(
        engine.on_selection_change(&SelectionAction::Select(4)),
        Ok(true)
    );
    assert_eq!(
        engine.on_selection_change(&SelectionAction::Select(4)),
        Ok(false)
    );
    assert_eq!(
        engine.on_selection_change(&SelectionAction::SelectAll(vec![1, 2, 4])),
        Ok(true)
    );
    assert_eq!(engine.selection().selected(), &vec![4, 1, 2]);
    engine.invalidate();
    assert_eq!(engine.selection().selected(), &vec![4, 1, 2]);
    assert!(engine.reconcile_selection(&vec![2, 9]));
    assert_eq!(engine.selection().selected(), &vec![2]);
    assert!(!engine.reconcile_selection(&vec![2, 9]));
}

#[test]
fn selection_follows_the_mode_of_the_options() {
    let mut cfg = config(StrategyKind::Pagination);
    cfg.selection_mode = SelectionMode::Single;
    let mut engine: RowWindowEngine<Record> = RowWindowEngine::new(cfg);
    assert_eq!(
        engine.on_selection_change(&SelectionAction::Select(4)),
        Ok(true)
    );
    assert_eq!(
        engine.on_selection_change(&SelectionAction::Toggle(5)),
        Ok(true)
    );
    assert_eq!(engine.selection().selected(), &vec![5]);
    assert_eq!(
        engine.on_selection_change(&SelectionAction::SelectAll(vec![1, 2])),
        Err(InvalidSelectionMode {
            mode: SelectionMode::Single
        })
    );
    assert_eq!(engine.selection().selected(), &vec![5]);
    cfg.selection_mode = SelectionMode::Off;
    let mut off: RowWindowEngine<Record> = RowWindowEngine::new(cfg);
    assert_eq!(off.on_selection_change(&SelectionAction::Select(4)), Ok(false));
    assert_eq!(off.selection().count(), 0);
}

#[test]
fn cell_edit_is_applied_to_the_cached_row() {
    let mut engine: RowWindowEngine<Record> = RowWindowEngine::new(config(StrategyKind::Pagination));
    engine.on_fetch_result(Window::new(0, 3), 0, Ok(records(7, 10)));
    assert_eq!(engine.find_row(8).map(|(i, row)| (i, row.id)), Some((1, 8)));
    assert_eq!(engine.on_cell_edit(8, 1, 555), Some(1));
    let (index, row) = engine.find_row(8).unwrap();
    assert_eq!(index, 1);
    assert_eq!(row.cells, vec![80, 555]);
    assert_eq!(engine.find_row(7).unwrap().1.cells, vec![70, -7]);
    assert_eq!(engine.current_version(), 0);
    assert_eq!(engine.on_cell_edit(8, 9, 1), Some(1));
    assert_eq!(engine.find_row(8).unwrap().1.cells, vec![80, 555]);
}

#[test]
fn cell_edit_of_a_row_that_is_not_on_display_does_nothing() {
    let mut engine: RowWindowEngine<Record> = RowWindowEngine::new(config(StrategyKind::Pagination));
    engine.on_fetch_result(Window::new(0, 6), 0, Ok(records(0, 6)));
    assert_eq!(engine.on_cell_edit(99, 0, 1), None);
    assert_eq!(engine.on_cell_edit(4, 0, 1), None);
    assert!(engine.find_row(4).is_none());
    engine.set_page(1);
    assert_eq!(engine.on_cell_edit(4, 0, 1), Some(4));
    assert_eq!(engine.find_row(4).unwrap().1.cells, vec![1, -4]);
}

#[test]
fn switching_the_strategy_keeps_the_cache() {
    let mut engine: RowWindowEngine<Record> = RowWindowEngine::new(config(StrategyKind::Pagination));
    engine.on_row_count(0, Ok(100));
    engine.set_page(1);
    engine.on_fetch_result(Window::new(0, 6), 0, Ok(records(0, 6)));
    engine.set_display_strategy(StrategyKind::InfiniteScroll);
    assert_eq!(engine.config().display_strategy, StrategyKind::InfiniteScroll);
    assert_eq!(engine.strategy().kind(), StrategyKind::InfiniteScroll);
    assert_eq!(engine.current_version(), 0);
    assert_eq!(engine.row_count(), RowCount::Known(100));
    assert_eq!(engine.current_window(), Window::new(0, 3));
    assert_eq!(shown(&engine), vec![(0, Some(0)), (1, Some(1)), (2, Some(2))]);
    engine.set_display_strategy(StrategyKind::Virtualization);
    assert_eq!(engine.current_window(), Window::new(0, 2));
    assert_eq!(shown(&engine), vec![(0, Some(0)), (1, Some(1))]);
    assert!(engine.tick().is_empty());
}

#[test]
fn signals_reach_their_own_strategy_only() {
    let mut engine: RowWindowEngine<Record> = RowWindowEngine::new(config(StrategyKind::Pagination));
    assert!(!engine.set_viewport(100, 50));
    assert!(!engine.correct_row_offset(4, 100));
    assert!(!engine.on_scroll(2));
    assert!(engine.set_page(4));
    assert_eq!(engine.current_window(), Window::new(12, 15));
    engine.set_display_strategy(StrategyKind::Virtualization);
    assert!(!engine.set_page(4));
    assert!(!engine.on_scroll(2));
    assert!(engine.correct_row_offset(4, 40));
    assert!(engine.set_viewport(200, 200));
    assert_eq!(engine.current_window(), Window::new(18, 42));
    engine.set_display_strategy(StrategyKind::InfiniteScroll);
    assert!(!engine.set_page(4));
    assert!(!engine.set_viewport(0, 10));
    assert!(engine.on_scroll(2));
    assert_eq!(engine.current_window(), Window::new(0, 6));
}

#[test]
fn virtualization_evicts_what_scrolled_away() {
    let mut engine: RowWindowEngine<Record> =
        RowWindowEngine::new(config(StrategyKind::Virtualization));
    engine.on_row_count(0, Ok(1000));
    engine.correct_row_offset(1, 10);
    engine.set_viewport(200, 200);
    assert_eq!(engine.tick(), vec![fetch(18, 42, 0)]);
    engine.on_fetch_result(Window::new(18, 42), 0, Ok(records(18, 42)));
    engine.set_viewport(400, 200);
    assert_eq!(engine.current_window(), Window::new(38, 62));
    assert_eq!(engine.tick(), vec![fetch(42, 62, 0)]);
    engine.on_fetch_result(Window::new(42, 62), 0, Ok(records(42, 62)));
    engine.set_viewport(200, 200);
    assert_eq!(engine.tick(), vec![fetch(18, 37, 0)]);
    let rows = shown(&engine);
    assert_eq!(rows[18], (36, None));
    assert_eq!(rows[19], (37, Some(37)));
    assert_eq!(rows[23], (41, Some(41)));
}

#[test]
fn infinite_scroll_keeps_what_was_fetched() {
    let mut engine: RowWindowEngine<Record> =
        RowWindowEngine::new(config(StrategyKind::InfiniteScroll));
    engine.on_row_count(0, Ok(1000));
    assert_eq!(engine.tick(), vec![fetch(0, 3, 0)]);
    engine.on_fetch_result(Window::new(0, 3), 0, Ok(records(0, 3)));
    assert!(!engine.on_scroll(0));
    assert!(engine.on_scroll(1));
    assert_eq!(engine.current_window(), Window::new(0, 6));
    assert_eq!(engine.tick(), vec![fetch(3, 6, 0)]);
    engine.on_fetch_result(Window::new(3, 6), 0, Ok(records(3, 6)));
    assert!(engine.tick().is_empty());
    assert_eq!(
        shown(&engine),
        vec![
            (0, Some(0)),
            (1, Some(1)),
            (2, Some(2)),
            (3, Some(3)),
            (4, Some(4)),
            (5, Some(5))
        ]
    );
}

#[test]
fn load_makes_the_calls_of_a_tick() {
    let store = Store::with_rows(7);
    let mut engine: RowWindowEngine<Record> = RowWindowEngine::new(config(StrategyKind::Pagination));
    assert_eq!(engine.load(&store), 2);
    assert_eq!(store.counts.get(), 1);
    assert_eq!(store.fetches.get(), 1);
    assert_eq!(engine.row_count(), RowCount::Known(7));
    assert_eq!(shown(&engine), vec![(0, Some(0)), (1, Some(1)), (2, Some(2))]);
    assert_eq!(engine.load(&store), 0);
    engine.set_page(2);
    assert_eq!(engine.current_window(), Window::new(6, 7));
    assert_eq!(engine.load(&store), 1);
    assert_eq!(shown(&engine), vec![(6, Some(6))]);
    assert_eq!(store.counts.get(), 1);
    assert_eq!(store.fetches.get(), 2);
}

#[test]
fn load_hands_the_sort_state_to_the_store() {
    let store = Store::with_rows(7);
    let mut engine: RowWindowEngine<Record> = RowWindowEngine::new(config(StrategyKind::Pagination));
    engine.toggle_sort_multi(0);
    engine.toggle_sort_multi(1);
    assert_eq!(engine.load(&store), 2);
    assert_eq!(store.last_sort_len.get(), 2);
    assert_eq!(engine.current_version(), 2);
}

#[test]
fn load_learns_the_number_of_rows_from_a_short_answer() {
    let mut store = Store::with_rows(2);
    store.count_error = None;
    let mut engine: RowWindowEngine<Record> = RowWindowEngine::new(config(StrategyKind::Pagination));
    assert_eq!(engine.load(&store), 2);
    assert_eq!(engine.row_count(), RowCount::Known(2));
    assert_eq!(shown(&engine), vec![(0, Some(0)), (1, Some(1))]);
}

#[test]
fn load_records_a_failed_fetch_and_does_not_repeat_it() {
    let mut store = Store::with_rows(7);
    store.fetch_error = Some(ProviderError::Timeout);
    let mut engine: RowWindowEngine<Record> = RowWindowEngine::new(config(StrategyKind::Pagination));
    assert_eq!(engine.load(&store), 2);
    assert!(engine.current_rows().unwrap().iter().all(|(_, found)| matches!(
        found,
        CacheLookupResult::Error(ProviderError::Timeout)
    )));
    assert_eq!(engine.load(&store), 0);
    assert_eq!(store.fetches.get(), 1);
}

#[test]
fn load_stops_on_a_failed_count() {
    let mut store = Store::with_rows(7);
    store.count_error = Some(ProviderError::Network);
    let mut engine: RowWindowEngine<Record> = RowWindowEngine::new(config(StrategyKind::Pagination));
    assert_eq!(engine.load(&store), 2);
    assert_eq!(engine.row_count(), RowCount::Failed(ProviderError::Network));
    assert!(matches!(
        engine.current_rows(),
        Err(ProviderError::Network)
    ));
    assert_eq!(engine.load(&store), 0);
    assert_eq!(store.counts.get(), 1);
}

#[test]
fn retry_fetches_what_failed() {
    let mut engine: RowWindowEngine<Record> = RowWindowEngine::new(config(StrategyKind::Pagination));
    engine.tick();
    engine.on_fetch_result(Window::new(1, 2), 0, Ok(records(1, 2)));
    engine.on_fetch_result(Window::new(0, 3), 0, Err(ProviderError::Backend));
    assert!(engine.tick().is_empty());
    let requests = engine.retry();
    assert_eq!(
        requests,
        vec![
            FetchRequest {
                window: Window::new(0, 1),
                version: 0
            },
            FetchRequest {
                window: Window::new(2, 3),
                version: 0
            }
        ]
    );
    assert_eq!(shown(&engine), vec![(0, None), (1, Some(1)), (2, None)]);
    assert!(engine.retry().is_empty());
    engine.on_row_count(0, Err(ProviderError::Network));
    engine.on_fetch_result(Window::new(0, 1), 0, Err(ProviderError::Backend));
    assert!(engine.retry().is_empty());
}
