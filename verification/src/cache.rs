//! The windowed cache of fetched rows, keyed by absolute row position.

use std::collections::HashMap;
use vstd::prelude::*;
use crate::provider::ProviderError;
use crate::reload_controller::ReloadController;
use crate::window::{RowIndex, Window};

verus! {

broadcast use vstd::std_specs::hash::group_hash_axioms;

/// A fetched row together with the version under which it was fetched.
#[derive(Debug)]
pub struct CacheEntry<R> {
    pub row: R,
    pub fetched_at_version: u64,
}

/// What the cache holds for a position.  A position without a slot is a miss.
#[derive(Debug)]
pub enum Slot<R> {
    /// The row was fetched.
    Hit(CacheEntry<R>),
    /// A fetch that covers the position is in flight.
    Pending,
    /// The fetch that covered the position failed.
    Failed(ProviderError),
}

/// The classification of one position by a lookup.
#[derive(Debug)]
pub enum CacheLookupResult<'a, R> {
    /// The row is cached.
    Hit(&'a R),
    /// A fetch for the row is in flight.
    Pending,
    /// Nothing is known of the row: a fetch must be started.
    Miss,
    /// The fetch for the row failed.
    Error(ProviderError),
}

impl<'a, R> CacheLookupResult<'a, R> {
    /// Whether this classification is the one of a position that holds `slot`.
    pub open spec fn describes(self, slot: Option<Slot<R>>) -> bool {
        match slot {
            None => self is Miss,
            Some(Slot::Hit(entry)) => self matches CacheLookupResult::Hit(row) && *row == entry.row,
            Some(Slot::Pending) => self is Pending,
            Some(Slot::Failed(error)) => self matches CacheLookupResult::Error(e) && e == error,
        }
    }
}

/// A call to the store that the cache asks its owner to start.
#[derive(Copy, Clone, Debug, PartialEq, Eq, Structural)]
pub struct FetchRequest {
    /// The rows to fetch.
    pub window: Window,
    /// The version under which the fetch starts, to be handed back with its result.
    pub version: u64,
}

/// What became of a fetch result that was handed to the cache.
#[derive(Copy, Clone, Debug, PartialEq, Eq, Structural)]
pub enum FetchOutcome {
    /// Every position of the window received its row.
    Installed,
    /// The store returned fewer rows than the window holds: the data ends at `row_count`.
    Truncated { row_count: u64 },
    /// The failure was recorded for the positions of the window.
    Failed,
    /// The result belonged to an earlier version and was dropped.
    StaleResultDiscarded,
}

/// The state of a cache as a mathematical value.
pub struct CacheModel<R> {
    /// The current reload version.
    pub version: u64,
    /// The slots by position.
    pub slots: Map<RowIndex, Slot<R>>,
}

/// The rows of a fetch result as a sequence.
pub open spec fn rows_of<R>(result: Result<Vec<R>, ProviderError>) -> Result<
    Seq<R>,
    ProviderError,
> {
    match result {
        Ok(rows) => Ok(rows@),
        Err(error) => Err(error),
    }
}

impl<R> CacheModel<R> {
    /// Every cached row was fetched under the current version.
    pub open spec fn wf(self) -> bool {
        forall|i: RowIndex| #[trigger]
            self.slots.contains_key(i) ==> (self.slots[i] matches Slot::Hit(entry)
                ==> entry.fetched_at_version == self.version)
    }

    /// What the cache holds for position `i`.
    pub open spec fn slot(self, i: RowIndex) -> Option<Slot<R>> {
        if self.slots.contains_key(i) {
            Some(self.slots[i])
        } else {
            None
        }
    }

    /// Whether position `i` is a miss.
    pub open spec fn is_miss(self, i: RowIndex) -> bool {
        !self.slots.contains_key(i)
    }

    /// Whether a fetch that covers position `i` is in flight.
    pub open spec fn is_pending(self, i: RowIndex) -> bool {
        self.slots.contains_key(i) && self.slots[i] is Pending
    }

    /// Whether a maximal run of misses of `w` starts at position `i`.
    pub open spec fn starts_run(self, w: Window, i: RowIndex) -> bool {
        &&& w.has(i as int)
        &&& self.is_miss(i)
        &&& (i == w.start || !self.is_miss((i - 1) as RowIndex))
    }

    /// The number of maximal runs of misses of `w` that start below `upto`.
    pub open spec fn runs_below(self, w: Window, upto: RowIndex) -> nat
        decreases upto,
    {
        if upto <= w.start {
            0
        } else {
            let before = (upto - 1) as RowIndex;
            self.runs_below(w, before) + if self.starts_run(w, before) {
                1nat
            } else {
                0nat
            }
        }
    }

    /// The number of maximal contiguous runs of misses in `w`.
    pub open spec fn missing_run_count(self, w: Window) -> nat {
        self.runs_below(w, w.end)
    }

    /// Whether `r` is a maximal contiguous run of misses of `w`: it is not empty, lies in
    /// `w`, holds misses only, and cannot be extended on either side.
    pub open spec fn is_maximal_run(self, w: Window, r: Window) -> bool {
        &&& w.start <= r.start < r.end <= w.end
        &&& forall|i: RowIndex| r.has(i as int) ==> #[trigger] self.is_miss(i)
        &&& (r.start == w.start || !self.is_miss((r.start - 1) as RowIndex))
        &&& (r.end == w.end || !self.is_miss(r.end))
    }

    /// Whether `requests` are the fetches that cover the misses of `w` with the fewest
    /// calls: one request per maximal run of misses, in ascending order, each tagged with
    /// the current version.
    pub open spec fn coalesces(self, w: Window, requests: Seq<FetchRequest>) -> bool {
        &&& forall|k: int|
            0 <= k < requests.len() ==> self.is_maximal_run(w, (#[trigger] requests[k]).window)
                && requests[k].version == self.version
        &&& forall|j: int, k: int|
            0 <= j < k < requests.len() ==> (#[trigger] requests[j]).window.end < (
            #[trigger] requests[k]).window.start
        &&& forall|i: RowIndex|
            w.has(i as int) && #[trigger] self.is_miss(i) ==> exists|k: int|
                0 <= k < requests.len() && (#[trigger] requests[k]).window.has(i as int)
        &&& requests.len() == self.missing_run_count(w)
    }

    /// The state after fetches were started for the misses of `w`: they are pending.
    pub open spec fn with_pending(self, w: Window) -> CacheModel<R> {
        CacheModel {
            version: self.version,
            slots: Map::new(
                |i: RowIndex| self.slots.contains_key(i) || w.has(i as int),
                |i: RowIndex|
                    if self.slots.contains_key(i) {
                        self.slots[i]
                    } else {
                        Slot::Pending
                    },
            ),
        }
    }

    /// The state without the recorded failures of `w`: those positions are misses again.
    pub open spec fn without_failures(self, w: Window) -> CacheModel<R> {
        CacheModel {
            version: self.version,
            slots: Map::new(
                |i: RowIndex|
                    self.slots.contains_key(i) && !(w.has(i as int) && self.slots[i] is Failed),
                |i: RowIndex| self.slots[i],
            ),
        }
    }

    /// The state after an invalidation: the version has advanced and nothing is cached.
    pub open spec fn invalidated(self) -> CacheModel<R> {
        CacheModel { version: (self.version + 1) as u64, slots: Map::empty() }
    }

    /// The state that keeps the slots of `retained` and nothing else.
    pub open spec fn evicted(self, retained: Window) -> CacheModel<R> {
        CacheModel {
            version: self.version,
            slots: Map::new(
                |i: RowIndex| retained.has(i as int) && self.slots.contains_key(i),
                |i: RowIndex| self.slots[i],
            ),
        }
    }

    /// The state after `rows` arrived for `w` under the current version: the positions of
    /// `w` hold the rows in order, and those for which no row came are misses.
    pub open spec fn installed(self, w: Window, rows: Seq<R>) -> CacheModel<R> {
        CacheModel {
            version: self.version,
            slots: Map::new(
                |i: RowIndex|
                    if w.has(i as int) {
                        i - w.start < rows.len()
                    } else {
                        self.slots.contains_key(i)
                    },
                |i: RowIndex|
                    if w.has(i as int) {
                        Slot::Hit(
                            CacheEntry { row: rows[i - w.start], fetched_at_version: self.version },
                        )
                    } else {
                        self.slots[i]
                    },
            ),
        }
    }

    /// The state after the fetch for `w` failed under the current version: the positions
    /// of `w` that hold no row record the failure.
    pub open spec fn with_failure(self, w: Window, error: ProviderError) -> CacheModel<R> {
        CacheModel {
            version: self.version,
            slots: Map::new(
                |i: RowIndex| self.slots.contains_key(i) || w.has(i as int),
                |i: RowIndex|
                    if w.has(i as int) && !(self.slots.contains_key(i) && self.slots[i] is Hit) {
                        Slot::Failed(error)
                    } else {
                        self.slots[i]
                    },
            ),
        }
    }

    /// The state after the cached row at position `i` was replaced by `row`.  A position
    /// that holds no row stays as it is.
    pub open spec fn with_row(self, i: RowIndex, row: R) -> CacheModel<R> {
        if self.slots.contains_key(i) && self.slots[i] is Hit {
            CacheModel {
                version: self.version,
                slots: self.slots.insert(
                    i,
                    Slot::Hit(CacheEntry { row, fetched_at_version: self.version }),
                ),
            }
        } else {
            self
        }
    }

    /// The state after the result of a fetch for `w`, started under `version`, arrived.
    /// A result of another version than the current one changes nothing.
    pub open spec fn after_result(
        self,
        w: Window,
        version: u64,
        result: Result<Seq<R>, ProviderError>,
    ) -> CacheModel<R> {
        if version != self.version {
            self
        } else {
            match result {
                Ok(rows) => self.installed(w, rows),
                Err(error) => self.with_failure(w, error),
            }
        }
    }

    /// What is reported of the result of a fetch for `w`, started under `version`.
    pub open spec fn outcome(
        self,
        w: Window,
        version: u64,
        result: Result<Seq<R>, ProviderError>,
    ) -> FetchOutcome {
        if version != self.version {
            FetchOutcome::StaleResultDiscarded
        } else {
            match result {
                Ok(rows) => if rows.len() < w.count() {
                    FetchOutcome::Truncated { row_count: (w.start + rows.len()) as u64 }
                } else {
                    FetchOutcome::Installed
                },
                Err(_) => FetchOutcome::Failed,
            }
        }
    }
}

/// The cache of fetched rows: the rows of the windows that are, or lately were, on
/// display, and the positions for which a fetch is in flight or has failed.
pub struct RowWindowCache<R> {
    reload: ReloadController,
    slots: HashMap<RowIndex, Slot<R>>,
    retention_margin: u32,
}

impl<R> View for RowWindowCache<R> {
    type V = CacheModel<R>;

    closed spec fn view(&self) -> CacheModel<R> {
        CacheModel { version: self.reload.version(), slots: self.slots@ }
    }
}

impl<R> RowWindowCache<R> {
    /// Every cached row was fetched under the current version.
    pub open spec fn wf(&self) -> bool {
        self@.wf()
    }

    /// The number of positions around a kept window that an eviction spares.
    pub closed spec fn margin(&self) -> u32 {
        self.retention_margin
    }

    /// An empty cache at version zero.
    pub fn new(retention_margin: u32) -> (cache: RowWindowCache<R>)
        ensures
            cache.wf(),
            cache.margin() == retention_margin,
            cache@.version == 0,
            cache@.slots == Map::<RowIndex, Slot<R>>::empty(),
    {
        RowWindowCache { reload: ReloadController::new(), slots: HashMap::new(), retention_margin }
    }

    /// The current reload version.
    pub fn current_version(&self) -> (v: u64)
        ensures
            v == self@.version,
    {
        self.reload.current_version()
    }

    /// The number of positions around a kept window that an eviction spares.
    pub fn retention_margin(&self) -> (m: u32)
        ensures
            m == self.margin(),
    {
        self.retention_margin
    }

    /// Whether the version can still advance.
    pub fn can_invalidate(&self) -> (ok: bool)
        ensures
            ok == (self@.version < u64::MAX),
    {
        self.reload.can_invalidate()
    }

    /// Classifies one position.  A pure read of the cache.
    pub fn lookup(&self, index: RowIndex) -> (found: CacheLookupResult<'_, R>)
        ensures
            found.describes(self@.slot(index)),
    {
        match self.slots.get(&index) {
            None => CacheLookupResult::Miss,
            Some(Slot::Hit(entry)) => CacheLookupResult::Hit(&entry.row),
            Some(Slot::Pending) => CacheLookupResult::Pending,
            Some(Slot::Failed(error)) => CacheLookupResult::Error(*error),
        }
    }

    /// Classifies every position of `window`, in ascending order.  A pure read of the
    /// cache: nothing is fetched.
    pub fn get(&self, window: Window) -> (found: Vec<CacheLookupResult<'_, R>>)
        ensures
            found@.len() == window.count(),
            forall|k: int|
                0 <= k < found@.len() ==> (#[trigger] found@[k]).describes(
                    self@.slot((window.start + k) as RowIndex),
                ),
    {
        let mut found: Vec<CacheLookupResult<'_, R>> = Vec::new();
        if window.start >= window.end {
            return found;
        }
        let mut i: u64 = window.start;
        while i < window.end
            invariant
                window.start <= i <= window.end,
                found@.len() == i - window.start,
                forall|k: int|
                    0 <= k < found@.len() ==> (#[trigger] found@[k]).describes(
                        self@.slot((window.start + k) as RowIndex),
                    ),
            decreases window.end - i,
        {
            let one = self.lookup(i);
            found.push(one);
            i = i + 1;
        }
        found
    }

    /// Advances the version and empties the cache: what was cached can no longer be
    /// trusted, and the result of every fetch in flight will be dropped on arrival.
    pub fn invalidate(&mut self)
        requires
            old(self).wf(),
            old(self)@.version < u64::MAX,
        ensures
            final(self).wf(),
            final(self).margin() == old(self).margin(),
            final(self)@ == old(self)@.invalidated(),
            forall|i: RowIndex| final(self)@.slot(i) is None,
    {
        self.slots.clear();
        self.reload.invalidate();
    }

    /// Removes every slot whose position lies outside `keep` widened by the retention
    /// margin.  What lies inside stays as it is.
    pub fn evict(&mut self, keep: Window)
        requires
            old(self).wf(),
        ensures
            final(self).wf(),
            final(self).margin() == old(self).margin(),
            final(self)@ == old(self)@.evicted(keep.widened(old(self).margin() as nat)),
            forall|i: RowIndex|
                !keep.widened(old(self).margin() as nat).has(i as int) ==> final(self)@.slot(i)
                    is None,
            forall|i: RowIndex|
                keep.widened(old(self).margin() as nat).has(i as int) ==> final(self)@.slot(i)
                    == old(self)@.slot(i),
            forall|i: RowIndex| keep.has(i as int) ==> final(self)@.slot(i) == old(self)@.slot(i),
    {
        let ghost before = self@;
        let retained = keep.expand(self.retention_margin as u64);
        let mut kept: HashMap<RowIndex, Slot<R>> = HashMap::new();
        if retained.start < retained.end {
            let mut i: u64 = retained.start;
            while i < retained.end
                invariant
                    retained.start <= i <= retained.end,
                    self.reload.version() == before.version,
                    self.retention_margin == old(self).retention_margin,
                    kept@ == before.evicted(Window { start: retained.start, end: i }).slots,
                    self.slots@ == Map::new(
                        |k: RowIndex|
                            before.slots.contains_key(k) && !(retained.start <= k < i),
                        |k: RowIndex| before.slots[k],
                    ),
                decreases retained.end - i,
            {
                match self.slots.remove(&i) {
                    Some(slot) => {
                        kept.insert(i, slot);
                    },
                    None => {},
                }
                assert(kept@ =~= before.evicted(
                    Window { start: retained.start, end: (i + 1) as u64 },
                ).slots);
                assert(self.slots@ =~= Map::new(
                    |k: RowIndex|
                        before.slots.contains_key(k) && !(retained.start <= k < i + 1),
                    |k: RowIndex| before.slots[k],
                ));
                i = i + 1;
            }
        }
        assert(kept@ =~= before.evicted(retained).slots);
        self.slots = kept;
    }

    /// Starts fetches for every miss of `window`: the misses become pending, and the
    /// requests returned are to be handed to the store.  Adjacent misses share a request,
    /// so that each maximal contiguous run of misses is fetched by exactly one call.
    /// A second call without a result in between returns no request.
    pub fn ensure(&mut self, window: Window) -> (requests: Vec<FetchRequest>)
        requires
            old(self).wf(),
        ensures
            final(self).wf(),
            final(self).margin() == old(self).margin(),
            final(self)@ == old(self)@.with_pending(window),
            old(self)@.coalesces(window, requests@),
            requests@.len() == old(self)@.missing_run_count(window),
    {
        let ghost before = self@;
        let version = self.reload.current_version();
        let mut requests: Vec<FetchRequest> = Vec::new();
        if window.start >= window.end {
            assert(self@.slots =~= before.with_pending(window).slots);
            return requests;
        }
        let mut i: u64 = window.start;
        let mut open: Option<u64> = None;
        while i < window.end
            invariant
                window.start <= i <= window.end,
                before.wf(),
                before.version == version,
                self.reload.version() == version,
                self.retention_margin == old(self).retention_margin,
                self.slots@ == before.with_pending(Window { start: window.start, end: i }).slots,
                open matches Some(s) ==> {
                    &&& window.start <= s < i
                    &&& forall|j: RowIndex| s <= j < i ==> #[trigger] before.is_miss(j)
                    &&& (s == window.start || !before.is_miss((s - 1) as RowIndex))
                },
                open is None ==> i == window.start || !before.is_miss((i - 1) as RowIndex),
                forall|k: int|
                    0 <= k < requests@.len() ==> before.is_maximal_run(
                        window,
                        (#[trigger] requests@[k]).window,
                    ) && requests@[k].version == version,
                forall|k: int|
                    0 <= k < requests@.len() ==> (#[trigger] requests@[k]).window.end < (match open {
                        Some(s) => s,
                        None => i,
                    }),
                forall|j: int, k: int|
                    0 <= j < k < requests@.len() ==> (#[trigger] requests@[j]).window.end < (
                    #[trigger] requests@[k]).window.start,
                forall|j: RowIndex|
                    window.start <= j < (match open {
                        Some(s) => s,
                        None => i,
                    }) && #[trigger] before.is_miss(j) ==> exists|k: int|
                        0 <= k < requests@.len() && (#[trigger] requests@[k]).window.has(j as int),
                requests@.len() + (if open is Some {
                    1nat
                } else {
                    0nat
                }) == before.runs_below(window, i),
            decreases window.end - i,
        {
            let ghost earlier = requests@;
            let missing = !self.slots.contains_key(&i);
            if missing {
                self.slots.insert(i, Slot::Pending);
                if open.is_none() {
                    open = Some(i);
                }
            } else {
                match open {
                    Some(s) => {
                        let run = Window { start: s, end: i };
                        requests.push(FetchRequest { window: run, version });
                        open = None;
                        assert forall|j: RowIndex|
                            window.start <= j < i + 1 && #[trigger] before.is_miss(
                                j,
                            ) implies exists|k: int|
                            0 <= k < requests@.len() && (#[trigger] requests@[k]).window.has(
                                j as int,
                            ) by {
                            if j < s {
                                let k = choose|k: int|
                                    0 <= k < earlier.len() && (#[trigger] earlier[k]).window.has(
                                        j as int,
                                    );
                                assert(requests@[k] == earlier[k]);
                            } else {
                                assert(requests@[earlier.len() as int].window.has(j as int));
                            }
                        }
                    },
                    None => {},
                }
            }
            assert(self.slots@ =~= before.with_pending(
                Window { start: window.start, end: (i + 1) as u64 },
            ).slots);
            i = i + 1;
        }
        match open {
            Some(s) => {
                let ghost earlier = requests@;
                let run = Window { start: s, end: window.end };
                requests.push(FetchRequest { window: run, version });
                assert forall|j: RowIndex|
                    window.has(j as int) && #[trigger] before.is_miss(j) implies exists|k: int|
                    0 <= k < requests@.len() && (#[trigger] requests@[k]).window.has(j as int) by {
                    if j < s {
                        let k = choose|k: int|
                            0 <= k < earlier.len() && (#[trigger] earlier[k]).window.has(j as int);
                        assert(requests@[k] == earlier[k]);
                    } else {
                        assert(requests@[earlier.len() as int].window.has(j as int));
                    }
                }
            },
            None => {},
        }
        requests
    }

    /// Replaces the row cached at `index` by `row`, as a new entry of the current version.
    /// Where no row is cached at `index`, nothing changes.  Returns whether a row was
    /// replaced.
    pub fn replace_row(&mut self, index: RowIndex, row: R) -> (replaced: bool)
        requires
            old(self).wf(),
        ensures
            final(self).wf(),
            final(self).margin() == old(self).margin(),
            final(self)@ == old(self)@.with_row(index, row),
            replaced == (old(self)@.slot(index) matches Some(Slot::Hit(_))),
    {
        let cached = match self.slots.get(&index) {
            Some(Slot::Hit(_)) => true,
            _ => false,
        };
        if cached {
            let version = self.reload.current_version();
            self.slots.insert(index, Slot::Hit(CacheEntry { row, fetched_at_version: version }));
        }
        cached
    }

    /// Forgets the failures recorded in `window` and starts fetches for its misses, those
    /// positions included.
    pub fn retry(&mut self, window: Window) -> (requests: Vec<FetchRequest>)
        requires
            old(self).wf(),
        ensures
            final(self).wf(),
            final(self).margin() == old(self).margin(),
            final(self)@ == old(self)@.without_failures(window).with_pending(window),
            old(self)@.without_failures(window).coalesces(window, requests@),
    {
        let ghost before = self@;
        if window.start < window.end {
            let mut i: u64 = window.start;
            while i < window.end
                invariant
                    window.start <= i <= window.end,
                    before.wf(),
                    self.reload.version() == before.version,
                    self.retention_margin == old(self).retention_margin,
                    self.slots@ == before.without_failures(
                        Window { start: window.start, end: i },
                    ).slots,
                decreases window.end - i,
            {
                let failed = match self.slots.get(&i) {
                    Some(Slot::Failed(_)) => true,
                    _ => false,
                };
                if failed {
                    self.slots.remove(&i);
                }
                assert(self.slots@ =~= before.without_failures(
                    Window { start: window.start, end: (i + 1) as u64 },
                ).slots);
                i = i + 1;
            }
        } else {
            assert(self.slots@ =~= before.without_failures(window).slots);
        }
        self.ensure(window)
    }

    /// Takes the result of a fetch for `window` that was started under `version`.
    ///
    /// A result of an earlier version is dropped and changes nothing.  Rows are installed
    /// in order from the start of the window, each tagged with the current version; rows
    /// beyond the window are ignored, and where fewer rows came than the window holds, the
    /// rest of the window is a miss and the position at which the data ends is reported.
    /// A failure is recorded for every position of the window that holds no row.
    pub fn on_fetch_result(
        &mut self,
        window: Window,
        version: u64,
        result: Result<Vec<R>, ProviderError>,
    ) -> (outcome: FetchOutcome)
        requires
            old(self).wf(),
        ensures
            final(self).wf(),
            final(self).margin() == old(self).margin(),
            final(self)@ == old(self)@.after_result(window, version, rows_of(result)),
            outcome == old(self)@.outcome(window, version, rows_of(result)),
            version != old(self)@.version ==> final(self)@ == old(self)@,
    {
        let ghost before = self@;
        if self.reload.is_stale(version) {
            return FetchOutcome::StaleResultDiscarded;
        }
        match result {
            Ok(rows) => {
                let mut rows = rows;
                let ghost all = rows@;
                let held: u64 = window.len();
                let came: u64 = rows.len() as u64;
                let n: u64 = if came > held {
                    held
                } else {
                    came
                };
                rows.truncate(n as usize);
                while rows.len() > 0
                    invariant
                        before.wf(),
                        before.version == version,
                        self.reload.version() == version,
                        self.retention_margin == old(self).retention_margin,
                        n == installable(window, all),
                        rows@.len() <= n,
                        rows@ == all.subrange(0, rows@.len() as int),
                        self.slots@ == staged(
                            before,
                            window,
                            all,
                            rows@.len() as int,
                            window.start + n,
                        ),
                    decreases rows.len(),
                {
                    let row = rows.pop().unwrap();
                    let index: u64 = window.start + rows.len() as u64;
                    self.slots.insert(index, Slot::Hit(CacheEntry { row, fetched_at_version: version }));
                    assert(self.slots@ =~= staged(
                        before,
                        window,
                        all,
                        rows@.len() as int,
                        window.start + n,
                    ));
                }
                let mut i: u64 = window.start + n;
                while i < window.end
                    invariant
                        before.wf(),
                        before.version == version,
                        self.reload.version() == version,
                        self.retention_margin == old(self).retention_margin,
                        n == installable(window, all),
                        window.start + n <= i,
                        i <= window.end || i == window.start + n,
                        self.slots@ == staged(before, window, all, 0, i as int),
                    decreases window.end - i,
                {
                    self.slots.remove(&i);
                    i = i + 1;
                }
                assert(self.slots@ =~= before.installed(window, all).slots);
                if n < held {
                    FetchOutcome::Truncated { row_count: window.start + n }
                } else {
                    FetchOutcome::Installed
                }
            },
            Err(error) => {
                if window.start < window.end {
                    let mut i: u64 = window.start;
                    while i < window.end
                        invariant
                            window.start <= i <= window.end,
                            before.wf(),
                            self.reload.version() == before.version,
                            self.retention_margin == old(self).retention_margin,
                            self.slots@ == before.with_failure(
                                Window { start: window.start, end: i },
                                error,
                            ).slots,
                        decreases window.end - i,
                    {
                        let holds_row = match self.slots.get(&i) {
                            Some(Slot::Hit(_)) => true,
                            _ => false,
                        };
                        if !holds_row {
                            self.slots.insert(i, Slot::Failed(error));
                        }
                        assert(self.slots@ =~= before.with_failure(
                            Window { start: window.start, end: (i + 1) as u64 },
                            error,
                        ).slots);
                        i = i + 1;
                    }
                } else {
                    assert(self.slots@ =~= before.with_failure(window, error).slots);
                }
                FetchOutcome::Failed
            },
        }
    }
}

/// The number of rows of a result for `w` that have a position in `w`.
pub open spec fn installable<R>(w: Window, rows: Seq<R>) -> nat {
    if rows.len() < w.count() {
        rows.len()
    } else {
        w.count()
    }
}

/// The slots while the rows of a result for `w` are being installed: the rows from
/// `from` on are in place, and the positions of `w` behind the last row, up to
/// `trimmed`, have been cleared.
pub open spec fn staged<R>(
    before: CacheModel<R>,
    w: Window,
    rows: Seq<R>,
    from: int,
    trimmed: int,
) -> Map<RowIndex, Slot<R>> {
    let n = installable(w, rows);
    Map::new(
        |i: RowIndex|
            if w.start + from <= i < w.start + n {
                true
            } else if w.start + n <= i < trimmed {
                false
            } else {
                before.slots.contains_key(i)
            },
        |i: RowIndex|
            if w.start + from <= i < w.start + n {
                Slot::Hit(CacheEntry { row: rows[i - w.start], fetched_at_version: before.version })
            } else {
                before.slots[i]
            },
    )
}

/// Every step of the cache keeps the state well formed: whatever is cached was fetched
/// under the current version.
pub proof fn lemma_steps_keep_well_formed<R>(
    m: CacheModel<R>,
    w: Window,
    version: u64,
    result: Result<Seq<R>, ProviderError>,
)
    requires
        m.wf(),
    ensures
        m.with_pending(w).wf(),
        m.without_failures(w).wf(),
        m.evicted(w).wf(),
        m.invalidated().wf(),
        m.after_result(w, version, result).wf(),
{
}

/// A maximal run of misses is determined by any one of its positions.
pub proof fn lemma_run_is_determined_by_a_position<R>(
    m: CacheModel<R>,
    w: Window,
    a: Window,
    b: Window,
    i: RowIndex,
)
    requires
        m.is_maximal_run(w, a),
        m.is_maximal_run(w, b),
        a.has(i as int),
        b.has(i as int),
    ensures
        a == b,
{
}

/// Two sequences of requests that both coalesce the misses of a window agree at
/// every place.
proof fn lemma_coalescing_agrees_at<R>(
    m: CacheModel<R>,
    w: Window,
    a: Seq<FetchRequest>,
    b: Seq<FetchRequest>,
    k: int,
)
    requires
        m.coalesces(w, a),
        m.coalesces(w, b),
        0 <= k < a.len(),
    ensures
        a[k] == b[k],
    decreases k,
{
    assert forall|j: int| 0 <= j < k implies a[j] == b[j] by {
        lemma_coalescing_agrees_at(m, w, a, b, j);
    }
    let s = a[k].window.start;
    assert(m.is_miss(s));
    let j = choose|j: int| 0 <= j < b.len() && (#[trigger] b[j]).window.has(s as int);
    lemma_run_is_determined_by_a_position(m, w, a[k].window, b[j].window, s);
    if j > k {
        let t = b[k].window.start;
        assert(m.is_miss(t));
        let n = choose|n: int| 0 <= n < a.len() && (#[trigger] a[n]).window.has(t as int);
        lemma_run_is_determined_by_a_position(m, w, a[n].window, b[k].window, t);
    }
}

/// The requests that coalesce the misses of a window are unique: whatever sequence of
/// requests covers every miss with maximal runs in ascending order is the one that
/// `ensure` returns.
pub proof fn lemma_coalescing_is_unique<R>(
    m: CacheModel<R>,
    w: Window,
    a: Seq<FetchRequest>,
    b: Seq<FetchRequest>,
)
    requires
        m.coalesces(w, a),
        m.coalesces(w, b),
    ensures
        a == b,
{
    assert forall|k: int| 0 <= k < a.len() implies a[k] == b[k] by {
        lemma_coalescing_agrees_at(m, w, a, b, k);
    }
}

/// The requests that coalesce the misses of a window are its maximal runs of misses:
/// every request is such a run, every such run is a request, and no run is requested
/// twice.  So there are as many calls as there are maximal runs.
pub proof fn lemma_requests_are_the_maximal_runs<R>(
    m: CacheModel<R>,
    w: Window,
    requests: Seq<FetchRequest>,
)
    requires
        m.coalesces(w, requests),
    ensures
        forall|k: int|
            0 <= k < requests.len() ==> m.is_maximal_run(w, (#[trigger] requests[k]).window),
        forall|r: Window|
            m.is_maximal_run(w, r) ==> exists|k: int|
                0 <= k < requests.len() && (#[trigger] requests[k]).window == r,
        forall|j: int, k: int|
            0 <= j < requests.len() && 0 <= k < requests.len() && j != k ==> (
            #[trigger] requests[j]).window != (#[trigger] requests[k]).window,
        requests.len() == m.missing_run_count(w),
{
    assert forall|r: Window| m.is_maximal_run(w, r) implies exists|k: int|
        0 <= k < requests.len() && (#[trigger] requests[k]).window == r by {
        assert(m.is_miss(r.start));
        let k = choose|k: int|
            0 <= k < requests.len() && (#[trigger] requests[k]).window.has(r.start as int);
        lemma_run_is_determined_by_a_position(m, w, r, requests[k].window, r.start);
    }
}

/// A window without a miss has no run of misses.
pub proof fn lemma_no_miss_no_run<R>(m: CacheModel<R>, w: Window, upto: RowIndex)
    requires
        forall|i: RowIndex| w.has(i as int) ==> !m.is_miss(i),
    ensures
        m.runs_below(w, upto) == 0,
    decreases upto,
{
    if upto > w.start {
        lemma_no_miss_no_run(m, w, (upto - 1) as RowIndex);
    }
}

/// Starting the fetches of a window twice is the same as starting them once: after
/// the first time the window has no miss, so the second time asks for nothing and
/// changes nothing.
pub proof fn lemma_ensure_is_idempotent<R>(m: CacheModel<R>, w: Window)
    ensures
        m.with_pending(w).missing_run_count(w) == 0,
        m.with_pending(w).coalesces(w, Seq::empty()),
        m.with_pending(w).with_pending(w) == m.with_pending(w),
{
    let once = m.with_pending(w);
    lemma_no_miss_no_run(once, w, w.end);
    assert(once.with_pending(w).slots =~= once.slots);
}

/// A result that arrives after an invalidation is not installed: where a fetch for `w`
/// was started under the version of `m` and the cache was invalidated before the
/// result came, the result changes nothing, is reported as stale, and the cache holds
/// no entry at all.
pub proof fn lemma_stale_result_is_dropped<R>(
    m: CacheModel<R>,
    w: Window,
    result: Result<Seq<R>, ProviderError>,
)
    requires
        m.version < u64::MAX,
    ensures
        ({
            let reloaded = m.with_pending(w).invalidated();
            &&& reloaded.after_result(w, m.version, result) == reloaded
            &&& reloaded.outcome(w, m.version, result) == FetchOutcome::StaleResultDiscarded
            &&& forall|i: RowIndex| reloaded.after_result(w, m.version, result).slot(i) is None
        }),
{
}

/// A well-formed cache shows no row of another version than the current one: whatever
/// happened since an invalidation, no entry of the version before it can be observed.
pub proof fn lemma_no_entry_of_another_version<R>(m: CacheModel<R>, i: RowIndex, version: u64)
    requires
        m.wf(),
        version != m.version,
    ensures
        m.slot(i) matches Some(Slot::Hit(entry)) ==> entry.fetched_at_version != version,
{
}

/// An eviction turns every position outside the retained window into a miss and leaves
/// every position inside it as it was: a row that was cached there is still cached.
pub proof fn lemma_eviction_keeps_the_window<R>(m: CacheModel<R>, keep: Window, margin: nat)
    ensures
        forall|i: RowIndex| !keep.widened(margin).has(i as int) ==> m.evicted(keep.widened(margin)).is_miss(i),
        forall|i: RowIndex|
            keep.has(i as int) ==> m.evicted(keep.widened(margin)).slot(i) == m.slot(i),
{
}

} // verus!
