//! The three strategies that decide which window of rows is needed for display.

use vstd::prelude::*;
use crate::window::{RowIndex, Window};

verus! {

/// For a positive divisor, `i` is at most the quotient exactly when `i` times the
/// divisor is at most the dividend.
pub proof fn lemma_quotient_bounds(x: int, h: int, i: int)
    requires
        0 <= x,
        0 < h,
    ensures
        (i <= x / h) <==> (i * h <= x),
{
    vstd::arithmetic::div_mod::lemma_fundamental_div_mod(x, h);
    let q = x / h;
    if i <= q {
        assert(i * h <= q * h) by (nonlinear_arith)
            requires
                i <= q,
                0 < h,
        ;
        assert(q * h == h * q) by (nonlinear_arith);
    } else {
        assert(i * h >= (q + 1) * h) by (nonlinear_arith)
            requires
                i >= q + 1,
                0 < h,
        ;
        assert((q + 1) * h == h * q + h) by (nonlinear_arith);
    }
}

/// The smaller of two positions.
pub open spec fn least(a: int, b: int) -> int {
    if a <= b {
        a
    } else {
        b
    }
}

/// Which strategy drives the display.
#[derive(Copy, Clone, Debug, PartialEq, Eq, Structural)]
pub enum StrategyKind {
    Virtualization,
    InfiniteScroll,
    Pagination,
}

/// A hint on the total extent of the table, for the rendering layer.
#[derive(Copy, Clone, Debug, PartialEq, Eq, Structural)]
pub enum ExtentHint {
    /// The estimated height of all rows, in pixels.
    TotalHeight(u128),
    /// The number of pages.
    TotalPages(u64),
    /// Whether rows are left beyond the window.
    MoreRows(bool),
}

/// Virtualization: only the rows that overlap the visible pixel range are needed,
/// and a fixed number of rows before and behind them.
///
/// Heights and offsets are in pixels.  `row_height` is an estimate of the height of
/// one row, which the rendering layer corrects after layout; an estimate of zero
/// counts as one pixel.
#[derive(Copy, Clone, Debug, PartialEq, Eq, Structural)]
pub struct Virtualization {
    /// The number of rows requested on each side of the visible ones.
    pub overscan: u32,
    /// The estimated height of a row.
    pub row_height: u64,
    /// The offset of the top of the viewport from the top of the first row.
    pub scroll_top: u64,
    /// The height of the viewport.
    pub viewport_height: u64,
}

impl Virtualization {
    /// The height that a row is taken to have.
    pub open spec fn height(self) -> int {
        if self.row_height == 0 {
            1
        } else {
            self.row_height as int
        }
    }

    /// Whether row `i` of `row_count` rows overlaps the visible pixel range.
    pub open spec fn shows(self, i: int, row_count: u64) -> bool {
        &&& 0 <= i < row_count
        &&& self.viewport_height > 0
        &&& i * self.height() < self.scroll_top + self.viewport_height
        &&& self.scroll_top < (i + 1) * self.height()
    }

    /// The rows that overlap the visible pixel range.
    pub open spec fn visible(self, row_count: u64) -> Window {
        let first = least(self.scroll_top as int / self.height(), row_count as int);
        if self.viewport_height == 0 {
            Window { start: first as u64, end: first as u64 }
        } else {
            let last = (self.scroll_top + self.viewport_height - 1) / self.height();
            Window { start: first as u64, end: least(last + 1, row_count as int) as u64 }
        }
    }

    /// The window to request: the visible rows and `overscan` rows on each side, as
    /// far as there are rows.
    pub open spec fn needed(self, row_count: u64) -> Window {
        self.visible(row_count).widened(self.overscan as nat).below(row_count)
    }

    /// A viewport of no height at the top of the table.
    pub fn new(overscan: u32, row_height: u64) -> (v: Virtualization)
        ensures
            v == (Virtualization { overscan, row_height, scroll_top: 0, viewport_height: 0 }),
    {
        Virtualization { overscan, row_height, scroll_top: 0, viewport_height: 0 }
    }

    /// Records the scroll position and the height of the viewport.
    pub fn set_viewport(&mut self, scroll_top: u64, viewport_height: u64)
        ensures
            *final(self) == (Virtualization { scroll_top, viewport_height, ..*old(self) }),
    {
        self.scroll_top = scroll_top;
        self.viewport_height = viewport_height;
    }

    /// The rows that overlap the visible pixel range.
    pub fn visible_rows(&self, row_count: u64) -> (w: Window)
        ensures
            w == self.visible(row_count),
            w.start <= w.end <= row_count,
            forall|i: int| w.has(i) <==> self.shows(i, row_count),
    {
        let h: u64 = if self.row_height == 0 {
            1
        } else {
            self.row_height
        };
        let first: u64 = self.scroll_top / h;
        let start: u64 = if first <= row_count {
            first
        } else {
            row_count
        };
        if self.viewport_height == 0 {
            return Window { start, end: start };
        }
        let bottom: u128 = self.scroll_top as u128 + self.viewport_height as u128;
        let last: u128 = (bottom - 1) / (h as u128);
        let end: u64 = if last >= row_count as u128 {
            row_count
        } else {
            (last + 1) as u64
        };
        proof {
            assert(first as int <= last as int) by {
                lemma_quotient_bounds(self.scroll_top as int, h as int, first as int);
                lemma_quotient_bounds(bottom - 1, h as int, first as int);
            }
            assert forall|i: int| (start <= i < end) <==> self.shows(i, row_count) by {
                lemma_quotient_bounds(self.scroll_top as int, h as int, i + 1);
                lemma_quotient_bounds(bottom - 1, h as int, i);
            }
        }
        Window { start, end }
    }

    /// The window to request: the visible rows and `overscan` rows on each side, as
    /// far as there are rows.
    pub fn window(&self, row_count: u64) -> (w: Window)
        ensures
            w == self.needed(row_count),
            w.start <= w.end <= row_count,
            forall|i: int| self.shows(i, row_count) ==> w.has(i),
    {
        let visible = self.visible_rows(row_count);
        visible.expand(self.overscan as u64).clamp_to(row_count)
    }

    /// The estimated height of `row_count` rows.
    pub fn total_height(&self, row_count: u64) -> (height: u128)
        ensures
            height == row_count * self.height(),
    {
        let h: u128 = if self.row_height == 0 {
            1
        } else {
            self.row_height as u128
        };
        assert(row_count * h <= 0xffff_ffff_ffff_ffff * 0xffff_ffff_ffff_ffff) by (nonlinear_arith)
            requires
                0 <= row_count <= 0xffff_ffff_ffff_ffff,
                0 <= h <= 0xffff_ffff_ffff_ffff,
        ;
        row_count as u128 * h
    }

    /// The estimated offset of the top of row `index` from the top of the first row.
    pub fn offset_of(&self, index: RowIndex) -> (offset: u128)
        ensures
            offset == index * self.height(),
    {
        self.total_height(index)
    }

    /// Corrects the estimate after layout: the rendering layer found the top of row
    /// `index` at `measured_offset`, so a row is as high as that offset divided by the
    /// number of rows above it.  A measurement of the first row says nothing.
    pub fn correct_offset(&mut self, index: RowIndex, measured_offset: u64)
        ensures
            index == 0 ==> *final(self) == *old(self),
            index > 0 ==> *final(self) == (Virtualization {
                row_height: (measured_offset / index) as u64,
                ..*old(self)
            }),
    {
        if index > 0 {
            self.row_height = measured_offset / index;
        }
    }
}

/// Infinite scroll: the window starts at the first row and only grows, by one page
/// each time the last visible row comes within `threshold` rows of its end.
#[derive(Copy, Clone, Debug, PartialEq, Eq, Structural)]
pub struct InfiniteScroll {
    /// The number of rows by which the window grows.
    pub page_size: u32,
    /// How near to the end of the window the last visible row must come to extend it.
    pub threshold: u32,
    /// The end of the window, before it is cut off at the number of rows.
    pub end: u64,
}

impl InfiniteScroll {
    /// The window to request: from the first row to the end reached, as far as there
    /// are rows.
    pub open spec fn needed(self, row_count: u64) -> Window {
        Window { start: 0, end: least(self.end as int, row_count as int) as u64 }
    }

    /// Whether a last visible row of `last_visible` extends the window: rows are left
    /// behind the window, and the row lies at or behind the threshold.
    pub open spec fn crosses(self, last_visible: RowIndex, row_count: u64) -> bool {
        self.end < row_count && last_visible + self.threshold >= self.end
    }

    /// The state after the last visible row became `last_visible`.
    pub open spec fn scrolled(self, last_visible: RowIndex, row_count: u64) -> InfiniteScroll {
        if self.crosses(last_visible, row_count) {
            InfiniteScroll {
                end: least(self.end + self.page_size, u64::MAX as int) as u64,
                ..self
            }
        } else {
            self
        }
    }

    /// A window of one page.
    pub fn new(page_size: u32, threshold: u32) -> (s: InfiniteScroll)
        ensures
            s == (InfiniteScroll { page_size, threshold, end: page_size as u64 }),
    {
        InfiniteScroll { page_size, threshold, end: page_size as u64 }
    }

    /// The window to request.
    pub fn window(&self, row_count: u64) -> (w: Window)
        ensures
            w == self.needed(row_count),
            w.start == 0,
            w.end <= row_count,
    {
        let end: u64 = if self.end <= row_count {
            self.end
        } else {
            row_count
        };
        Window { start: 0, end }
    }

    /// Whether rows are left behind the window.
    pub fn has_more(&self, row_count: u64) -> (more: bool)
        ensures
            more == (self.end < row_count),
    {
        self.end < row_count
    }

    /// Takes a scroll position, given as the position of the last visible row, and
    /// extends the window by one page where it crosses the threshold.  The window
    /// never shrinks and never leaves the first row.
    pub fn on_scroll(&mut self, last_visible: RowIndex, row_count: u64) -> (extended: bool)
        ensures
            *final(self) == old(self).scrolled(last_visible, row_count),
            extended == old(self).crosses(last_visible, row_count),
            final(self).end >= old(self).end,
            final(self).needed(row_count).start == 0,
            forall|i: int| old(self).needed(row_count).has(i) ==> final(self).needed(row_count).has(i),
    {
        let near: bool = if last_visible >= self.end {
            true
        } else {
            self.end - last_visible <= self.threshold as u64
        };
        if self.end < row_count && near {
            self.end = if self.end <= u64::MAX - self.page_size as u64 {
                self.end + self.page_size as u64
            } else {
                u64::MAX
            };
            true
        } else {
            false
        }
    }
}

/// Pagination: the window is one page, and only a change of page moves it.
#[derive(Copy, Clone, Debug, PartialEq, Eq, Structural)]
pub struct Pagination {
    /// The number of rows on a page.
    pub page_size: u32,
    /// The page on display, the first being page zero.
    pub page: u64,
}

/// The number of pages that `row_count` rows fill: the quotient of the two, rounded up.
/// With pages of no rows there is no page.
pub open spec fn pages_for(row_count: u64, page_size: u32) -> int {
    if page_size == 0 {
        0
    } else {
        (row_count + page_size - 1) / (page_size as int)
    }
}

/// The number of pages is the least number of pages that hold every row.
pub proof fn lemma_pages_hold_all_rows(row_count: u64, page_size: u32)
    requires
        page_size > 0,
    ensures
        pages_for(row_count, page_size) * page_size >= row_count,
        (pages_for(row_count, page_size) - 1) * page_size < row_count || row_count == 0,
        row_count == 0 ==> pages_for(row_count, page_size) == 0,
{
    let n = pages_for(row_count, page_size);
    lemma_quotient_bounds(row_count + page_size - 1, page_size as int, n);
    lemma_quotient_bounds(row_count + page_size - 1, page_size as int, n + 1);
    assert((n + 1) * page_size == n * page_size + page_size) by (nonlinear_arith);
    assert((n - 1) * page_size == n * page_size - page_size) by (nonlinear_arith);
    if row_count == 0 {
        lemma_quotient_bounds(page_size - 1, page_size as int, 1);
    }
}

impl Pagination {
    /// The window of the page: it starts at `page * page_size` and holds `page_size`
    /// rows, as far as there are rows.
    pub open spec fn needed(self, row_count: u64) -> Window {
        Window {
            start: least(self.page * self.page_size, row_count as int) as u64,
            end: least((self.page + 1) * self.page_size, row_count as int) as u64,
        }
    }

    /// The first page.
    pub fn new(page_size: u32) -> (p: Pagination)
        ensures
            p == (Pagination { page_size, page: 0 }),
    {
        Pagination { page_size, page: 0 }
    }

    /// Moves to `page`.
    pub fn set_page(&mut self, page: u64)
        ensures
            *final(self) == (Pagination { page, ..*old(self) }),
    {
        self.page = page;
    }

    /// The window to request.
    pub fn window(&self, row_count: u64) -> (w: Window)
        ensures
            w == self.needed(row_count),
            w.start <= w.end <= row_count,
            w.count() <= self.page_size,
    {
        let size: u128 = self.page_size as u128;
        let page: u128 = self.page as u128;
        assert(page * size <= 0xffff_ffff_ffff_ffff * 0xffff_ffff) by (nonlinear_arith)
            requires
                0 <= page <= 0xffff_ffff_ffff_ffff,
                0 <= size <= 0xffff_ffff,
        ;
        assert((page + 1) * size == page * size + size) by (nonlinear_arith);
        let from: u128 = page * size;
        let to: u128 = from + size;
        let start: u64 = if from <= row_count as u128 {
            from as u64
        } else {
            row_count
        };
        let end: u64 = if to <= row_count as u128 {
            to as u64
        } else {
            row_count
        };
        Window { start, end }
    }

    /// The number of pages.
    pub fn page_count(&self, row_count: u64) -> (pages: u64)
        ensures
            pages == pages_for(row_count, self.page_size),
    {
        if self.page_size == 0 {
            return 0;
        }
        let size: u64 = self.page_size as u64;
        let whole: u64 = row_count / size;
        let rest: u64 = row_count % size;
        proof {
            vstd::arithmetic::div_mod::lemma_fundamental_div_mod(row_count as int, size as int);
            let up = if rest == 0 { whole as int } else { whole + 1 };
            lemma_quotient_bounds(row_count + size - 1, size as int, up);
            lemma_quotient_bounds(row_count + size - 1, size as int, up + 1);
            assert(up * size == size * whole + (if rest == 0 { 0int } else { size as int }))
                by (nonlinear_arith)
                requires
                    up == (if rest == 0 { whole as int } else { whole + 1 }),
            ;
            assert((up + 1) * size == up * size + size) by (nonlinear_arith);
            assert(whole <= size * whole) by (nonlinear_arith)
                requires
                    size >= 1,
                    whole >= 0,
            ;
        }
        if rest == 0 {
            whole
        } else {
            whole + 1
        }
    }
}

/// Every row lies on exactly the page that its position divided by the page size names,
/// and that page is one of the pages counted.
pub proof fn lemma_row_lies_on_its_page(row_count: u64, page_size: u32, i: RowIndex)
    requires
        page_size > 0,
        i < row_count,
    ensures
        ({
            let on = Pagination { page_size, page: i / (page_size as u64) };
            &&& on.needed(row_count).has(i as int)
            &&& (on.page as int) < pages_for(row_count, page_size)
        }),
        forall|page: u64|
            (#[trigger] (Pagination { page_size, page }).needed(row_count)).has(i as int) ==> page
                == i / (page_size as u64),
{
    let size = page_size as int;
    let q = (i / (page_size as u64)) as int;
    lemma_quotient_bounds(i as int, size, q);
    lemma_quotient_bounds(i as int, size, q + 1);
    lemma_pages_hold_all_rows(row_count, page_size);
    let n = pages_for(row_count, page_size);
    if q >= n {
        assert(q * size >= n * size) by (nonlinear_arith)
            requires
                q >= n,
                size > 0,
        ;
    }
    assert forall|page: u64|
        (#[trigger] (Pagination { page_size, page }).needed(row_count)).has(i as int) implies page
        == i / (page_size as u64) by {
        lemma_quotient_bounds(i as int, size, page as int);
        lemma_quotient_bounds(i as int, size, page + 1);
    }
}

/// The strategy in use, with its state.
#[derive(Copy, Clone, Debug, PartialEq, Eq, Structural)]
pub enum DisplayStrategy {
    Virtualization(Virtualization),
    InfiniteScroll(InfiniteScroll),
    Pagination(Pagination),
}

impl DisplayStrategy {
    /// The state in which a strategy starts: virtualization with a viewport of no height
    /// at the top and rows of one pixel, infinite scroll with a window of one page and
    /// `overscan` as its threshold, pagination on the first page.
    pub open spec fn initial_state(kind: StrategyKind, overscan: u32, page_size: u32) -> DisplayStrategy {
        match kind {
            StrategyKind::Virtualization => DisplayStrategy::Virtualization(
                Virtualization { overscan, row_height: 1, scroll_top: 0, viewport_height: 0 },
            ),
            StrategyKind::InfiniteScroll => DisplayStrategy::InfiniteScroll(
                InfiniteScroll { page_size, threshold: overscan, end: page_size as u64 },
            ),
            StrategyKind::Pagination => DisplayStrategy::Pagination(
                Pagination { page_size, page: 0 },
            ),
        }
    }

    /// Which strategy this is.
    pub open spec fn kind_of(self) -> StrategyKind {
        match self {
            DisplayStrategy::Virtualization(_) => StrategyKind::Virtualization,
            DisplayStrategy::InfiniteScroll(_) => StrategyKind::InfiniteScroll,
            DisplayStrategy::Pagination(_) => StrategyKind::Pagination,
        }
    }

    /// The window that the strategy needs.
    pub open spec fn needed(self, row_count: u64) -> Window {
        match self {
            DisplayStrategy::Virtualization(v) => v.needed(row_count),
            DisplayStrategy::InfiniteScroll(s) => s.needed(row_count),
            DisplayStrategy::Pagination(p) => p.needed(row_count),
        }
    }

    /// The hint that the strategy gives on the total extent.
    pub open spec fn extent(self, row_count: u64) -> ExtentHint {
        match self {
            DisplayStrategy::Virtualization(v) => ExtentHint::TotalHeight(
                (row_count * v.height()) as u128,
            ),
            DisplayStrategy::InfiniteScroll(s) => ExtentHint::MoreRows(s.end < row_count),
            DisplayStrategy::Pagination(p) => ExtentHint::TotalPages(
                pages_for(row_count, p.page_size) as u64,
            ),
        }
    }

    /// The state in which the strategy of the given kind starts.
    pub fn initial(kind: StrategyKind, overscan: u32, page_size: u32) -> (s: DisplayStrategy)
        ensures
            s == Self::initial_state(kind, overscan, page_size),
            s.kind_of() == kind,
    {
        match kind {
            StrategyKind::Virtualization => DisplayStrategy::Virtualization(
                Virtualization::new(overscan, 1),
            ),
            StrategyKind::InfiniteScroll => DisplayStrategy::InfiniteScroll(
                InfiniteScroll::new(page_size, overscan),
            ),
            StrategyKind::Pagination => DisplayStrategy::Pagination(Pagination::new(page_size)),
        }
    }

    /// Which strategy this is.
    pub fn kind(&self) -> (k: StrategyKind)
        ensures
            k == self.kind_of(),
    {
        match self {
            DisplayStrategy::Virtualization(_) => StrategyKind::Virtualization,
            DisplayStrategy::InfiniteScroll(_) => StrategyKind::InfiniteScroll,
            DisplayStrategy::Pagination(_) => StrategyKind::Pagination,
        }
    }

    /// The window to request, as far as there are rows.
    pub fn window(&self, row_count: u64) -> (w: Window)
        ensures
            w == self.needed(row_count),
            w.start <= w.end <= row_count,
    {
        match self {
            DisplayStrategy::Virtualization(v) => v.window(row_count),
            DisplayStrategy::InfiniteScroll(s) => s.window(row_count),
            DisplayStrategy::Pagination(p) => p.window(row_count),
        }
    }

    /// The hint on the total extent: the estimated height of all rows under
    /// virtualization, the number of pages under pagination, and whether rows are left
    /// under infinite scroll.
    pub fn extent_hint(&self, row_count: u64) -> (hint: ExtentHint)
        ensures
            hint == self.extent(row_count),
    {
        match self {
            DisplayStrategy::Virtualization(v) => ExtentHint::TotalHeight(v.total_height(row_count)),
            DisplayStrategy::InfiniteScroll(s) => ExtentHint::MoreRows(s.has_more(row_count)),
            DisplayStrategy::Pagination(p) => ExtentHint::TotalPages(p.page_count(row_count)),
        }
    }
}

} // verus!
