use leptos_struct_table::{
    DisplayStrategy, ExtentHint, InfiniteScroll, Pagination, StrategyKind, Virtualization, Window,
};

#[test]
fn virtualization_requests_the_visible_rows_and_the_overscan() {
    let mut v = Virtualization::new(5, 10);
    v.set_viewport(200, 200);
    assert_eq!(v.visible_rows(1000), Window::new(20, 40));
    assert_eq!(v.window(1000), Window::new(15, 45));
}

#[test]
fn virtualization_counts_rows_that_are_partly_visible() {
    let mut v = Virtualization::new(2, 10);
    v.set_viewport(25, 30);
    assert_eq!(v.visible_rows(100), Window::new(2, 6));
    assert_eq!(v.window(100), Window::new(0, 8));
    v.set_viewport(20, 30);
    assert_eq!(v.visible_rows(100), Window::new(2, 5));
    v.set_viewport(29, 1);
    assert_eq!(v.visible_rows(100), Window::new(2, 3));
    v.set_viewport(30, 1);
    assert_eq!(v.visible_rows(100), Window::new(3, 4));
}

#[test]
fn virtualization_stops_at_the_last_row() {
    let mut v = Virtualization::new(5, 10);
    v.set_viewport(25, 1000);
    assert_eq!(v.visible_rows(5), Window::new(2, 5));
    assert_eq!(v.window(5), Window::new(0, 5));
    v.set_viewport(500, 100);
    assert_eq!(v.visible_rows(5), Window::new(5, 5));
    assert_eq!(v.window(5), Window::new(0, 5));
    assert_eq!(v.window(0), Window::new(0, 0));
}

#[test]
fn virtualization_starts_with_a_viewport_of_no_height() {
    let v = Virtualization::new(3, 10);
    assert_eq!(v.scroll_top, 0);
    assert_eq!(v.viewport_height, 0);
    assert!(v.visible_rows(100).is_empty());
    assert_eq!(v.window(100), Window::new(0, 3));
    let mut w = v;
    w.set_viewport(55, 0);
    assert!(w.visible_rows(100).is_empty());
    assert_eq!(w.window(100), Window::new(2, 8));
}

#[test]
fn virtualization_takes_a_row_height_of_zero_as_one_pixel() {
    let mut v = Virtualization::new(0, 0);
    v.set_viewport(7, 3);
    assert_eq!(v.visible_rows(100), Window::new(7, 10));
    assert_eq!(v.total_height(100), 100);
}

#[test]
fn virtualization_estimates_heights_and_offsets() {
    let v = Virtualization::new(0, 24);
    assert_eq!(v.total_height(1000), 24000);
    assert_eq!(v.offset_of(10), 240);
    assert_eq!(v.total_height(0), 0);
    let big = Virtualization::new(0, u64::MAX);
    assert_eq!(
        big.total_height(u64::MAX),
        (u64::MAX as u128) * (u64::MAX as u128)
    );
}

#[test]
fn virtualization_corrects_the_row_height_after_layout() {
    let mut v = Virtualization::new(1, 10);
    v.set_viewport(100, 50);
    v.correct_offset(10, 250);
    assert_eq!(v.row_height, 25);
    assert_eq!(v.offset_of(10), 250);
    assert_eq!(v.scroll_top, 100);
    assert_eq!(v.viewport_height, 50);
    assert_eq!(v.overscan, 1);
    assert_eq!(v.visible_rows(100), Window::new(4, 6));
    v.correct_offset(0, 999);
    assert_eq!(v.row_height, 25);
    v.correct_offset(3, 100);
    assert_eq!(v.row_height, 33);
}

#[test]
fn virtualization_bears_the_largest_values() {
    let mut v = Virtualization::new(u32::MAX, 1);
    v.set_viewport(u64::MAX, u64::MAX);
    assert_eq!(v.visible_rows(u64::MAX), Window::new(u64::MAX, u64::MAX));
    v.set_viewport(u64::MAX - 10, u64::MAX);
    assert_eq!(
        v.visible_rows(u64::MAX),
        Window::new(u64::MAX - 10, u64::MAX)
    );
    assert_eq!(
        v.window(u64::MAX),
        Window::new(u64::MAX - 10 - u32::MAX as u64, u64::MAX)
    );
}

#[test]
fn pagination_truncates_the_last_page() {
    let mut p = Pagination::new(25);
    assert_eq!(p.window(53), Window::new(0, 25));
    p.set_page(2);
    assert_eq!(p.window(53), Window::new(50, 53));
    assert_eq!(p.page_count(53), 3);
}

#[test]
fn pagination_counts_pages_by_rounding_up() {
    let p = Pagination::new(25);
    assert_eq!(p.page_count(0), 0);
    assert_eq!(p.page_count(1), 1);
    assert_eq!(p.page_count(25), 1);
    assert_eq!(p.page_count(26), 2);
    assert_eq!(p.page_count(50), 2);
    assert_eq!(p.page_count(u64::MAX), u64::MAX / 25 + 1);
    assert_eq!(Pagination::new(1).page_count(u64::MAX), u64::MAX);
}

#[test]
fn pagination_with_pages_of_no_rows_has_no_page() {
    let mut p = Pagination::new(0);
    assert_eq!(p.page_count(53), 0);
    assert_eq!(p.window(53), Window::new(0, 0));
    p.set_page(4);
    assert_eq!(p.window(53), Window::new(0, 0));
}

#[test]
fn pagination_behind_the_last_page_shows_nothing() {
    let mut p = Pagination::new(25);
    p.set_page(3);
    assert_eq!(p.window(53), Window::new(53, 53));
    p.set_page(u64::MAX);
    assert_eq!(p.window(53), Window::new(53, 53));
    assert_eq!(p.window(u64::MAX), Window::new(u64::MAX, u64::MAX));
    p.set_page(1);
    assert_eq!(p.window(25), Window::new(25, 25));
}

#[test]
fn every_row_lies_on_exactly_one_page() {
    let size = 7u32;
    let rows = 53u64;
    let mut p = Pagination::new(size);
    let pages = p.page_count(rows);
    assert_eq!(pages, 8);
    for row in 0..rows {
        let mut holders = Vec::new();
        for page in 0..pages + 2 {
            p.set_page(page);
            if p.window(rows).contains(row) {
                holders.push(page);
            }
        }
        assert_eq!(holders, vec![row / size as u64]);
    }
}

#[test]
fn infinite_scroll_extends_and_never_resets() {
    let mut s = InfiniteScroll::new(20, 2);
    assert_eq!(s.window(1000), Window::new(0, 20));
    assert!(!s.on_scroll(17, 1000));
    assert_eq!(s.window(1000), Window::new(0, 20));
    assert!(s.on_scroll(18, 1000));
    assert_eq!(s.window(1000), Window::new(0, 40));
    assert!(!s.on_scroll(5, 1000));
    assert_eq!(s.window(1000), Window::new(0, 40));
}

#[test]
fn infinite_scroll_grows_one_page_per_crossing() {
    let mut s = InfiniteScroll::new(10, 0);
    assert!(!s.on_scroll(9, 1000));
    assert!(s.on_scroll(500, 1000));
    assert_eq!(s.end, 20);
    assert!(s.on_scroll(500, 1000));
    assert_eq!(s.end, 30);
    assert!(s.on_scroll(30, 1000));
    assert_eq!(s.window(1000), Window::new(0, 40));
}

#[test]
fn infinite_scroll_stops_at_the_last_row() {
    let mut s = InfiniteScroll::new(20, 2);
    assert!(s.has_more(30));
    assert!(s.on_scroll(19, 30));
    assert_eq!(s.end, 40);
    assert_eq!(s.window(30), Window::new(0, 30));
    assert!(!s.has_more(30));
    assert!(!s.on_scroll(29, 30));
    assert_eq!(s.end, 40);
    let mut exact = InfiniteScroll::new(20, 2);
    assert!(!exact.on_scroll(19, 20));
    assert_eq!(exact.window(20), Window::new(0, 20));
    assert_eq!(exact.window(7), Window::new(0, 7));
}

#[test]
fn infinite_scroll_with_a_threshold_beyond_the_window_always_extends() {
    let mut s = InfiniteScroll::new(5, 100);
    assert!(s.on_scroll(0, 1000));
    assert_eq!(s.end, 10);
}

#[test]
fn infinite_scroll_bears_the_largest_values() {
    let mut s = InfiniteScroll {
        page_size: u32::MAX,
        threshold: u32::MAX,
        end: u64::MAX - 5,
    };
    assert!(s.on_scroll(u64::MAX, u64::MAX));
    assert_eq!(s.end, u64::MAX);
    assert!(!s.on_scroll(u64::MAX, u64::MAX));
    let mut empty = InfiniteScroll::new(0, 0);
    assert_eq!(empty.window(10), Window::new(0, 0));
    assert!(empty.on_scroll(0, 10));
    assert_eq!(empty.window(10), Window::new(0, 0));
}

#[test]
fn strategies_start_in_their_initial_state() {
    let v = DisplayStrategy::initial(StrategyKind::Virtualization, 5, 20);
    assert_eq!(
        v,
        DisplayStrategy::Virtualization(Virtualization {
            overscan: 5,
            row_height: 1,
            scroll_top: 0,
            viewport_height: 0
        })
    );
    assert_eq!(v.kind(), StrategyKind::Virtualization);
    assert_eq!(v.window(1000), Window::new(0, 5));
    let s = DisplayStrategy::initial(StrategyKind::InfiniteScroll, 5, 20);
    assert_eq!(
        s,
        DisplayStrategy::InfiniteScroll(InfiniteScroll {
            page_size: 20,
            threshold: 5,
            end: 20
        })
    );
    assert_eq!(s.kind(), StrategyKind::InfiniteScroll);
    assert_eq!(s.window(1000), Window::new(0, 20));
    let p = DisplayStrategy::initial(StrategyKind::Pagination, 5, 20);
    assert_eq!(
        p,
        DisplayStrategy::Pagination(Pagination {
            page_size: 20,
            page: 0
        })
    );
    assert_eq!(p.kind(), StrategyKind::Pagination);
    assert_eq!(p.window(1000), Window::new(0, 20));
}

#[test]
fn strategies_give_their_extent_hint() {
    let v = DisplayStrategy::Virtualization(Virtualization::new(5, 30));
    assert_eq!(v.extent_hint(1000), ExtentHint::TotalHeight(30000));
    let p = DisplayStrategy::Pagination(Pagination::new(25));
    assert_eq!(p.extent_hint(53), ExtentHint::TotalPages(3));
    let s = DisplayStrategy::InfiniteScroll(InfiniteScroll::new(20, 2));
    assert_eq!(s.extent_hint(53), ExtentHint::MoreRows(true));
    assert_eq!(s.extent_hint(20), ExtentHint::MoreRows(false));
}
