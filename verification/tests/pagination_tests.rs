use spotify_access::pagination::{first_items, ApiPage, Paginator};
use std::cell::RefCell;

/// A service that holds `total` numbered items and hands out `per_page` of
/// them at a time, noting each offset it is asked for.
fn serve(
    total: u32,
    per_page: u32,
    asked: &RefCell<Vec<u32>>,
) -> impl Fn(u32) -> Option<ApiPage<u32>> + '_ {
    move |offset: u32| {
        asked.borrow_mut().push(offset);
        let to = total.min(offset.saturating_add(per_page));
        let items: Vec<u32> = (offset.min(total)..to).collect();
        Some(ApiPage { offset, total, items })
    }
}

#[test]
fn total_of_zero_is_fetched_once_and_yields_nothing() {
    let asked = RefCell::new(Vec::new());
    let fetch = serve(0, 100, &asked);
    let items = first_items(100, &fetch, usize::MAX);
    assert!(items.is_empty());
    assert_eq!(*asked.borrow(), vec![0]);
}

#[test]
fn empty_first_page_is_fetched_once_and_yields_nothing() {
    let asked = RefCell::new(Vec::new());
    let fetch = |offset: u32| {
        asked.borrow_mut().push(offset);
        // The service claims more than it delivers.
        Some(ApiPage::<u32> { offset, total: 500, items: Vec::new() })
    };
    let items = first_items(100, &fetch, usize::MAX);
    assert!(items.is_empty());
    assert_eq!(*asked.borrow(), vec![0]);
}

#[test]
fn failed_first_fetch_yields_nothing() {
    let asked = RefCell::new(Vec::new());
    let fetch = |offset: u32| -> Option<ApiPage<u32>> {
        asked.borrow_mut().push(offset);
        None
    };
    let items = first_items(100, &fetch, usize::MAX);
    assert!(items.is_empty());
    assert_eq!(*asked.borrow(), vec![0]);
}

#[test]
fn two_hundred_and_fifty_items_come_in_three_pages() {
    let asked = RefCell::new(Vec::new());
    let fetch = serve(250, 100, &asked);
    let items = first_items(100, &fetch, usize::MAX);
    assert_eq!(*asked.borrow(), vec![0, 100, 200]);
    assert_eq!(items.len(), 250);
    assert_eq!(items, (0..250).collect::<Vec<u32>>());
}

#[test]
fn full_last_page_needs_no_further_fetch() {
    let asked = RefCell::new(Vec::new());
    let fetch = serve(200, 100, &asked);
    let items = first_items(100, &fetch, usize::MAX);
    assert_eq!(*asked.borrow(), vec![0, 100]);
    assert_eq!(items, (0..200).collect::<Vec<u32>>());
}

#[test]
fn offset_advances_by_what_was_received() {
    // The service hands out pages of 30 although 100 were asked for.
    let asked = RefCell::new(Vec::new());
    let fetch = serve(70, 30, &asked);
    let items = first_items(100, &fetch, usize::MAX);
    assert_eq!(*asked.borrow(), vec![0, 30, 60]);
    assert_eq!(items, (0..70).collect::<Vec<u32>>());
}

#[test]
fn a_prefix_is_pulled_without_the_rest() {
    let asked = RefCell::new(Vec::new());
    let fetch = serve(1000, 100, &asked);
    let items = first_items(100, &fetch, 150);
    assert_eq!(*asked.borrow(), vec![0, 100]);
    assert_eq!(items, (0..150).collect::<Vec<u32>>());

    let asked = RefCell::new(Vec::new());
    let fetch = serve(1000, 100, &asked);
    let items = first_items(100, &fetch, 100);
    assert_eq!(*asked.borrow(), vec![0]);
    assert_eq!(items.len(), 100);

    let asked = RefCell::new(Vec::new());
    let fetch = serve(1000, 100, &asked);
    let items = first_items(100, &fetch, 0);
    assert!(asked.borrow().is_empty());
    assert!(items.is_empty());
}

#[test]
fn a_failed_fetch_ends_the_listing() {
    let asked = RefCell::new(Vec::new());
    let fetch = |offset: u32| {
        asked.borrow_mut().push(offset);
        if offset == 0 {
            Some(ApiPage { offset, total: 10, items: vec![1u8, 2, 3] })
        } else {
            None
        }
    };
    let items = first_items(3, &fetch, usize::MAX);
    assert_eq!(items, vec![1, 2, 3]);
    assert_eq!(*asked.borrow(), vec![0, 3]);
}

#[test]
fn cursor_steps() {
    let mut cursor = Paginator::new(50);
    assert_eq!(cursor, Paginator { page_size: 50, offset: 0, finished: false });
    assert_eq!(cursor.next_offset(), Some(0));
    let items = cursor.accept(ApiPage { offset: 0, total: 120, items: vec!['a'; 50] });
    assert_eq!(items.len(), 50);
    assert_eq!(cursor.next_offset(), Some(50));
    let items = cursor.accept(ApiPage { offset: 50, total: 120, items: vec!['b'; 50] });
    assert_eq!(items, vec!['b'; 50]);
    assert_eq!(cursor.next_offset(), Some(100));
    let items = cursor.accept(ApiPage { offset: 100, total: 120, items: vec!['c'; 20] });
    assert_eq!(items.len(), 20);
    assert!(cursor.finished);
    assert_eq!(cursor.offset, 120);
    assert_eq!(cursor.next_offset(), None);
    // A page that arrives after the end is ignored.
    let items = cursor.accept(ApiPage { offset: 120, total: 500, items: vec!['d'; 5] });
    assert!(items.is_empty());
    assert_eq!(cursor.offset, 120);
    assert!(cursor.finished);
}

#[test]
fn cursor_restarts_from_the_beginning() {
    let mut cursor = Paginator::new(10);
    cursor.accept(ApiPage { offset: 0, total: 3, items: vec![1, 2, 3] });
    assert!(cursor.finished);
    cursor.restart();
    assert_eq!(cursor, Paginator::new(10));
    assert_eq!(cursor.next_offset(), Some(0));
    cursor.fail();
    assert!(cursor.finished);
    assert_eq!(cursor.next_offset(), None);
    cursor.restart();
    assert_eq!(cursor.next_offset(), Some(0));
}

#[test]
fn cursor_follows_the_total_of_the_last_page() {
    let mut cursor = Paginator::new(2);
    cursor.accept(ApiPage { offset: 0, total: 2, items: vec![0u8] });
    // One item of two: not at the end yet.
    assert_eq!(cursor.next_offset(), Some(1));
    // The listing grew meanwhile.
    cursor.accept(ApiPage { offset: 1, total: 4, items: vec![1u8, 2] });
    assert_eq!(cursor.next_offset(), Some(3));
    cursor.accept(ApiPage { offset: 3, total: 4, items: vec![3u8] });
    assert_eq!(cursor.next_offset(), None);
}

#[test]
fn next_page_fetches_at_the_cursor() {
    let asked = RefCell::new(Vec::new());
    let fetch = serve(5, 2, &asked);
    let mut cursor = Paginator::new(2);
    assert_eq!(cursor.next_page(&fetch), Some(vec![0, 1]));
    assert_eq!(cursor.next_page(&fetch), Some(vec![2, 3]));
    assert_eq!(cursor.next_page(&fetch), Some(vec![4]));
    assert_eq!(cursor.next_page(&fetch), None);
    assert_eq!(cursor.next_page(&fetch), None);
    assert_eq!(*asked.borrow(), vec![0, 2, 4]);
}

#[test]
fn offset_saturates_at_the_end_of_its_range() {
    let mut cursor = Paginator { page_size: 10, offset: u32::MAX - 1, finished: false };
    let items = cursor.accept(ApiPage { offset: 0, total: u32::MAX, items: vec![0u8; 5] });
    assert_eq!(items.len(), 5);
    assert!(cursor.finished);
    assert_eq!(cursor.offset, u32::MAX);
}
