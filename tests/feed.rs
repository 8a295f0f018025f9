use capybara::feed::{dedup_by_key, FeedItem, InfinitePage, ScrollerData};

#[derive(Debug, Clone, PartialEq, Eq)]
struct Item {
    id: i64,
    page: u32,
}

impl FeedItem for Item {
    fn key_of(&self) -> i64 {
        self.id
    }

    fn key(&self) -> i64 {
        self.id
    }
}

fn item(id: i64, page: u32) -> Item {
    Item { id, page }
}

fn ids(feed: &InfinitePage<Item>) -> Vec<i64> {
    feed.items().iter().map(|i| i.id).collect()
}

#[test]
fn dedup_keeps_first_of_overlapping_page() {
    let mut feed = InfinitePage::new(vec![item(1, 1), item(2, 1)], 7, None);
    assert_eq!(feed.advance(), Some(2));
    feed.receive_page(vec![item(2, 2), item(3, 2)]);
    assert_eq!(ids(&feed), vec![1, 2, 3]);
    assert_eq!(feed.items()[1], item(2, 1));
    assert!(!feed.loading());
    assert!(!feed.at_end());
}

#[test]
fn dedup_over_several_pages() {
    let mut feed = InfinitePage::new(vec![item(1, 1)], 0, None);
    let pages = vec![
        vec![item(2, 2), item(1, 2), item(2, 2)],
        vec![item(3, 3), item(2, 3)],
        vec![item(4, 4), item(3, 4), item(1, 4)],
    ];
    for page in pages {
        assert!(feed.advance().is_some());
        feed.receive_page(page);
    }
    assert_eq!(ids(&feed), vec![1, 2, 3, 4]);
    let pages_of: Vec<u32> = feed.items().iter().map(|i| i.page).collect();
    assert_eq!(pages_of, vec![1, 2, 3, 4]);
    assert_eq!(feed.current_page(), 4);
}

#[test]
fn dedup_by_key_drops_later_duplicates() {
    let v = dedup_by_key(vec![item(5, 1), item(6, 1), item(5, 2), item(7, 2), item(6, 3)]);
    assert_eq!(v, vec![item(5, 1), item(6, 1), item(7, 2)]);
    assert!(dedup_by_key(Vec::<Item>::new()).is_empty());
}

#[test]
fn seed_duplicates_are_dropped() {
    let feed = InfinitePage::new(vec![item(1, 1), item(1, 9)], 0, None);
    assert_eq!(feed.items(), &vec![item(1, 1)]);
}

#[test]
fn empty_page_ends_the_feed() {
    let mut fetches = 0;
    let mut feed = InfinitePage::new(vec![item(1, 1)], 0, None);
    for _ in 0..8 {
        if let Some(page) = feed.advance() {
            fetches += 1;
            if page < 3 {
                feed.receive_page(vec![item(page as i64 * 10, page as u32)]);
            } else {
                feed.receive_page(Vec::new());
            }
        }
    }
    assert_eq!(fetches, 2);
    assert!(feed.at_end());
    let before = ids(&feed);
    for _ in 0..5 {
        assert_eq!(feed.advance(), None);
    }
    assert_eq!(ids(&feed), before);
    assert_eq!(feed.current_page(), 3);
    assert!(!feed.loading());
}

#[test]
fn second_advance_while_loading_asks_nothing() {
    let mut feed = InfinitePage::new(vec![item(1, 1)], 0, None);
    assert_eq!(feed.advance(), Some(2));
    assert!(feed.loading());
    assert_eq!(feed.advance(), None);
    assert_eq!(feed.current_page(), 2);
    feed.receive_page(vec![item(2, 2)]);
    assert_eq!(feed.advance(), Some(3));
}

#[test]
fn force_refresh_refetches_page_one() {
    let mut feed = InfinitePage::new(vec![item(1, 1), item(2, 1)], 0, None);
    feed.advance();
    feed.receive_page(Vec::new());
    assert!(feed.at_end());
    assert_eq!(feed.force_refresh(), Some(1));
    assert!(feed.items().is_empty());
    assert_eq!(feed.current_page(), 1);
    assert!(!feed.at_end());
    feed.receive_page(vec![item(9, 1), item(8, 1), item(9, 1)]);
    assert_eq!(ids(&feed), vec![9, 8]);
}

#[test]
fn force_refresh_waits_for_fetch_in_flight() {
    let mut feed = InfinitePage::new(vec![item(1, 1)], 0, None);
    feed.advance();
    assert_eq!(feed.force_refresh(), None);
    assert_eq!(ids(&feed), vec![1]);
}

#[test]
fn restored_state_replaces_initial_items() {
    let restored = ScrollerData { y_scroll: 240, data: vec![item(5, 1)] };
    let feed = InfinitePage::new(vec![item(1, 1), item(2, 1)], 99, Some(restored));
    assert_eq!(ids(&feed), vec![5]);
    assert_eq!(feed.scroll_restore(), Some(240));
    assert_eq!(feed.cache_key(), 99);
    assert_eq!(feed.current_page(), 1);
}

#[test]
fn fresh_feed_without_items_starts_at_end() {
    let feed: InfinitePage<Item> = InfinitePage::new(Vec::new(), 1, None);
    assert!(feed.at_end());
    assert_eq!(feed.scroll_restore(), None);
    let feed = InfinitePage::new(vec![item(1, 1)], 1, None);
    assert!(!feed.at_end());
}

#[test]
fn failed_fetch_asks_same_page_again() {
    let mut feed = InfinitePage::new(vec![item(1, 1)], 0, None);
    assert_eq!(feed.advance(), Some(2));
    feed.fetch_failed();
    assert!(feed.failed());
    assert!(!feed.loading());
    assert_eq!(feed.current_page(), 1);
    assert_eq!(feed.advance(), Some(2));
    assert!(!feed.failed());
}

#[test]
fn torn_down_feed_ignores_late_page() {
    let mut feed = InfinitePage::new(vec![item(1, 1)], 0, None);
    feed.advance();
    let saved = feed.teardown(512);
    assert_eq!(saved.y_scroll, 512);
    assert_eq!(saved.data, vec![item(1, 1)]);
    assert!(!feed.alive());
    feed.receive_page(vec![item(2, 2)]);
    assert!(feed.items().is_empty());
    assert_eq!(feed.advance(), None);
    assert_eq!(feed.force_refresh(), None);
}

#[test]
fn scrolling_near_bottom_loads_more() {
    let mut feed = InfinitePage::new(vec![item(1, 1)], 0, None);
    assert_eq!(feed.on_scroll(100, 5000), None);
    assert_eq!(feed.on_scroll(3500, 5000), Some(2));
    assert_eq!(feed.on_scroll(3600, 5000), None);
}

#[test]
fn pulling_past_top_refreshes() {
    let mut feed = InfinitePage::new(vec![item(1, 1)], 0, None);
    assert_eq!(feed.on_scroll(-30, 5000), None);
    assert_eq!(feed.on_scroll(-31, 5000), Some(1));
    assert!(feed.items().is_empty());
}
