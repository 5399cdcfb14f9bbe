//! The broadcast registry: header replay at join, ordered delivery,
//! isolation of a saturated subscriber, and shutdown.

use ogg_opus::ogg::Page;
use ogg_opus::registry::BroadcastRegistry;

fn page(tag: u8) -> Page {
    Page { header: vec![tag, 0, 1], body: vec![tag, 2, 3, 4] }
}

fn same_page(a: &Page, b: &Page) -> bool {
    a.header == b.header && a.body == b.body
}

#[test]
fn subscriber_receives_headers_then_live_pages_in_order() {
    let mut reg = BroadcastRegistry::new();
    reg.cache_header(&page(10));
    reg.cache_header(&page(11));
    // Two pages go out before anyone subscribes.
    reg.broadcast(&page(20));
    reg.broadcast(&page(21));
    let id = reg.join(16).unwrap();
    // Two more pages after the join.
    reg.broadcast(&page(22));
    reg.broadcast(&page(23));
    // The subscriber sees: both cached headers, then only the pages
    // broadcast after its join, in order, and nothing before it.
    for want in [10u8, 11, 22, 23] {
        let got = reg.take(id).expect("a page is owed");
        assert!(same_page(&got, &page(want)));
    }
    assert!(reg.take(id).is_none());
}

#[test]
fn late_joiner_still_gets_headers_first() {
    let mut reg = BroadcastRegistry::new();
    reg.cache_header(&page(1));
    reg.broadcast(&page(50));
    let id = reg.join(4).unwrap();
    let first = reg.take(id).expect("the cached header is owed");
    assert!(same_page(&first, &page(1)));
    assert!(reg.take(id).is_none());
}

#[test]
fn saturated_subscriber_is_evicted_without_costing_the_others() {
    let mut reg = BroadcastRegistry::new();
    reg.cache_header(&page(1));
    // One subscriber with room for only the header, two healthy ones.
    let narrow = reg.join(1).unwrap();
    let a = reg.join(8).unwrap();
    let b = reg.join(8).unwrap();
    assert_eq!(reg.subscriber_count(), 3);
    // The narrow queue is already full with the header: this delivery
    // fails for it and evicts it, and only it, after the full pass.
    reg.broadcast(&page(60));
    assert_eq!(reg.subscriber_count(), 2);
    // Both healthy subscribers got the page.
    for id in [a, b] {
        let first = reg.take(id).expect("the cached header is owed");
        assert!(same_page(&first, &page(1)));
        let got = reg.take(id).expect("the broadcast page is owed");
        assert!(same_page(&got, &page(60)));
        assert!(reg.take(id).is_none());
    }
    // The evicted handle answers nothing and is reported done.
    assert!(reg.take(narrow).is_none());
    assert!(reg.is_done(narrow));
    assert!(!reg.is_done(a));
}

#[test]
fn leave_is_idempotent() {
    let mut reg = BroadcastRegistry::new();
    let a = reg.join(4).unwrap();
    let b = reg.join(4).unwrap();
    assert_eq!(reg.subscriber_count(), 2);
    reg.leave(a);
    assert_eq!(reg.subscriber_count(), 1);
    reg.leave(a);
    assert_eq!(reg.subscriber_count(), 1);
    assert!(!reg.is_done(b));
}

#[test]
fn close_all_lets_listeners_drain_then_stop() {
    let mut reg = BroadcastRegistry::new();
    reg.cache_header(&page(1));
    let id = reg.join(8).unwrap();
    reg.broadcast(&page(70));
    reg.close_all();
    // Closed subscribers accept nothing more.
    reg.broadcast(&page(71));
    assert_eq!(reg.subscriber_count(), 0);
    assert!(reg.is_done(id));
}

#[test]
fn drained_pages_arrive_before_shutdown_notice() {
    let mut reg = BroadcastRegistry::new();
    let id = reg.join(8).unwrap();
    reg.broadcast(&page(80));
    // Not yet done: a page is still queued.
    assert!(!reg.is_done(id));
    let got = reg.take(id).unwrap();
    assert!(same_page(&got, &page(80)));
    reg.close_all();
    assert!(reg.take(id).is_none());
    assert!(reg.is_done(id));
}
