use deep_link::broadcast::Broadcaster;
use deep_link::cache::LinkCache;

fn urls(items: &[&str]) -> Vec<String> {
    items.iter().map(|s| s.to_string()).collect()
}

#[test]
fn cache_starts_empty_and_replaces_wholesale() {
    let mut c = LinkCache::new();
    assert_eq!(c.get(), None);
    c.replace(urls(&["myapp://a", "myapp://b"]));
    assert_eq!(c.get(), Some(urls(&["myapp://a", "myapp://b"])));
    c.replace(urls(&["myapp://c"]));
    assert_eq!(c.get(), Some(urls(&["myapp://c"])));
}

#[test]
fn publish_delivers_in_registration_order() {
    let mut b = Broadcaster::new();
    let h1 = b.subscribe();
    let h2 = b.subscribe();
    let h3 = b.subscribe();
    assert_ne!(h1, h2);
    assert_ne!(h2, h3);
    let event = urls(&["myapp://a"]);
    let ds = b.publish(&event);
    let handles: Vec<u64> = ds.iter().map(|d| d.handle).collect();
    assert_eq!(handles, vec![h1, h2, h3]);
    for d in &ds {
        assert_eq!(d.urls, event);
    }
}

#[test]
fn publish_with_no_subscribers_delivers_nothing() {
    let b = Broadcaster::new();
    let ds = b.publish(&urls(&["myapp://a"]));
    assert!(ds.is_empty());
}

#[test]
fn unsubscribe_is_exact() {
    let mut b = Broadcaster::new();
    let h1 = b.subscribe();
    let h2 = b.subscribe();
    assert!(b.is_subscribed(h1));
    assert!(b.is_subscribed(h2));
    b.unsubscribe(h1);
    assert!(!b.is_subscribed(h1));
    assert!(b.is_subscribed(h2));
    b.unsubscribe(h1);
    assert!(b.is_subscribed(h2));
}
