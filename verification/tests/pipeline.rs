use deep_link::deep_link::DeepLink;

fn urls(items: &[&str]) -> Vec<String> {
    items.iter().map(|s| s.to_string()).collect()
}

#[test]
fn no_events_returns_none() {
    let d = DeepLink::new();
    assert_eq!(d.get_last_link(), None);
}

#[test]
fn startup_snapshot_then_live_event() {
    let mut d = DeepLink::new();
    d.ingest_startup(Some(urls(&["myapp://open?id=1"])));
    assert_eq!(d.get_last_link(), Some(urls(&["myapp://open?id=1"])));

    d.ingest(urls(&["myapp://open?id=2", "myapp://open?id=3"]));
    assert_eq!(
        d.get_last_link(),
        Some(urls(&["myapp://open?id=2", "myapp://open?id=3"]))
    );
}

#[test]
fn absent_startup_snapshot_is_no_event() {
    let mut d = DeepLink::new();
    let ds = d.ingest_startup(None);
    assert!(ds.is_empty());
    assert_eq!(d.get_last_link(), None);
}

#[test]
fn last_write_wins() {
    let mut d = DeepLink::new();
    d.ingest(urls(&["myapp://a"]));
    d.ingest(urls(&["myapp://b", "myapp://c"]));
    d.ingest(urls(&["myapp://d"]));
    assert_eq!(d.get_last_link(), Some(urls(&["myapp://d"])));
}

#[test]
fn empty_batch_still_replaces() {
    let mut d = DeepLink::new();
    d.ingest(urls(&["myapp://a"]));
    d.ingest(urls(&[]));
    assert_eq!(d.get_last_link(), Some(urls(&[])));
}

#[test]
fn subscriber_receives_event_exactly_once() {
    let mut d = DeepLink::new();
    let h = d.subscribe();
    let ds = d.ingest(urls(&["myapp://a"]));
    let to_h: Vec<_> = ds.iter().filter(|dv| dv.handle == h).collect();
    assert_eq!(to_h.len(), 1);
    assert_eq!(to_h[0].urls, urls(&["myapp://a"]));
}

#[test]
fn late_subscriber_misses_earlier_event() {
    let mut d = DeepLink::new();
    let first = d.subscribe();
    let ds = d.ingest(urls(&["myapp://a"]));
    let late = d.subscribe();
    assert!(ds.iter().all(|dv| dv.handle != late));

    let ds2 = d.ingest(urls(&["myapp://b"]));
    assert_eq!(ds2.len(), 2);
    assert!(ds2.iter().any(|dv| dv.handle == first));
    assert!(ds2.iter().any(|dv| dv.handle == late));
}

#[test]
fn unsubscribe_stops_deliveries() {
    let mut d = DeepLink::new();
    let kept = d.subscribe();
    let dropped = d.subscribe();
    d.unsubscribe(dropped);
    let ds = d.ingest(urls(&["myapp://a"]));
    assert_eq!(ds.len(), 1);
    assert_eq!(ds[0].handle, kept);
    assert!(ds.iter().all(|dv| dv.handle != dropped));
}

#[test]
fn resolve_prefers_cached_event() {
    let mut d = DeepLink::new();
    d.ingest(urls(&["myapp://cached"]));
    assert!(!d.needs_foreign_query());
    let r = d.resolve_last_link(Some(urls(&["myapp://foreign"])));
    assert_eq!(r, Some(urls(&["myapp://cached"])));
}

#[test]
fn resolve_falls_back_to_foreign_answer() {
    let d = DeepLink::new();
    assert!(d.needs_foreign_query());
    let r = d.resolve_last_link(Some(urls(&["myapp://foreign"])));
    assert_eq!(r, Some(urls(&["myapp://foreign"])));
}

#[test]
fn resolve_reports_none_on_foreign_failure() {
    let d = DeepLink::new();
    assert_eq!(d.resolve_last_link(None), None);
}
