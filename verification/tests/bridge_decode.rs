use deep_link::bridge::decode_bridge_payload;
use deep_link::bridge::decode_last_link_response;
use deep_link::bridge::last_link_event;
use deep_link::bridge::legacy_payload;
use deep_link::deep_link::DeepLink;

#[test]
fn well_formed_payload_yields_singleton_event() {
    let mut d = DeepLink::new();
    let h = d.subscribe();
    let ds = d.handle_bridge_payload("{\"url\":\"myapp://open?id=9\"}");
    assert_eq!(d.get_last_link(), Some(vec!["myapp://open?id=9".to_string()]));
    assert_eq!(ds.len(), 1);
    assert_eq!(ds[0].handle, h);
    assert_eq!(ds[0].urls, vec!["myapp://open?id=9".to_string()]);
}

#[test]
fn malformed_payloads_never_update_cache_or_publish() {
    let mut d = DeepLink::new();
    d.subscribe();
    let malformed = [
        "not json at all",
        "{}",
        "{\"other\":1}",
        "{\"url\":5}",
        "{\"url\":null}",
        "[\"myapp://open?id=1\"]",
        "{\"url\":\"no scheme here\"}",
    ];
    for payload in malformed {
        let ds = d.handle_bridge_payload(payload);
        assert!(ds.is_empty());
        assert_eq!(d.get_last_link(), None);
    }
}

#[test]
fn malformed_payload_keeps_earlier_event() {
    let mut d = DeepLink::new();
    d.handle_bridge_payload("{\"url\":\"myapp://first\"}");
    let ds = d.handle_bridge_payload("{\"url\":17}");
    assert!(ds.is_empty());
    assert_eq!(d.get_last_link(), Some(vec!["myapp://first".to_string()]));
}

#[test]
fn decode_accepts_only_url_strings() {
    assert_eq!(
        decode_bridge_payload("{\"url\":\"myapp://open?id=1\"}"),
        Some("myapp://open?id=1".to_string())
    );
    assert_eq!(decode_bridge_payload("{\"url\":\"not a url\"}"), None);
    assert_eq!(decode_bridge_payload("{\"url\":true}"), None);
    assert_eq!(decode_bridge_payload("{\"address\":\"myapp://x\"}"), None);
    assert_eq!(decode_bridge_payload("][", ), None);
}

#[test]
fn last_link_response_decodes_like_a_payload() {
    assert_eq!(
        decode_last_link_response("{\"url\":\"myapp://resume\"}"),
        Some("myapp://resume".to_string())
    );
    assert_eq!(decode_last_link_response("{\"url\":null}"), None);
}

#[test]
fn legacy_payload_is_json_list() {
    let event = vec!["myapp://open?id=1".to_string()];
    assert_eq!(legacy_payload(&event), "[\"myapp://open?id=1\"]");
    let two = vec!["myapp://a".to_string(), "myapp://b".to_string()];
    assert_eq!(legacy_payload(&two), "[\"myapp://a\",\"myapp://b\"]");
    assert_eq!(legacy_payload(&Vec::new()), "[]");
}

#[test]
fn foreign_answer_becomes_singleton_event() {
    assert_eq!(
        last_link_event(Some("myapp://resume".to_string())),
        Some(vec!["myapp://resume".to_string()])
    );
    assert_eq!(last_link_event(None), None);
}

#[test]
fn foreign_answer_resolves_through_empty_cache() {
    let d = DeepLink::new();
    let fetched = last_link_event(decode_last_link_response("{\"url\":\"myapp://resume\"}"));
    assert_eq!(
        d.resolve_last_link(fetched),
        Some(vec!["myapp://resume".to_string()])
    );
}
