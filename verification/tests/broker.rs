use onboard::broker::{
    derive_handle, AssocCache, BrokerMode, BrokerRequest, BrokerState, WorkerReply,
};

fn tags_handle(reply: WorkerReply) -> Option<String> {
    match reply {
        WorkerReply::Tags { handle } => handle,
        WorkerReply::User { .. } => panic!("expected a tags reply"),
    }
}

fn user_raw(reply: WorkerReply) -> Option<String> {
    match reply {
        WorkerReply::User { raw } => raw,
        WorkerReply::Tags { .. } => panic!("expected a user reply"),
    }
}

#[test]
fn handle_matches_external_digest() {
    let h = derive_handle("C1", "g1");
    assert_eq!(h, sha256::digest("C1:g1"));
}

#[test]
fn handles_unlinkable_across_games() {
    let h1 = derive_handle("C1", "g1");
    let h2 = derive_handle("C1", "g2");
    assert_ne!(h1, h2);
}

#[test]
fn cache_resolves_both_directions() {
    let mut cache = AssocCache::new(8);
    cache.insert("h1".to_string(), "raw1".to_string());
    cache.insert("h2".to_string(), "raw2".to_string());
    assert_eq!(cache.handle_for_raw("raw1"), Some("h1".to_string()));
    assert_eq!(cache.handle_for_raw("raw2"), Some("h2".to_string()));
    assert_eq!(cache.handle_for_raw("raw3"), None);
    assert_eq!(cache.raw_for_handle("h1"), Some("raw1".to_string()));
    assert_eq!(cache.raw_for_handle("h2"), Some("raw2".to_string()));
    assert_eq!(cache.raw_for_handle("h3"), None);
}

#[test]
fn ninth_insert_evicts_only_the_oldest() {
    let mut cache = AssocCache::new(8);
    for i in 1usize..=9 {
        cache.insert(format!("h{i}"), format!("raw{i}"));
    }
    assert_eq!(cache.handle_for_raw("raw1"), None);
    for i in 2usize..=9 {
        assert_eq!(cache.handle_for_raw(format!("raw{i}").as_str()), Some(format!("h{i}")));
    }
}

#[test]
fn open_failure_answers_both_request_kinds() {
    let mut broker = BrokerState::new(8);
    assert!(matches!(broker.mode, BrokerMode::Idle));
    broker.on_open(false);
    assert!(matches!(broker.mode, BrokerMode::Idle));
    let tags = BrokerState::refusal_reply(&BrokerRequest::Tags);
    assert_eq!(tags_handle(tags), None);
    let user = BrokerState::refusal_reply(&BrokerRequest::User { handle: "h".to_string() });
    assert_eq!(user_raw(user), None);
}

#[test]
fn poll_without_card_is_no_result() {
    let mut broker = BrokerState::new(8);
    broker.on_open(true);
    let reply = broker.service_tags(None, "g1");
    assert_eq!(tags_handle(reply), None);
}

#[test]
fn repeated_polls_keep_a_stable_handle() {
    let mut broker = BrokerState::new(8);
    broker.on_open(true);
    let h1 = tags_handle(broker.service_tags(Some("C1".to_string()), "g1")).unwrap();
    let h2 = tags_handle(broker.service_tags(Some("C1".to_string()), "g1")).unwrap();
    assert_eq!(h1, h2);
    assert_eq!(h1, derive_handle("C1", "g1"));
}

#[test]
fn fresh_sessions_scope_handles_per_game() {
    let mut under_g1 = BrokerState::new(8);
    under_g1.on_open(true);
    let h1 = tags_handle(under_g1.service_tags(Some("C1".to_string()), "g1")).unwrap();
    let mut under_g2 = BrokerState::new(8);
    under_g2.on_open(true);
    let h2 = tags_handle(under_g2.service_tags(Some("C1".to_string()), "g2")).unwrap();
    assert_ne!(h1, h2);
}

#[test]
fn idle_teardown_keeps_the_cache() {
    let mut broker = BrokerState::new(8);
    broker.on_open(true);
    let h1 = tags_handle(broker.service_tags(Some("C1".to_string()), "g1")).unwrap();
    // The idle window elapses: the hardware connection is dropped.
    broker.on_idle_window(false);
    assert!(matches!(broker.mode, BrokerMode::Idle));
    // A later lookup reopens the hardware; the cache still holds the handle.
    broker.on_open(true);
    assert!(matches!(broker.mode, BrokerMode::Listening));
    let raw = user_raw(broker.service_user(h1.as_str()));
    assert_eq!(raw, Some("C1".to_string()));
}

#[test]
fn unknown_handle_lookup_is_no_result() {
    let mut broker = BrokerState::new(8);
    broker.on_open(true);
    let raw = user_raw(broker.service_user("nonexistent"));
    assert_eq!(raw, None);
}
