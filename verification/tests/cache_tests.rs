use reliability_cache::builder::{ConfigError, Locality, ReliabilityCacheBuilder};
use reliability_cache::cache::{CacheEvent, CloseAction, QueryMsg, ReliabilityCache};
use reliability_cache::keyexpr::KeyExpr;
use reliability_cache::store::{Sample, SampleKind};

fn ke(s: &str) -> KeyExpr {
    KeyExpr::new(&s.as_bytes().to_vec()).unwrap()
}

fn sample(key: &str, payload: &str, ts: u64) -> Sample {
    Sample {
        key: ke(key),
        payload: payload.as_bytes().to_vec(),
        kind: SampleKind::Put,
        timestamp: Some(ts),
    }
}

fn publish(cache: &mut ReliabilityCache, key: &str, payload: &str, ts: u64) -> bool {
    let out = cache.handle_event(CacheEvent::Publication(sample(key, payload, ts)));
    assert!(out.replies.is_empty());
    out.rejected.is_none()
}

fn query(cache: &mut ReliabilityCache, selector: &str) -> Vec<Sample> {
    let out = cache.handle_event(CacheEvent::Query(QueryMsg {
        selector: ke(selector),
        parameters: Vec::new(),
    }));
    assert!(out.rejected.is_none());
    out.replies
}

fn payloads(replies: &[Sample]) -> Vec<Vec<u8>> {
    replies.iter().map(|s| s.payload.clone()).collect()
}

fn build_cache(builder: ReliabilityCacheBuilder) -> ReliabilityCache {
    ReliabilityCache::start(builder.build().unwrap())
}

#[test]
fn builder_defaults() {
    let b = ReliabilityCacheBuilder::new(b"a/b".to_vec());
    assert_eq!(b.history, 1024);
    assert!(b.resources_limit.is_none());
    assert!(b.queryable_prefix.is_none());
    assert_eq!(b.subscriber_origin, Locality::Any);
    assert_eq!(b.queryable_origin, Locality::Any);
}

#[test]
fn builder_rejects_invalid_pub_key_expr() {
    match ReliabilityCacheBuilder::new(b"a//b".to_vec()).build() {
        Err(e) => assert_eq!(e, ConfigError::InvalidPubKeyExpr),
        Ok(_) => panic!("a malformed publication key expression must be refused"),
    }
}

#[test]
fn builder_rejects_invalid_queryable_prefix() {
    let r = ReliabilityCacheBuilder::new(b"a/**".to_vec())
        .queryable_prefix(b"cache/".to_vec())
        .build();
    match r {
        Err(e) => assert_eq!(e, ConfigError::InvalidQueryablePrefix),
        Ok(_) => panic!("a malformed queryable prefix must be refused"),
    }
}

#[test]
fn builder_accepts_wildcard_pub_key_expr() {
    let c = ReliabilityCacheBuilder::new(b"a/**".to_vec())
        .subscriber_allowed_origin(Locality::SessionLocal)
        .queryable_allowed_origin(Locality::Remote)
        .history(7)
        .resources_limit(9)
        .build()
        .unwrap();
    assert_eq!(c.history, 7);
    assert_eq!(c.resources_limit, Some(9));
    assert_eq!(c.subscriber_origin, Locality::SessionLocal);
    assert_eq!(c.queryable_origin, Locality::Remote);
    assert!(c.queryable_key_expr.key_eq(&ke("a/**")));
}

#[test]
fn builder_derives_prefixed_queryable_key_expr() {
    let c = ReliabilityCacheBuilder::new(b"a/**".to_vec())
        .queryable_prefix(b"cache".to_vec())
        .build()
        .unwrap();
    assert!(c.queryable_key_expr.key_eq(&ke("cache/a/**")));
}

#[test]
fn bounded_history_replays_last_three() {
    let mut cache = build_cache(ReliabilityCacheBuilder::new(b"a/b".to_vec()).history(3));
    for (i, p) in ["1", "2", "3", "4", "5"].iter().enumerate() {
        assert!(publish(&mut cache, "a/b", p, i as u64));
    }
    let replies = query(&mut cache, "a/b");
    assert_eq!(
        payloads(&replies),
        vec![b"3".to_vec(), b"4".to_vec(), b"5".to_vec()]
    );
}

#[test]
fn exact_vs_wildcard_queries() {
    let mut cache = build_cache(ReliabilityCacheBuilder::new(b"a/**".to_vec()).history(10));
    assert!(publish(&mut cache, "a/x", "1", 0));
    assert!(publish(&mut cache, "a/y", "2", 1));
    assert!(publish(&mut cache, "a/x", "3", 2));

    let exact = query(&mut cache, "a/x");
    assert_eq!(payloads(&exact), vec![b"1".to_vec(), b"3".to_vec()]);

    let wild = query(&mut cache, "a/*");
    assert_eq!(wild.len(), 3);
    let from_x = payloads(
        &wild
            .iter()
            .filter(|s| s.key.key_eq(&ke("a/x")))
            .cloned()
            .collect::<Vec<_>>(),
    );
    let from_y = payloads(
        &wild
            .iter()
            .filter(|s| s.key.key_eq(&ke("a/y")))
            .cloned()
            .collect::<Vec<_>>(),
    );
    assert_eq!(from_x, vec![b"1".to_vec(), b"3".to_vec()]);
    assert_eq!(from_y, vec![b"2".to_vec()]);
}

#[test]
fn resource_limit_refuses_new_keys_only() {
    let mut cache = build_cache(
        ReliabilityCacheBuilder::new(b"a/**".to_vec())
            .history(1)
            .resources_limit(2),
    );
    assert!(publish(&mut cache, "a/1", "A", 0));
    assert!(publish(&mut cache, "a/2", "B", 1));
    let out = cache.handle_event(CacheEvent::Publication(sample("a/3", "C", 2)));
    let rejected = out.rejected.expect("the third key passes the cap and is refused");
    assert!(rejected.key_eq(&ke("a/3")));
    assert_eq!(rejected.len(), 2);
    assert_eq!(cache.store.key_count(), 2);

    assert_eq!(payloads(&query(&mut cache, "a/1")), vec![b"A".to_vec()]);
    assert_eq!(payloads(&query(&mut cache, "a/2")), vec![b"B".to_vec()]);
    assert!(query(&mut cache, "a/3").is_empty());

    assert!(publish(&mut cache, "a/1", "A2", 3));
    assert_eq!(payloads(&query(&mut cache, "a/1")), vec![b"A2".to_vec()]);
}

#[test]
fn queryable_prefix_rewrites_stored_keys() {
    let mut cache = build_cache(
        ReliabilityCacheBuilder::new(b"a/**".to_vec()).queryable_prefix(b"cache".to_vec()),
    );
    assert!(publish(&mut cache, "a/b", "1", 0));
    assert_eq!(payloads(&query(&mut cache, "cache/a/b")), vec![b"1".to_vec()]);
    assert!(query(&mut cache, "a/b").is_empty());
    assert_eq!(payloads(&query(&mut cache, "cache/a/*")), vec![b"1".to_vec()]);
}

#[test]
fn close_releases_each_endpoint_exactly_once() {
    let mut cache = build_cache(ReliabilityCacheBuilder::new(b"a/**".to_vec()));
    for i in 0..5u64 {
        assert!(publish(&mut cache, "a/b", "x", i));
    }
    let actions = cache.close();
    assert_eq!(
        actions,
        vec![
            CloseAction::SignalStop,
            CloseAction::UndeclareQueryable,
            CloseAction::UndeclareSubscriber,
        ]
    );
    let again = cache.close();
    assert!(again.is_empty());

    let out = cache.handle_event(CacheEvent::Query(QueryMsg {
        selector: ke("a/b"),
        parameters: Vec::new(),
    }));
    assert!(out.replies.is_empty());
    assert!(out.stopped);
}

#[test]
fn shutdown_event_stops_the_task() {
    let mut cache = build_cache(ReliabilityCacheBuilder::new(b"a/**".to_vec()));
    assert!(publish(&mut cache, "a/b", "1", 0));
    let out = cache.handle_event(CacheEvent::Shutdown);
    assert!(out.stopped);
    assert!(out.replies.is_empty());
    let after = cache.handle_event(CacheEvent::Publication(sample("a/b", "2", 1)));
    assert!(after.stopped);
    assert!(query(&mut cache, "a/b").is_empty());
}

#[test]
fn interleaved_publications_and_queries_all_complete() {
    let mut cache = build_cache(
        ReliabilityCacheBuilder::new(b"k/**".to_vec())
            .history(4)
            .resources_limit(10),
    );
    let keys = ["k/0", "k/1", "k/2", "k/3", "k/4", "k/5", "k/6", "k/7", "k/8", "k/9"];
    let mut answered = 0usize;
    for i in 0..1000usize {
        let key = keys[i % 10];
        assert!(publish(&mut cache, key, "p", i as u64));
        let replies = query(&mut cache, key);
        assert!(!replies.is_empty());
        assert!(replies.len() <= 4);
        answered += 1;
    }
    assert_eq!(answered, 1000);
    let replies = query(&mut cache, "k/0");
    assert_eq!(replies.len(), 4);
}

#[test]
fn store_lookup_exact_is_fifo_ordered() {
    let mut cache = build_cache(ReliabilityCacheBuilder::new(b"a/**".to_vec()).history(2));
    assert!(publish(&mut cache, "a/b", "1", 0));
    assert!(publish(&mut cache, "a/b", "2", 1));
    assert!(publish(&mut cache, "a/b", "3", 2));
    let kept = cache.store.lookup_exact(&ke("a/b"));
    assert_eq!(payloads(&kept), vec![b"2".to_vec(), b"3".to_vec()]);
    assert!(cache.store.lookup_exact(&ke("a/c")).is_empty());
    assert_eq!(cache.store.key_count(), 1);
}

#[test]
fn replies_carry_kind_and_timestamp() {
    let mut cache = build_cache(ReliabilityCacheBuilder::new(b"a/**".to_vec()));
    let mut s = sample("a/b", "gone", 42);
    s.kind = SampleKind::Delete;
    let out = cache.handle_event(CacheEvent::Publication(s));
    assert!(out.rejected.is_none());
    let replies = query(&mut cache, "a/b");
    assert_eq!(replies.len(), 1);
    assert_eq!(replies[0].kind, SampleKind::Delete);
    assert_eq!(replies[0].timestamp, Some(42));
    assert_eq!(replies[0].payload, b"gone".to_vec());
}
