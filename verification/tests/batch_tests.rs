use instagram_feed::batch::{finish_batch, plan_batch, FetchOutcome};
use instagram_feed::cache::{TtlCache, TTL_SECONDS};
use instagram_feed::document::{DocField, DocValue};
use instagram_feed::snapshot::default_snapshot;

fn obj(fields: Vec<(&str, DocValue)>) -> DocValue {
    DocValue::Object(
        fields
            .into_iter()
            .map(|(name, value)| DocField { name: name.to_string(), value })
            .collect(),
    )
}

fn named_payload(full_name: &str) -> FetchOutcome {
    FetchOutcome::Payload(obj(vec![(
        "data",
        obj(vec![("user", obj(vec![("full_name", DocValue::Text(full_name.to_string()))]))]),
    )]))
}

fn ids(names: &[&str]) -> Vec<String> {
    names.iter().map(|n| n.to_string()).collect()
}

#[test]
fn cached_hit_and_miss_are_merged_in_order() {
    let mut cache = TtlCache::new();
    let mut alice = default_snapshot("alice".to_string());
    alice.full_name = "Cached Alice".to_string();
    cache.insert("alice".to_string(), alice.clone(), 100);

    let batch = ids(&["alice", "bob"]);
    let plan = plan_batch(&mut cache, &batch, 150);
    assert_eq!(plan.misses, ids(&["bob"]));
    assert_eq!(plan.pending_count(), 1);
    assert_eq!(plan.resolved[0], Some(alice.clone()));
    assert_eq!(plan.resolved[1], None);

    let outcomes = vec![named_payload("Fetched Bob")];
    let results = finish_batch(&mut cache, &plan, &outcomes, 150);
    assert_eq!(results.len(), 2);
    assert_eq!(results[0], alice);
    assert_eq!(results[1].username, "bob");
    assert_eq!(results[1].full_name, "Fetched Bob");

    let bob_now = cache.lookup(&"bob".to_string(), 150).expect("bob cached after the batch");
    assert_eq!(bob_now.full_name, "Fetched Bob");
}

#[test]
fn output_matches_input_length_and_order() {
    let mut cache = TtlCache::new();
    let batch = ids(&["a", "b", "a", "c"]);
    let plan = plan_batch(&mut cache, &batch, 10);
    assert_eq!(plan.misses, ids(&["a", "b", "a", "c"]));
    let outcomes = vec![
        named_payload("first a"),
        named_payload("only b"),
        named_payload("second a"),
        named_payload("only c"),
    ];
    let results = finish_batch(&mut cache, &plan, &outcomes, 10);
    assert_eq!(results.len(), batch.len());
    for (i, name) in batch.iter().enumerate() {
        assert_eq!(&results[i].username, name);
    }
    assert_eq!(results[0].full_name, "first a");
    assert_eq!(results[2].full_name, "second a");
    // A duplicate identifier is fetched once per slot; the last write wins.
    let cached = cache.lookup(&"a".to_string(), 10).expect("a cached after the batch");
    assert_eq!(cached.full_name, "second a");
}

#[test]
fn second_resolve_within_ttl_needs_no_fetch() {
    let mut cache = TtlCache::new();
    let batch = ids(&["x"]);

    let plan1 = plan_batch(&mut cache, &batch, 100);
    assert_eq!(plan1.pending_count(), 1);
    let first = finish_batch(&mut cache, &plan1, &vec![named_payload("X One")], 100);

    let plan2 = plan_batch(&mut cache, &batch, 200);
    assert_eq!(plan2.pending_count(), 0);
    assert_eq!(plan2.misses.len(), 0);
    let second = finish_batch(&mut cache, &plan2, &Vec::new(), 200);
    assert_eq!(second, first);
}

#[test]
fn expired_entry_triggers_exactly_one_fetch() {
    let mut cache = TtlCache::new();
    let batch = ids(&["x"]);

    let plan1 = plan_batch(&mut cache, &batch, 100);
    finish_batch(&mut cache, &plan1, &vec![named_payload("X One")], 100);

    let plan2 = plan_batch(&mut cache, &batch, 100 + TTL_SECONDS);
    assert_eq!(plan2.misses, ids(&["x"]));
    assert_eq!(plan2.pending_count(), 1);
    assert_eq!(plan2.resolved[0], None);
}

#[test]
fn transport_failure_yields_defaults_and_is_not_cached() {
    let mut cache = TtlCache::new();
    let batch = ids(&["ghost"]);

    let plan = plan_batch(&mut cache, &batch, 50);
    let results = finish_batch(&mut cache, &plan, &vec![FetchOutcome::Transport], 50);
    assert_eq!(results[0], default_snapshot("ghost".to_string()));
    assert_eq!(cache.lookup(&"ghost".to_string(), 50), None);

    let plan2 = plan_batch(&mut cache, &batch, 60);
    assert_eq!(plan2.misses, ids(&["ghost"]));
}

#[test]
fn upstream_failure_payload_is_cached_as_defaults() {
    let mut cache = TtlCache::new();
    let batch = ids(&["empty"]);

    let plan = plan_batch(&mut cache, &batch, 50);
    let results = finish_batch(
        &mut cache,
        &plan,
        &vec![FetchOutcome::Payload(DocValue::Null)],
        50,
    );
    assert_eq!(results[0], default_snapshot("empty".to_string()));
    assert_eq!(
        cache.lookup(&"empty".to_string(), 50),
        Some(default_snapshot("empty".to_string())),
    );
}
