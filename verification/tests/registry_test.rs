//! Which worker serves a language pair.

use apple_translate_rs_sync::registry::{
    disable_worker_pair, discard_worker_pool, pair_key, worker_pool_for, DisabledPairs, PoolCache,
    PoolLookup, PooledWorker,
};

fn look_up(
    disabled: &DisabledPairs,
    cache: &PoolCache<&'static str>,
    source: &str,
    target: &str,
) -> String {
    match worker_pool_for(disabled, cache, source, target) {
        PoolLookup::Disabled => "disabled".to_owned(),
        PoolLookup::Cached(worker) => worker.pool.to_owned(),
        PoolLookup::Missing => "missing".to_owned(),
    }
}

#[test]
fn a_pair_has_one_key() {
    assert_eq!(pair_key("zh-Hans", "en"), "zh-Hans->en");
    assert_ne!(pair_key("en", "es"), pair_key("es", "en"));
    assert_eq!(pair_key("a->b", "c"), pair_key("a", "b->c"));
    assert_ne!(pair_key("a-", ">b"), pair_key("a", "->b"));
}

#[test]
fn a_pool_is_shared_until_it_is_discarded() {
    let disabled = DisabledPairs::new();
    let mut cache = PoolCache::new();
    assert_eq!(look_up(&disabled, &cache, "en", "es"), "missing");
    cache.file("en", "es", PooledWorker { id: 1, pool: "first" });
    assert_eq!(look_up(&disabled, &cache, "en", "es"), "first");
    assert_eq!(look_up(&disabled, &cache, "en", "es"), "first");
    assert_eq!(look_up(&disabled, &cache, "es", "en"), "missing");
    discard_worker_pool(&mut cache, "en", "es", 1);
    assert_eq!(look_up(&disabled, &cache, "en", "es"), "missing");
}

#[test]
fn a_pool_that_has_taken_its_place_stays() {
    let disabled = DisabledPairs::new();
    let mut cache = PoolCache::new();
    cache.file("en", "es", PooledWorker { id: 2, pool: "second" });
    discard_worker_pool(&mut cache, "en", "es", 1);
    assert_eq!(look_up(&disabled, &cache, "en", "es"), "second");
}

#[test]
fn a_failed_worker_disables_its_pair_and_no_other() {
    let mut disabled = DisabledPairs::new();
    let mut cache = PoolCache::new();
    cache.file("en", "es", PooledWorker { id: 1, pool: "spanish" });
    cache.file("en", "fr", PooledWorker { id: 2, pool: "french" });
    discard_worker_pool(&mut cache, "en", "es", 1);
    disable_worker_pair(&mut disabled, "en", "es");
    assert_eq!(look_up(&disabled, &cache, "en", "es"), "disabled");
    assert_eq!(look_up(&disabled, &cache, "en", "fr"), "french");
    cache.file("en", "es", PooledWorker { id: 3, pool: "again" });
    assert_eq!(look_up(&disabled, &cache, "en", "es"), "disabled");
}
