use hntui::disk_cache::{
    age_secs, check_retention, is_expired, is_item_file_name, item_file_name, janitor_action,
    temp_file_name, DiskCachePolicy, Freshness, JanitorAction, PolicyError,
};
use hntui::fetch::{plan_item_source, ItemSource};
use hntui::item_cache::ItemCache;
use hntui::types::HnItem;

fn item(id: u64) -> HnItem {
    HnItem {
        id,
        kind: Some("comment".to_string()),
        by: None,
        time: None,
        title: None,
        url: None,
        text: Some(format!("item {id}")),
        score: None,
        descendants: None,
        kids: None,
        dead: None,
        deleted: None,
    }
}

#[test]
fn lru_evicts_least_recently_put() {
    let mut c = ItemCache::new(2);
    c.put(1, item(1));
    c.put(2, item(2));
    c.put(3, item(3));
    assert!(c.get(1).is_none());
    assert_eq!(c.get(2).unwrap().id, 2);
    assert_eq!(c.get(3).unwrap().id, 3);
}

#[test]
fn lru_get_counts_as_use() {
    let mut c = ItemCache::new(2);
    c.put(1, item(1));
    c.put(2, item(2));
    assert!(c.get(1).is_some());
    c.put(3, item(3));
    assert!(c.get(2).is_none());
    assert!(c.get(1).is_some());
    assert!(c.get(3).is_some());
}

#[test]
fn lru_put_existing_key_updates_value() {
    let mut c = ItemCache::new(2);
    c.put(1, item(1));
    let mut replacement = item(1);
    replacement.text = Some("new".to_string());
    c.put(1, replacement);
    assert_eq!(c.get(1).unwrap().text.as_deref(), Some("new"));
}

#[test]
fn freshness_windows() {
    let p = DiskCachePolicy::new(60, 3600).unwrap();
    assert_eq!(p.classify(1000, 1060), Freshness::Fresh);
    assert_eq!(p.classify(1000, 1061), Freshness::Stale { stale_secs: 61 });
    assert_eq!(p.classify(1000, 4600), Freshness::Stale { stale_secs: 3600 });
    assert_eq!(p.classify(1000, 4601), Freshness::Expired { stale_secs: 3601 });
    assert_eq!(p.classify(2000, 1000), Freshness::Fresh);
}

#[test]
fn policy_validation() {
    assert_eq!(DiskCachePolicy::new(0, 10), Err(PolicyError::ZeroTtl));
    assert_eq!(DiskCachePolicy::new(10, 5), Err(PolicyError::StaleWindowShorterThanTtl));
    assert!(DiskCachePolicy::new(10, 10).is_ok());
    assert_eq!(check_retention(0), Err(PolicyError::ZeroRetention));
    assert_eq!(check_retention(1), Ok(()));
}

#[test]
fn item_source_resolution_order() {
    let p = DiskCachePolicy::new(60, 3600).unwrap();
    assert_eq!(plan_item_source(true, Some(0), 100_000, &p), ItemSource::Memory);
    assert_eq!(plan_item_source(false, None, 100, &p), ItemSource::Network);
    assert_eq!(plan_item_source(false, Some(100), 150, &p), ItemSource::Disk);
    assert_eq!(
        plan_item_source(false, Some(100), 300, &p),
        ItemSource::DiskRevalidate { stale_secs: 200 }
    );
    assert_eq!(plan_item_source(false, Some(100), 10_000, &p), ItemSource::Network);
}

#[test]
fn age_is_clamped() {
    assert_eq!(age_secs(10, 5), 0);
    assert_eq!(age_secs(10, 70), 60);
    assert_eq!(age_secs(i64::MIN, i64::MAX), i64::MAX as u64);
}

#[test]
fn cache_file_names() {
    assert_eq!(item_file_name(42), "42.json");
    assert_eq!(item_file_name(0), "0.json");
    assert_eq!(temp_file_name("42.json", 7, 123456789), "42.json.tmp.7.123456789");
    assert!(is_item_file_name("42.json"));
    assert!(!is_item_file_name("42.json.tmp.7.1"));
    assert!(!is_item_file_name("json"));
    assert_eq!(janitor_action("notes.txt"), JanitorAction::RemoveStray);
    assert_eq!(janitor_action("7.json"), JanitorAction::Inspect);
}

#[test]
fn janitor_retention() {
    assert!(!is_expired(0, 100, 100));
    assert!(is_expired(0, 101, 100));
}
