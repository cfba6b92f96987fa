use seer::json::JsonValue;
use seer::probe_cache::{
    clear_cache, count_valid_entries, get_cache_stats, refresh_probe, get_probe_string, invalidate_cache, is_cache_valid,
    CachedProbeResult, ProbeCache, CACHE_MAX_AGE_MS,
};
use seer::probe::ToolRun;
use std::time::Instant;

const DOCUMENT: &str = r#"{"format":{"duration":"12.5"},"streams":[]}"#;

#[test]
fn test_cache_stats_empty() {
    let cache = ProbeCache::new();
    let (total, _valid) = get_cache_stats(&cache, &vec![]);
    assert!(total >= 0);
    assert_eq!(total, 0);
    assert_eq!(_valid, 0);
}

#[test]
fn test_cache_serves_what_was_stored() {
    let mut cache = ProbeCache::new();
    assert!(cache.lookup("/m/a.mkv", Some(10)).is_none());
    let stored = cache.store("/m/a.mkv", DOCUMENT.to_string(), Some(10)).unwrap();
    assert!(!stored.was_cached);
    assert_eq!(stored.json_data, DOCUMENT);
    let hit = cache.lookup("/m/a.mkv", Some(10)).unwrap();
    assert!(hit.was_cached);
    assert_eq!(hit.json_data, DOCUMENT);
    assert!(matches!(hit.parsed.get("format").and_then(|f| f.get("duration")), Some(JsonValue::Text(t)) if t == "12.5"));
    assert_eq!(get_probe_string(&mut cache, "/m/a.mkv", Some(10)), Some(DOCUMENT.to_string()));
    assert_eq!(cache.len(), 1);
}

#[test]
fn test_cache_coherence_on_modification() {
    let mut cache = ProbeCache::new();
    cache.store("/m/a.mkv", DOCUMENT.to_string(), Some(10)).unwrap();
    assert!(cache.lookup("/m/a.mkv", None).is_some());
    assert_eq!(cache.len(), 1);
    assert!(cache.lookup("/m/a.mkv", Some(11)).is_none());
    assert_eq!(cache.len(), 0);
    assert!(cache.lookup("/m/a.mkv", Some(10)).is_none());
    cache.store("/m/a.mkv", "{}".to_string(), Some(11)).unwrap();
    assert_eq!(get_probe_string(&mut cache, "/m/a.mkv", Some(11)), Some("{}".to_string()));
    assert!(get_probe_string(&mut cache, "/m/a.mkv", Some(10)).is_none());
    assert_eq!(cache.len(), 0);
}

#[test]
fn test_cache_rejects_malformed_output() {
    let mut cache = ProbeCache::new();
    let error = cache.store("/m/a.mkv", "{not json".to_string(), None).unwrap_err();
    assert!(error.starts_with("Failed to parse JSON: "));
    assert_eq!(cache.len(), 0);
}

#[test]
fn test_cache_invalidate_and_clear() {
    let mut cache = ProbeCache::new();
    cache.store("/m/a.mkv", DOCUMENT.to_string(), Some(1)).unwrap();
    cache.store("/m/b.mkv", DOCUMENT.to_string(), Some(2)).unwrap();
    invalidate_cache(&mut cache, "/m/a.mkv");
    invalidate_cache(&mut cache, "/m/missing.mkv");
    assert!(cache.lookup("/m/a.mkv", Some(1)).is_none());
    assert!(cache.lookup("/m/b.mkv", Some(2)).is_some());
    assert_eq!(cache.len(), 1);
    clear_cache(&mut cache);
    assert_eq!(cache.len(), 0);
    assert!(cache.lookup("/m/b.mkv", Some(2)).is_none());
}

#[test]
fn test_cache_stats_count_valid_entries() {
    let mut cache = ProbeCache::new();
    cache.store("/m/a.mkv", DOCUMENT.to_string(), Some(1)).unwrap();
    cache.store("/m/b.mkv", DOCUMENT.to_string(), Some(2)).unwrap();
    cache.store("/m/c.mkv", DOCUMENT.to_string(), None).unwrap();
    let current = vec![
        ("/m/a.mkv".to_string(), Some(1)),
        ("/m/b.mkv".to_string(), Some(3)),
        ("/m/c.mkv".to_string(), Some(9)),
    ];
    assert_eq!(get_cache_stats(&cache, &current), (3, 2));
    let all_changed = vec![
        ("/m/a.mkv".to_string(), Some(7)),
        ("/m/b.mkv".to_string(), Some(7)),
    ];
    assert_eq!(get_cache_stats(&cache, &all_changed), (3, 1));
}

#[test]
fn test_cache_entry_validity() {
    let entry = |mtime| CachedProbeResult {
        json_data: "{}".to_string(),
        parsed: JsonValue::Null,
        file_mtime: mtime,
        cached_at: Instant::now(),
    };
    assert_eq!(CACHE_MAX_AGE_MS, 300_000);
    assert!(is_cache_valid(&entry(Some(5)), Some(5), 0));
    assert!(is_cache_valid(&entry(Some(5)), Some(5), 299_999));
    assert!(!is_cache_valid(&entry(Some(5)), Some(5), 300_000));
    assert!(!is_cache_valid(&entry(Some(5)), Some(5), 300_001));
    assert!(!is_cache_valid(&entry(Some(5)), Some(6), 0));
    assert!(is_cache_valid(&entry(None), Some(6), 0));
    assert!(is_cache_valid(&entry(Some(5)), None, 0));
}

#[test]
fn test_lookup_at_age_serves_young_entries_and_drops_old_ones() {
    let mut cache = ProbeCache::new();
    cache.store("/m/a.mkv", DOCUMENT.to_string(), Some(10)).unwrap();
    let hit = cache.lookup_at_age("/m/a.mkv", Some(10), CACHE_MAX_AGE_MS - 1).unwrap();
    assert!(hit.was_cached);
    assert_eq!(hit.json_data, DOCUMENT);
    assert_eq!(cache.len(), 1);
    assert!(cache.lookup_at_age("/m/a.mkv", Some(10), CACHE_MAX_AGE_MS).is_none());
    assert_eq!(cache.len(), 0);
    assert!(cache.lookup_at_age("/m/a.mkv", Some(10), 0).is_none());
}

#[test]
fn test_lookup_at_age_drops_entries_of_changed_files() {
    let mut cache = ProbeCache::new();
    cache.store("/m/a.mkv", DOCUMENT.to_string(), Some(10)).unwrap();
    cache.store("/m/b.mkv", DOCUMENT.to_string(), Some(10)).unwrap();
    assert!(cache.lookup_at_age("/m/a.mkv", Some(11), 0).is_none());
    assert_eq!(cache.len(), 1);
    assert!(cache.lookup_at_age("/m/b.mkv", None, 0).is_some());
    assert_eq!(cache.len(), 1);
}

#[test]
fn test_count_valid_entries() {
    let entry = |mtime: Option<u64>| CachedProbeResult {
        json_data: DOCUMENT.to_string(),
        parsed: JsonValue::Null,
        file_mtime: mtime,
        cached_at: Instant::now(),
    };
    let entries = vec![
        ("/a".to_string(), entry(Some(1))),
        ("/b".to_string(), entry(Some(2))),
        ("/c".to_string(), entry(None)),
        ("/d".to_string(), entry(Some(4))),
    ];
    let current = vec![
        ("/a".to_string(), Some(1)),
        ("/b".to_string(), Some(9)),
        ("/d".to_string(), Some(4)),
    ];
    assert_eq!(count_valid_entries(&entries, &current, &vec![0, 0, 0, 0]), 3);
    assert_eq!(count_valid_entries(&entries, &current, &vec![0, 0, 0, CACHE_MAX_AGE_MS]), 2);
    assert_eq!(count_valid_entries(&entries, &current, &vec![CACHE_MAX_AGE_MS; 4]), 0);
    assert_eq!(count_valid_entries(&vec![], &current, &vec![]), 0);
}

#[test]
fn test_refresh_probe_files_an_answer() {
    let mut cache = ProbeCache::new();
    let run = ToolRun::Finished { success: true, output: DOCUMENT.to_string(), diagnostics: String::new() };
    let fresh = refresh_probe(&mut cache, "/m/a.mkv", run, Some(3)).unwrap();
    assert!(!fresh.was_cached);
    assert_eq!(fresh.json_data, DOCUMENT);
    assert_eq!(cache.len(), 1);
    assert_eq!(get_probe_string(&mut cache, "/m/a.mkv", Some(3)), Some(DOCUMENT.to_string()));
}

#[test]
fn test_refresh_probe_reports_failures() {
    let mut cache = ProbeCache::new();
    let run = ToolRun::Finished { success: false, output: DOCUMENT.to_string(), diagnostics: "no such file".to_string() };
    assert_eq!(refresh_probe(&mut cache, "/m/a.mkv", run, None).err(), Some("ffprobe failed: no such file".to_string()));
    let run = ToolRun::NotStarted { reason: "not found".to_string() };
    assert_eq!(refresh_probe(&mut cache, "/m/a.mkv", run, None).err(), Some("Failed to run ffprobe: not found".to_string()));
    let run = ToolRun::Finished { success: true, output: "{".to_string(), diagnostics: String::new() };
    let message = refresh_probe(&mut cache, "/m/a.mkv", run, None).err().unwrap();
    assert!(message.starts_with("Failed to parse JSON: "));
    assert_eq!(cache.len(), 0);
}
