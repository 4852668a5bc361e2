use item_tracker::autocomplete::{
    autocomplete_plan, ci_contains_pattern, filter_names, NameCache,
};
use item_tracker::errors::PatternError;
use item_tracker::item::ItemInfo;
use item_tracker::notes::{normalize_note, sanitized_item, NoteModal};

#[test]
fn note_modal_keeps_its_note() {
    let m = NoteModal::new(Some("remember".to_string()));
    assert_eq!(m.note.as_deref(), Some("remember"));
    let m = NoteModal::new(None);
    assert_eq!(m.note, None);
}

#[test]
fn absent_or_empty_notes_clear() {
    assert_eq!(normalize_note(None), None);
    assert_eq!(normalize_note(Some(String::new())), None);
}

#[test]
fn stored_notes_are_sanitized() {
    let out = normalize_note(Some("a = 'secret'".to_string()));
    let out = out.expect("a non-empty note is stored");
    // the sanitizer must not hand the text through with the literal intact
    assert!(!out.contains("secret"));
}

#[test]
fn item_names_are_sanitized_before_storage() {
    let info = ItemInfo {
        id: 9,
        name: "name = 'secret'".to_string(),
        last_updated: 4,
        preview_url: Some("u".to_string()),
    };
    let stored = sanitized_item(info);
    assert_eq!(stored.id, 9);
    assert_eq!(stored.last_updated, 4);
    assert_eq!(stored.preview_url.as_deref(), Some("u"));
    assert!(!stored.name.contains("secret"));
}

#[test]
fn short_queries_get_no_suggestions() {
    assert_eq!(autocomplete_plan("ab"), None);
    assert_eq!(autocomplete_plan(""), None);
    assert_eq!(autocomplete_plan("abcd").as_deref(), Some("abc"));
    assert_eq!(autocomplete_plan("xyz").as_deref(), Some("xyz"));
}

#[test]
fn builds_containment_patterns() {
    assert_eq!(ci_contains_pattern("iron"), ".*(?i)iron.*");
}

#[test]
fn filters_names_case_insensitively() {
    let names = vec![
        ("Iron Tools".to_string(), 1u64),
        ("Wooden Sword".to_string(), 2u64),
        ("IRONCLAD".to_string(), 3u64),
    ];
    let kept = filter_names(&names, &ci_contains_pattern("iron")).unwrap();
    assert_eq!(kept.len(), 2);
    assert_eq!(kept[0].1, 1);
    assert_eq!(kept[1].1, 3);
}

#[test]
fn metacharacters_do_not_bring_the_filter_down() {
    let names = vec![("Iron".to_string(), 1u64)];
    let r = filter_names(&names, &ci_contains_pattern("(unclosed"));
    assert_eq!(r.unwrap_err(), PatternError::InvalidPattern);
}

#[test]
fn cache_serves_and_expires_entries() {
    let mut cache = NameCache::new();
    assert!(cache.lookup(42, "iro").is_none());
    let names = vec![("Iron Tools".to_string(), 1u64)];
    cache.store(42, "iro".to_string(), names, 1000);
    let hit = cache.lookup(42, "iro").expect("stored entry must be served");
    assert_eq!(hit.len(), 1);
    assert_eq!(hit[0].1, 1);
    // another tenant or another prefix does not hit
    assert!(cache.lookup(43, "iro").is_none());
    assert!(cache.lookup(42, "woo").is_none());
    // a newer entry for the same pair wins
    cache.store(42, "iro".to_string(), vec![("Ironclad".to_string(), 3u64)], 1050);
    let hit = cache.lookup(42, "iro").unwrap();
    assert_eq!(hit[0].1, 3);
    // purging drops everything stored at or before the cutoff
    cache.purge_expired(1060);
    assert!(cache.lookup(42, "iro").is_none());
}

#[test]
fn purge_keeps_fresh_entries() {
    let mut cache = NameCache::new();
    cache.store(1, "abc".to_string(), vec![("A".to_string(), 1u64)], 100);
    cache.store(2, "def".to_string(), vec![("D".to_string(), 2u64)], 200);
    cache.purge_expired(150);
    assert!(cache.lookup(1, "abc").is_none());
    assert!(cache.lookup(2, "def").is_some());
}
