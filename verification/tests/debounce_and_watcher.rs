use live_update::debounce::{DebounceStore, DEFAULT_DEBOUNCE_WINDOW_MS};
use live_update::watcher::{process_raw_event, relative_to, RawEventKind};
use live_update::events::WatcherEvent;

#[test]
fn first_notification_is_accepted() {
    let mut store = DebounceStore::new();
    assert!(store.accept("/proj/a.css", 1000, DEFAULT_DEBOUNCE_WINDOW_MS));
}

#[test]
fn second_within_window_is_suppressed() {
    let mut store = DebounceStore::new();
    assert!(store.accept("/proj/a.css", 1000, 250));
    assert!(!store.accept("/proj/a.css", 1100, 250));
    assert!(!store.accept("/proj/a.css", 1250, 250));
}

#[test]
fn second_beyond_window_is_accepted() {
    let mut store = DebounceStore::new();
    assert!(store.accept("/proj/a.css", 1000, 250));
    assert!(store.accept("/proj/a.css", 1251, 250));
}

#[test]
fn suppression_does_not_refresh_the_timestamp() {
    let mut store = DebounceStore::new();
    assert!(store.accept("/proj/a.css", 1000, 250));
    assert!(!store.accept("/proj/a.css", 1200, 250));
    // Had the suppressed call refreshed the entry, 1300 would still be
    // within the window; it is measured from the accepted call at 1000.
    assert!(store.accept("/proj/a.css", 1300, 250));
}

#[test]
fn acceptance_refreshes_the_timestamp() {
    let mut store = DebounceStore::new();
    assert!(store.accept("/proj/a.css", 1000, 250));
    assert!(store.accept("/proj/a.css", 1300, 250));
    assert!(!store.accept("/proj/a.css", 1500, 250));
}

#[test]
fn distinct_keys_do_not_interfere() {
    let mut store = DebounceStore::new();
    assert!(store.accept("/proj/a.css", 1000, 250));
    assert!(store.accept("/proj/b.css", 1001, 250));
    assert!(store.accept("/other/a.css", 1002, 250));
}

#[test]
fn relative_to_strips_the_root() {
    assert_eq!(relative_to("/proj/src/app.css", "/proj"), Some("src/app.css".to_string()));
    assert_eq!(relative_to("/proj", "/proj"), Some(String::new()));
    assert_eq!(relative_to("/elsewhere/app.css", "/proj"), None);
    assert_eq!(relative_to("/projects/app.css", "/proj"), None);
}

fn css_path(e: &WatcherEvent) -> Option<String> {
    match e {
        WatcherEvent::HmrCssUpdate { path } => Some(path.clone()),
        _ => None,
    }
}

#[test]
fn raw_event_filters_debounces_and_classifies() {
    let mut store = DebounceStore::new();
    let paths = vec![
        "/proj/src/app.css".to_string(),
        "/proj/target/out.css".to_string(),
        "/proj/src/app.css.swp".to_string(),
        "/outside/app.css".to_string(),
    ];
    let events = process_raw_event(&mut store, "/proj", RawEventKind::Modify, &paths, 0, 250);
    assert_eq!(events.len(), 1);
    assert_eq!(css_path(&events[0]), Some("src/app.css".to_string()));
}

#[test]
fn other_event_kinds_are_dropped() {
    let mut store = DebounceStore::new();
    let paths = vec!["/proj/src/app.css".to_string()];
    let events = process_raw_event(&mut store, "/proj", RawEventKind::Other, &paths, 0, 250);
    assert_eq!(events.len(), 0);
    // The store was not consulted: the same path is still accepted now.
    let events = process_raw_event(&mut store, "/proj", RawEventKind::Modify, &paths, 0, 250);
    assert_eq!(events.len(), 1);
}

#[test]
fn duplicate_paths_in_one_event_are_debounced() {
    let mut store = DebounceStore::new();
    let paths = vec!["/proj/a.css".to_string(), "/proj/a.css".to_string()];
    let events = process_raw_event(&mut store, "/proj", RawEventKind::Create, &paths, 0, 250);
    assert_eq!(events.len(), 1);
}
