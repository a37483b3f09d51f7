use live_update::events::{classify, HmrMessage, WatcherEvent};
use live_update::path_filter::should_ignore;

#[test]
fn ignores_build_output_dir() {
    assert!(should_ignore("target"));
    assert!(should_ignore("target/debug/app"));
    assert!(should_ignore("target/x.css"));
}

#[test]
fn does_not_ignore_similar_names() {
    assert!(!should_ignore("targets/debug/app"));
    assert!(!should_ignore("src/target.rs"));
    assert!(!should_ignore("retarget/x"));
}

#[test]
fn ignores_editor_temp_suffixes() {
    assert!(should_ignore("src/main.rs~"));
    assert!(should_ignore("src/.main.rs.swp"));
    assert!(should_ignore("src/.main.rs.swo"));
    assert!(should_ignore("notes.tmp"));
    assert!(should_ignore("a/b/c.tmp"));
}

#[test]
fn ignores_numeric_temp_filenames() {
    assert!(should_ignore("4913"));
    assert!(should_ignore("src/4913"));
    assert!(should_ignore("deep/dir/0"));
}

#[test]
fn does_not_ignore_ordinary_paths() {
    assert!(!should_ignore("src/app.css"));
    assert!(!should_ignore("index.html"));
    assert!(!should_ignore("src/main.rs"));
    assert!(!should_ignore("src/123abc"));
    assert!(!should_ignore("a1/b2"));
    assert!(!should_ignore("swp/file.rs"));
}

fn kind_and_path(e: &WatcherEvent) -> (&'static str, String) {
    match e {
        WatcherEvent::HmrReload { path } => ("reload", path.clone()),
        WatcherEvent::HmrCssUpdate { path } => ("css", path.clone()),
        WatcherEvent::HmrJsUpdate { path } => ("js", path.clone()),
        WatcherEvent::NotifyUpdate { path } => ("notify", path.clone()),
    }
}

#[test]
fn classifies_styles() {
    let e = classify("src/app.css".to_string());
    assert_eq!(kind_and_path(&e), ("css", "src/app.css".to_string()));
}

#[test]
fn classifies_scripts() {
    for p in ["a.js", "a.mjs", "a.jsx", "a.ts", "a.mts", "a.tsx", "x/y.module.ts"] {
        let e = classify(p.to_string());
        assert_eq!(kind_and_path(&e), ("js", p.to_string()));
    }
}

#[test]
fn classifies_pages_and_the_rest() {
    let e = classify("index.html".to_string());
    assert_eq!(kind_and_path(&e), ("reload", "index.html".to_string()));
    for p in ["README.md", "data.json", "Makefile", "style.css.map"] {
        let e = classify(p.to_string());
        assert_eq!(kind_and_path(&e), ("notify", p.to_string()));
    }
}

#[test]
fn push_message_fields() {
    let m = HmrMessage::from(WatcherEvent::HmrCssUpdate { path: "src/app.css".to_string() });
    assert_eq!(m.msg_type, "hmr::css_update");
    assert_eq!(m.body, "/src/app.css");
    let m = HmrMessage::from(WatcherEvent::HmrReload { path: "index.html".to_string() });
    assert_eq!(m.msg_type, "hmr::reload");
    assert_eq!(m.body, "/index.html");
    let m = HmrMessage::from(WatcherEvent::HmrJsUpdate { path: "a.ts".to_string() });
    assert_eq!(m.msg_type, "hmr::js_update");
    assert_eq!(m.body, "/a.ts");
    let m = HmrMessage::from(WatcherEvent::NotifyUpdate { path: "x.md".to_string() });
    assert_eq!(m.msg_type, "notify::update");
    assert_eq!(m.body, "/x.md");
}
