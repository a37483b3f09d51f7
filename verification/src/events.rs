//! Semantic change events.  A debounced, non-ignored root-relative path is
//! classified by its suffix into exactly one update kind, and each event maps
//! to the outbound push-message header and body used on the wire.

use vstd::prelude::*;

use crate::strutil::{str_ends_with, suffix_of};

verus! {

/// A classified filesystem change, ready for broadcast.
#[derive(Debug, Clone)]
pub enum WatcherEvent {
    HmrReload { path: String },
    HmrCssUpdate { path: String },
    HmrJsUpdate { path: String },
    NotifyUpdate { path: String },
}

/// The four update kinds, used to state classification.
#[derive(Debug, Clone, Copy, PartialEq, Eq, Structural)]
pub enum UpdateKind {
    Style,
    Script,
    Reload,
    Generic,
}

/// The path is a stylesheet.
pub open spec fn style_path(s: Seq<char>) -> bool {
    suffix_of(s, ".css"@)
}

/// The path is a script module.
pub open spec fn script_path(s: Seq<char>) -> bool {
    ||| suffix_of(s, ".js"@)
    ||| suffix_of(s, ".mjs"@)
    ||| suffix_of(s, ".jsx"@)
    ||| suffix_of(s, ".ts"@)
    ||| suffix_of(s, ".mts"@)
    ||| suffix_of(s, ".tsx"@)
}

/// The path is a page that needs a full reload.
pub open spec fn reload_path(s: Seq<char>) -> bool {
    suffix_of(s, ".html"@)
}

/// The update kind of a path: the first matching suffix family wins,
/// and every path falls into exactly one kind.
pub open spec fn kind_of_path(s: Seq<char>) -> UpdateKind {
    if style_path(s) {
        UpdateKind::Style
    } else if script_path(s) {
        UpdateKind::Script
    } else if reload_path(s) {
        UpdateKind::Reload
    } else {
        UpdateKind::Generic
    }
}

/// The kind an event carries.
pub open spec fn event_kind(e: WatcherEvent) -> UpdateKind {
    match e {
        WatcherEvent::HmrCssUpdate { .. } => UpdateKind::Style,
        WatcherEvent::HmrJsUpdate { .. } => UpdateKind::Script,
        WatcherEvent::HmrReload { .. } => UpdateKind::Reload,
        WatcherEvent::NotifyUpdate { .. } => UpdateKind::Generic,
    }
}

/// The root-relative path an event carries.
pub open spec fn event_path(e: WatcherEvent) -> Seq<char> {
    match e {
        WatcherEvent::HmrReload { path } => path@,
        WatcherEvent::HmrCssUpdate { path } => path@,
        WatcherEvent::HmrJsUpdate { path } => path@,
        WatcherEvent::NotifyUpdate { path } => path@,
    }
}

proof fn lemma_suffix_index(s: Seq<char>, suf: Seq<char>, k: int)
    requires
        suffix_of(s, suf),
        0 <= k < suf.len(),
    ensures
        s[s.len() - suf.len() + k] == suf[k],
{
    assert(s.subrange(s.len() - suf.len(), s.len() as int)[k] == suf[k]);
}

/// Classification is total and exclusive: the three suffix families never
/// overlap, so `kind_of_path` sends every path to exactly one kind, and a
/// path in no family is a generic update.
pub proof fn lemma_classification_exclusive(s: Seq<char>)
    ensures
        !(style_path(s) && script_path(s)),
        !(style_path(s) && reload_path(s)),
        !(script_path(s) && reload_path(s)),
        kind_of_path(s) == UpdateKind::Style <==> style_path(s),
        kind_of_path(s) == UpdateKind::Script <==> script_path(s),
        kind_of_path(s) == UpdateKind::Reload <==> reload_path(s),
        kind_of_path(s) == UpdateKind::Generic <==> (!style_path(s) && !script_path(s)
            && !reload_path(s)),
{
    reveal_strlit(".css");
    reveal_strlit(".js");
    reveal_strlit(".mjs");
    reveal_strlit(".jsx");
    reveal_strlit(".ts");
    reveal_strlit(".mts");
    reveal_strlit(".tsx");
    reveal_strlit(".html");
    if style_path(s) {
        lemma_suffix_index(s, ".css"@, 1);
        lemma_suffix_index(s, ".css"@, 2);
        lemma_suffix_index(s, ".css"@, 3);
        if suffix_of(s, ".js"@) {
            lemma_suffix_index(s, ".js"@, 1);
        }
        if suffix_of(s, ".mjs"@) {
            lemma_suffix_index(s, ".mjs"@, 1);
        }
        if suffix_of(s, ".jsx"@) {
            lemma_suffix_index(s, ".jsx"@, 3);
        }
        if suffix_of(s, ".ts"@) {
            lemma_suffix_index(s, ".ts"@, 1);
        }
        if suffix_of(s, ".mts"@) {
            lemma_suffix_index(s, ".mts"@, 2);
        }
        if suffix_of(s, ".tsx"@) {
            lemma_suffix_index(s, ".tsx"@, 3);
        }
        if suffix_of(s, ".html"@) {
            lemma_suffix_index(s, ".html"@, 4);
        }
    }
    if reload_path(s) {
        lemma_suffix_index(s, ".html"@, 4);
        if suffix_of(s, ".js"@) {
            lemma_suffix_index(s, ".js"@, 2);
        }
        if suffix_of(s, ".mjs"@) {
            lemma_suffix_index(s, ".mjs"@, 3);
        }
        if suffix_of(s, ".jsx"@) {
            lemma_suffix_index(s, ".jsx"@, 3);
        }
        if suffix_of(s, ".ts"@) {
            lemma_suffix_index(s, ".ts"@, 2);
        }
        if suffix_of(s, ".mts"@) {
            lemma_suffix_index(s, ".mts"@, 3);
        }
        if suffix_of(s, ".tsx"@) {
            lemma_suffix_index(s, ".tsx"@, 3);
        }
    }
}

/// Classify a debounced, non-ignored root-relative path into the event for
/// its update kind, carrying the path unchanged.
pub fn classify(rel: String) -> (e: WatcherEvent)
    ensures
        event_kind(e) == kind_of_path(rel@),
        event_path(e) == rel@,
{
    proof {
        lemma_classification_exclusive(rel@);
    }
    if str_ends_with(rel.as_str(), ".css") {
        WatcherEvent::HmrCssUpdate { path: rel }
    } else if str_ends_with(rel.as_str(), ".js") || str_ends_with(rel.as_str(), ".mjs")
        || str_ends_with(rel.as_str(), ".jsx") || str_ends_with(rel.as_str(), ".ts")
        || str_ends_with(rel.as_str(), ".mts") || str_ends_with(rel.as_str(), ".tsx") {
        WatcherEvent::HmrJsUpdate { path: rel }
    } else if str_ends_with(rel.as_str(), ".html") {
        WatcherEvent::HmrReload { path: rel }
    } else {
        WatcherEvent::NotifyUpdate { path: rel }
    }
}

/// The wire value of the push message's `type` field for an event.
pub open spec fn spec_type_string(e: WatcherEvent) -> Seq<char> {
    match e {
        WatcherEvent::HmrReload { .. } => "hmr::reload"@,
        WatcherEvent::HmrCssUpdate { .. } => "hmr::css_update"@,
        WatcherEvent::HmrJsUpdate { .. } => "hmr::js_update"@,
        WatcherEvent::NotifyUpdate { .. } => "notify::update"@,
    }
}

/// The wire value of the push message's `body` field for an event: the
/// root-relative path behind a leading slash.
pub open spec fn spec_body_string(e: WatcherEvent) -> Seq<char> {
    "/"@ + event_path(e)
}

/// An outbound live-update push message, one per broadcast event.
#[derive(Debug, Clone)]
pub struct HmrMessage {
    pub msg_type: String,
    pub body: String,
}

impl HmrMessage {
    /// Build the push message for a classified event.
    pub fn from(event: WatcherEvent) -> (m: HmrMessage)
        ensures
            m.msg_type@ == spec_type_string(event),
            m.body@ == spec_body_string(event),
    {
        match event {
            WatcherEvent::HmrReload { path } => HmrMessage {
                msg_type: String::from_str("hmr::reload"),
                body: String::from_str("/").concat(path.as_str()),
            },
            WatcherEvent::HmrCssUpdate { path } => HmrMessage {
                msg_type: String::from_str("hmr::css_update"),
                body: String::from_str("/").concat(path.as_str()),
            },
            WatcherEvent::HmrJsUpdate { path } => HmrMessage {
                msg_type: String::from_str("hmr::js_update"),
                body: String::from_str("/").concat(path.as_str()),
            },
            WatcherEvent::NotifyUpdate { path } => HmrMessage {
                msg_type: String::from_str("notify::update"),
                body: String::from_str("/").concat(path.as_str()),
            },
        }
    }
}

} // verus!
