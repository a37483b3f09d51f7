//! Per-event logic of the filesystem watcher.  For each raw notification the
//! surrounding watch callback hands over the event kind, the affected
//! absolute paths and the current time; this module relativizes each path
//! against the watched root, filters ignored paths, debounces by absolute
//! path, classifies, and returns the events to push into the broadcast
//! channel.

use vstd::prelude::*;

use crate::debounce::{spec_accepts, spec_after, DebounceStore};
use crate::events::{classify, event_kind, event_path, kind_of_path, WatcherEvent};
use crate::path_filter::{should_ignore, spec_should_ignore};
use crate::strutil::{prefix_of, str_eq, str_starts_with};

verus! {

/// The kind of a raw filesystem notification, as the watch primitive reports
/// it.  Anything that is not a create, modify or remove is `Other` and is
/// dropped outright.
#[derive(Debug, Clone, Copy, PartialEq, Eq, Structural)]
pub enum RawEventKind {
    Create,
    Modify,
    Remove,
    Other,
}

/// The path relative to `root`, when `path` lies under it: the rest after
/// the root prefix and its separator, the empty sequence for the root
/// itself, and nothing for a path outside the root.  `root` carries no
/// trailing separator.
pub open spec fn spec_relative_to(path: Seq<char>, root: Seq<char>) -> Option<Seq<char>> {
    if path == root {
        Some(Seq::<char>::empty())
    } else if root.len() < path.len() && prefix_of(path, root) && path[root.len() as int] == '/' {
        Some(path.subrange(root.len() as int + 1, path.len() as int))
    } else {
        None
    }
}

/// Compute the root-relative form of an absolute path.
pub fn relative_to(path: &str, root: &str) -> (r: Option<String>)
    ensures
        r is Some <==> spec_relative_to(path@, root@) is Some,
        r matches Some(s) ==> spec_relative_to(path@, root@) == Some(s@),
{
    let n = path.unicode_len();
    let m = root.unicode_len();
    if str_eq(path, root) {
        return Some(String::new());
    }
    if m < n && str_starts_with(path, root) && path.get_char(m) == '/' {
        let rest = path.substring_char(m + 1, n);
        return Some(rest.to_owned());
    }
    None
}

/// Whether one absolute path yields an event: it lies under the root, its
/// relative form is not ignored, and the debounce store accepts it.
pub open spec fn path_emits(
    m: Map<Seq<char>, u64>,
    root: Seq<char>,
    path: Seq<char>,
    now: u64,
    window: u64,
) -> bool {
    match spec_relative_to(path, root) {
        Some(rel) => !spec_should_ignore(rel) && spec_accepts(m, path, now, window),
        None => false,
    }
}

/// The debounce store contents after one absolute path is processed: the
/// store is consulted (and so refreshed) only for non-ignored paths under
/// the root.
pub open spec fn store_after_path(
    m: Map<Seq<char>, u64>,
    root: Seq<char>,
    path: Seq<char>,
    now: u64,
    window: u64,
) -> Map<Seq<char>, u64> {
    match spec_relative_to(path, root) {
        Some(rel) => if !spec_should_ignore(rel) {
            spec_after(m, path, now, window)
        } else {
            m
        },
        None => m,
    }
}

/// Debouncing at the watcher: of two notifications for one non-ignored path
/// under the root, the first on a fresh key always yields an event; a second
/// within the window yields none, and a second more than the window later
/// yields one again.
pub proof fn lemma_watcher_debounce(
    m: Map<Seq<char>, u64>,
    root: Seq<char>,
    path: Seq<char>,
    t1: u64,
    t2: u64,
    window: u64,
)
    requires
        !m.dom().contains(path),
        spec_relative_to(path, root) matches Some(rel) && !spec_should_ignore(rel),
    ensures
        path_emits(m, root, path, t1, window),
        (t2 as int) <= (t1 as int) + (window as int) ==> !path_emits(
            store_after_path(m, root, path, t1, window),
            root,
            path,
            t2,
            window,
        ),
        (t2 as int) > (t1 as int) + (window as int) ==> path_emits(
            store_after_path(m, root, path, t1, window),
            root,
            path,
            t2,
            window,
        ),
{
    crate::debounce::lemma_debounce_window(m, path, t1, t2, window);
}

/// The store contents after a whole list of affected paths is processed in
/// order.
pub open spec fn store_after_paths(
    m: Map<Seq<char>, u64>,
    root: Seq<char>,
    paths: Seq<Seq<char>>,
    now: u64,
    window: u64,
) -> Map<Seq<char>, u64>
    decreases paths.len(),
{
    if paths.len() == 0 {
        m
    } else {
        store_after_paths(
            store_after_path(m, root, paths[0], now, window),
            root,
            paths.drop_first(),
            now,
            window,
        )
    }
}

/// The root-relative paths of the events emitted for a list of affected
/// paths, in order: each path contributes one event exactly when it emits
/// against the store as left by the paths before it.
pub open spec fn emitted_rel_paths(
    m: Map<Seq<char>, u64>,
    root: Seq<char>,
    paths: Seq<Seq<char>>,
    now: u64,
    window: u64,
) -> Seq<Seq<char>>
    decreases paths.len(),
{
    if paths.len() == 0 {
        Seq::<Seq<char>>::empty()
    } else {
        let rest = emitted_rel_paths(
            store_after_path(m, root, paths[0], now, window),
            root,
            paths.drop_first(),
            now,
            window,
        );
        if path_emits(m, root, paths[0], now, window) {
            seq![spec_relative_to(paths[0], root)->Some_0] + rest
        } else {
            rest
        }
    }
}

/// The relative paths carried by a sequence of events, in order.
pub open spec fn event_paths_of(events: Seq<WatcherEvent>) -> Seq<Seq<char>> {
    events.map_values(|e: WatcherEvent| event_path(e))
}

/// Process one affected absolute path: relativize, filter, debounce,
/// classify.  Returns the event to broadcast, if any.
pub fn process_path(
    store: &mut DebounceStore,
    root: &str,
    path: &str,
    now: u64,
    window: u64,
) -> (r: Option<WatcherEvent>)
    requires
        old(store).wf(),
    ensures
        final(store).wf(),
        final(store)@ == store_after_path(old(store)@, root@, path@, now, window),
        r is Some <==> path_emits(old(store)@, root@, path@, now, window),
        r matches Some(e) ==> {
            &&& spec_relative_to(path@, root@) matches Some(rel)
            &&& event_path(e) == spec_relative_to(path@, root@)->Some_0
            &&& event_kind(e) == kind_of_path(event_path(e))
        },
{
    let rel = match relative_to(path, root) {
        Some(rel) => rel,
        None => {
            return None;
        },
    };
    if should_ignore(rel.as_str()) {
        return None;
    }
    if !store.accept(path, now, window) {
        return None;
    }
    Some(classify(rel))
}

/// Process one raw notification: a create, modify or remove on a list of
/// absolute paths yields zero or one event per path, in order; any other
/// notification kind is dropped and leaves the debounce store untouched.
pub fn process_raw_event(
    store: &mut DebounceStore,
    root: &str,
    kind: RawEventKind,
    paths: &Vec<String>,
    now: u64,
    window: u64,
) -> (events: Vec<WatcherEvent>)
    requires
        old(store).wf(),
    ensures
        final(store).wf(),
        kind == RawEventKind::Other ==> final(store)@ == old(store)@ && events@.len() == 0,
        kind != RawEventKind::Other ==> final(store)@ == store_after_paths(
            old(store)@,
            root@,
            paths.deep_view(),
            now,
            window,
        ),
        kind != RawEventKind::Other ==> event_paths_of(events@) == emitted_rel_paths(
            old(store)@,
            root@,
            paths.deep_view(),
            now,
            window,
        ),
        forall|i: int|
            0 <= i < events@.len() ==> event_kind(#[trigger] events@[i]) == kind_of_path(
                event_path(events@[i]),
            ),
{
    let mut events: Vec<WatcherEvent> = Vec::new();
    if matches!(kind, RawEventKind::Other) {
        proof {
            assert(event_paths_of(events@) =~= Seq::<Seq<char>>::empty());
        }
        return events;
    }
    let ghost all = paths.deep_view();
    let mut idx: usize = 0;
    proof {
        assert(all.skip(0) =~= all);
    }
    while idx < paths.len()
        invariant
            store.wf(),
            idx <= paths.len(),
            all == paths.deep_view(),
            all.len() == paths@.len(),
            store_after_paths(store@, root@, all.skip(idx as int), now, window)
                == store_after_paths(old(store)@, root@, all, now, window),
            event_paths_of(events@) + emitted_rel_paths(
                store@,
                root@,
                all.skip(idx as int),
                now,
                window,
            ) == emitted_rel_paths(old(store)@, root@, all, now, window),
            forall|i: int|
                0 <= i < events@.len() ==> event_kind(#[trigger] events@[i]) == kind_of_path(
                    event_path(events@[i]),
                ),
        decreases paths.len() - idx,
    {
        let ghost pre_store = store@;
        let ghost pre_events = events@;
        let ghost remaining = all.skip(idx as int);
        proof {
            assert(remaining.len() > 0);
            assert(remaining[0] == all[idx as int]);
            assert(remaining.drop_first() =~= all.skip(idx as int + 1));
            assert(all[idx as int] == paths@[idx as int]@);
        }
        let p = &paths[idx];
        let r = process_path(store, root, p.as_str(), now, window);
        match r {
            Some(e) => {
                events.push(e);
                proof {
                    assert(event_paths_of(events@) =~= event_paths_of(pre_events).push(
                        event_path(e),
                    ));
                    assert(seq![spec_relative_to(p@, root@)->Some_0] + emitted_rel_paths(
                        store@,
                        root@,
                        remaining.drop_first(),
                        now,
                        window,
                    ) =~= emitted_rel_paths(pre_store, root@, remaining, now, window));
                    assert(event_paths_of(events@) + emitted_rel_paths(
                        store@,
                        root@,
                        all.skip(idx as int + 1),
                        now,
                        window,
                    ) =~= event_paths_of(pre_events) + emitted_rel_paths(
                        pre_store,
                        root@,
                        remaining,
                        now,
                        window,
                    ));
                }
            },
            None => {
                proof {
                    assert(emitted_rel_paths(pre_store, root@, remaining, now, window)
                        == emitted_rel_paths(store@, root@, remaining.drop_first(), now, window));
                }
            },
        }
        idx += 1;
    }
    proof {
        assert(all.skip(paths@.len() as int) =~= Seq::<Seq<char>>::empty());
        assert(event_paths_of(events@) + Seq::<Seq<char>>::empty() =~= event_paths_of(events@));
    }
    events
}

} // verus!
