use std::collections::HashMap;

use tokio::sync::mpsc::{unbounded_channel, UnboundedReceiver};

use live_update::command::interpret_output;
use live_update::debounce::DebounceStore;
use live_update::events::WatcherEvent;
use live_update::protocol::{decode_request, encode_cmd_result, encode_map3};
use live_update::registry::SessionRegistry;
use live_update::session::{broadcast_event, handle_frame, FrameOutcome};
use live_update::watcher::{process_raw_event, RawEventKind};

fn connect(reg: &mut SessionRegistry) -> (u64, UnboundedReceiver<Vec<u8>>) {
    let (tx, rx) = unbounded_channel::<Vec<u8>>();
    assert!(reg.can_register());
    let id = reg.register(tx);
    (id, rx)
}

#[test]
fn ids_are_monotonic_from_one() {
    let mut reg = SessionRegistry::new();
    let (a, _rx_a) = connect(&mut reg);
    let (b, _rx_b) = connect(&mut reg);
    let (c, _rx_c) = connect(&mut reg);
    assert_eq!((a, b, c), (1, 2, 3));
}

#[test]
fn connect_disconnect_cycles_leave_no_entries_behind() {
    let mut reg = SessionRegistry::new();
    let mut receivers = Vec::new();
    let mut open_ids = Vec::new();
    for round in 0..10u64 {
        let (id, rx) = connect(&mut reg);
        receivers.push(rx);
        open_ids.push(id);
        if round % 3 == 0 {
            let victim = open_ids.remove(0);
            reg.deregister(victim);
        }
    }
    assert_eq!(reg.client_count(), open_ids.len());
    for id in open_ids {
        reg.deregister(id);
    }
    assert_eq!(reg.client_count(), 0);
    // Deregistering twice, or an id that never existed, changes nothing.
    reg.deregister(1);
    reg.deregister(999);
    assert_eq!(reg.client_count(), 0);
}

#[test]
fn ids_are_not_reused_after_disconnect() {
    let mut reg = SessionRegistry::new();
    let (a, _rx_a) = connect(&mut reg);
    reg.deregister(a);
    let (b, _rx_b) = connect(&mut reg);
    assert_ne!(a, b);
    assert_eq!(b, 2);
}

#[test]
fn broadcast_reaches_every_client_once() {
    let mut reg = SessionRegistry::new();
    let (a, mut rx_a) = connect(&mut reg);
    let (b, mut rx_b) = connect(&mut reg);
    let frame = vec![1u8, 2, 3];
    let sent = reg.broadcast_frame(&frame);
    assert_eq!(sent, vec![a, b]);
    assert_eq!(rx_a.try_recv().unwrap(), frame);
    assert_eq!(rx_b.try_recv().unwrap(), frame);
    assert!(rx_a.try_recv().is_err());
    assert!(rx_b.try_recv().is_err());
}

#[test]
fn broadcast_skips_nobody_but_tolerates_closed_channels() {
    let mut reg = SessionRegistry::new();
    let (a, rx_a) = connect(&mut reg);
    let (b, mut rx_b) = connect(&mut reg);
    drop(rx_a);
    let frame = vec![9u8];
    let sent = reg.broadcast_frame(&frame);
    // Best-effort: the closed channel is still offered the frame and the
    // failure affects nobody else.
    assert_eq!(sent, vec![a, b]);
    assert_eq!(rx_b.try_recv().unwrap(), frame);
}

#[test]
fn relay_reaches_everyone_but_the_sender() {
    let mut reg = SessionRegistry::new();
    let (a, mut rx_a) = connect(&mut reg);
    let (b, mut rx_b) = connect(&mut reg);
    let (c, mut rx_c) = connect(&mut reg);
    let frame = vec![7u8];
    let sent = reg.relay_frame(b, &frame);
    assert_eq!(sent, vec![a, c]);
    assert_eq!(rx_a.try_recv().unwrap(), frame);
    assert!(rx_b.try_recv().is_err());
    assert_eq!(rx_c.try_recv().unwrap(), frame);
}

#[test]
fn broadcast_request_is_relayed_and_never_echoed() {
    let mut reg = SessionRegistry::new();
    let (a, mut rx_a) = connect(&mut reg);
    let (b, mut rx_b) = connect(&mut reg);
    let (c, mut rx_c) = connect(&mut reg);
    let frame = encode_map3("broadcast", "hello all", "r1").unwrap();
    let out = handle_frame(&reg, a, &frame);
    match out {
        FrameOutcome::Relayed { recipients } => assert_eq!(recipients, vec![b, c]),
        _ => panic!("expected a relay"),
    }
    assert!(rx_a.try_recv().is_err());
    let relayed_b = rx_b.try_recv().unwrap();
    let relayed_c = rx_c.try_recv().unwrap();
    assert_eq!(relayed_b, relayed_c);
    // The relayed frame carries the body, the sender's id and the
    // correlation id.
    let expected = live_update::protocol::encode_relay("hello all", a, "r1").unwrap();
    assert_eq!(relayed_b, expected);
}

#[test]
fn cmd_request_round_trip() {
    let mut reg = SessionRegistry::new();
    let (a, mut rx_a) = connect(&mut reg);
    let (_b, mut rx_b) = connect(&mut reg);
    let frame = encode_map3("cmd", "echo hi", "x1").unwrap();
    let out = handle_frame(&reg, a, &frame);
    let (command, request_id) = match out {
        FrameOutcome::ExecuteCommand { command, request_id } => (command, request_id),
        _ => panic!("expected a command"),
    };
    assert_eq!(command, "echo hi");
    assert_eq!(request_id, "x1");
    // Nothing was pushed to anyone by the request itself.
    assert!(rx_a.try_recv().is_err());
    assert!(rx_b.try_recv().is_err());
    // The surrounding process runs the shell; here it exited zero with
    // stdout "hi\n".
    let result = interpret_output(true, &b"hi\n".to_vec(), &Vec::new());
    let stdout = result.unwrap();
    assert_eq!(stdout, "hi\n");
    let reply = encode_cmd_result(&stdout, &request_id).unwrap();
    // The requester alone receives it, and reads back its own id.
    let decoded = decode_request(&reply).unwrap();
    assert_eq!(decoded.kind, "cmd_result");
    assert_eq!(decoded.payload, "hi\n");
    assert_eq!(decoded.request_id, "x1");
}

#[test]
fn unknown_kinds_are_ignored_and_bad_frames_are_fatal() {
    let mut reg = SessionRegistry::new();
    let (a, _rx_a) = connect(&mut reg);
    let frame = encode_map3("subscribe", "x", "r9").unwrap();
    assert!(matches!(handle_frame(&reg, a, &frame), FrameOutcome::Ignored));
    assert!(matches!(handle_frame(&reg, a, &[0x01, 0x02]), FrameOutcome::ProtocolError));
}

#[test]
fn two_edits_within_the_window_push_one_style_update_to_both_clients() {
    // The end-to-end path: two modifications of /proj/src/app.css arrive
    // 100ms apart; exactly one StyleUpdate for src/app.css is emitted, and
    // both connected clients receive the css-update push for /src/app.css.
    let mut store = DebounceStore::new();
    let paths = vec!["/proj/src/app.css".to_string()];
    let mut events = process_raw_event(&mut store, "/proj", RawEventKind::Modify, &paths, 0, 250);
    let later = process_raw_event(&mut store, "/proj", RawEventKind::Modify, &paths, 100, 250);
    assert_eq!(events.len(), 1);
    assert_eq!(later.len(), 0);
    let event = events.pop().unwrap();
    match &event {
        WatcherEvent::HmrCssUpdate { path } => assert_eq!(path, "src/app.css"),
        _ => panic!("expected a style update"),
    }
    let mut reg = SessionRegistry::new();
    let (a, mut rx_a) = connect(&mut reg);
    let (b, mut rx_b) = connect(&mut reg);
    let sent = broadcast_event(&reg, event).unwrap();
    assert_eq!(sent, vec![a, b]);
    for rx in [&mut rx_a, &mut rx_b] {
        let frame = rx.try_recv().unwrap();
        let map: HashMap<String, String> = rmp_serde::from_slice(&frame).unwrap();
        assert_eq!(map["type"], "hmr::css_update");
        assert_eq!(map["body"], "/src/app.css");
    }
}
