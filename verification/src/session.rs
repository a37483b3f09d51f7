//! Per-session decisions.  The connection loop around the library reads
//! inbound binary frames and hands each to `handle_frame`; relays are sent
//! to the other sessions right here, a command request is handed back for
//! the surrounding process to execute, an unknown kind is dropped, and a
//! malformed frame ends the session's read obligation.  `broadcast_event`
//! is the body of the event-broadcast task: one push frame per classified
//! change, offered to every registered client.

use vstd::prelude::*;
use vstd::utf8::encode_utf8;

use crate::codec::str_len_fits;
use crate::events::{spec_body_string, spec_type_string, HmrMessage, WatcherEvent};
use crate::protocol::{decode_request, encode_push_message, encode_relay, spec_decode_request};
use crate::registry::{spec_recipients, SessionRegistry};
use crate::strutil::str_eq;

verus! {

/// What one inbound binary frame leads to.
pub enum FrameOutcome {
    /// A `cmd` request: the surrounding process runs `command` in the shell
    /// and replies to this session alone under `request_id`.
    ExecuteCommand { command: String, request_id: String },
    /// A `broadcast` request, already relayed to the other sessions:
    /// the ids it was offered to.
    Relayed { recipients: Vec<u64> },
    /// A well-formed request of an unrecognized kind: dropped, the
    /// connection stays open.
    Ignored,
    /// A malformed frame (or one whose relay cannot be encoded): fatal to
    /// this connection's read obligation only.
    ProtocolError,
}

/// Dispatch one inbound binary frame from session `sender_id`.
///
/// A frame that does not decode is a protocol error.  A `cmd` request hands
/// the payload back as the command to execute, with the correlation id to
/// reply under.  A `broadcast` request is relayed, as a relay frame
/// carrying the payload, the sender's id and the correlation id, to every
/// other registered session.  Any other kind is ignored.
pub fn handle_frame(registry: &SessionRegistry, sender_id: u64, frame: &[u8]) -> (out:
    FrameOutcome)
    requires
        registry.wf(),
    ensures
        spec_decode_request(frame@) is None ==> out is ProtocolError,
        spec_decode_request(frame@) matches Some(f) ==> {
            let (kind, payload, request_id) = f;
            &&& (kind == "cmd"@ ==> (out matches FrameOutcome::ExecuteCommand {
                command,
                request_id: rid,
            } && command@ == payload && rid@ == request_id))
            &&& (kind == "broadcast"@ && str_len_fits(encode_utf8(payload).len()) && str_len_fits(
                encode_utf8(request_id).len(),
            ) ==> (out matches FrameOutcome::Relayed { recipients } && recipients@
                == spec_recipients(registry.client_ids(), sender_id)))
            &&& (kind == "broadcast"@ && !(str_len_fits(encode_utf8(payload).len())
                && str_len_fits(encode_utf8(request_id).len())) ==> out is ProtocolError)
            &&& (kind != "cmd"@ && kind != "broadcast"@ ==> out is Ignored)
        },
{
    proof {
        reveal_strlit("cmd");
        reveal_strlit("broadcast");
        assert("cmd"@.len() != "broadcast"@.len());
    }
    let req = match decode_request(frame) {
        Some(req) => req,
        None => {
            return FrameOutcome::ProtocolError;
        },
    };
    if str_eq(req.kind.as_str(), "cmd") {
        FrameOutcome::ExecuteCommand { command: req.payload, request_id: req.request_id }
    } else if str_eq(req.kind.as_str(), "broadcast") {
        match encode_relay(req.payload.as_str(), sender_id, req.request_id.as_str()) {
            Some(f) => {
                let recipients = registry.relay_frame(sender_id, &f);
                FrameOutcome::Relayed { recipients }
            },
            None => FrameOutcome::ProtocolError,
        }
    } else {
        FrameOutcome::Ignored
    }
}

/// Broadcast one classified change: build its push message, encode it, and
/// offer the frame to every registered client.  Returns the ids reached —
/// all of them, each once — or nothing when the message is too long for the
/// wire format (the event is dropped, as any one client's failure would
/// be).
pub fn broadcast_event(registry: &SessionRegistry, event: WatcherEvent) -> (sent: Option<Vec<
    u64,
>>)
    requires
        registry.wf(),
    ensures
        sent is Some <==> str_len_fits(encode_utf8(spec_type_string(event)).len()) && str_len_fits(
            encode_utf8(spec_body_string(event)).len(),
        ),
        sent matches Some(ids) ==> ids@ == registry.client_ids(),
{
    let msg = HmrMessage::from(event);
    match encode_push_message(&msg) {
        Some(f) => Some(registry.broadcast_frame(&f)),
        None => None,
    }
}

} // verus!
