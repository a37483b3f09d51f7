//! The message protocol on top of the wire encoding.  Outbound frames are
//! string-keyed maps: a live-update push carries `type` and `body`; a
//! command reply carries `type`, `body` and `msg_id`; a relayed broadcast
//! carries `type`, `body`, the sender's `id` and `msg_id`.  An inbound
//! client request is a three-entry map with keys `type`, `body` and
//! `msg_id`, in any order, each value a UTF-8 string.

use vstd::prelude::*;
use vstd::string::StringSliceAdditionalSpecFns;
use vstd::utf8::{
    decode_utf8, encode_utf8, encode_utf8_decode_utf8, encode_utf8_valid_utf8, is_ascii_chars,
    is_ascii_chars_encode_utf8, valid_utf8,
};

use crate::codec::{
    bytes_eq, mp_fixmap, mp_str, mp_uint, parse_str_at, read_mp_str, str_len_fits, write_mp_fixmap,
    write_mp_str, write_mp_uint,
};
use crate::events::HmrMessage;

verus! {

/// The bytes of the wire key `type`.
pub open spec fn key_type_bytes() -> Seq<u8> {
    seq![116u8, 121u8, 112u8, 101u8]
}

/// The bytes of the wire key `body`.
pub open spec fn key_body_bytes() -> Seq<u8> {
    seq![98u8, 111u8, 100u8, 121u8]
}

/// The bytes of the wire key `id`.
pub open spec fn key_id_bytes() -> Seq<u8> {
    seq![105u8, 100u8]
}

/// The bytes of the wire key `msg_id`.
pub open spec fn key_msg_id_bytes() -> Seq<u8> {
    seq![109u8, 115u8, 103u8, 95u8, 105u8, 100u8]
}

/// The bytes of the request kind `cmd`.
pub open spec fn cmd_kind_bytes() -> Seq<u8> {
    seq![99u8, 109u8, 100u8]
}

/// The bytes of the request kind and relay type `broadcast`.
pub open spec fn broadcast_kind_bytes() -> Seq<u8> {
    seq![98u8, 114u8, 111u8, 97u8, 100u8, 99u8, 97u8, 115u8, 116u8]
}

/// The bytes of the reply type `cmd_result`.
pub open spec fn cmd_result_type_bytes() -> Seq<u8> {
    seq![99u8, 109u8, 100u8, 95u8, 114u8, 101u8, 115u8, 117u8, 108u8, 116u8]
}

/// The protocol's literal strings encode to the byte runs above.
pub proof fn lemma_key_bytes()
    ensures
        "type".spec_bytes() == key_type_bytes(),
        "body".spec_bytes() == key_body_bytes(),
        "id".spec_bytes() == key_id_bytes(),
        "msg_id".spec_bytes() == key_msg_id_bytes(),
        "cmd".spec_bytes() == cmd_kind_bytes(),
        "broadcast".spec_bytes() == broadcast_kind_bytes(),
        "cmd_result".spec_bytes() == cmd_result_type_bytes(),
{
    reveal_strlit("type");
    reveal_strlit("body");
    reveal_strlit("id");
    reveal_strlit("msg_id");
    reveal_strlit("cmd");
    reveal_strlit("broadcast");
    reveal_strlit("cmd_result");
    assert(is_ascii_chars("type"@));
    is_ascii_chars_encode_utf8("type"@);
    assert("type".spec_bytes() =~= key_type_bytes());
    assert(is_ascii_chars("body"@));
    is_ascii_chars_encode_utf8("body"@);
    assert("body".spec_bytes() =~= key_body_bytes());
    assert(is_ascii_chars("id"@));
    is_ascii_chars_encode_utf8("id"@);
    assert("id".spec_bytes() =~= key_id_bytes());
    assert(is_ascii_chars("msg_id"@));
    is_ascii_chars_encode_utf8("msg_id"@);
    assert("msg_id".spec_bytes() =~= key_msg_id_bytes());
    assert(is_ascii_chars("cmd"@));
    is_ascii_chars_encode_utf8("cmd"@);
    assert("cmd".spec_bytes() =~= cmd_kind_bytes());
    assert(is_ascii_chars("broadcast"@));
    is_ascii_chars_encode_utf8("broadcast"@);
    assert("broadcast".spec_bytes() =~= broadcast_kind_bytes());
    assert(is_ascii_chars("cmd_result"@));
    is_ascii_chars_encode_utf8("cmd_result"@);
    assert("cmd_result".spec_bytes() =~= cmd_result_type_bytes());
}

/// A live-update push frame: a two-entry map `{type: t, body: b}`.
pub open spec fn push_frame(t: Seq<u8>, b: Seq<u8>) -> Seq<u8> {
    mp_fixmap(2) + mp_str(key_type_bytes()) + mp_str(t) + mp_str(key_body_bytes()) + mp_str(b)
}

/// A three-entry map frame `{type: t, body: b, msg_id: m}`: the shape of an
/// inbound client request and of a command reply.
pub open spec fn map3_frame(t: Seq<u8>, b: Seq<u8>, m: Seq<u8>) -> Seq<u8> {
    mp_fixmap(3) + mp_str(key_type_bytes()) + mp_str(t) + mp_str(key_body_bytes()) + mp_str(b)
        + mp_str(key_msg_id_bytes()) + mp_str(m)
}

/// A relayed broadcast frame: a four-entry map
/// `{type: "broadcast", body: b, id: sender, msg_id: m}`.
pub open spec fn relay_frame(b: Seq<u8>, sender: u64, m: Seq<u8>) -> Seq<u8> {
    mp_fixmap(4) + mp_str(key_type_bytes()) + mp_str(broadcast_kind_bytes()) + mp_str(
        key_body_bytes(),
    ) + mp_str(b) + mp_str(key_id_bytes()) + mp_uint(sender) + mp_str(key_msg_id_bytes()) + mp_str(
        m,
    )
}

/// Encode the push frame for a live-update message; nothing when a field is
/// too long for the wire format.
pub fn encode_push_message(msg: &HmrMessage) -> (r: Option<Vec<u8>>)
    ensures
        r is Some <==> str_len_fits(encode_utf8(msg.msg_type@).len()) && str_len_fits(
            encode_utf8(msg.body@).len(),
        ),
        r matches Some(f) ==> f@ == push_frame(
            encode_utf8(msg.msg_type@),
            encode_utf8(msg.body@),
        ),
{
    proof {
        lemma_key_bytes();
    }
    let mut out: Vec<u8> = Vec::new();
    write_mp_fixmap(&mut out, 2);
    let ok_key_t = write_mp_str(&mut out, "type".as_bytes());
    let ok_t = write_mp_str(&mut out, msg.msg_type.as_str().as_bytes());
    if !ok_t {
        return None;
    }
    let ok_key_b = write_mp_str(&mut out, "body".as_bytes());
    let ok_b = write_mp_str(&mut out, msg.body.as_str().as_bytes());
    if !ok_b {
        return None;
    }
    proof {
        assert(out@ =~= push_frame(encode_utf8(msg.msg_type@), encode_utf8(msg.body@)));
    }
    Some(out)
}

/// Encode the three-entry map frame `{type, body, msg_id}` from the given
/// field strings; nothing when a field is too long for the wire format.
pub fn encode_map3(type_field: &str, body: &str, msg_id: &str) -> (r: Option<Vec<u8>>)
    ensures
        r is Some <==> str_len_fits(encode_utf8(type_field@).len()) && str_len_fits(
            encode_utf8(body@).len(),
        ) && str_len_fits(encode_utf8(msg_id@).len()),
        r matches Some(f) ==> f@ == map3_frame(
            encode_utf8(type_field@),
            encode_utf8(body@),
            encode_utf8(msg_id@),
        ),
{
    proof {
        lemma_key_bytes();
    }
    let mut out: Vec<u8> = Vec::new();
    write_mp_fixmap(&mut out, 3);
    let ok_key_t = write_mp_str(&mut out, "type".as_bytes());
    let ok_t = write_mp_str(&mut out, type_field.as_bytes());
    if !ok_t {
        return None;
    }
    let ok_key_b = write_mp_str(&mut out, "body".as_bytes());
    let ok_b = write_mp_str(&mut out, body.as_bytes());
    if !ok_b {
        return None;
    }
    let ok_key_m = write_mp_str(&mut out, "msg_id".as_bytes());
    let ok_m = write_mp_str(&mut out, msg_id.as_bytes());
    if !ok_m {
        return None;
    }
    proof {
        assert(out@ =~= map3_frame(
            encode_utf8(type_field@),
            encode_utf8(body@),
            encode_utf8(msg_id@),
        ));
    }
    Some(out)
}

/// Encode the command reply carrying the captured output and the request's
/// correlation id.
pub fn encode_cmd_result(body: &str, msg_id: &str) -> (r: Option<Vec<u8>>)
    ensures
        r is Some <==> str_len_fits(encode_utf8(body@).len()) && str_len_fits(
            encode_utf8(msg_id@).len(),
        ),
        r matches Some(f) ==> f@ == map3_frame(
            cmd_result_type_bytes(),
            encode_utf8(body@),
            encode_utf8(msg_id@),
        ),
{
    proof {
        lemma_key_bytes();
        reveal_strlit("cmd_result");
    }
    encode_map3("cmd_result", body, msg_id)
}

/// Encode the relay frame for a broadcast request from `sender`.
pub fn encode_relay(body: &str, sender: u64, msg_id: &str) -> (r: Option<Vec<u8>>)
    ensures
        r is Some <==> str_len_fits(encode_utf8(body@).len()) && str_len_fits(
            encode_utf8(msg_id@).len(),
        ),
        r matches Some(f) ==> f@ == relay_frame(encode_utf8(body@), sender, encode_utf8(msg_id@)),
{
    proof {
        lemma_key_bytes();
    }
    let mut out: Vec<u8> = Vec::new();
    write_mp_fixmap(&mut out, 4);
    let ok_key_t = write_mp_str(&mut out, "type".as_bytes());
    let ok_t = write_mp_str(&mut out, "broadcast".as_bytes());
    let ok_key_b = write_mp_str(&mut out, "body".as_bytes());
    let ok_b = write_mp_str(&mut out, body.as_bytes());
    if !ok_b {
        return None;
    }
    let ok_key_i = write_mp_str(&mut out, "id".as_bytes());
    write_mp_uint(&mut out, sender);
    let ok_key_m = write_mp_str(&mut out, "msg_id".as_bytes());
    let ok_m = write_mp_str(&mut out, msg_id.as_bytes());
    if !ok_m {
        return None;
    }
    proof {
        assert(out@ =~= relay_frame(encode_utf8(body@), sender, encode_utf8(msg_id@)));
    }
    Some(out)
}

/// Assign the three parsed key/value pairs to the `type`, `body` and
/// `msg_id` fields, whatever order the keys came in; nothing unless the
/// keys are exactly those three.
pub open spec fn assign_fields(
    k1: Seq<u8>,
    v1: Seq<u8>,
    k2: Seq<u8>,
    v2: Seq<u8>,
    k3: Seq<u8>,
    v3: Seq<u8>,
) -> Option<(Seq<u8>, Seq<u8>, Seq<u8>)> {
    if k1 == key_type_bytes() && k2 == key_body_bytes() && k3 == key_msg_id_bytes() {
        Some((v1, v2, v3))
    } else if k1 == key_type_bytes() && k2 == key_msg_id_bytes() && k3 == key_body_bytes() {
        Some((v1, v3, v2))
    } else if k1 == key_body_bytes() && k2 == key_type_bytes() && k3 == key_msg_id_bytes() {
        Some((v2, v1, v3))
    } else if k1 == key_body_bytes() && k2 == key_msg_id_bytes() && k3 == key_type_bytes() {
        Some((v3, v1, v2))
    } else if k1 == key_msg_id_bytes() && k2 == key_type_bytes() && k3 == key_body_bytes() {
        Some((v2, v3, v1))
    } else if k1 == key_msg_id_bytes() && k2 == key_body_bytes() && k3 == key_type_bytes() {
        Some((v3, v2, v1))
    } else {
        None
    }
}

/// Parse an inbound request frame into its raw `type`, `body` and `msg_id`
/// byte runs: a three-entry map whose keys are exactly those three, in any
/// order, each value a byte string.
pub open spec fn parse_request_fields(b: Seq<u8>) -> Option<(Seq<u8>, Seq<u8>, Seq<u8>)> {
    if b.len() >= 1 && b[0] == 0x83u8 {
        match parse_str_at(b, 1) {
            Some((k1, p1)) => match parse_str_at(b, p1) {
                Some((v1, p2)) => match parse_str_at(b, p2) {
                    Some((k2, p3)) => match parse_str_at(b, p3) {
                        Some((v2, p4)) => match parse_str_at(b, p4) {
                            Some((k3, p5)) => match parse_str_at(b, p5) {
                                Some((v3, _p6)) => assign_fields(k1, v1, k2, v2, k3, v3),
                                None => None,
                            },
                            None => None,
                        },
                        None => None,
                    },
                    None => None,
                },
                None => None,
            },
            None => None,
        }
    } else {
        None
    }
}

/// Decode an inbound request frame to its three character-string fields:
/// the parsed `type`, `body` and `msg_id` values, each of which must be
/// UTF-8.
pub open spec fn spec_decode_request(b: Seq<u8>) -> Option<(Seq<char>, Seq<char>, Seq<char>)> {
    match parse_request_fields(b) {
        Some((t, bo, m)) => if valid_utf8(t) && valid_utf8(bo) && valid_utf8(m) {
            Some((decode_utf8(t), decode_utf8(bo), decode_utf8(m)))
        } else {
            None
        },
        None => None,
    }
}

/// Encoding a request's three fields and decoding the frame gives the
/// fields back unchanged: the decoder inverts the encoder for every kind,
/// payload and correlation id that fit the wire format.
#[verifier::rlimit(100)]
pub proof fn lemma_request_round_trip(kind: Seq<char>, payload: Seq<char>, request_id: Seq<char>)
    requires
        str_len_fits(encode_utf8(kind).len()),
        str_len_fits(encode_utf8(payload).len()),
        str_len_fits(encode_utf8(request_id).len()),
    ensures
        spec_decode_request(
            map3_frame(encode_utf8(kind), encode_utf8(payload), encode_utf8(request_id)),
        ) == Some((kind, payload, request_id)),
{
    let t = encode_utf8(kind);
    let b = encode_utf8(payload);
    let m = encode_utf8(request_id);
    let frame = map3_frame(t, b, m);
    let s1 = mp_str(key_type_bytes());
    let s2 = mp_str(t);
    let s3 = mp_str(key_body_bytes());
    let s4 = mp_str(b);
    let s5 = mp_str(key_msg_id_bytes());
    let s6 = mp_str(m);
    let p1 = 1 + s1.len() as int;
    let p2 = p1 + s2.len() as int;
    let p3 = p2 + s3.len() as int;
    let p4 = p3 + s4.len() as int;
    let p5 = p4 + s5.len() as int;
    let p6 = p5 + s6.len() as int;
    assert(frame =~= mp_fixmap(3) + s1 + s2 + s3 + s4 + s5 + s6);
    assert(frame.len() == p6);
    assert(frame[0] == 0x83u8);
    assert(frame.subrange(1, p1) =~= s1);
    assert(frame.subrange(p1, p2) =~= s2);
    assert(frame.subrange(p2, p3) =~= s3);
    assert(frame.subrange(p3, p4) =~= s4);
    assert(frame.subrange(p4, p5) =~= s5);
    assert(frame.subrange(p5, p6) =~= s6);
    crate::codec::lemma_parse_mp_str(frame, 1, key_type_bytes());
    crate::codec::lemma_parse_mp_str(frame, p1, t);
    crate::codec::lemma_parse_mp_str(frame, p2, key_body_bytes());
    crate::codec::lemma_parse_mp_str(frame, p3, b);
    crate::codec::lemma_parse_mp_str(frame, p4, key_msg_id_bytes());
    crate::codec::lemma_parse_mp_str(frame, p5, m);
    assert(parse_request_fields(frame) == Some((t, b, m)));
    encode_utf8_valid_utf8(kind);
    encode_utf8_valid_utf8(payload);
    encode_utf8_valid_utf8(request_id);
    encode_utf8_decode_utf8(kind);
    encode_utf8_decode_utf8(payload);
    encode_utf8_decode_utf8(request_id);
}

/// The requester's view of a command reply: decoding the reply frame built
/// for output text `out` under correlation id `rid` yields the type
/// `cmd_result`, the output and the same id.
pub proof fn lemma_cmd_reply_round_trip(out: Seq<char>, rid: Seq<char>)
    requires
        str_len_fits(encode_utf8(out).len()),
        str_len_fits(encode_utf8(rid).len()),
    ensures
        spec_decode_request(map3_frame(cmd_result_type_bytes(), encode_utf8(out), encode_utf8(rid)))
            == Some(("cmd_result"@, out, rid)),
{
    lemma_key_bytes();
    reveal_strlit("cmd_result");
    assert(encode_utf8("cmd_result"@) == cmd_result_type_bytes());
    lemma_request_round_trip("cmd_result"@, out, rid);
}

/// An inbound client request: its kind (the wire `type`), its payload (the
/// wire `body`) and its client-chosen correlation id (the wire `msg_id`),
/// echoed back verbatim in replies.
pub struct ClientRequest {
    pub kind: String,
    pub payload: String,
    pub request_id: String,
}

/// Relies on `String::from_utf8`: it succeeds exactly on UTF-8 input, and
/// the returned string holds exactly the input bytes.
#[verifier::external_body]
fn string_from_utf8(v: Vec<u8>) -> (r: Option<String>)
    ensures
        r is Some <==> valid_utf8(v@),
        r matches Some(s) ==> encode_utf8(s@) == v@,
{
    String::from_utf8(v).ok()
}

/// Which protocol key a parsed key is: 0 for `type`, 1 for `body`, 2 for
/// `msg_id`, 3 for anything else.
fn wire_key_id(k: &Vec<u8>) -> (r: u8)
    ensures
        (r == 0) <==> k@ == key_type_bytes(),
        (r == 1) <==> k@ == key_body_bytes(),
        (r == 2) <==> k@ == key_msg_id_bytes(),
        r <= 3,
{
    proof {
        lemma_key_bytes();
        assert(key_type_bytes()[0] == 116u8 && key_body_bytes()[0] == 98u8
            && key_msg_id_bytes()[0] == 109u8);
    }
    if bytes_eq(k.as_slice(), "type".as_bytes()) {
        0
    } else if bytes_eq(k.as_slice(), "body".as_bytes()) {
        1
    } else if bytes_eq(k.as_slice(), "msg_id".as_bytes()) {
        2
    } else {
        3
    }
}

/// Decode one inbound binary frame into a client request.  Returns nothing
/// exactly when the frame is malformed: not a three-entry map with keys
/// `type`, `body` and `msg_id` and string values, or a value is not UTF-8.
pub fn decode_request(frame: &[u8]) -> (r: Option<ClientRequest>)
    ensures
        r is Some <==> spec_decode_request(frame@) is Some,
        r matches Some(req) ==> spec_decode_request(frame@) == Some(
            (req.kind@, req.payload@, req.request_id@),
        ),
{
    if frame.len() < 1 {
        return None;
    }
    if frame[0] != 0x83u8 {
        return None;
    }
    let (k1, p1) = match read_mp_str(frame, 1) {
        Some(x) => x,
        None => {
            return None;
        },
    };
    let (v1, p2) = match read_mp_str(frame, p1) {
        Some(x) => x,
        None => {
            return None;
        },
    };
    let (k2, p3) = match read_mp_str(frame, p2) {
        Some(x) => x,
        None => {
            return None;
        },
    };
    let (v2, p4) = match read_mp_str(frame, p3) {
        Some(x) => x,
        None => {
            return None;
        },
    };
    let (k3, p5) = match read_mp_str(frame, p4) {
        Some(x) => x,
        None => {
            return None;
        },
    };
    let (v3, _p6) = match read_mp_str(frame, p5) {
        Some(x) => x,
        None => {
            return None;
        },
    };
    let id1 = wire_key_id(&k1);
    let id2 = wire_key_id(&k2);
    let id3 = wire_key_id(&k3);
    let (tv, bv, mv) = if id1 == 0 && id2 == 1 && id3 == 2 {
        (v1, v2, v3)
    } else if id1 == 0 && id2 == 2 && id3 == 1 {
        (v1, v3, v2)
    } else if id1 == 1 && id2 == 0 && id3 == 2 {
        (v2, v1, v3)
    } else if id1 == 1 && id2 == 2 && id3 == 0 {
        (v3, v1, v2)
    } else if id1 == 2 && id2 == 0 && id3 == 1 {
        (v2, v3, v1)
    } else if id1 == 2 && id2 == 1 && id3 == 0 {
        (v3, v2, v1)
    } else {
        return None;
    };
    let kind = match string_from_utf8(tv) {
        Some(s) => s,
        None => {
            return None;
        },
    };
    let payload = match string_from_utf8(bv) {
        Some(s) => s,
        None => {
            return None;
        },
    };
    let request_id = match string_from_utf8(mv) {
        Some(s) => s,
        None => {
            return None;
        },
    };
    proof {
        broadcast use encode_utf8_decode_utf8;
        broadcast use encode_utf8_valid_utf8;

    }
    Some(ClientRequest { kind, payload, request_id })
}

} // verus!
