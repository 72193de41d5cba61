//! The byte encoding of the messages: a version byte, a tag byte naming the
//! message, then its fields in order. Integers are big-endian, lengths take
//! eight bytes, strings are UTF-8, an absent value is a 0 byte and a present
//! one a 1 byte followed by the value.
use vstd::prelude::*;
use vstd::slice::slice_subrange;
use vstd::utf8::{decode_utf8, encode_utf8, valid_utf8};
use crate::frame::{encode_frame, frame_bytes, FrameError, MAX_PAYLOAD_LEN, be32, be32_value, decode_header, encode_header, lemma_be32_of_value, lemma_be32_round_trip};
use crate::message::{opt_view, AckView, ConnectionType, ConnectionTypeView, Message, MessageView, OpenControllerConnection, OpenSession, OpenSessionView, OpenVideoConnection, RequestConnection, RequestView, VideoFrame, VideoFrameView};
use crate::settings::{Controller, Heartbeat, Video, VideoView};
use crate::state::MachineState;

verus! {

/// The version of the encoding, the first byte of every payload.
pub const WIRE_VERSION: u8 = 1;

pub const TAG_REQUEST: u8 = 0;
pub const TAG_OPEN_SESSION: u8 = 1;
pub const TAG_OPEN_VIDEO: u8 = 2;
pub const TAG_OPEN_CONTROLLER: u8 = 3;
pub const TAG_VIDEO_FRAME: u8 = 4;
pub const TAG_STATE: u8 = 5;

/// Why a payload is not a message.
#[derive(Debug, Clone, Copy, PartialEq, Eq, Structural)]
pub enum DecodeError {
    Malformed,
}

// ---------------------------------------------------------------------------
// Fields: their bytes, and how bytes are read back.
#[verifier::opaque]
pub open spec fn enc_bool(x: bool) -> Seq<u8> {
    seq![if x { 1u8 } else { 0u8 }]
}

#[verifier::opaque]
pub open spec fn enc_u64(x: nat) -> Seq<u8> {
    be32(x / 4294967296) + be32(x % 4294967296)
}

#[verifier::opaque]
pub open spec fn enc_bytes(b: Seq<u8>) -> Seq<u8> {
    enc_u64(b.len()) + b
}

#[verifier::opaque]
pub open spec fn enc_str(s: Seq<char>) -> Seq<u8> {
    enc_bytes(encode_utf8(s))
}

#[verifier::opaque]
pub open spec fn enc_opt_str(o: Option<Seq<char>>) -> Seq<u8> {
    match o {
        None => seq![0u8],
        Some(s) => seq![1u8] + enc_str(s),
    }
}

#[verifier::opaque]
pub open spec fn enc_i64(x: i64) -> Seq<u8> {
    enc_u64((x as u64) as nat)
}

pub open spec fn parse_u8(b: Seq<u8>) -> Option<(u8, Seq<u8>)> {
    if b.len() >= 1 {
        Some((b[0], b.subrange(1, b.len() as int)))
    } else {
        None
    }
}

#[verifier::opaque]
pub open spec fn parse_bool(b: Seq<u8>) -> Option<(bool, Seq<u8>)> {
    if b.len() >= 1 && b[0] == 0 {
        Some((false, b.subrange(1, b.len() as int)))
    } else if b.len() >= 1 && b[0] == 1 {
        Some((true, b.subrange(1, b.len() as int)))
    } else {
        None
    }
}

#[verifier::opaque]
pub open spec fn parse_u32(b: Seq<u8>) -> Option<(u32, Seq<u8>)> {
    if b.len() >= 4 {
        Some((be32_value(b.subrange(0, 4)) as u32, b.subrange(4, b.len() as int)))
    } else {
        None
    }
}

#[verifier::opaque]
pub open spec fn parse_u64(b: Seq<u8>) -> Option<(nat, Seq<u8>)> {
    if b.len() >= 8 {
        Some(
            (
                be32_value(b.subrange(0, 4)) * 4294967296 + be32_value(b.subrange(4, 8)),
                b.subrange(8, b.len() as int),
            ),
        )
    } else {
        None
    }
}

#[verifier::opaque]
pub open spec fn parse_bytes(b: Seq<u8>) -> Option<(Seq<u8>, Seq<u8>)> {
    match parse_u64(b) {
        Some((n, r)) => if n <= r.len() {
            Some((r.subrange(0, n as int), r.subrange(n as int, r.len() as int)))
        } else {
            None
        },
        None => None,
    }
}

#[verifier::opaque]
pub open spec fn parse_str(b: Seq<u8>) -> Option<(Seq<char>, Seq<u8>)> {
    match parse_bytes(b) {
        Some((x, r)) => if valid_utf8(x) {
            Some((decode_utf8(x), r))
        } else {
            None
        },
        None => None,
    }
}

#[verifier::opaque]
pub open spec fn parse_opt_str(b: Seq<u8>) -> Option<(Option<Seq<char>>, Seq<u8>)> {
    match parse_u8(b) {
        Some((t, r)) => if t == 0 {
            Some((None, r))
        } else if t == 1 {
            match parse_str(r) {
                Some((s, r2)) => Some((Some(s), r2)),
                None => None,
            }
        } else {
            None
        },
        None => None,
    }
}

#[verifier::opaque]
pub open spec fn parse_i64(b: Seq<u8>) -> Option<(i64, Seq<u8>)> {
    match parse_u64(b) {
        Some((n, r)) => Some(((n as u64) as i64, r)),
        None => None,
    }
}

pub open spec fn str_fits(s: Seq<char>) -> bool {
    encode_utf8(s).len() <= u64::MAX
}

pub open spec fn opt_str_fits(o: Option<Seq<char>>) -> bool {
    match o {
        Some(s) => str_fits(s),
        None => true,
    }
}

proof fn lemma_u64_round_trip(x: nat, rest: Seq<u8>)
    requires
        x <= u64::MAX,
    ensures
        parse_u64(enc_u64(x) + rest) == Some((x, rest)),
{
    reveal(enc_u64);
    reveal(parse_u64);
    let hi = x / 4294967296;
    let lo = x % 4294967296;
    assert(hi <= 4294967295 && lo <= 4294967295 && hi * 4294967296 + lo == x) by (nonlinear_arith)
        requires
            x <= 18446744073709551615,
            hi == x / 4294967296,
            lo == x % 4294967296,
    ;
    lemma_be32_round_trip(hi);
    lemma_be32_round_trip(lo);
    let b = enc_u64(x) + rest;
    assert(b.subrange(0, 4) =~= be32(hi));
    assert(b.subrange(4, 8) =~= be32(lo));
    assert(b.subrange(8, b.len() as int) =~= rest);
}

proof fn lemma_u64_sound(b: Seq<u8>)
    requires
        parse_u64(b) is Some,
    ensures
        parse_u64(b).unwrap().0 <= u64::MAX,
        b == enc_u64(parse_u64(b).unwrap().0) + parse_u64(b).unwrap().1,
{
    reveal(enc_u64);
    reveal(parse_u64);
    let hi = be32_value(b.subrange(0, 4));
    let lo = be32_value(b.subrange(4, 8));
    lemma_be32_of_value(b.subrange(0, 4));
    lemma_be32_of_value(b.subrange(4, 8));
    let x = hi * 4294967296 + lo;
    assert(x / 4294967296 == hi && x % 4294967296 == lo && x <= 18446744073709551615) by (nonlinear_arith)
        requires
            x == hi * 4294967296 + lo,
            hi <= 4294967295,
            lo <= 4294967295,
    ;
    assert(b =~= enc_u64(x) + b.subrange(8, b.len() as int));
}

proof fn lemma_bytes_round_trip(x: Seq<u8>, rest: Seq<u8>)
    requires
        x.len() <= u64::MAX,
    ensures
        parse_bytes(enc_bytes(x) + rest) == Some((x, rest)),
{
    reveal(enc_bytes);
    reveal(parse_bytes);
    let b = enc_bytes(x) + rest;
    assert(b =~= enc_u64(x.len()) + (x + rest));
    lemma_u64_round_trip(x.len(), x + rest);
    assert((x + rest).subrange(0, x.len() as int) =~= x);
    assert((x + rest).subrange(x.len() as int, (x + rest).len() as int) =~= rest);
}

proof fn lemma_bytes_sound(b: Seq<u8>)
    requires
        parse_bytes(b) is Some,
    ensures
        parse_bytes(b).unwrap().0.len() <= u64::MAX,
        b == enc_bytes(parse_bytes(b).unwrap().0) + parse_bytes(b).unwrap().1,
{
    reveal(enc_bytes);
    reveal(parse_bytes);
    lemma_u64_sound(b);
    let (n, r) = parse_u64(b).unwrap();
    assert(r =~= r.subrange(0, n as int) + r.subrange(n as int, r.len() as int));
    assert(b =~= enc_bytes(r.subrange(0, n as int)) + r.subrange(n as int, r.len() as int));
}

proof fn lemma_str_round_trip(s: Seq<char>, rest: Seq<u8>)
    requires
        str_fits(s),
    ensures
        parse_str(enc_str(s) + rest) == Some((s, rest)),
{
    reveal(enc_str);
    reveal(parse_str);
    lemma_bytes_round_trip(encode_utf8(s), rest);
    vstd::utf8::encode_utf8_valid_utf8(s);
    vstd::utf8::encode_utf8_decode_utf8(s);
}

proof fn lemma_str_sound(b: Seq<u8>)
    requires
        parse_str(b) is Some,
    ensures
        str_fits(parse_str(b).unwrap().0),
        b == enc_str(parse_str(b).unwrap().0) + parse_str(b).unwrap().1,
{
    reveal(enc_str);
    reveal(parse_str);
    lemma_bytes_sound(b);
    vstd::utf8::decode_utf8_encode_utf8(parse_bytes(b).unwrap().0);
}

proof fn lemma_opt_str_round_trip(o: Option<Seq<char>>, rest: Seq<u8>)
    requires
        opt_str_fits(o),
    ensures
        parse_opt_str(enc_opt_str(o) + rest) == Some((o, rest)),
{
    reveal(enc_opt_str);
    reveal(parse_opt_str);
    let b = enc_opt_str(o) + rest;
    match o {
        None => {
            assert(b.subrange(1, b.len() as int) =~= rest);
        },
        Some(s) => {
            assert(b.subrange(1, b.len() as int) =~= enc_str(s) + rest);
            lemma_str_round_trip(s, rest);
        },
    }
}

proof fn lemma_opt_str_sound(b: Seq<u8>)
    requires
        parse_opt_str(b) is Some,
    ensures
        opt_str_fits(parse_opt_str(b).unwrap().0),
        b == enc_opt_str(parse_opt_str(b).unwrap().0) + parse_opt_str(b).unwrap().1,
{
    reveal(enc_opt_str);
    reveal(parse_opt_str);
    let r = b.subrange(1, b.len() as int);
    if b[0] == 0 {
        assert(b =~= seq![0u8] + r);
    } else {
        lemma_str_sound(r);
        assert(b =~= seq![1u8] + r);
    }
}

proof fn lemma_i64_round_trip(x: i64, rest: Seq<u8>)
    ensures
        parse_i64(enc_i64(x) + rest) == Some((x, rest)),
{
    reveal(enc_i64);
    reveal(parse_i64);
    lemma_u64_round_trip((x as u64) as nat, rest);
    assert(((x as u64) as i64) == x) by (bit_vector);
}

proof fn lemma_i64_sound(b: Seq<u8>)
    requires
        parse_i64(b) is Some,
    ensures
        b == enc_i64(parse_i64(b).unwrap().0) + parse_i64(b).unwrap().1,
{
    reveal(enc_i64);
    reveal(parse_i64);
    lemma_u64_sound(b);
    let n = parse_u64(b).unwrap().0;
    let u = n as u64;
    assert(((u as i64) as u64) == u) by (bit_vector);
}

// ---------------------------------------------------------------------------
// Messages.
pub open spec fn enc_conn_type(c: ConnectionTypeView) -> Seq<u8> {
    match c {
        ConnectionTypeView::Session(h) => seq![0u8, h.interval, h.missed_beats],
        ConnectionTypeView::Video(v) => seq![1u8] + enc_str(v.device) + be32(
            v.resolution.0 as nat,
        ) + be32(v.resolution.1 as nat) + seq![v.max_framerate],
        ConnectionTypeView::Controller(_) => seq![2u8],
    }
}

pub open spec fn enc_ack(a: AckView) -> Seq<u8> {
    enc_bool(a.ok) + enc_opt_str(a.error)
}

pub open spec fn bool_byte(x: bool) -> u8 {
    if x {
        1
    } else {
        0
    }
}

pub open spec fn enc_state(s: MachineState) -> Seq<u8> {
    seq![
        bool_byte(s.forward),
        bool_byte(s.backward),
        bool_byte(s.left),
        bool_byte(s.right),
        bool_byte(s.lamp_enabled),
    ]
}

/// The fields of a message, after its tag.
pub open spec fn enc_body(m: MessageView) -> Seq<u8> {
    match m {
        MessageView::Request(r) => enc_str(r.token) + enc_opt_str(r.session_id) + enc_conn_type(
            r.conn_type,
        ),
        MessageView::OpenSession(o) => enc_bool(o.ok) + enc_opt_str(o.session_id) + enc_opt_str(
            o.error,
        ),
        MessageView::OpenVideo(a) => enc_ack(a),
        MessageView::OpenController(a) => enc_ack(a),
        MessageView::VideoFrame(f) => enc_bytes(f.data) + enc_i64(f.timestamp_ms),
        MessageView::State(s) => enc_state(s),
    }
}

pub open spec fn tag_of(m: MessageView) -> u8 {
    match m {
        MessageView::Request(_) => TAG_REQUEST,
        MessageView::OpenSession(_) => TAG_OPEN_SESSION,
        MessageView::OpenVideo(_) => TAG_OPEN_VIDEO,
        MessageView::OpenController(_) => TAG_OPEN_CONTROLLER,
        MessageView::VideoFrame(_) => TAG_VIDEO_FRAME,
        MessageView::State(_) => TAG_STATE,
    }
}

/// The payload that carries `m`.
pub open spec fn message_bytes(m: MessageView) -> Seq<u8> {
    seq![WIRE_VERSION, tag_of(m)] + enc_body(m)
}

/// Every string and byte string of `m` has a length that its length field
/// can hold.
pub open spec fn encodable(m: MessageView) -> bool {
    match m {
        MessageView::Request(r) => str_fits(r.token) && opt_str_fits(r.session_id) && match r.conn_type {
            ConnectionTypeView::Video(v) => str_fits(v.device),
            _ => true,
        },
        MessageView::OpenSession(o) => opt_str_fits(o.session_id) && opt_str_fits(o.error),
        MessageView::OpenVideo(a) => opt_str_fits(a.error),
        MessageView::OpenController(a) => opt_str_fits(a.error),
        MessageView::VideoFrame(f) => f.data.len() <= u64::MAX,
        MessageView::State(_) => true,
    }
}

pub open spec fn parse_conn_type(b: Seq<u8>) -> Option<(ConnectionTypeView, Seq<u8>)> {
    match parse_u8(b) {
        Some((t, r)) => if t == 0 {
            match parse_u8(r) {
                Some((i, r2)) => match parse_u8(r2) {
                    Some((m, r3)) => Some(
                        (ConnectionTypeView::Session(Heartbeat { interval: i, missed_beats: m }), r3),
                    ),
                    None => None,
                },
                None => None,
            }
        } else if t == 1 {
            match parse_str(r) {
                Some((d, r2)) => match parse_u32(r2) {
                    Some((w, r3)) => match parse_u32(r3) {
                        Some((h, r4)) => match parse_u8(r4) {
                            Some((f, r5)) => Some(
                                (
                                    ConnectionTypeView::Video(
                                        VideoView { device: d, resolution: (w, h), max_framerate: f },
                                    ),
                                    r5,
                                ),
                            ),
                            None => None,
                        },
                        None => None,
                    },
                    None => None,
                },
                None => None,
            }
        } else if t == 2 {
            Some((ConnectionTypeView::Controller(Controller {  }), r))
        } else {
            None
        },
        None => None,
    }
}

pub open spec fn parse_ack(b: Seq<u8>) -> Option<(AckView, Seq<u8>)> {
    match parse_bool(b) {
        Some((ok, r)) => match parse_opt_str(r) {
            Some((e, r2)) => Some((AckView { ok: ok, error: e }, r2)),
            None => None,
        },
        None => None,
    }
}

pub open spec fn parse_state(b: Seq<u8>) -> Option<(MachineState, Seq<u8>)> {
    if b.len() >= 5 && b[0] <= 1 && b[1] <= 1 && b[2] <= 1 && b[3] <= 1 && b[4] <= 1 {
        Some(
            (
                MachineState {
                    forward: b[0] == 1,
                    backward: b[1] == 1,
                    left: b[2] == 1,
                    right: b[3] == 1,
                    lamp_enabled: b[4] == 1,
                },
                b.subrange(5, b.len() as int),
            ),
        )
    } else {
        None
    }
}

/// The fields of a message with tag `tag`, read from the front of `b`.
pub open spec fn parse_body(tag: u8, b: Seq<u8>) -> Option<(MessageView, Seq<u8>)> {
    if tag == TAG_REQUEST {
        match parse_str(b) {
            Some((tok, r1)) => match parse_opt_str(r1) {
                Some((sid, r2)) => match parse_conn_type(r2) {
                    Some((c, r3)) => Some(
                        (
                            MessageView::Request(
                                RequestView { token: tok, session_id: sid, conn_type: c },
                            ),
                            r3,
                        ),
                    ),
                    None => None,
                },
                None => None,
            },
            None => None,
        }
    } else if tag == TAG_OPEN_SESSION {
        match parse_bool(b) {
            Some((ok, r1)) => match parse_opt_str(r1) {
                Some((sid, r2)) => match parse_opt_str(r2) {
                    Some((e, r3)) => Some(
                        (
                            MessageView::OpenSession(
                                OpenSessionView { ok: ok, session_id: sid, error: e },
                            ),
                            r3,
                        ),
                    ),
                    None => None,
                },
                None => None,
            },
            None => None,
        }
    } else if tag == TAG_OPEN_VIDEO {
        match parse_ack(b) {
            Some((a, r)) => Some((MessageView::OpenVideo(a), r)),
            None => None,
        }
    } else if tag == TAG_OPEN_CONTROLLER {
        match parse_ack(b) {
            Some((a, r)) => Some((MessageView::OpenController(a), r)),
            None => None,
        }
    } else if tag == TAG_VIDEO_FRAME {
        match parse_bytes(b) {
            Some((d, r1)) => match parse_i64(r1) {
                Some((ts, r2)) => Some(
                    (MessageView::VideoFrame(VideoFrameView { data: d, timestamp_ms: ts }), r2),
                ),
                None => None,
            },
            None => None,
        }
    } else if tag == TAG_STATE {
        match parse_state(b) {
            Some((s, r)) => Some((MessageView::State(s), r)),
            None => None,
        }
    } else {
        None
    }
}

/// The message that a whole payload holds: the version must match, and no
/// byte may follow the last field.
pub open spec fn parse_message(b: Seq<u8>) -> Option<MessageView> {
    if b.len() >= 2 && b[0] == WIRE_VERSION {
        match parse_body(b[1], b.subrange(2, b.len() as int)) {
            Some((m, r)) => if r.len() == 0 {
                Some(m)
            } else {
                None
            },
            None => None,
        }
    } else {
        None
    }
}

proof fn lemma_u8_round_trip(x: u8, rest: Seq<u8>)
    ensures
        parse_u8(seq![x] + rest) == Some((x, rest)),
{
    assert((seq![x] + rest).subrange(1, rest.len() + 1 as int) =~= rest);
}

proof fn lemma_bool_round_trip(x: bool, rest: Seq<u8>)
    ensures
        parse_bool(enc_bool(x) + rest) == Some((x, rest)),
{
    reveal(enc_bool);
    reveal(parse_bool);
    assert((enc_bool(x) + rest).subrange(1, rest.len() + 1 as int) =~= rest);
}

proof fn lemma_bool_sound(b: Seq<u8>)
    requires
        parse_bool(b) is Some,
    ensures
        b == enc_bool(parse_bool(b).unwrap().0) + parse_bool(b).unwrap().1,
{
    reveal(enc_bool);
    reveal(parse_bool);
    assert(b =~= enc_bool(parse_bool(b).unwrap().0) + parse_bool(b).unwrap().1);
}

proof fn lemma_u32_round_trip(x: u32, rest: Seq<u8>)
    ensures
        parse_u32(be32(x as nat) + rest) == Some((x, rest)),
{
    reveal(parse_u32);
    lemma_be32_round_trip(x as nat);
    let b = be32(x as nat) + rest;
    assert(b.subrange(0, 4) =~= be32(x as nat));
    assert(b.subrange(4, b.len() as int) =~= rest);
}

proof fn lemma_u32_sound(b: Seq<u8>)
    requires
        parse_u32(b) is Some,
    ensures
        b == be32(parse_u32(b).unwrap().0 as nat) + parse_u32(b).unwrap().1,
{
    reveal(parse_u32);
    lemma_be32_of_value(b.subrange(0, 4));
    assert(b =~= b.subrange(0, 4) + b.subrange(4, b.len() as int));
}

proof fn lemma_conn_type_round_trip(c: ConnectionTypeView, rest: Seq<u8>)
    requires
        c matches ConnectionTypeView::Video(v) ==> str_fits(v.device),
    ensures
        parse_conn_type(enc_conn_type(c) + rest) == Some((c, rest)),
{
    let b = enc_conn_type(c) + rest;
    match c {
        ConnectionTypeView::Session(h) => {
            assert(b =~= seq![0u8] + (seq![h.interval] + (seq![h.missed_beats] + rest)));
            lemma_u8_round_trip(0u8, seq![h.interval] + (seq![h.missed_beats] + rest));
            lemma_u8_round_trip(h.interval, seq![h.missed_beats] + rest);
            lemma_u8_round_trip(h.missed_beats, rest);
        },
        ConnectionTypeView::Video(v) => {
            let (w, h) = v.resolution;
            let r4 = seq![v.max_framerate] + rest;
            let r3 = be32(h as nat) + r4;
            let r2 = be32(w as nat) + r3;
            let r1 = enc_str(v.device) + r2;
            assert(b =~= seq![1u8] + r1);
            lemma_u8_round_trip(1u8, r1);
            lemma_str_round_trip(v.device, r2);
            lemma_u32_round_trip(w, r3);
            lemma_u32_round_trip(h, r4);
            lemma_u8_round_trip(v.max_framerate, rest);
        },
        ConnectionTypeView::Controller(_) => {
            lemma_u8_round_trip(2u8, rest);
        },
    }
}

proof fn lemma_conn_type_sound(b: Seq<u8>)
    requires
        parse_conn_type(b) is Some,
    ensures
        (parse_conn_type(b).unwrap().0 matches ConnectionTypeView::Video(v) ==> str_fits(v.device)),
        b == enc_conn_type(parse_conn_type(b).unwrap().0) + parse_conn_type(b).unwrap().1,
{
    let (c, rest) = parse_conn_type(b).unwrap();
    let r = b.subrange(1, b.len() as int);
    match c {
        ConnectionTypeView::Session(h) => {
            assert(b =~= enc_conn_type(c) + rest);
        },
        ConnectionTypeView::Video(v) => {
            lemma_str_sound(r);
            let r2 = parse_str(r).unwrap().1;
            lemma_u32_sound(r2);
            let r3 = parse_u32(r2).unwrap().1;
            lemma_u32_sound(r3);
            let r4 = parse_u32(r3).unwrap().1;
            assert(r4 =~= seq![r4[0]] + rest);
            assert(b =~= seq![1u8] + r);
            assert(r == enc_str(v.device) + r2);
            assert(r2 == be32(v.resolution.0 as nat) + r3);
            assert(r3 == be32(v.resolution.1 as nat) + r4);
            assert(r4[0] == v.max_framerate);
            assert(b =~= enc_conn_type(c) + rest);
        },
        ConnectionTypeView::Controller(_) => {
            assert(b =~= enc_conn_type(c) + rest);
        },
    }
}

proof fn lemma_ack_round_trip(a: AckView, rest: Seq<u8>)
    requires
        opt_str_fits(a.error),
    ensures
        parse_ack(enc_ack(a) + rest) == Some((a, rest)),
{
    let r1 = enc_opt_str(a.error) + rest;
    assert(enc_ack(a) + rest =~= enc_bool(a.ok) + r1);
    lemma_bool_round_trip(a.ok, r1);
    lemma_opt_str_round_trip(a.error, rest);
}

proof fn lemma_ack_sound(b: Seq<u8>)
    requires
        parse_ack(b) is Some,
    ensures
        opt_str_fits(parse_ack(b).unwrap().0.error),
        b == enc_ack(parse_ack(b).unwrap().0) + parse_ack(b).unwrap().1,
{
    lemma_bool_sound(b);
    let r1 = parse_bool(b).unwrap().1;
    lemma_opt_str_sound(r1);
    assert(b =~= enc_ack(parse_ack(b).unwrap().0) + parse_ack(b).unwrap().1);
}

proof fn lemma_state_round_trip(s: MachineState, rest: Seq<u8>)
    ensures
        parse_state(enc_state(s) + rest) == Some((s, rest)),
{
    let b = enc_state(s) + rest;
    assert(b.subrange(5, b.len() as int) =~= rest);
}

proof fn lemma_state_sound(b: Seq<u8>)
    requires
        parse_state(b) is Some,
    ensures
        b == enc_state(parse_state(b).unwrap().0) + parse_state(b).unwrap().1,
{
    assert(b =~= enc_state(parse_state(b).unwrap().0) + parse_state(b).unwrap().1);
}

proof fn lemma_body_round_trip(m: MessageView, rest: Seq<u8>)
    requires
        encodable(m),
    ensures
        parse_body(tag_of(m), enc_body(m) + rest) == Some((m, rest)),
{
    match m {
        MessageView::Request(r) => {
            let r2 = enc_conn_type(r.conn_type) + rest;
            let r1 = enc_opt_str(r.session_id) + r2;
            assert(enc_body(m) + rest =~= enc_str(r.token) + r1);
            lemma_str_round_trip(r.token, r1);
            lemma_opt_str_round_trip(r.session_id, r2);
            lemma_conn_type_round_trip(r.conn_type, rest);
        },
        MessageView::OpenSession(o) => {
            let r2 = enc_opt_str(o.error) + rest;
            let r1 = enc_opt_str(o.session_id) + r2;
            assert(enc_body(m) + rest =~= enc_bool(o.ok) + r1);
            lemma_bool_round_trip(o.ok, r1);
            lemma_opt_str_round_trip(o.session_id, r2);
            lemma_opt_str_round_trip(o.error, rest);
        },
        MessageView::OpenVideo(a) => {
            lemma_ack_round_trip(a, rest);
        },
        MessageView::OpenController(a) => {
            lemma_ack_round_trip(a, rest);
        },
        MessageView::VideoFrame(f) => {
            let r1 = enc_i64(f.timestamp_ms) + rest;
            assert(enc_body(m) + rest =~= enc_bytes(f.data) + r1);
            lemma_bytes_round_trip(f.data, r1);
            lemma_i64_round_trip(f.timestamp_ms, rest);
        },
        MessageView::State(s) => {
            lemma_state_round_trip(s, rest);
        },
    }
}

proof fn lemma_request_sound(b: Seq<u8>)
    requires
        parse_body(TAG_REQUEST, b) is Some,
    ensures
        encodable(parse_body(TAG_REQUEST, b).unwrap().0),
        b == enc_body(parse_body(TAG_REQUEST, b).unwrap().0) + parse_body(TAG_REQUEST, b).unwrap().1,
{
    lemma_str_sound(b);
    let r1 = parse_str(b).unwrap().1;
    lemma_opt_str_sound(r1);
    let r2 = parse_opt_str(r1).unwrap().1;
    lemma_conn_type_sound(r2);
    let (m, rest) = parse_body(TAG_REQUEST, b).unwrap();
    assert(b =~= enc_body(m) + rest);
}

proof fn lemma_open_session_sound(b: Seq<u8>)
    requires
        parse_body(TAG_OPEN_SESSION, b) is Some,
    ensures
        encodable(parse_body(TAG_OPEN_SESSION, b).unwrap().0),
        b == enc_body(parse_body(TAG_OPEN_SESSION, b).unwrap().0) + parse_body(
            TAG_OPEN_SESSION,
            b,
        ).unwrap().1,
{
    lemma_bool_sound(b);
    let r1 = parse_bool(b).unwrap().1;
    lemma_opt_str_sound(r1);
    let r2 = parse_opt_str(r1).unwrap().1;
    lemma_opt_str_sound(r2);
    let (m, rest) = parse_body(TAG_OPEN_SESSION, b).unwrap();
    assert(b =~= enc_body(m) + rest);
}

proof fn lemma_video_frame_sound(b: Seq<u8>)
    requires
        parse_body(TAG_VIDEO_FRAME, b) is Some,
    ensures
        encodable(parse_body(TAG_VIDEO_FRAME, b).unwrap().0),
        b == enc_body(parse_body(TAG_VIDEO_FRAME, b).unwrap().0) + parse_body(
            TAG_VIDEO_FRAME,
            b,
        ).unwrap().1,
{
    lemma_bytes_sound(b);
    let r1 = parse_bytes(b).unwrap().1;
    lemma_i64_sound(r1);
    let (m, rest) = parse_body(TAG_VIDEO_FRAME, b).unwrap();
    assert(b =~= enc_body(m) + rest);
}

proof fn lemma_body_sound(tag: u8, b: Seq<u8>)
    requires
        parse_body(tag, b) is Some,
    ensures
        encodable(parse_body(tag, b).unwrap().0),
        tag_of(parse_body(tag, b).unwrap().0) == tag,
        b == enc_body(parse_body(tag, b).unwrap().0) + parse_body(tag, b).unwrap().1,
{
    if tag == TAG_REQUEST {
        lemma_request_sound(b);
    } else if tag == TAG_OPEN_SESSION {
        lemma_open_session_sound(b);
    } else if tag == TAG_OPEN_VIDEO || tag == TAG_OPEN_CONTROLLER {
        lemma_ack_sound(b);
    } else if tag == TAG_VIDEO_FRAME {
        lemma_video_frame_sound(b);
    } else {
        lemma_state_sound(b);
    }
}

/// Decoding undoes encoding: the payload of an encodable message reads back
/// as that message.
pub proof fn lemma_message_round_trip(m: MessageView)
    requires
        encodable(m),
    ensures
        parse_message(message_bytes(m)) == Some(m),
{
    let b = message_bytes(m);
    assert(b.subrange(2, b.len() as int) =~= enc_body(m) + Seq::<u8>::empty());
    lemma_body_round_trip(m, Seq::empty());
}

/// Only the payload of a message reads back as it: what a payload decodes
/// to is encoded as exactly that payload.
pub proof fn lemma_message_sound(b: Seq<u8>)
    requires
        parse_message(b) is Some,
    ensures
        encodable(parse_message(b).unwrap()),
        message_bytes(parse_message(b).unwrap()) == b,
{
    let body = b.subrange(2, b.len() as int);
    lemma_body_sound(b[1], body);
    assert(b =~= seq![b[0], b[1]] + body);
    assert(body =~= enc_body(parse_message(b).unwrap()));
}

/// Two messages with the same payload are the same message.
pub proof fn lemma_message_bytes_injective(m1: MessageView, m2: MessageView)
    requires
        encodable(m1),
        encodable(m2),
        message_bytes(m1) == message_bytes(m2),
    ensures
        m1 == m2,
{
    lemma_message_round_trip(m1);
    lemma_message_round_trip(m2);
}

// ---------------------------------------------------------------------------
// Writing.
/// Relies on String::from_utf8: it accepts exactly the valid UTF-8 byte
/// strings and reads the characters that they encode.
#[verifier::external_body]
fn string_from_utf8(bytes: Vec<u8>) -> (r: Option<String>)
    ensures
        r matches Some(s) ==> valid_utf8(bytes@) && s@ == decode_utf8(bytes@),
        r is None ==> !valid_utf8(bytes@),
{
    String::from_utf8(bytes).ok()
}

fn append_bytes(out: &mut Vec<u8>, b: &[u8])
    ensures
        final(out)@ == old(out)@ + b@,
{
    let ghost start = out@;
    let mut i: usize = 0;
    while i < b.len()
        invariant
            0 <= i <= b@.len(),
            out@ == start + b@.subrange(0, i as int),
        decreases b@.len() - i,
    {
        out.push(b[i]);
        i = i + 1;
        assert(out@ =~= start + b@.subrange(0, i as int));
    }
    assert(b@.subrange(0, b@.len() as int) =~= b@);
}

fn write_u8(out: &mut Vec<u8>, x: u8)
    ensures
        final(out)@ == old(out)@ + seq![x],
{
    out.push(x);
}

fn write_bool(out: &mut Vec<u8>, x: bool)
    ensures
        final(out)@ == old(out)@ + enc_bool(x),
{
    reveal(enc_bool);
    out.push(if x { 1u8 } else { 0u8 });
}

fn write_u32(out: &mut Vec<u8>, x: u32)
    ensures
        final(out)@ == old(out)@ + be32(x as nat),
{
    let h = encode_header(x);
    append_bytes(out, &h);
}

fn write_u64(out: &mut Vec<u8>, x: u64)
    ensures
        final(out)@ == old(out)@ + enc_u64(x as nat),
{
    reveal(enc_u64);
    write_u32(out, (x / 4294967296) as u32);
    write_u32(out, (x % 4294967296) as u32);
    assert(final(out)@ =~= old(out)@ + enc_u64(x as nat));
}

fn write_bytes(out: &mut Vec<u8>, b: &[u8])
    ensures
        final(out)@ == old(out)@ + enc_bytes(b@),
        b@.len() <= u64::MAX,
{
    reveal(enc_bytes);
    let n = b.len();
    write_u64(out, n as u64);
    append_bytes(out, b);
    assert(final(out)@ =~= old(out)@ + enc_bytes(b@));
}

fn write_str(out: &mut Vec<u8>, s: &str)
    ensures
        final(out)@ == old(out)@ + enc_str(s@),
        str_fits(s@),
{
    reveal(enc_str);
    write_bytes(out, s.as_bytes());
}

fn write_opt_str(out: &mut Vec<u8>, o: &Option<String>)
    ensures
        final(out)@ == old(out)@ + enc_opt_str(opt_view(*o)),
        opt_str_fits(opt_view(*o)),
{
    reveal(enc_opt_str);
    match o {
        None => {
            write_u8(out, 0);
        },
        Some(s) => {
            write_u8(out, 1);
            write_str(out, s.as_str());
            assert(final(out)@ =~= old(out)@ + enc_opt_str(opt_view(*o)));
        },
    }
}

fn write_i64(out: &mut Vec<u8>, x: i64)
    ensures
        final(out)@ == old(out)@ + enc_i64(x),
{
    reveal(enc_i64);
    write_u64(out, x as u64);
}

fn write_conn_type(out: &mut Vec<u8>, c: &ConnectionType)
    ensures
        final(out)@ == old(out)@ + enc_conn_type(c@),
        c@ matches ConnectionTypeView::Video(v) ==> str_fits(v.device),
{
    match c {
        ConnectionType::Session(h) => {
            write_u8(out, 0);
            write_u8(out, h.interval);
            write_u8(out, h.missed_beats);
        },
        ConnectionType::Video(v) => {
            write_u8(out, 1);
            write_str(out, v.device.as_str());
            write_u32(out, v.resolution.0);
            write_u32(out, v.resolution.1);
            write_u8(out, v.max_framerate);
        },
        ConnectionType::Controller(_) => {
            write_u8(out, 2);
        },
    }
    assert(final(out)@ =~= old(out)@ + enc_conn_type(c@));
}

fn write_ack(out: &mut Vec<u8>, ok: bool, error: &Option<String>)
    ensures
        final(out)@ == old(out)@ + enc_ack(AckView { ok: ok, error: opt_view(*error) }),
        opt_str_fits(opt_view(*error)),
{
    write_bool(out, ok);
    write_opt_str(out, error);
    assert(final(out)@ =~= old(out)@ + enc_ack(AckView { ok: ok, error: opt_view(*error) }));
}

fn write_state(out: &mut Vec<u8>, s: &MachineState)
    ensures
        final(out)@ == old(out)@ + enc_state(*s),
{
    let bytes: [u8; 5] = [
        if s.forward { 1 } else { 0 },
        if s.backward { 1 } else { 0 },
        if s.left { 1 } else { 0 },
        if s.right { 1 } else { 0 },
        if s.lamp_enabled { 1 } else { 0 },
    ];
    assert(bytes@ =~= enc_state(*s));
    append_bytes(out, &bytes);
}

/// The payload that carries `m`.
pub fn encode_message(m: &Message) -> (r: Vec<u8>)
    ensures
        r@ == message_bytes(m@),
        encodable(m@),
{
    let mut out: Vec<u8> = Vec::new();
    out.push(WIRE_VERSION);
    match m {
        Message::Request(r) => {
            out.push(TAG_REQUEST);
            write_str(&mut out, r.token.as_str());
            write_opt_str(&mut out, &r.session_id);
            write_conn_type(&mut out, &r.conn_type);
        },
        Message::OpenSession(o) => {
            out.push(TAG_OPEN_SESSION);
            write_bool(&mut out, o.ok);
            write_opt_str(&mut out, &o.session_id);
            write_opt_str(&mut out, &o.error);
        },
        Message::OpenVideo(a) => {
            out.push(TAG_OPEN_VIDEO);
            write_ack(&mut out, a.ok, &a.error);
        },
        Message::OpenController(a) => {
            out.push(TAG_OPEN_CONTROLLER);
            write_ack(&mut out, a.ok, &a.error);
        },
        Message::VideoFrame(f) => {
            out.push(TAG_VIDEO_FRAME);
            write_bytes(&mut out, f.data.as_slice());
            write_i64(&mut out, f.timestamp_ms);
        },
        Message::State(s) => {
            out.push(TAG_STATE);
            write_state(&mut out, s);
        },
    }
    assert(out@ =~= message_bytes(m@));
    out
}

// ---------------------------------------------------------------------------
// Reading. Each reader takes the field at `pos` and returns it with the
// position after it.
/// The bytes of `b` from `pos` on.
pub open spec fn tail(b: Seq<u8>, pos: int) -> Seq<u8> {
    b.subrange(pos, b.len() as int)
}

fn read_u8(b: &[u8], pos: usize) -> (r: Option<(u8, usize)>)
    requires
        pos <= b@.len(),
    ensures
        r matches Some((x, p)) ==> p <= b@.len() && parse_u8(tail(b@, pos as int)) == Some(
            (x, tail(b@, p as int)),
        ),
        r is None ==> parse_u8(tail(b@, pos as int)) is None,
{
    if pos < b.len() {
        assert(tail(tail(b@, pos as int), 1) =~= tail(b@, pos + 1));
        Some((b[pos], pos + 1))
    } else {
        None
    }
}

fn read_bool(b: &[u8], pos: usize) -> (r: Option<(bool, usize)>)
    requires
        pos <= b@.len(),
    ensures
        r matches Some((x, p)) ==> p <= b@.len() && parse_bool(tail(b@, pos as int)) == Some(
            (x, tail(b@, p as int)),
        ),
        r is None ==> parse_bool(tail(b@, pos as int)) is None,
{
    reveal(parse_bool);
    if pos < b.len() && b[pos] <= 1 {
        assert(tail(tail(b@, pos as int), 1) =~= tail(b@, pos + 1));
        Some((b[pos] == 1, pos + 1))
    } else {
        None
    }
}

fn read_u32(b: &[u8], pos: usize) -> (r: Option<(u32, usize)>)
    requires
        pos <= b@.len(),
    ensures
        r matches Some((x, p)) ==> p <= b@.len() && parse_u32(tail(b@, pos as int)) == Some(
            (x, tail(b@, p as int)),
        ),
        r is None ==> parse_u32(tail(b@, pos as int)) is None,
{
    reveal(parse_u32);
    if b.len() - pos >= 4 {
        let h: [u8; 4] = [b[pos], b[pos + 1], b[pos + 2], b[pos + 3]];
        let x = decode_header(h);
        assert(h@ =~= tail(b@, pos as int).subrange(0, 4));
        assert(tail(tail(b@, pos as int), 4) =~= tail(b@, pos + 4));
        Some((x, pos + 4))
    } else {
        None
    }
}

fn read_u64(b: &[u8], pos: usize) -> (r: Option<(u64, usize)>)
    requires
        pos <= b@.len(),
    ensures
        r matches Some((x, p)) ==> p <= b@.len() && parse_u64(tail(b@, pos as int)) == Some(
            (x as nat, tail(b@, p as int)),
        ),
        r is None ==> parse_u64(tail(b@, pos as int)) is None,
{
    reveal(parse_u64);
    reveal(parse_u32);
    let (hi, pos1) = match read_u32(b, pos) {
        Some(v) => v,
        None => {
            return None;
        },
    };
    let (lo, pos2) = match read_u32(b, pos1) {
        Some(v) => v,
        None => {
            return None;
        },
    };
    let ghost t = tail(b@, pos as int);
    assert(t.subrange(0, 4) =~= tail(b@, pos as int).subrange(0, 4));
    assert(t.subrange(4, 8) =~= tail(b@, pos1 as int).subrange(0, 4));
    assert(tail(t, 8) =~= tail(b@, pos2 as int));
    let x: u64 = (hi as u64) * 4294967296 + (lo as u64);
    Some((x, pos2))
}

fn read_bytes(b: &[u8], pos: usize) -> (r: Option<(Vec<u8>, usize)>)
    requires
        pos <= b@.len(),
    ensures
        r matches Some((x, p)) ==> p <= b@.len() && parse_bytes(tail(b@, pos as int)) == Some(
            (x@, tail(b@, p as int)),
        ),
        r is None ==> parse_bytes(tail(b@, pos as int)) is None,
{
    reveal(parse_bytes);
    let (n, p) = match read_u64(b, pos) {
        Some(v) => v,
        None => {
            return None;
        },
    };
    if n > (b.len() - p) as u64 {
        return None;
    }
    let end: usize = p + n as usize;
    let x = vstd::slice::slice_to_vec(slice_subrange(b, p, end));
    assert(x@ =~= tail(b@, p as int).subrange(0, n as int));
    assert(tail(tail(b@, p as int), n as int) =~= tail(b@, end as int));
    Some((x, end))
}

fn read_str(b: &[u8], pos: usize) -> (r: Option<(String, usize)>)
    requires
        pos <= b@.len(),
    ensures
        r matches Some((x, p)) ==> p <= b@.len() && parse_str(tail(b@, pos as int)) == Some(
            (x@, tail(b@, p as int)),
        ),
        r is None ==> parse_str(tail(b@, pos as int)) is None,
{
    reveal(parse_str);
    let (bytes, p) = match read_bytes(b, pos) {
        Some(v) => v,
        None => {
            return None;
        },
    };
    match string_from_utf8(bytes) {
        Some(s) => Some((s, p)),
        None => None,
    }
}

fn read_opt_str(b: &[u8], pos: usize) -> (r: Option<(Option<String>, usize)>)
    requires
        pos <= b@.len(),
    ensures
        r matches Some((x, p)) ==> p <= b@.len() && parse_opt_str(tail(b@, pos as int)) == Some(
            (opt_view(x), tail(b@, p as int)),
        ),
        r is None ==> parse_opt_str(tail(b@, pos as int)) is None,
{
    reveal(parse_opt_str);
    let (t, pos1) = match read_u8(b, pos) {
        Some(v) => v,
        None => {
            return None;
        },
    };
    if t == 0 {
        Some((None, pos1))
    } else if t == 1 {
        match read_str(b, pos1) {
            Some((s, pos2)) => Some((Some(s), pos2)),
            None => None,
        }
    } else {
        None
    }
}

fn read_i64(b: &[u8], pos: usize) -> (r: Option<(i64, usize)>)
    requires
        pos <= b@.len(),
    ensures
        r matches Some((x, p)) ==> p <= b@.len() && parse_i64(tail(b@, pos as int)) == Some(
            (x, tail(b@, p as int)),
        ),
        r is None ==> parse_i64(tail(b@, pos as int)) is None,
{
    reveal(parse_i64);
    match read_u64(b, pos) {
        Some((n, p)) => Some((n as i64, p)),
        None => None,
    }
}

fn read_conn_type(b: &[u8], pos: usize) -> (r: Option<(ConnectionType, usize)>)
    requires
        pos <= b@.len(),
    ensures
        r matches Some((x, p)) ==> p <= b@.len() && parse_conn_type(tail(b@, pos as int)) == Some(
            (x@, tail(b@, p as int)),
        ),
        r is None ==> parse_conn_type(tail(b@, pos as int)) is None,
{
    let (t, pos1) = match read_u8(b, pos) {
        Some(v) => v,
        None => {
            return None;
        },
    };
    if t == 0 {
        let (interval, pos2) = match read_u8(b, pos1) {
            Some(v) => v,
            None => {
                return None;
            },
        };
        let (missed_beats, pos3) = match read_u8(b, pos2) {
            Some(v) => v,
            None => {
                return None;
            },
        };
        Some((ConnectionType::Session(Heartbeat { interval, missed_beats }), pos3))
    } else if t == 1 {
        let (device, pos2) = match read_str(b, pos1) {
            Some(v) => v,
            None => {
                return None;
            },
        };
        let (w, pos3) = match read_u32(b, pos2) {
            Some(v) => v,
            None => {
                return None;
            },
        };
        let (h, pos4) = match read_u32(b, pos3) {
            Some(v) => v,
            None => {
                return None;
            },
        };
        let (max_framerate, pos5) = match read_u8(b, pos4) {
            Some(v) => v,
            None => {
                return None;
            },
        };
        Some((ConnectionType::Video(Video { device, resolution: (w, h), max_framerate }), pos5))
    } else if t == 2 {
        Some((ConnectionType::Controller(Controller {  }), pos1))
    } else {
        None
    }
}

fn read_state(b: &[u8], pos: usize) -> (r: Option<(MachineState, usize)>)
    requires
        pos <= b@.len(),
    ensures
        r matches Some((x, p)) ==> p <= b@.len() && parse_state(tail(b@, pos as int)) == Some(
            (x, tail(b@, p as int)),
        ),
        r is None ==> parse_state(tail(b@, pos as int)) is None,
{
    if b.len() - pos >= 5 && b[pos] <= 1 && b[pos + 1] <= 1 && b[pos + 2] <= 1 && b[pos + 3] <= 1
        && b[pos + 4] <= 1 {
        let s = MachineState {
            forward: b[pos] == 1,
            backward: b[pos + 1] == 1,
            left: b[pos + 2] == 1,
            right: b[pos + 3] == 1,
            lamp_enabled: b[pos + 4] == 1,
        };
        assert(tail(tail(b@, pos as int), 5) =~= tail(b@, pos + 5));
        Some((s, pos + 5))
    } else {
        None
    }
}

fn read_body(tag: u8, b: &[u8], pos: usize) -> (r: Option<(Message, usize)>)
    requires
        pos <= b@.len(),
    ensures
        r matches Some((x, p)) ==> p <= b@.len() && parse_body(tag, tail(b@, pos as int)) == Some(
            (x@, tail(b@, p as int)),
        ),
        r is None ==> parse_body(tag, tail(b@, pos as int)) is None,
{
    if tag == TAG_REQUEST {
        let (token, pos1) = match read_str(b, pos) {
            Some(v) => v,
            None => {
                return None;
            },
        };
        let (session_id, pos2) = match read_opt_str(b, pos1) {
            Some(v) => v,
            None => {
                return None;
            },
        };
        let (conn_type, pos3) = match read_conn_type(b, pos2) {
            Some(v) => v,
            None => {
                return None;
            },
        };
        Some((Message::Request(RequestConnection { token, session_id, conn_type }), pos3))
    } else if tag == TAG_OPEN_SESSION {
        let (ok, pos1) = match read_bool(b, pos) {
            Some(v) => v,
            None => {
                return None;
            },
        };
        let (session_id, pos2) = match read_opt_str(b, pos1) {
            Some(v) => v,
            None => {
                return None;
            },
        };
        let (error, pos3) = match read_opt_str(b, pos2) {
            Some(v) => v,
            None => {
                return None;
            },
        };
        Some((Message::OpenSession(OpenSession { ok, session_id, error }), pos3))
    } else if tag == TAG_OPEN_VIDEO || tag == TAG_OPEN_CONTROLLER {
        let (ok, pos1) = match read_bool(b, pos) {
            Some(v) => v,
            None => {
                return None;
            },
        };
        let (error, pos2) = match read_opt_str(b, pos1) {
            Some(v) => v,
            None => {
                return None;
            },
        };
        if tag == TAG_OPEN_VIDEO {
            Some((Message::OpenVideo(OpenVideoConnection { ok, error }), pos2))
        } else {
            Some((Message::OpenController(OpenControllerConnection { ok, error }), pos2))
        }
    } else if tag == TAG_VIDEO_FRAME {
        let (data, pos1) = match read_bytes(b, pos) {
            Some(v) => v,
            None => {
                return None;
            },
        };
        let (timestamp_ms, pos2) = match read_i64(b, pos1) {
            Some(v) => v,
            None => {
                return None;
            },
        };
        Some((Message::VideoFrame(VideoFrame { data, timestamp_ms }), pos2))
    } else if tag == TAG_STATE {
        match read_state(b, pos) {
            Some((s, p)) => Some((Message::State(s), p)),
            None => None,
        }
    } else {
        None
    }
}

/// The message that `payload` holds, or `Malformed` where it holds none:
/// a payload decodes exactly when it is the encoding of a message, and
/// then to that message.
pub fn decode_message(payload: &[u8]) -> (r: Result<Message, DecodeError>)
    ensures
        r matches Ok(m) ==> parse_message(payload@) == Some(m@) && message_bytes(m@) == payload@,
        r is Err <==> parse_message(payload@) is None,
        r is Err <==> forall|m: MessageView| encodable(m) ==> message_bytes(m) != payload@,
{
    let r = decode_message_parts(payload);
    proof {
        if r is Err {
            assert forall|m: MessageView| encodable(m) implies message_bytes(m) != payload@ by {
                lemma_message_round_trip(m);
            }
        } else {
            lemma_message_sound(payload@);
        }
    }
    r
}

fn decode_message_parts(payload: &[u8]) -> (r: Result<Message, DecodeError>)
    ensures
        r matches Ok(m) ==> parse_message(payload@) == Some(m@),
        r is Err ==> parse_message(payload@) is None,
{
    if payload.len() < 2 || payload[0] != WIRE_VERSION {
        return Err(DecodeError::Malformed);
    }
    match read_body(payload[1], payload, 2) {
        Some((m, p)) => {
            if p == payload.len() {
                Ok(m)
            } else {
                Err(DecodeError::Malformed)
            }
        },
        None => Err(DecodeError::Malformed),
    }
}

/// The frame that carries `m`, or `Oversize` where its payload is too long
/// for a frame.
pub fn frame_message(m: &Message) -> (r: Result<Vec<u8>, FrameError>)
    ensures
        message_bytes(m@).len() > MAX_PAYLOAD_LEN <==> r == Err::<Vec<u8>, FrameError>(
            FrameError::Oversize,
        ),
        message_bytes(m@).len() <= MAX_PAYLOAD_LEN ==> r is Ok,
        r matches Ok(bytes) ==> bytes@ == frame_bytes(message_bytes(m@)),
{
    let payload = encode_message(m);
    encode_frame(payload.as_slice())
}

} // verus!
