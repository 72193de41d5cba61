use rc_link::codec::{decode_message, encode_message, frame_message, DecodeError, WIRE_VERSION};
use rc_link::frame::decode_frame;
use rc_link::message::{
    ConnectionType, Message, OpenControllerConnection, OpenSession, OpenVideoConnection,
    RequestConnection, VideoFrame,
};
use rc_link::settings::{Controller, Heartbeat, Video};
use rc_link::state::MachineState;

fn round_trip(m: &Message) -> Message {
    let bytes = encode_message(m);
    decode_message(&bytes).expect("an encoded message decodes")
}

fn same(a: &Message, b: &Message) -> bool {
    format!("{:?}", a) == format!("{:?}", b)
}

fn samples() -> Vec<Message> {
    vec![
        Message::Request(RequestConnection {
            token: "s3cret-tökén".to_string(),
            session_id: None,
            conn_type: ConnectionType::Session(Heartbeat { interval: 5, missed_beats: 3 }),
        }),
        Message::Request(RequestConnection {
            token: String::new(),
            session_id: Some("abcDEF0123456789abcDEF01".to_string()),
            conn_type: ConnectionType::Video(Video {
                device: "/dev/video0".to_string(),
                resolution: (1280, 720),
                max_framerate: 30,
            }),
        }),
        Message::Request(RequestConnection {
            token: "t".to_string(),
            session_id: Some("id".to_string()),
            conn_type: ConnectionType::Controller(Controller {}),
        }),
        Message::OpenSession(OpenSession { ok: true, session_id: Some("xyz".to_string()), error: None }),
        Message::OpenSession(OpenSession { ok: false, session_id: None, error: Some("Invalid token".to_string()) }),
        Message::OpenVideo(OpenVideoConnection { ok: false, error: Some("no camera".to_string()) }),
        Message::OpenVideo(OpenVideoConnection { ok: true, error: None }),
        Message::OpenController(OpenControllerConnection { ok: true, error: None }),
        Message::VideoFrame(VideoFrame { data: vec![255, 216, 1, 2, 255, 217], timestamp_ms: -1 }),
        Message::VideoFrame(VideoFrame { data: vec![], timestamp_ms: i64::MAX }),
        Message::State(MachineState { forward: true, backward: false, left: false, right: true, lamp_enabled: true }),
    ]
}

#[test]
fn every_variant_round_trips() {
    for m in samples() {
        let back = round_trip(&m);
        assert!(same(&m, &back), "{:?} came back as {:?}", m, back);
    }
}

#[test]
fn state_encoding_is_exact() {
    let m = Message::State(MachineState { forward: true, backward: false, left: true, right: false, lamp_enabled: true });
    assert_eq!(encode_message(&m), vec![WIRE_VERSION, 5, 1, 0, 1, 0, 1]);
}

#[test]
fn open_controller_encoding_is_exact() {
    let m = Message::OpenController(OpenControllerConnection { ok: false, error: Some("no".to_string()) });
    assert_eq!(
        encode_message(&m),
        vec![WIRE_VERSION, 3, 0, 1, 0, 0, 0, 0, 0, 0, 0, 2, b'n', b'o']
    );
}

#[test]
fn timestamp_is_big_endian_two_complement() {
    let m = Message::VideoFrame(VideoFrame { data: vec![9], timestamp_ms: -2 });
    let bytes = encode_message(&m);
    assert_eq!(bytes[2..11], [0, 0, 0, 0, 0, 0, 0, 1, 9]);
    assert_eq!(bytes[11..], [255, 255, 255, 255, 255, 255, 255, 254]);
}

#[test]
fn malformed_payloads_are_rejected() {
    assert_eq!(decode_message(&[]).unwrap_err(), DecodeError::Malformed);
    // wrong version
    assert_eq!(decode_message(&[2, 5, 0, 0, 0, 0, 0]).unwrap_err(), DecodeError::Malformed);
    // unknown tag
    assert_eq!(decode_message(&[WIRE_VERSION, 9]).unwrap_err(), DecodeError::Malformed);
    // a bool that is neither 0 nor 1
    assert_eq!(decode_message(&[WIRE_VERSION, 5, 0, 2, 0, 0, 0]).unwrap_err(), DecodeError::Malformed);
    // a byte too many
    assert_eq!(decode_message(&[WIRE_VERSION, 5, 0, 0, 0, 0, 0, 0]).unwrap_err(), DecodeError::Malformed);
    // a byte too few
    assert_eq!(decode_message(&[WIRE_VERSION, 5, 0, 0, 0, 0]).unwrap_err(), DecodeError::Malformed);
    // a string that is not UTF-8
    assert_eq!(
        decode_message(&[WIRE_VERSION, 3, 1, 1, 0, 0, 0, 0, 0, 0, 0, 1, 0xFF]).unwrap_err(),
        DecodeError::Malformed
    );
    // a length that runs past the end
    assert_eq!(
        decode_message(&[WIRE_VERSION, 3, 1, 1, 0, 0, 0, 0, 0, 0, 0, 9, b'a']).unwrap_err(),
        DecodeError::Malformed
    );
}

#[test]
fn utf8_strings_decode_to_their_characters() {
    let bytes = vec![WIRE_VERSION, 3, 0, 1, 0, 0, 0, 0, 0, 0, 0, 2, 0xC3, 0xA9];
    match decode_message(&bytes).unwrap() {
        Message::OpenController(a) => {
            assert!(!a.ok);
            assert_eq!(a.error.as_deref(), Some("é"));
        }
        other => panic!("unexpected {:?}", other),
    }
}

#[test]
fn framed_message_unframes() {
    let m = Message::OpenSession(OpenSession { ok: true, session_id: Some("abc".to_string()), error: None });
    let framed = frame_message(&m).unwrap();
    let (payload, used) = decode_frame(&framed).unwrap();
    assert_eq!(used, framed.len());
    assert_eq!(payload, encode_message(&m));
    assert!(same(&decode_message(&payload).unwrap(), &m));
}
