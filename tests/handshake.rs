use rc_link::authority::{
    controller_channel_reply, video_channel_reply, CameraStartError, Config, ConfigError,
    ServerAction, SessionPool, DEFAULT_PORT, SESSION_ID_LEN, TEMP_TOKEN_LEN,
};
use rc_link::message::{ConnectionType, RequestConnection};
use rc_link::settings::{Controller, Heartbeat, Video};

const TOKEN: &str = "valid-token";

fn authority() -> SessionPool {
    SessionPool::new(Config::new(TOKEN.to_string(), 20301))
}

fn session_request(token: &str) -> RequestConnection {
    RequestConnection {
        token: token.to_string(),
        session_id: None,
        conn_type: ConnectionType::Session(Heartbeat { interval: 1, missed_beats: 3 }),
    }
}

fn video() -> Video {
    Video { device: "/dev/video0".to_string(), resolution: (640, 480), max_framerate: 24 }
}

fn opened_id(a: &mut SessionPool) -> String {
    match a.handle_request(session_request(TOKEN)) {
        ServerAction::Reply(o) => {
            assert!(o.ok);
            assert_eq!(o.error, None);
            o.session_id.expect("an accepted session is named")
        }
        other => panic!("unexpected {:?}", other),
    }
}

#[test]
fn valid_token_opens_sessions_with_unique_ids() {
    let mut a = authority();
    let first = opened_id(&mut a);
    let second = opened_id(&mut a);
    assert!(!first.is_empty());
    assert_eq!(first.len(), SESSION_ID_LEN);
    assert!(first.chars().all(|c| c.is_ascii_alphanumeric()));
    assert_ne!(first, second);
    assert!(a.lookup_session(&first));
    assert!(a.lookup_session(&second));
    assert_eq!(a.session_count(), 2);
}

#[test]
fn invalid_token_is_refused() {
    let mut a = authority();
    match a.handle_request(session_request("wrong")) {
        ServerAction::Reply(o) => {
            assert!(!o.ok);
            assert_eq!(o.session_id, None);
            assert_eq!(o.error.as_deref(), Some("Invalid token"));
        }
        other => panic!("unexpected {:?}", other),
    }
    assert_eq!(a.session_count(), 0);
}

#[test]
fn unknown_session_is_dropped() {
    let mut a = authority();
    let req = RequestConnection {
        token: TOKEN.to_string(),
        session_id: Some("nonexistent".to_string()),
        conn_type: ConnectionType::Video(video()),
    };
    assert!(matches!(a.handle_request(req), ServerAction::Drop));
}

#[test]
fn channels_attach_to_open_sessions() {
    let mut a = authority();
    let id = opened_id(&mut a);
    let req = RequestConnection { token: TOKEN.to_string(), session_id: Some(id.clone()), conn_type: ConnectionType::Video(video()) };
    match a.handle_request(req) {
        ServerAction::AttachVideo(sid, v) => {
            assert_eq!(sid, id);
            assert_eq!(v.device, "/dev/video0");
            assert_eq!(v.resolution, (640, 480));
        }
        other => panic!("unexpected {:?}", other),
    }
    let req = RequestConnection { token: String::new(), session_id: Some(id.clone()), conn_type: ConnectionType::Controller(Controller {}) };
    match a.handle_request(req) {
        ServerAction::AttachController(sid) => assert_eq!(sid, id),
        other => panic!("unexpected {:?}", other),
    }
    let req = RequestConnection { token: TOKEN.to_string(), session_id: Some(id), conn_type: ConnectionType::Session(Heartbeat { interval: 1, missed_beats: 1 }) };
    assert!(matches!(a.handle_request(req), ServerAction::Drop));
}

#[test]
fn channel_request_without_session_is_dropped() {
    let mut a = authority();
    let req = RequestConnection { token: TOKEN.to_string(), session_id: None, conn_type: ConnectionType::Controller(Controller {}) };
    assert!(matches!(a.handle_request(req), ServerAction::Drop));
}

#[test]
fn open_session_with_given_ids() {
    let mut a = authority();
    let ok = a.open_session_with(&TOKEN.to_string(), "abc".to_string(), 17);
    assert!(ok.ok);
    assert_eq!(ok.session_id.as_deref(), Some("abc"));
    let taken = a.open_session_with(&TOKEN.to_string(), "abc".to_string(), 18);
    assert!(!taken.ok);
    assert_eq!(taken.error.as_deref(), Some("Session id unavailable"));
    let empty = a.open_session_with(&TOKEN.to_string(), String::new(), 18);
    assert!(!empty.ok);
    assert_eq!(empty.error.as_deref(), Some("Session id unavailable"));
    let wrong = a.open_session_with(&"nope".to_string(), "def".to_string(), 18);
    assert_eq!(wrong.error.as_deref(), Some("Invalid token"));
    assert!(!a.lookup_session(&"def".to_string()));
}

#[test]
fn token_check_is_exact() {
    let c = Config::new("abc".to_string(), 1);
    assert!(c.is_valid_token("abc".to_string()));
    assert!(!c.is_valid_token("abcd".to_string()));
    assert!(!c.is_valid_token("ABC".to_string()));
    assert!(!c.is_valid_token(String::new()));
}

#[test]
fn configuration_from_values() {
    assert_eq!(Config::port_setting(None), Ok(DEFAULT_PORT));
    assert_eq!(Config::port_setting(Some("8080")), Ok(8080));
    assert_eq!(Config::port_setting(Some("+65535")), Ok(65535));
    assert_eq!(Config::port_setting(Some("0")), Ok(0));
    assert_eq!(Config::port_setting(Some("65536")), Err(ConfigError::InvalidPort));
    assert_eq!(Config::port_setting(Some("")), Err(ConfigError::InvalidPort));
    assert_eq!(Config::port_setting(Some(" 80")), Err(ConfigError::InvalidPort));
    assert_eq!(Config::port_setting(Some("-1")), Err(ConfigError::InvalidPort));
    assert_eq!(Config::port_setting(Some("8o")), Err(ConfigError::InvalidPort));
    let c = Config::from_values(Some("9000".to_string()), Some("tok".to_string())).unwrap();
    assert_eq!(c.port, 9000);
    assert!(c.is_valid_token("tok".to_string()));
    assert!(matches!(Config::from_values(Some("x".to_string()), None), Err(ConfigError::InvalidPort)));
    let t = Config::from_values(None, None).unwrap();
    assert_eq!(t.port, DEFAULT_PORT);
    assert!(!t.is_valid_token(String::new()));
    assert_eq!(TEMP_TOKEN_LEN, 64);
    let a = SessionPool::new(Config::from_values(Some("1234".to_string()), None).unwrap());
    assert_eq!(a.port(), 1234);
}

#[test]
fn channel_replies() {
    let ok = video_channel_reply(Ok(()));
    assert!(ok.ok && ok.error.is_none());
    let dev = video_channel_reply(Err(CameraStartError::Device("busy".to_string())));
    assert!(!dev.ok);
    assert_eq!(dev.error.as_deref(), Some("Failed to initialize video device: busy"));
    let st = video_channel_reply(Err(CameraStartError::Stream("bad format".to_string())));
    assert_eq!(st.error.as_deref(), Some("Failed to start the stream: bad format"));
    let c = controller_channel_reply();
    assert!(c.ok && c.error.is_none());
}
