use rc_link::client::{
    accept_controller, accept_session, accept_video, tries_next_address, ClientError,
    ConnectDecision, ConnectEvent, ConnectStep, Connector, DisconnectDecision, FailureKind,
    LinkGuard,
};
use rc_link::message::{ConnectionType, OpenControllerConnection, OpenSession, OpenVideoConnection};
use rc_link::settings::{Connection, Controller, Heartbeat, Settings, Video};

fn settings() -> Settings {
    Settings {
        connection: Connection { host: "robot".to_string(), port: 20301, token: "tok".to_string() },
        video: Video { device: "/dev/video0".to_string(), resolution: (640, 480), max_framerate: 24 },
        heartbeat: Heartbeat { interval: 2, missed_beats: 3 },
        controller: Controller {},
    }
}

fn accepted(id: &str) -> OpenSession {
    OpenSession { ok: true, session_id: Some(id.to_string()), error: None }
}

#[test]
fn session_answers() {
    assert_eq!(accept_session(accepted("abc")).unwrap(), "abc");
    assert!(matches!(
        accept_session(OpenSession { ok: true, session_id: None, error: None }),
        Err(ClientError::MissingSessionId)
    ));
    match accept_session(OpenSession { ok: false, session_id: None, error: Some("Invalid token".to_string()) }) {
        Err(ClientError::SessionRefused(e)) => assert_eq!(e, "Invalid token"),
        other => panic!("unexpected {:?}", other),
    }
    match accept_session(OpenSession { ok: false, session_id: None, error: None }) {
        Err(ClientError::SessionRefused(e)) => assert_eq!(e, "Unknown"),
        other => panic!("unexpected {:?}", other),
    }
}

#[test]
fn channel_answers() {
    assert!(accept_video(OpenVideoConnection { ok: true, error: None }).is_ok());
    match accept_video(OpenVideoConnection { ok: false, error: Some("no camera".to_string()) }) {
        Err(ClientError::VideoRefused(e)) => assert_eq!(e, "no camera"),
        other => panic!("unexpected {:?}", other),
    }
    assert!(accept_controller(OpenControllerConnection { ok: true, error: None }).is_ok());
    match accept_controller(OpenControllerConnection { ok: false, error: None }) {
        Err(ClientError::ControllerRefused(e)) => assert_eq!(e, "Unknown"),
        other => panic!("unexpected {:?}", other),
    }
}

#[test]
fn address_failures() {
    assert!(tries_next_address(FailureKind::TimedOut));
    assert!(tries_next_address(FailureKind::ConnectionRefused));
    assert!(!tries_next_address(FailureKind::Other));
    assert!(ClientError::Unreachable.is_retryable());
    assert!(!ClientError::SessionRefused("Invalid token".to_string()).is_retryable());
}

#[test]
fn connector_builds_session_then_channels() {
    let s = settings();
    let (mut c, step) = Connector::start(&s, 2);
    match step {
        ConnectStep::OpenSession(0, req) => {
            assert_eq!(req.token, "tok");
            assert!(req.session_id.is_none());
            assert!(matches!(req.conn_type, ConnectionType::Session(Heartbeat { interval: 2, missed_beats: 3 })));
        }
        other => panic!("unexpected {:?}", other),
    }
    assert!(matches!(c.step(&s, ConnectEvent::Failure(FailureKind::ConnectionRefused)), ConnectStep::OpenSession(1, _)));
    match c.step(&s, ConnectEvent::SessionAnswer(accepted("sid"))) {
        ConnectStep::OpenVideo(1, req) => {
            assert_eq!(req.session_id.as_deref(), Some("sid"));
            assert!(matches!(req.conn_type, ConnectionType::Video(_)));
        }
        other => panic!("unexpected {:?}", other),
    }
    match c.step(&s, ConnectEvent::VideoAnswer(OpenVideoConnection { ok: true, error: None })) {
        ConnectStep::OpenController(1, req) => {
            assert_eq!(req.session_id.as_deref(), Some("sid"));
            assert!(matches!(req.conn_type, ConnectionType::Controller(_)));
        }
        other => panic!("unexpected {:?}", other),
    }
    match c.step(&s, ConnectEvent::ControllerAnswer(OpenControllerConnection { ok: true, error: None })) {
        ConnectStep::Connected(1, id) => assert_eq!(id, "sid"),
        other => panic!("unexpected {:?}", other),
    }
    assert!(matches!(c.step(&s, ConnectEvent::Failure(FailureKind::Other)), ConnectStep::Failed(ClientError::UnexpectedAnswer)));
}

#[test]
fn connector_failures() {
    let s = settings();
    let (_, step) = Connector::start(&s, 0);
    assert!(matches!(step, ConnectStep::Failed(ClientError::Unreachable)));

    let (mut c, _) = Connector::start(&s, 1);
    assert!(matches!(c.step(&s, ConnectEvent::Failure(FailureKind::TimedOut)), ConnectStep::Failed(ClientError::Unreachable)));

    let (mut c, _) = Connector::start(&s, 3);
    assert!(matches!(c.step(&s, ConnectEvent::Failure(FailureKind::Other)), ConnectStep::Failed(ClientError::Io)));

    let (mut c, _) = Connector::start(&s, 3);
    let refused = OpenSession { ok: false, session_id: None, error: Some("Invalid token".to_string()) };
    assert!(matches!(c.step(&s, ConnectEvent::SessionAnswer(refused)), ConnectStep::Failed(ClientError::SessionRefused(_))));

    let (mut c, _) = Connector::start(&s, 3);
    c.step(&s, ConnectEvent::SessionAnswer(accepted("x")));
    assert!(matches!(c.step(&s, ConnectEvent::Failure(FailureKind::TimedOut)), ConnectStep::Failed(ClientError::Io)));

    let (mut c, _) = Connector::start(&s, 3);
    c.step(&s, ConnectEvent::SessionAnswer(accepted("x")));
    let refused = OpenVideoConnection { ok: false, error: Some("busy".to_string()) };
    assert!(matches!(c.step(&s, ConnectEvent::VideoAnswer(refused)), ConnectStep::Failed(ClientError::VideoRefused(_))));

    let (mut c, _) = Connector::start(&s, 3);
    let wrong = OpenVideoConnection { ok: true, error: None };
    assert!(matches!(c.step(&s, ConnectEvent::VideoAnswer(wrong)), ConnectStep::Failed(ClientError::UnexpectedAnswer)));
}

#[test]
fn guard_keeps_connect_and_disconnect_apart() {
    let mut g = LinkGuard::new();
    assert_eq!(g.begin_disconnect(), DisconnectDecision::NotConnected);
    assert_eq!(g.begin_connect(), ConnectDecision::Start);
    assert_eq!(g.begin_connect(), ConnectDecision::AlreadyConnecting);
    assert_eq!(g.begin_disconnect(), DisconnectDecision::Deferred);
    g.finish_connect(true);
    assert!(g.is_connected());
    assert_eq!(g.begin_connect(), ConnectDecision::AlreadyConnected);
    assert_eq!(g.begin_disconnect(), DisconnectDecision::Stop);
    assert!(!g.is_connected());
    assert_eq!(g.begin_connect(), ConnectDecision::Start);
    g.finish_connect(false);
    assert!(!g.is_connected());
}
