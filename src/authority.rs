//! The server side of the handshake: the session table, token checks, and
//! what to do with each connection request.
use vstd::prelude::*;
use vstd::string::StringExecFns;
use crate::message::{opt_view, ConnectionType, OpenControllerConnection, OpenSession, OpenVideoConnection, OpenSessionView, RequestConnection};
use crate::settings::{Video, VideoView};

verus! {

/// The port that the server listens on unless told otherwise.
pub const DEFAULT_PORT: u16 = 20301;

/// Length of a temporary token made when none is configured.
pub const TEMP_TOKEN_LEN: usize = 64;

/// Length of a session id.
pub const SESSION_ID_LEN: usize = 24;

/// How many fresh ids are drawn before a session request is refused.
pub const MAX_ID_ATTEMPTS: usize = 8;

pub open spec fn is_alphanumeric(c: char) -> bool {
    ('a' <= c && c <= 'z') || ('A' <= c && c <= 'Z') || ('0' <= c && c <= '9')
}

pub open spec fn all_alphanumeric(s: Seq<char>) -> bool {
    forall|i: int| 0 <= i < s.len() ==> is_alphanumeric(#[trigger] s[i])
}

/// Relies on rand's `Alphanumeric` distribution, sampled from the
/// thread-local generator: `len` characters, each an ASCII letter or digit.
#[verifier::external_body]
fn random_alphanumeric(len: usize) -> (r: String)
    ensures
        r@.len() == len,
        all_alphanumeric(r@),
{
    rand::distributions::DistString::sample_string(
        &rand::distributions::Alphanumeric,
        &mut rand::thread_rng(),
        len,
    )
}

/// Relies on chrono's `Utc::now`, read as milliseconds since the Unix
/// epoch: the wall clock, of which nothing is known. chrono panics only
/// where the system clock reads a time before 1970.
#[verifier::external_body]
pub(crate) fn now_millis() -> (r: i64) {
    chrono::Utc::now().timestamp_millis()
}

/// The value of the decimal digits `d`.
pub open spec fn decimal_value(d: Seq<char>) -> nat
    decreases d.len(),
{
    if d.len() == 0 {
        0
    } else {
        decimal_value(d.drop_last()) * 10 + ((d.last() as u32 - '0' as u32) as nat)
    }
}

pub open spec fn is_digit(c: char) -> bool {
    '0' <= c && c <= '9'
}

/// The port number that `s` spells: an optional `+`, then at least one
/// decimal digit, with a value of at most 65535.
pub open spec fn port_number(s: Seq<char>) -> Option<u16> {
    let d = if s.len() > 0 && s[0] == '+' {
        s.drop_first()
    } else {
        s
    };
    if d.len() > 0 && (forall|i: int| 0 <= i < d.len() ==> is_digit(#[trigger] d[i]))
        && decimal_value(d) <= 65535 {
        Some(decimal_value(d) as u16)
    } else {
        None
    }
}

/// Relies on `str::parse::<u16>`: an optional `+` followed by decimal
/// digits only, whose value fits in 16 bits, and nothing else.
#[verifier::external_body]
fn parse_port(s: &str) -> (r: Option<u16>)
    ensures
        r == port_number(s@),
{
    s.parse::<u16>().ok()
}

/// Why the server's configuration was refused.
#[derive(Debug, Clone, Copy, PartialEq, Eq, Structural)]
pub enum ConfigError {
    /// The configured port is not a number from 0 to 65535.
    InvalidPort,
}

/// The server's configuration: its port and the shared secret.
pub struct Config {
    token: String,
    pub port: u16,
}

impl Config {
    /// A configuration with the given secret and port.
    pub fn new(token: String, port: u16) -> (r: Config)
        ensures
            r.token() == token@,
            r.spec_port() == port,
    {
        Config { token, port }
    }

    pub closed spec fn token(&self) -> Seq<char> {
        self.token@
    }

    pub closed spec fn spec_port(&self) -> u16 {
        self.port
    }

    /// The port to listen on: the default where none is configured, and
    /// otherwise the configured text read as a port number.
    pub fn port_setting(text: Option<&str>) -> (r: Result<u16, ConfigError>)
        ensures
            text is None ==> r == Ok::<u16, ConfigError>(DEFAULT_PORT),
            text matches Some(s) ==> r == match port_number(s@) {
                Some(p) => Ok::<u16, ConfigError>(p),
                None => Err(ConfigError::InvalidPort),
            },
    {
        match text {
            None => Ok(DEFAULT_PORT),
            Some(s) => match parse_port(s) {
                Some(p) => Ok(p),
                None => Err(ConfigError::InvalidPort),
            },
        }
    }

    /// A configuration from the texts of the port and token settings,
    /// `None` where one is not set. Without a token, a temporary one of
    /// `TEMP_TOKEN_LEN` random letters and digits is made.
    pub fn from_values(port: Option<String>, token: Option<String>) -> (r: Result<
        Config,
        ConfigError,
    >)
        ensures
            r is Err <==> (port matches Some(s) && port_number(s@) is None),
            r matches Ok(c) ==> port is None ==> c.spec_port() == DEFAULT_PORT,
            r matches Ok(c) ==> port matches Some(s) ==> Some(c.spec_port()) == port_number(s@),
            r matches Ok(c) ==> token matches Some(t) ==> c.token() == t@,
            r matches Ok(c) ==> token is None ==> c.token().len() == TEMP_TOKEN_LEN
                && all_alphanumeric(c.token()),
    {
        let text = match &port {
            Some(s) => Some(s.as_str()),
            None => None,
        };
        let port = match Config::port_setting(text) {
            Ok(p) => p,
            Err(e) => {
                return Err(e);
            },
        };
        let token = match token {
            Some(t) => t,
            None => random_alphanumeric(TEMP_TOKEN_LEN),
        };
        Ok(Config { token, port })
    }

    /// Whether `token` is the shared secret.
    pub fn is_valid_token(&self, token: String) -> (r: bool)
        ensures
            r == (token@ == self.token()),
    {
        token == self.token
    }
}

/// A session that the server has opened.
pub struct Session {
    pub id: String,
    pub created_at_ms: i64,
}

/// A session as values: its id and when it was opened.
pub struct SessionView {
    pub id: Seq<char>,
    pub created_at_ms: i64,
}

impl View for Session {
    type V = SessionView;

    open spec fn view(&self) -> SessionView {
        SessionView { id: self.id@, created_at_ms: self.created_at_ms }
    }
}

/// `id` is the id of one of the `records`.
pub open spec fn has_id(records: Seq<SessionView>, id: Seq<char>) -> bool {
    exists|i: int| 0 <= i < records.len() && (#[trigger] records[i]).id == id
}

/// No two of the `records` share an id.
pub open spec fn ids_distinct(records: Seq<SessionView>) -> bool {
    forall|i: int, j: int|
        0 <= i < records.len() && 0 <= j < records.len() && i != j ==> (#[trigger] records[i]).id
            != (#[trigger] records[j]).id
}

/// `after` is `before` with one session more, whose id none of `before`
/// had.
pub open spec fn opened(
    before: Seq<SessionView>,
    id: Seq<char>,
    after: Seq<SessionView>,
) -> bool {
    &&& !has_id(before, id)
    &&& after.len() == before.len() + 1
    &&& after.subrange(0, before.len() as int) == before
    &&& after[before.len() as int].id == id
}

/// `reply` hands out the id of a session that `after` has opened beyond
/// `before`: `SESSION_ID_LEN` letters and digits, the id of no session of
/// `before`.
pub open spec fn issued_fresh_id(
    before: Seq<SessionView>,
    reply: OpenSessionView,
    after: Seq<SessionView>,
) -> bool {
    match reply.session_id {
        Some(id) => opened(before, id, after) && id.len() == SESSION_ID_LEN && all_alphanumeric(id),
        None => false,
    }
}

/// The reply to a request with a wrong token.
pub open spec fn invalid_token_error() -> Seq<char> {
    "Invalid token"@
}

/// The reply when no fresh session id could be drawn.
pub open spec fn id_unavailable_error() -> Seq<char> {
    "Session id unavailable"@
}

/// What the server does with a connection after reading its request.
#[derive(Debug)]
pub enum ServerAction {
    /// Send this answer, then close the connection.
    Reply(OpenSession),
    /// Close the connection without an answer.
    Drop,
    /// Start the camera with these settings and stream video to this
    /// connection, which belongs to the session with this id.
    AttachVideo(String, Video),
    /// Read machine states from this connection, which belongs to the
    /// session with this id, and apply them.
    AttachController(String),
}

/// The server's handshake authority: its configuration and the table of
/// the sessions it has opened. Sessions are never removed.
pub struct SessionPool {
    config: Config,
    sessions: Vec<Session>,
}

impl View for SessionPool {
    type V = Seq<SessionView>;

    closed spec fn view(&self) -> Seq<SessionView> {
        self.sessions@.map_values(|r: Session| r@)
    }
}

impl SessionPool {
    /// The shared secret that requests must present.
    pub closed spec fn token(&self) -> Seq<char> {
        self.config.token()
    }

    pub closed spec fn spec_port(&self) -> u16 {
        self.config.spec_port()
    }

    pub closed spec fn wf(&self) -> bool {
        ids_distinct(self@)
    }

    /// An authority that has opened no session yet.
    pub fn new(config: Config) -> (r: SessionPool)
        ensures
            r.wf(),
            r@ == Seq::<SessionView>::empty(),
            r.token() == config.token(),
            r.spec_port() == config.spec_port(),
    {
        let r = SessionPool { config, sessions: Vec::new() };
        assert(r@ =~= Seq::<SessionView>::empty());
        r
    }

    /// The port the server listens on.
    pub fn port(&self) -> (r: u16)
        ensures
            r == self.spec_port(),
    {
        self.config.port
    }

    /// How many sessions are open.
    pub fn session_count(&self) -> (r: usize)
        ensures
            r == self@.len(),
    {
        self.sessions.len()
    }

    /// Whether a session with this id is open.
    pub fn lookup_session(&self, id: &String) -> (r: bool)
        ensures
            r == has_id(self@, id@),
    {
        let mut i: usize = 0;
        while i < self.sessions.len()
            invariant
                0 <= i <= self@.len(),
                self@.len() == self.sessions@.len(),
                forall|j: int| 0 <= j < i ==> (#[trigger] self@[j]).id != id@,
            decreases self.sessions@.len() - i,
        {
            if self.sessions[i].id == *id {
                assert(self@[i as int].id == id@);
                return true;
            }
            i = i + 1;
        }
        false
    }

    /// Answers a session request whose token is `token`, with `candidate`
    /// as the id of the new session and `now_ms` as its opening time. A
    /// wrong token is refused; so is a candidate that is empty or already
    /// taken. Only an accepted request adds a session.
    pub fn open_session_with(&mut self, token: &String, candidate: String, now_ms: i64) -> (r:
        OpenSession)
        requires
            old(self).wf(),
        ensures
            final(self).wf(),
            final(self).token() == old(self).token(),
            token@ != old(self).token() ==> r@ == (OpenSessionView {
                ok: false,
                session_id: None,
                error: Some(invalid_token_error()),
            }) && final(self)@ == old(self)@,
            token@ == old(self).token() && (candidate@.len() == 0 || has_id(old(self)@, candidate@))
                ==> r@ == (OpenSessionView {
                ok: false,
                session_id: None,
                error: Some(id_unavailable_error()),
            }) && final(self)@ == old(self)@,
            token@ == old(self).token() && candidate@.len() > 0 && !has_id(old(self)@, candidate@)
                ==> r@ == (OpenSessionView { ok: true, session_id: Some(candidate@), error: None })
                && final(self)@ == old(self)@.push(
                SessionView { id: candidate@, created_at_ms: now_ms },
            ),
    {
        if !self.config.is_valid_token(token.clone()) {
            return OpenSession {
                ok: false,
                session_id: None,
                error: Some(String::from_str("Invalid token")),
            };
        }
        if candidate.as_str().is_empty() || self.lookup_session(&candidate) {
            return OpenSession {
                ok: false,
                session_id: None,
                error: Some(String::from_str("Session id unavailable")),
            };
        }
        let id = candidate.clone();
        let ghost before = self@;
        self.sessions.push(Session { id: candidate, created_at_ms: now_ms });
        assert(self@ =~= before.push(SessionView { id: id@, created_at_ms: now_ms }));
        OpenSession { ok: true, session_id: Some(id), error: None }
    }

    /// Answers a session request whose token is `token`, drawing a fresh
    /// random id for the new session. A wrong token is refused with
    /// "Invalid token" and adds nothing. With the right token, the session
    /// is opened under an id of `SESSION_ID_LEN` letters and digits that no
    /// open session has; only if `MAX_ID_ATTEMPTS` draws all hit taken ids
    /// is the request refused instead.
    pub fn open_session(&mut self, token: &String) -> (r: OpenSession)
        requires
            old(self).wf(),
        ensures
            final(self).wf(),
            final(self).token() == old(self).token(),
            token@ != old(self).token() ==> r@ == (OpenSessionView {
                ok: false,
                session_id: None,
                error: Some(invalid_token_error()),
            }),
            !r.ok ==> final(self)@ == old(self)@ && r@.session_id is None,
            token@ == old(self).token() && !r.ok ==> r@.error == Some(id_unavailable_error()),
            r.ok ==> token@ == old(self).token() && r@.error is None,
            r.ok ==> issued_fresh_id(old(self)@, r@, final(self)@),
            token@ == old(self).token() && old(self)@.len() == 0 ==> r.ok,
    {
        if !self.config.is_valid_token(token.clone()) {
            return OpenSession {
                ok: false,
                session_id: None,
                error: Some(String::from_str("Invalid token")),
            };
        }
        let now = now_millis();
        let mut candidate = random_alphanumeric(SESSION_ID_LEN);
        let mut attempt: usize = 1;
        while attempt < MAX_ID_ATTEMPTS && self.lookup_session(&candidate)
            invariant
                candidate@.len() == SESSION_ID_LEN,
                all_alphanumeric(candidate@),
                1 <= attempt <= MAX_ID_ATTEMPTS,
                self@ == old(self)@,
                self.wf(),
                self.token() == old(self).token(),
            decreases MAX_ID_ATTEMPTS - attempt,
        {
            candidate = random_alphanumeric(SESSION_ID_LEN);
            attempt = attempt + 1;
        }
        let ghost id = candidate@;
        let r = self.open_session_with(token, candidate, now);
        proof {
            if r.ok {
                let after = final(self)@;
                assert(after.subrange(0, old(self)@.len() as int) =~= old(self)@);
            }
        }
        r
    }

    /// What to do with a connection that opened with `req`. A request
    /// without a session id must ask for a session, and is answered as
    /// `open_session` does; any other is dropped. A request with a session
    /// id is dropped unless that session is open and the request asks for
    /// a video or a control channel, which is then attached to it.
    pub fn handle_request(&mut self, req: RequestConnection) -> (r: ServerAction)
        requires
            old(self).wf(),
        ensures
            final(self).wf(),
            final(self).token() == old(self).token(),
            !(r is Reply) ==> final(self)@ == old(self)@,
            r is Reply <==> req.session_id is None && req.conn_type is Session,
            r matches ServerAction::Reply(o) ==> (req.token@ != old(self).token() ==> o@ == (
            OpenSessionView { ok: false, session_id: None, error: Some(invalid_token_error()) })),
            r matches ServerAction::Reply(o) ==> (!o.ok ==> final(self)@ == old(self)@
                && o@.session_id is None),
            r matches ServerAction::Reply(o) ==> (req.token@ == old(self).token() && !o.ok
                ==> o@.error == Some(id_unavailable_error())),
            r matches ServerAction::Reply(o) ==> (o.ok ==> req.token@ == old(self).token()
                && o@.error is None && issued_fresh_id(old(self)@, o@, final(self)@)),
            req.session_id matches Some(sid) ==> match req.conn_type {
                ConnectionType::Video(v) => if has_id(old(self)@, sid@) {
                    r matches ServerAction::AttachVideo(id, v2) && id@ == sid@ && v2@ == v@
                } else {
                    r is Drop
                },
                ConnectionType::Controller(_) => if has_id(old(self)@, sid@) {
                    r matches ServerAction::AttachController(id) && id@ == sid@
                } else {
                    r is Drop
                },
                ConnectionType::Session(_) => r is Drop,
            },
            req.session_id is None && !(req.conn_type is Session) ==> r is Drop,
            req.session_id is None && req.conn_type is Session && req.token@ == old(self).token()
                && old(self)@.len() == 0 ==> (r matches ServerAction::Reply(o) && o.ok),
    {
        let RequestConnection { token, session_id, conn_type } = req;
        match session_id {
            None => match conn_type {
                ConnectionType::Session(_) => ServerAction::Reply(self.open_session(&token)),
                _ => ServerAction::Drop,
            },
            Some(sid) => {
                if !self.lookup_session(&sid) {
                    return ServerAction::Drop;
                }
                match conn_type {
                    ConnectionType::Video(v) => ServerAction::AttachVideo(sid, v),
                    ConnectionType::Controller(_) => ServerAction::AttachController(sid),
                    ConnectionType::Session(_) => ServerAction::Drop,
                }
            },
        }
    }
}

/// Session ids are unique across calls: of two sessions opened one after
/// the other, with any other sessions opened in between, the second never
/// gets the id of the first.
pub proof fn lemma_session_ids_unique(
    s0: Seq<SessionView>,
    id1: Seq<char>,
    s1: Seq<SessionView>,
    s2: Seq<SessionView>,
    id2: Seq<char>,
    s3: Seq<SessionView>,
)
    requires
        opened(s0, id1, s1),
        s1.len() <= s2.len(),
        s2.subrange(0, s1.len() as int) == s1,
        opened(s2, id2, s3),
    ensures
        id1 != id2,
        has_id(s3, id1),
        has_id(s3, id2),
{
    let k = s0.len() as int;
    assert(s1[k].id == id1);
    assert(s2[k] == s2.subrange(0, s1.len() as int)[k]);
    assert(has_id(s2, id1));
    assert(s3[k] == s3.subrange(0, s2.len() as int)[k]);
    assert(s3[s2.len() as int].id == id2);
}

/// Why the camera of a video channel could not be started, with the
/// camera's own description.
pub enum CameraStartError {
    /// The capture device could not be opened.
    Device(String),
    /// The device opened but would not start streaming.
    Stream(String),
}

pub open spec fn camera_error_text(e: CameraStartError) -> Seq<char> {
    match e {
        CameraStartError::Device(d) => "Failed to initialize video device: "@ + d@,
        CameraStartError::Stream(d) => "Failed to start the stream: "@ + d@,
    }
}

/// The answer to a video channel request, once starting the camera had
/// `outcome`.
pub fn video_channel_reply(outcome: Result<(), CameraStartError>) -> (r: OpenVideoConnection)
    ensures
        outcome is Ok ==> r.ok && r.error is None,
        outcome matches Err(e) ==> !r.ok && opt_view(r.error) == Some(camera_error_text(e)),
{
    match outcome {
        Ok(()) => OpenVideoConnection { ok: true, error: None },
        Err(CameraStartError::Device(d)) => {
            let text = String::from_str("Failed to initialize video device: ").concat(d.as_str());
            OpenVideoConnection { ok: false, error: Some(text) }
        },
        Err(CameraStartError::Stream(d)) => {
            let text = String::from_str("Failed to start the stream: ").concat(d.as_str());
            OpenVideoConnection { ok: false, error: Some(text) }
        },
    }
}

/// The answer to a control channel request: a control channel needs
/// nothing started, so it is always accepted.
pub fn controller_channel_reply() -> (r: OpenControllerConnection)
    ensures
        r.ok && r.error is None,
{
    OpenControllerConnection { ok: true, error: None }
}

} // verus!
