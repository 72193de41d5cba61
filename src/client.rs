//! The operator side of the handshake: the requests it sends, how it reads
//! the answers, the order in which a connection is built, and the guard
//! that keeps connecting and disconnecting apart.
use vstd::prelude::*;
use vstd::string::StringExecFns;
use crate::message::{
    opt_view, ConnectionType, ConnectionTypeView, OpenControllerConnection, OpenSession,
    OpenVideoConnection, RequestConnection,
};
use crate::settings::Settings;

verus! {

/// Why a connection attempt failed.
#[derive(Debug)]
pub enum ClientError {
    /// No address was left to try: every one refused or timed out.
    Unreachable,
    /// The connection failed in another way than by a refusal or a timeout.
    Io,
    /// The server refused the session, for this reason.
    SessionRefused(String),
    /// The server accepted the session without naming it.
    MissingSessionId,
    /// The server refused the video channel, for this reason.
    VideoRefused(String),
    /// The server refused the control channel, for this reason.
    ControllerRefused(String),
    /// An answer came that the current step does not expect.
    UnexpectedAnswer,
}

impl ClientError {
    /// Whether trying again later may succeed, as opposed to a refusal that
    /// only a change of configuration can mend.
    pub fn is_retryable(&self) -> (r: bool)
        ensures
            r <==> (self is Unreachable || self is Io),
    {
        match self {
            ClientError::Unreachable | ClientError::Io => true,
            _ => false,
        }
    }
}

/// How an attempt to reach an address or to talk over a connection failed.
#[derive(Debug, Clone, Copy, PartialEq, Eq, Structural)]
pub enum FailureKind {
    TimedOut,
    ConnectionRefused,
    Other,
}

/// The reason a refusal gives, or "Unknown" where it gives none.
pub open spec fn reason_of(error: Option<Seq<char>>) -> Seq<char> {
    match error {
        Some(e) => e,
        None => "Unknown"@,
    }
}

fn reason(error: Option<String>) -> (r: String)
    ensures
        r@ == reason_of(opt_view(error)),
{
    match error {
        Some(e) => e,
        None => String::from_str("Unknown"),
    }
}

/// The request that opens a session.
pub fn session_request(settings: &Settings) -> (r: RequestConnection)
    ensures
        r.token@ == settings.connection.token@,
        r.session_id is None,
        r.conn_type@ == ConnectionTypeView::Session(settings.heartbeat),
{
    RequestConnection {
        token: settings.connection.token.clone(),
        session_id: None,
        conn_type: ConnectionType::Session(settings.heartbeat),
    }
}

/// The request that attaches a video channel to session `session_id`.
pub fn video_request(settings: &Settings, session_id: String) -> (r: RequestConnection)
    ensures
        r.token@ == settings.connection.token@,
        opt_view(r.session_id) == Some(session_id@),
        r.conn_type@ == ConnectionTypeView::Video(settings.video@),
{
    RequestConnection {
        token: settings.connection.token.clone(),
        session_id: Some(session_id),
        conn_type: ConnectionType::Video(settings.video.copy()),
    }
}

/// The request that attaches a control channel to session `session_id`.
pub fn controller_request(settings: &Settings, session_id: String) -> (r: RequestConnection)
    ensures
        r.token@ == settings.connection.token@,
        opt_view(r.session_id) == Some(session_id@),
        r.conn_type@ == ConnectionTypeView::Controller(settings.controller),
{
    RequestConnection {
        token: settings.connection.token.clone(),
        session_id: Some(session_id),
        conn_type: ConnectionType::Controller(settings.controller),
    }
}

/// The session id that an accepting answer names; the reason of a refusal.
pub fn accept_session(reply: OpenSession) -> (r: Result<String, ClientError>)
    ensures
        reply.ok && reply.session_id is Some ==> (r matches Ok(id) && Some(id@) == opt_view(
            reply.session_id,
        )),
        reply.ok && reply.session_id is None ==> r matches Err(ClientError::MissingSessionId),
        !reply.ok ==> (r matches Err(ClientError::SessionRefused(e)) && e@ == reason_of(
            opt_view(reply.error),
        )),
{
    if reply.ok {
        match reply.session_id {
            Some(id) => Ok(id),
            None => Err(ClientError::MissingSessionId),
        }
    } else {
        Err(ClientError::SessionRefused(reason(reply.error)))
    }
}

/// Whether the video channel was opened; the reason of a refusal.
pub fn accept_video(reply: OpenVideoConnection) -> (r: Result<(), ClientError>)
    ensures
        reply.ok ==> r is Ok,
        !reply.ok ==> (r matches Err(ClientError::VideoRefused(e)) && e@ == reason_of(
            opt_view(reply.error),
        )),
{
    if reply.ok {
        Ok(())
    } else {
        Err(ClientError::VideoRefused(reason(reply.error)))
    }
}

/// Whether the control channel was opened; the reason of a refusal.
pub fn accept_controller(reply: OpenControllerConnection) -> (r: Result<(), ClientError>)
    ensures
        reply.ok ==> r is Ok,
        !reply.ok ==> (r matches Err(ClientError::ControllerRefused(e)) && e@ == reason_of(
            opt_view(reply.error),
        )),
{
    if reply.ok {
        Ok(())
    } else {
        Err(ClientError::ControllerRefused(reason(reply.error)))
    }
}

/// Whether a failure to reach an address sends the attempt on to the next
/// address: only a refusal or a timeout does.
pub fn tries_next_address(kind: FailureKind) -> (r: bool)
    ensures
        r <==> (kind == FailureKind::TimedOut || kind == FailureKind::ConnectionRefused),
{
    match kind {
        FailureKind::TimedOut | FailureKind::ConnectionRefused => true,
        FailureKind::Other => false,
    }
}

/// What the caller does next while a connection is built.
#[derive(Debug)]
pub enum ConnectStep {
    /// Connect to candidate address `addr` and send this session request.
    OpenSession(usize, RequestConnection),
    /// Open another connection to address `addr` and send this video
    /// channel request.
    OpenVideo(usize, RequestConnection),
    /// Open another connection to address `addr` and send this control
    /// channel request.
    OpenController(usize, RequestConnection),
    /// Both channels are open, on address `addr`, for this session.
    Connected(usize, String),
    /// The attempt is over.
    Failed(ClientError),
}

/// What the caller reports back after doing a step.
pub enum ConnectEvent {
    SessionAnswer(OpenSession),
    VideoAnswer(OpenVideoConnection),
    ControllerAnswer(OpenControllerConnection),
    Failure(FailureKind),
}

/// Where the building of a connection stands.
#[derive(Debug, Clone, Copy, PartialEq, Eq, Structural)]
pub enum ConnectPhase {
    AwaitSession,
    AwaitVideo,
    AwaitController,
    Finished,
}

/// Builds a connection: a session on the first address that answers, then
/// a video channel and a control channel on the same address, each bound
/// to the session id.
pub struct Connector {
    phase: ConnectPhase,
    addr: usize,
    n_addrs: usize,
    session_id: Option<String>,
}

impl Connector {
    pub closed spec fn phase(&self) -> ConnectPhase {
        self.phase
    }

    /// The candidate address in use.
    pub closed spec fn addr(&self) -> usize {
        self.addr
    }

    pub closed spec fn n_addrs(&self) -> usize {
        self.n_addrs
    }

    /// The id of the session, once it is open.
    pub closed spec fn session_id(&self) -> Option<Seq<char>> {
        opt_view(self.session_id)
    }

    pub closed spec fn wf(&self) -> bool {
        &&& (self.phase != ConnectPhase::Finished ==> self.addr < self.n_addrs)
        &&& (self.phase == ConnectPhase::AwaitVideo || self.phase == ConnectPhase::AwaitController
            ==> self.session_id is Some)
    }

    /// Starts building a connection over `n_addrs` candidate addresses:
    /// the first step is a session request to the first of them.
    pub fn start(settings: &Settings, n_addrs: usize) -> (r: (Connector, ConnectStep))
        ensures
            r.0.wf(),
            r.0.n_addrs() == n_addrs,
            n_addrs == 0 ==> (r.1 matches ConnectStep::Failed(ClientError::Unreachable)
                && r.0.phase() == ConnectPhase::Finished),
            n_addrs > 0 ==> (r.1 matches ConnectStep::OpenSession(a, req) && a == 0 && req.token@
                == settings.connection.token@ && req.session_id is None && req.conn_type@
                == ConnectionTypeView::Session(settings.heartbeat) && r.0.phase()
                == ConnectPhase::AwaitSession && r.0.addr() == 0),
    {
        if n_addrs == 0 {
            let c = Connector { phase: ConnectPhase::Finished, addr: 0, n_addrs, session_id: None };
            return (c, ConnectStep::Failed(ClientError::Unreachable));
        }
        let c = Connector { phase: ConnectPhase::AwaitSession, addr: 0, n_addrs, session_id: None };
        (c, ConnectStep::OpenSession(0, session_request(settings)))
    }

    /// The next step after `event`. While the session is sought, a refusal
    /// or a timeout moves on to the next address and any other failure
    /// ends the attempt; once the session is open, every failure and every
    /// refusal ends it. An answer that the phase does not expect ends it
    /// too, and a finished attempt stays finished.
    pub fn step(&mut self, settings: &Settings, event: ConnectEvent) -> (r: ConnectStep)
        requires
            old(self).wf(),
        ensures
            final(self).wf(),
            final(self).n_addrs() == old(self).n_addrs(),
            r is Failed <==> final(self).phase() == ConnectPhase::Finished && !(r is Connected),
            old(self).phase() == ConnectPhase::Finished ==> r matches ConnectStep::Failed(
                ClientError::UnexpectedAnswer,
            ),
            old(self).phase() == ConnectPhase::AwaitSession ==> match event {
                ConnectEvent::Failure(k) => if k == FailureKind::Other {
                    r matches ConnectStep::Failed(ClientError::Io)
                } else if old(self).addr() + 1 < old(self).n_addrs() {
                    r matches ConnectStep::OpenSession(a, req) && a == old(self).addr() + 1
                        && req.token@ == settings.connection.token@ && req.session_id is None
                        && req.conn_type@ == ConnectionTypeView::Session(settings.heartbeat)
                        && final(self).phase() == ConnectPhase::AwaitSession && final(self).addr()
                        == a
                } else {
                    r matches ConnectStep::Failed(ClientError::Unreachable)
                },
                ConnectEvent::SessionAnswer(o) => if o.ok && o.session_id is Some {
                    r matches ConnectStep::OpenVideo(a, req) && a == old(self).addr()
                        && req.token@ == settings.connection.token@ && opt_view(req.session_id)
                        == opt_view(o.session_id) && req.conn_type@ == ConnectionTypeView::Video(
                        settings.video@,
                    ) && final(self).phase() == ConnectPhase::AwaitVideo && final(self).addr()
                        == a && final(self).session_id() == opt_view(o.session_id)
                } else if o.ok {
                    r matches ConnectStep::Failed(ClientError::MissingSessionId)
                } else {
                    r matches ConnectStep::Failed(ClientError::SessionRefused(e)) && e@ == reason_of(
                        opt_view(o.error),
                    )
                },
                _ => r matches ConnectStep::Failed(ClientError::UnexpectedAnswer),
            },
            old(self).phase() == ConnectPhase::AwaitVideo ==> match event {
                ConnectEvent::VideoAnswer(v) => if v.ok {
                    r matches ConnectStep::OpenController(a, req) && a == old(self).addr()
                        && req.token@ == settings.connection.token@ && opt_view(req.session_id)
                        == old(self).session_id() && req.conn_type@
                        == ConnectionTypeView::Controller(settings.controller)
                        && final(self).phase() == ConnectPhase::AwaitController
                        && final(self).addr() == old(self).addr() && final(self).session_id()
                        == old(self).session_id()
                } else {
                    r matches ConnectStep::Failed(ClientError::VideoRefused(e)) && e@ == reason_of(
                        opt_view(v.error),
                    )
                },
                ConnectEvent::Failure(_) => r matches ConnectStep::Failed(ClientError::Io),
                _ => r matches ConnectStep::Failed(ClientError::UnexpectedAnswer),
            },
            old(self).phase() == ConnectPhase::AwaitController ==> match event {
                ConnectEvent::ControllerAnswer(c) => if c.ok {
                    r matches ConnectStep::Connected(a, id) && a == old(self).addr() && Some(id@)
                        == old(self).session_id() && final(self).phase()
                        == ConnectPhase::Finished
                } else {
                    r matches ConnectStep::Failed(ClientError::ControllerRefused(e)) && e@
                        == reason_of(opt_view(c.error))
                },
                ConnectEvent::Failure(_) => r matches ConnectStep::Failed(ClientError::Io),
                _ => r matches ConnectStep::Failed(ClientError::UnexpectedAnswer),
            },
    {
        let phase = self.phase;
        match phase {
            ConnectPhase::AwaitSession => match event {
                ConnectEvent::Failure(k) => {
                    if tries_next_address(k) && self.addr + 1 < self.n_addrs {
                        self.addr = self.addr + 1;
                        ConnectStep::OpenSession(self.addr, session_request(settings))
                    } else {
                        self.phase = ConnectPhase::Finished;
                        if tries_next_address(k) {
                            ConnectStep::Failed(ClientError::Unreachable)
                        } else {
                            ConnectStep::Failed(ClientError::Io)
                        }
                    }
                },
                ConnectEvent::SessionAnswer(o) => match accept_session(o) {
                    Ok(id) => {
                        let req = video_request(settings, id.clone());
                        self.session_id = Some(id);
                        self.phase = ConnectPhase::AwaitVideo;
                        ConnectStep::OpenVideo(self.addr, req)
                    },
                    Err(e) => {
                        self.phase = ConnectPhase::Finished;
                        ConnectStep::Failed(e)
                    },
                },
                _ => {
                    self.phase = ConnectPhase::Finished;
                    ConnectStep::Failed(ClientError::UnexpectedAnswer)
                },
            },
            ConnectPhase::AwaitVideo => match event {
                ConnectEvent::VideoAnswer(v) => match accept_video(v) {
                    Ok(()) => {
                        let id = match &self.session_id {
                            Some(id) => id.clone(),
                            None => String::new(),
                        };
                        self.phase = ConnectPhase::AwaitController;
                        ConnectStep::OpenController(self.addr, controller_request(settings, id))
                    },
                    Err(e) => {
                        self.phase = ConnectPhase::Finished;
                        ConnectStep::Failed(e)
                    },
                },
                ConnectEvent::Failure(_) => {
                    self.phase = ConnectPhase::Finished;
                    ConnectStep::Failed(ClientError::Io)
                },
                _ => {
                    self.phase = ConnectPhase::Finished;
                    ConnectStep::Failed(ClientError::UnexpectedAnswer)
                },
            },
            ConnectPhase::AwaitController => match event {
                ConnectEvent::ControllerAnswer(c) => match accept_controller(c) {
                    Ok(()) => {
                        let id = match &self.session_id {
                            Some(id) => id.clone(),
                            None => String::new(),
                        };
                        self.phase = ConnectPhase::Finished;
                        ConnectStep::Connected(self.addr, id)
                    },
                    Err(e) => {
                        self.phase = ConnectPhase::Finished;
                        ConnectStep::Failed(e)
                    },
                },
                ConnectEvent::Failure(_) => {
                    self.phase = ConnectPhase::Finished;
                    ConnectStep::Failed(ClientError::Io)
                },
                _ => {
                    self.phase = ConnectPhase::Finished;
                    ConnectStep::Failed(ClientError::UnexpectedAnswer)
                },
            },
            ConnectPhase::Finished => ConnectStep::Failed(ClientError::UnexpectedAnswer),
        }
    }
}

/// What a request to connect leads to.
#[derive(Debug, Clone, Copy, PartialEq, Eq, Structural)]
pub enum ConnectDecision {
    /// A connection is up already: nothing is started.
    AlreadyConnected,
    /// A connection is being built already: nothing more is started.
    AlreadyConnecting,
    /// Start building a connection.
    Start,
}

/// What a request to disconnect leads to.
#[derive(Debug, Clone, Copy, PartialEq, Eq, Structural)]
pub enum DisconnectDecision {
    /// A connection is being built: tearing it down now is refused.
    Deferred,
    /// Stop the loops of the connection that is up.
    Stop,
    /// There is no connection to stop.
    NotConnected,
}

/// Keeps connecting and disconnecting apart: a disconnection while a
/// connection is being built is refused, so that no half-built session is
/// torn down.
pub struct LinkGuard {
    connecting: bool,
    connected: bool,
}

impl LinkGuard {
    pub closed spec fn connecting(&self) -> bool {
        self.connecting
    }

    pub closed spec fn connected(&self) -> bool {
        self.connected
    }

    /// Neither connected nor connecting.
    pub fn new() -> (r: LinkGuard)
        ensures
            !r.connecting(),
            !r.connected(),
    {
        LinkGuard { connecting: false, connected: false }
    }

    /// Whether a connection is up.
    pub fn is_connected(&self) -> (r: bool)
        ensures
            r == self.connected(),
    {
        self.connected
    }

    /// A request to connect: started only when neither connected nor
    /// connecting, and then the guard is connecting.
    pub fn begin_connect(&mut self) -> (r: ConnectDecision)
        ensures
            old(self).connected() ==> r == ConnectDecision::AlreadyConnected && *final(self)
                == *old(self),
            !old(self).connected() && old(self).connecting() ==> r
                == ConnectDecision::AlreadyConnecting && *final(self) == *old(self),
            !old(self).connected() && !old(self).connecting() ==> r == ConnectDecision::Start
                && final(self).connecting() && !final(self).connected(),
    {
        if self.connected {
            ConnectDecision::AlreadyConnected
        } else if self.connecting {
            ConnectDecision::AlreadyConnecting
        } else {
            self.connecting = true;
            ConnectDecision::Start
        }
    }

    /// The connection being built is up (`ok`) or has failed.
    pub fn finish_connect(&mut self, ok: bool)
        ensures
            !final(self).connecting(),
            final(self).connected() == ok,
    {
        self.connecting = false;
        self.connected = ok;
    }

    /// A request to disconnect: refused while connecting; otherwise the
    /// connection, if any, is stopped and the guard is idle.
    pub fn begin_disconnect(&mut self) -> (r: DisconnectDecision)
        ensures
            old(self).connecting() ==> r == DisconnectDecision::Deferred && *final(self)
                == *old(self),
            !old(self).connecting() && old(self).connected() ==> r == DisconnectDecision::Stop,
            !old(self).connecting() && !old(self).connected() ==> r
                == DisconnectDecision::NotConnected,
            !old(self).connecting() ==> !final(self).connected() && !final(self).connecting(),
    {
        if self.connecting {
            DisconnectDecision::Deferred
        } else if self.connected {
            self.connected = false;
            DisconnectDecision::Stop
        } else {
            DisconnectDecision::NotConnected
        }
    }
}

} // verus!
