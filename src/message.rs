//! The messages of the session protocol.
use vstd::prelude::*;
use crate::settings::{Controller, Heartbeat, Video, VideoView};
use crate::state::MachineState;

verus! {

/// The purpose of one physical connection, fixed for its lifetime.
#[derive(Debug)]
pub enum ConnectionType {
    Session(Heartbeat),
    Video(Video),
    Controller(Controller),
}

/// The first message on every connection.
#[derive(Debug)]
pub struct RequestConnection {
    pub token: String,
    pub session_id: Option<String>,
    pub conn_type: ConnectionType,
}

/// The answer to a session request.
#[derive(Debug, Clone)]
pub struct OpenSession {
    pub ok: bool,
    pub session_id: Option<String>,
    pub error: Option<String>,
}

/// The answer to a video channel request.
#[derive(Debug, Clone)]
pub struct OpenVideoConnection {
    pub ok: bool,
    pub error: Option<String>,
}

/// The answer to a control channel request.
#[derive(Debug, Clone)]
pub struct OpenControllerConnection {
    pub ok: bool,
    pub error: Option<String>,
}

/// One encoded camera image and when it was taken.
#[derive(Debug, Clone)]
pub struct VideoFrame {
    pub data: Vec<u8>,
    pub timestamp_ms: i64,
}

/// Any message that travels in a frame.
#[derive(Debug)]
pub enum Message {
    Request(RequestConnection),
    OpenSession(OpenSession),
    OpenVideo(OpenVideoConnection),
    OpenController(OpenControllerConnection),
    VideoFrame(VideoFrame),
    State(MachineState),
}

pub enum ConnectionTypeView {
    Session(Heartbeat),
    Video(VideoView),
    Controller(Controller),
}

pub struct RequestView {
    pub token: Seq<char>,
    pub session_id: Option<Seq<char>>,
    pub conn_type: ConnectionTypeView,
}

pub struct OpenSessionView {
    pub ok: bool,
    pub session_id: Option<Seq<char>>,
    pub error: Option<Seq<char>>,
}

/// The answer to a channel request, video or control.
pub struct AckView {
    pub ok: bool,
    pub error: Option<Seq<char>>,
}

pub struct VideoFrameView {
    pub data: Seq<u8>,
    pub timestamp_ms: i64,
}

pub enum MessageView {
    Request(RequestView),
    OpenSession(OpenSessionView),
    OpenVideo(AckView),
    OpenController(AckView),
    VideoFrame(VideoFrameView),
    State(MachineState),
}

pub open spec fn opt_view(o: Option<String>) -> Option<Seq<char>> {
    match o {
        Some(s) => Some(s@),
        None => None,
    }
}

impl View for ConnectionType {
    type V = ConnectionTypeView;

    open spec fn view(&self) -> ConnectionTypeView {
        match self {
            ConnectionType::Session(h) => ConnectionTypeView::Session(*h),
            ConnectionType::Video(v) => ConnectionTypeView::Video(v@),
            ConnectionType::Controller(c) => ConnectionTypeView::Controller(*c),
        }
    }
}

impl View for RequestConnection {
    type V = RequestView;

    open spec fn view(&self) -> RequestView {
        RequestView {
            token: self.token@,
            session_id: opt_view(self.session_id),
            conn_type: self.conn_type@,
        }
    }
}

impl View for OpenSession {
    type V = OpenSessionView;

    open spec fn view(&self) -> OpenSessionView {
        OpenSessionView {
            ok: self.ok,
            session_id: opt_view(self.session_id),
            error: opt_view(self.error),
        }
    }
}

impl View for OpenVideoConnection {
    type V = AckView;

    open spec fn view(&self) -> AckView {
        AckView { ok: self.ok, error: opt_view(self.error) }
    }
}

impl View for OpenControllerConnection {
    type V = AckView;

    open spec fn view(&self) -> AckView {
        AckView { ok: self.ok, error: opt_view(self.error) }
    }
}

impl View for VideoFrame {
    type V = VideoFrameView;

    open spec fn view(&self) -> VideoFrameView {
        VideoFrameView { data: self.data@, timestamp_ms: self.timestamp_ms }
    }
}

impl View for Message {
    type V = MessageView;

    open spec fn view(&self) -> MessageView {
        match self {
            Message::Request(r) => MessageView::Request(r@),
            Message::OpenSession(o) => MessageView::OpenSession(o@),
            Message::OpenVideo(o) => MessageView::OpenVideo(o@),
            Message::OpenController(o) => MessageView::OpenController(o@),
            Message::VideoFrame(f) => MessageView::VideoFrame(f@),
            Message::State(s) => MessageView::State(*s),
        }
    }
}

} // verus!
