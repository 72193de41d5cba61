//! Settings that the two ends share: where to connect, with which token,
//! and how the camera and the heartbeat are configured.
use vstd::prelude::*;

verus! {

/// Where the robot listens, and the shared secret that opens a session.
#[derive(Debug, Clone)]
pub struct Connection {
    pub host: String,
    pub port: u16,
    pub token: String,
}

/// How the robot's camera is to capture.
#[derive(Debug)]
pub struct Video {
    pub device: String,
    pub resolution: (u32, u32),
    pub max_framerate: u8,
}

/// The heartbeat of a session channel.
#[derive(Debug, Clone, Copy, PartialEq, Eq, Structural)]
pub struct Heartbeat {
    pub interval: u8,
    pub missed_beats: u8,
}

/// A control channel needs no settings.
#[derive(Debug, Clone, Copy, PartialEq, Eq, Structural)]
pub struct Controller {}

/// Everything that the operator side reads at start-up.
#[derive(Debug)]
pub struct Settings {
    pub connection: Connection,
    pub video: Video,
    pub heartbeat: Heartbeat,
    pub controller: Controller,
}

/// The camera settings as values.
pub struct VideoView {
    pub device: Seq<char>,
    pub resolution: (u32, u32),
    pub max_framerate: u8,
}

impl View for Video {
    type V = VideoView;

    open spec fn view(&self) -> VideoView {
        VideoView {
            device: self.device@,
            resolution: self.resolution,
            max_framerate: self.max_framerate,
        }
    }
}

impl Video {
    /// A copy with the same settings.
    pub fn copy(&self) -> (r: Video)
        ensures
            r@ == self@,
    {
        Video {
            device: self.device.clone(),
            resolution: self.resolution,
            max_framerate: self.max_framerate,
        }
    }
}

} // verus!
