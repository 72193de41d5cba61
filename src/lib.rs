//! Session and channel protocol layer between an operator station and a
//! wheeled robot: length-prefixed framing, the message encoding, the session
//! handshake, the MJPEG demultiplexer and the control-state differ.

pub mod frame;
pub mod state;
pub mod demux;
pub mod settings;
pub mod message;
pub mod codec;
pub mod authority;
pub mod client;
pub mod drive;
pub mod fps;
