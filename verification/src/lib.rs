//! The logic of a watch party: a server that keeps the video players of its clients in step.

pub mod client;
pub mod clock;
pub mod codec;
pub mod console;
pub mod content;
pub mod message;
pub mod protocol;
pub mod room;
pub mod samples;
pub mod session;
pub mod varint;
pub mod wire;
