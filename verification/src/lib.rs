//! Wire protocol of a small motor and sensor controller that is reached over a
//! raw stream socket.
//!
//! The crate holds the protocol and nothing that touches a socket: frames are
//! built as byte vectors, responses are reassembled by feeding received bytes to
//! a [`framing::FrameReader`], and telemetry is decoded from the payload bytes.
//! Every function is verified against the contract it carries.

pub mod datatypes;
pub mod codec;
pub mod framing;
pub mod telemetry;
pub mod text;
pub mod console;
pub mod graph;
pub mod python_client;
pub mod session;
