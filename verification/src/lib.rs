//! Core logic of a remote-input transport: a browser-side controller sends
//! mouse, keyboard and clipboard events over a peer-to-peer data channel to a
//! desktop process, which replays them as native OS input.
//!
//! This crate holds the verified core: the wire codec for input events, the
//! motion forecast engine that smooths jittery motion samples, the pending
//! ICE-candidate queue, the connection-session and signaling-pump state
//! machines, and the supervisor's reconnect policy.  The unverified shell
//! around it (sockets, the peer transport, OS input injection) performs the
//! actions these state machines decide on.

pub mod clock;
pub mod codec;
pub mod dispatch;
pub mod edge;
pub mod envelope;
pub mod ids;
pub mod info;
pub mod motion;
pub mod numparse;
pub mod pump;
pub mod queue;
pub mod session;
pub mod supervisor;
pub mod wheel;
