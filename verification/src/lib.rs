//! Core of a real-time cue ("kanpe") broadcasting system.
//!
//! A director process broadcasts short cue messages to performer clients over
//! a JSON text protocol; performers send lightweight feedback back, and a
//! macro-pad bridge offers a simplified side channel.  This crate holds the
//! verified core: the wire protocol and its codec, the monitor and connection
//! registries, the broadcast fan-out plan, the per-connection session state
//! machines, and the bridge protocol.  Transport I/O lives outside.

pub mod appcfg;
pub mod bridge;
pub mod client_session;
pub mod clients;
pub mod json;
pub mod message;
pub mod monitors;
pub mod server;
pub mod templates;
pub mod types;
pub mod wire;

pub use message::Message;
pub use types::{FeedbackType, Priority, VirtualMonitor};
