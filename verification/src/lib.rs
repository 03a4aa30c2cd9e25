//! A user-space TCP protocol engine over raw IPv4/TCP packets.
//!
//! The engine terminates TCP connections entirely in user space: inbound
//! link-layer frames are filtered, parsed, demultiplexed by their
//! address/port four-tuple, and fed to a per-connection RFC 793 state
//! machine whose sequence-number and window bookkeeping is verified.

pub mod engine;
pub mod seqnum;
pub mod table;
pub mod tcp;
pub mod wire;
