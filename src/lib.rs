//! Media-routing core of a multi-party forwarding unit: the topology
//! registry, the RTP continuity engine and the signaling decisions.

pub mod bidirectional_multimap;
pub mod switchboard;
pub mod janus_rtp;
pub mod message_handler;
pub mod relay;
pub mod conf;
