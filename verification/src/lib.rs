//! Decisions behind UDP NAT traversal: the endpoints a peer offers, the
//! hole-punching retry schedule, the peer-to-peer session protocol and the
//! rendezvous table that introduces two peers of a room.

pub mod endpoint;

pub mod wire;
pub mod punch;
pub mod candidates;
pub mod registration;
pub mod rooms;
pub mod session;
pub mod cli;
