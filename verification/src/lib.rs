//! Verified core of a Minecraft LAN / peer-to-peer tunnelling helper.
pub mod json;
pub mod lan;
pub mod lobby;
pub mod p2p;
pub mod status;
pub mod stun;
pub mod text;
pub mod tls;
