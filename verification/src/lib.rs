//! Punch: peer-to-peer connection codes, token policy, file-transfer
//! planning, shell safety rules and the wire formats they rely on.

pub mod text;
pub mod base64;
pub mod time;
pub mod logger;
pub mod token;
pub mod token_store;
pub mod stun;
pub mod transfer;
pub mod safety;
pub mod shell_config;
pub mod digest;
pub mod crypto;
pub mod active_state;
pub mod shell;
pub mod forward;
pub mod pipe;
pub mod config;
pub mod punch;
pub mod signaling;
pub mod resume;
