//! Local session records (written to `~/.punch/logs/sessions.json` by the
//! application when `--log` is given).

use vstd::prelude::*;
use crate::time::{Timestamp, seconds_between, whole_seconds_between};

verus! {

/// How two peers ended up connected.
#[derive(Clone, Copy, Debug, PartialEq, Eq)]
pub enum ConnectionType {
    Direct,
    Relay,
}

impl ConnectionType {
    /// The label shown on the dashboard (`"Direct"` or `"Relay"`).
    pub fn dashboard_label(&self) -> (s: &'static str)
        ensures
            s@ == (match *self {
                ConnectionType::Direct => "Direct"@,
                ConnectionType::Relay => "Relay"@,
            }),
    {
        match self {
            ConnectionType::Direct => "Direct",
            ConnectionType::Relay => "Relay",
        }
    }
}

/// A single session log entry, kept on this device only.
#[derive(Debug)]
pub struct SessionLog {
    pub session_id: String,
    pub token_code: String,
    pub connection_type: ConnectionType,
    pub started_at: Timestamp,
    pub ended_at: Timestamp,
    pub bytes_sent: u64,
    pub bytes_received: u64,
}

impl SessionLog {
    /// Length of the session in whole seconds (rounded toward zero).
    pub fn duration_seconds(&self) -> (s: i64)
        requires
            self.started_at.in_range(),
            self.ended_at.in_range(),
        ensures
            s == whole_seconds_between(self.started_at, self.ended_at),
    {
        seconds_between(self.started_at, self.ended_at)
    }
}

} // verus!
