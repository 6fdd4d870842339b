//! Configuration records and status events.
//!
//! A connection is identified by an opaque `id` string: the sole join
//! key between configuration records, registry entries, and emitted
//! status events.

use vstd::prelude::*;

verus! {

/// Configuration of an SSH reverse tunnel.
pub struct SshConfig {
    pub id: String,
    pub host: String,
    pub port: u16,
    pub username: String,
    /// Password authentication is not supported in non-interactive
    /// mode, so the only credential is an optional identity file.
    pub key_file: Option<String>,
    pub remote_port: u16,
    pub local_port: u16,
    /// Desired-state flag: if true, the connection should be running.
    pub enabled: bool,
}

/// Mathematical value of an [`SshConfig`].
pub struct SshConfigV {
    pub id: Seq<char>,
    pub host: Seq<char>,
    pub port: u16,
    pub username: Seq<char>,
    pub key_file: Option<Seq<char>>,
    pub remote_port: u16,
    pub local_port: u16,
    pub enabled: bool,
}

impl View for SshConfig {
    type V = SshConfigV;

    open spec fn view(&self) -> SshConfigV {
        SshConfigV {
            id: self.id@,
            host: self.host@,
            port: self.port,
            username: self.username@,
            key_file: match self.key_file {
                Some(ref k) => Some(k@),
                None => None,
            },
            remote_port: self.remote_port,
            local_port: self.local_port,
            enabled: self.enabled,
        }
    }
}

impl SshConfig {
    /// Field-for-field copy of the record.
    pub fn duplicate(&self) -> (r: SshConfig)
        ensures
            r@ == self@,
    {
        SshConfig {
            id: self.id.clone(),
            host: self.host.clone(),
            port: self.port,
            username: self.username.clone(),
            key_file: match &self.key_file {
                Some(k) => Some(k.clone()),
                None => None,
            },
            remote_port: self.remote_port,
            local_port: self.local_port,
            enabled: self.enabled,
        }
    }
}

/// Configuration of a managed-tunnel-daemon connection.
pub struct CloudflareConfig {
    pub id: String,
    pub name: String,
    /// Opaque token handed to the tunnel daemon.
    pub tunnel_token: String,
    /// Local port to expose.
    pub local_port: u16,
    /// Desired-state flag: if true, the connection should be running.
    pub enabled: bool,
}

/// Mathematical value of a [`CloudflareConfig`].
pub struct CloudflareConfigV {
    pub id: Seq<char>,
    pub name: Seq<char>,
    pub tunnel_token: Seq<char>,
    pub local_port: u16,
    pub enabled: bool,
}

impl View for CloudflareConfig {
    type V = CloudflareConfigV;

    open spec fn view(&self) -> CloudflareConfigV {
        CloudflareConfigV {
            id: self.id@,
            name: self.name@,
            tunnel_token: self.tunnel_token@,
            local_port: self.local_port,
            enabled: self.enabled,
        }
    }
}

impl CloudflareConfig {
    /// Field-for-field copy of the record.
    pub fn duplicate(&self) -> (r: CloudflareConfig)
        ensures
            r@ == self@,
    {
        CloudflareConfig {
            id: self.id.clone(),
            name: self.name.clone(),
            tunnel_token: self.tunnel_token.clone(),
            local_port: self.local_port,
            enabled: self.enabled,
        }
    }
}

/// Connection status as published to the observer.
#[derive(Clone, Copy, Debug, PartialEq, Eq, Structural)]
pub enum Status {
    Connecting,
    Connected,
    Reconnecting,
    Disconnected,
    Error,
}

/// One published status transition for one connection.
pub struct StatusEvent {
    pub id: String,
    pub status: Status,
    pub message: String,
}

/// Mathematical value of a [`StatusEvent`].
pub struct StatusEventV {
    pub id: Seq<char>,
    pub status: Status,
    pub message: Seq<char>,
}

impl View for StatusEvent {
    type V = StatusEventV;

    open spec fn view(&self) -> StatusEventV {
        StatusEventV { id: self.id@, status: self.status, message: self.message@ }
    }
}

/// Value of a sequence of status events.
pub open spec fn events_view(evs: Seq<StatusEvent>) -> Seq<StatusEventV> {
    evs.map(|i: int, e: StatusEvent| e@)
}

} // verus!
