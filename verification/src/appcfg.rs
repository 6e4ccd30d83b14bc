//! Application-level value types and the mode rule.
//!
//! One process acts as director (server) or performer (client), never both
//! at once.  The mode value is owned by the orchestrating layer; the
//! transition rules live here so the layer cannot get them wrong.
//! Persistence of the configuration is the application's business.

use vstd::prelude::*;
use crate::clients::ClientInfo;
use crate::types::timestamp;

verus! {

/// Which role this process is currently playing.
#[derive(Debug, Clone, Copy, PartialEq, Eq, Structural)]
pub enum AppMode {
    NotSelected,
    Server,
    Client,
}

impl AppMode {
    /// The mode after deciding to run the server; a process in client mode
    /// may not.
    pub fn try_enter_server(&self) -> (r: Option<AppMode>)
        ensures
            r is Some <==> !(self is Client),
            r matches Some(m) ==> m is Server,
    {
        match self {
            AppMode::Client => None,
            _ => Some(AppMode::Server),
        }
    }

    /// The mode after deciding to connect as a client; a process in server
    /// mode may not.
    pub fn try_enter_client(&self) -> (r: Option<AppMode>)
        ensures
            r is Some <==> !(self is Server),
            r matches Some(m) ==> m is Client,
    {
        match self {
            AppMode::Server => None,
            _ => Some(AppMode::Client),
        }
    }
}

/// Persistent application configuration.
#[derive(Debug, Clone)]
pub struct AppConfig {
    pub has_seen_donation_prompt: bool,
    pub first_launch_timestamp: Option<i64>,
}

impl Default for AppConfig {
    /// A fresh configuration: prompt not yet seen, first launch stamped
    /// now.
    fn default() -> (r: Self)
        ensures
            !r.has_seen_donation_prompt,
            r.first_launch_timestamp is Some,
    {
        AppConfig {
            has_seen_donation_prompt: false,
            first_launch_timestamp: Some(timestamp()),
        }
    }
}

impl AppConfig {
    /// Whether this is the first launch: the prompt has not been seen.
    pub fn is_first_launch(&self) -> (r: bool)
        ensures
            r == !self.has_seen_donation_prompt,
    {
        !self.has_seen_donation_prompt
    }

    /// Record that the prompt was shown.
    pub fn mark_donation_prompt_seen(&mut self)
        ensures
            final(self).has_seen_donation_prompt,
            final(self).first_launch_timestamp == old(self).first_launch_timestamp,
    {
        self.has_seen_donation_prompt = true;
    }
}

/// What the command layer reports about one connected client.
#[derive(Debug)]
pub struct ConnectedClientInfo {
    pub client_id: String,
    pub name: String,
    pub monitor_ids: Vec<u64>,
}

impl ConnectedClientInfo {
    /// The report for one registry entry.
    pub fn from_client_info(info: ClientInfo) -> (r: ConnectedClientInfo)
        ensures
            r.client_id@ == info@.client_id,
            r.name@ == info@.client_name,
            r.monitor_ids@ == info@.display_monitor_ids,
    {
        ConnectedClientInfo {
            client_id: info.client_id,
            name: info.client_name,
            monitor_ids: info.display_monitor_ids,
        }
    }
}

/// Version information the application shell reports about itself.
#[derive(Debug, Clone)]
pub struct AppVersionInfo {
    pub version: String,
    pub git_commit: Option<String>,
    pub build_timestamp: Option<String>,
}

} // verus!
