//! Roles: the package sets, features and shell that a kind of machine gets.
use vstd::prelude::*;
use super::host::{HostFeatures, ShellKind};

verus! {

/// A role file (`roles/<name>.toml`).
#[derive(Debug, Clone)]
pub struct Role {
    pub description: String,
    pub packages: Vec<String>,
    pub features: RoleFeatures,
    pub default_shell: Option<ShellKind>,
}

/// Features a role turns on; every key defaults to off.
#[derive(Debug, Clone, Copy, Default, PartialEq, Eq, Structural)]
pub struct RoleFeatures {
    pub gui: bool,
    pub cursor: bool,
    pub remote_login: bool,
    /// macOS Screen Sharing (VNC, port 5900). No-op on Linux.
    pub screen_sharing: bool,
    pub tailscale: bool,
    pub thunderbolt: bool,
    /// Keep the machine from idling to sleep (compute nodes).
    pub stay_awake: bool,
}

/// `opt.unwrap_or(base)`.
pub open spec fn overlay(opt: Option<bool>, base: bool) -> bool {
    match opt {
        Some(v) => v,
        None => base,
    }
}

fn overlay_exec(opt: Option<bool>, base: bool) -> (r: bool)
    ensures
        r == overlay(opt, base),
{
    match opt {
        Some(v) => v,
        None => base,
    }
}

impl RoleFeatures {
    /// Host `[features]` keys overlay the role; omitted keys keep the role value.
    pub fn with_host(&self, host: &HostFeatures) -> (r: Self)
        ensures
            r.gui == overlay(host.gui, self.gui),
            r.cursor == overlay(host.cursor, self.cursor),
            r.remote_login == overlay(host.remote_login, self.remote_login),
            r.screen_sharing == overlay(host.screen_sharing, self.screen_sharing),
            r.tailscale == overlay(host.tailscale, self.tailscale),
            r.thunderbolt == overlay(host.thunderbolt, self.thunderbolt),
            r.stay_awake == overlay(host.stay_awake, self.stay_awake),
    {
        RoleFeatures {
            gui: overlay_exec(host.gui, self.gui),
            cursor: overlay_exec(host.cursor, self.cursor),
            remote_login: overlay_exec(host.remote_login, self.remote_login),
            screen_sharing: overlay_exec(host.screen_sharing, self.screen_sharing),
            tailscale: overlay_exec(host.tailscale, self.tailscale),
            thunderbolt: overlay_exec(host.thunderbolt, self.thunderbolt),
            stay_awake: overlay_exec(host.stay_awake, self.stay_awake),
        }
    }
}

/// Operating system families that rig knows how to set up.
#[derive(Debug, Clone, Copy, PartialEq, Eq, Structural)]
pub enum OsKind {
    Macos,
    Linux,
}

/// The name of an OS in host files and on the command line.
pub open spec fn os_name(k: OsKind) -> Seq<char> {
    match k {
        OsKind::Macos => "macos"@,
        OsKind::Linux => "linux"@,
    }
}

impl OsKind {
    pub fn as_str(self) -> (s: &'static str)
        ensures
            s@ == os_name(self),
    {
        match self {
            OsKind::Macos => "macos",
            OsKind::Linux => "linux",
        }
    }
}

} // verus!
