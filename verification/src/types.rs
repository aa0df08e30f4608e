//! Plain data that several parts of the agent share.

use vstd::prelude::*;

verus! {

/// A change in the file system.
#[derive(Debug, Clone, PartialEq, Eq)]
pub struct FsEvent {
    pub path: String,
    pub kind: FsEventKind,
}

/// Kinds of change in the file system.
#[derive(Debug, Clone, Copy, PartialEq, Eq, Structural)]
pub enum FsEventKind {
    Created,
    Modified,
    Deleted,
    MetadataChanged,
    Renamed,
}

/// What is known of the operating system.
#[derive(Debug, Clone, PartialEq, Eq)]
pub struct OsInfo {
    pub name: String,
    pub version: String,
    pub architecture: String,
    pub hostname: String,
    pub kernel_version: String,
}

/// What is known of the hardware.
#[derive(Debug, Clone, PartialEq, Eq)]
pub struct HardwareInfo {
    pub cpu_name: String,
    pub cpu_cores: u32,
    pub total_ram_mb: u64,
}

/// A network interface.
#[derive(Debug, Clone, PartialEq, Eq)]
pub struct NetworkInterface {
    pub name: String,
    pub mac_address: Option<String>,
    pub ipv4: Vec<String>,
    pub ipv6: Vec<String>,
    pub is_up: bool,
}

/// An installed package.
#[derive(Debug, Clone, PartialEq, Eq)]
pub struct Package {
    pub name: String,
    pub version: String,
    pub architecture: Option<String>,
    pub vendor: Option<String>,
    pub install_time: Option<String>,
    pub format: String,
}

/// A running process.
#[derive(Debug, Clone, PartialEq, Eq)]
pub struct ProcessInfo {
    pub pid: u32,
    pub ppid: u32,
    pub name: String,
    pub command: Option<String>,
    pub user: Option<String>,
    pub state: Option<String>,
    pub start_time: Option<String>,
}

/// Where the host gets its power from.
#[derive(Debug, Clone, Copy, PartialEq, Eq, Structural)]
pub enum PowerState {
    AC,
    Battery,
    Unknown,
}

/// Whether a service runs.
#[derive(Debug, Clone, Copy, PartialEq, Eq, Structural)]
pub enum ServiceStatus {
    Running,
    Stopped,
    Unknown,
}

} // verus!
