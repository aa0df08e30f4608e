//! Verified core of a desktop security agent.

pub mod admin_manager;
pub mod admin_run;
pub mod amsi;
pub mod app_control;
pub mod clock;
pub mod command;
pub mod dedup;
pub mod dns_monitor;
pub mod fs_watcher;
pub mod host_isolation;
pub mod json;
pub mod kernel;
pub mod laws;
pub mod lifecycle;
pub mod mdm;
pub mod memory_module;
pub mod memory_scanner;
pub mod net;
pub mod network_module;
pub mod network_monitor;
pub mod package_manager;
pub mod posture;
pub mod posture_module;
pub mod power;
pub mod process_module;
pub mod process_monitor;
pub mod query;
pub mod scan_host;
pub mod stream;
pub mod sysinfo;
pub mod text;
pub mod types;
pub mod udp_sampler;
