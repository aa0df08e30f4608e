//! Messages: what an error says of its cause.

use crate::admin_manager::AdminError;
use crate::app_control::AppControlError;
use crate::dns_monitor::DnsMonitorError;
use crate::fs_watcher::FsWatcherError;
use crate::host_isolation::HostIsolationError;
use crate::kernel::{AttachError, AttachResult};
use crate::mdm::MdmError;
use crate::network_monitor::{LinuxNetworkMonitor, NetworkMonitorError};
use crate::package_manager::PackageError;
use crate::posture::PostureError;
use crate::process_monitor::{
    LinuxProcessMonitor, MacosProcessMonitor, ProcessAncestor, ProcessMonitorError,
    WindowsProcessMonitor,
};
use crate::query::ClientError;
use crate::text::numeral;
use crate::memory_scanner::{MemoryRegion, ScanError, ScanErrorKind, UnsupportedMemoryScanner};
use vstd::prelude::*;

verus! {

/// An error says what failed and gives its cause as it is.
pub proof fn law_messages_on_administrators(e: AdminError, r: String)
    requires
        call_ensures(AdminError::message, (&e,), r),
    ensures
        e is Command ==> r@ == "admin manager OS command failed: "@ + e->Command_0@,
        e is Io ==> r@ == "admin manager IO error: "@ + e->Io_0@,
        e is NotImplemented ==> r@ == "not implemented in Phase 1"@,
        e is InvalidInput ==> r@ == "admin manager input invalid: "@ + e->InvalidInput_0@,
        e is StateCorrupt ==> r@ == "admin manager grant state corrupt: "@ + e->StateCorrupt_0@,
{
}

/// An error says what failed and gives its cause as it is.
pub proof fn law_messages_on_queries(e: DnsMonitorError, r: String)
    requires
        call_ensures(DnsMonitorError::message, (&e,), r),
    ensures
        e is Io ==> r@ == "dns monitor IO error: "@ + e->Io_0@,
        e is Unsupported ==> r@ == "dns monitor unsupported: "@ + e->Unsupported_0@,
        e is AlreadySubscribed ==> r@ == "dns monitor already subscribed"@,
{
}

/// An error says what failed and gives its cause as it is.
pub proof fn law_messages_on_isolation(e: HostIsolationError, r: String)
    requires
        call_ensures(HostIsolationError::message, (&e,), r),
    ensures
        e is Io ==> r@ == "host isolation IO error: "@ + e->Io_0@,
        e is Command ==> r@ == "host isolation command failed: "@ + e->Command_0@,
        e is Unsupported ==> r@ == "host isolation unsupported: "@ + e->Unsupported_0@,
        e is SafetyViolation ==> r@ == "host isolation safety invariant violated: "@ + e->SafetyViolation_0@,
{
}

/// An error says what failed and gives its cause as it is.
pub proof fn law_messages_on_device_management(e: MdmError, r: String)
    requires
        call_ensures(MdmError::message, (&e,), r),
    ensures
        e is Io ==> r@ == "MDM provider IO error: "@ + e->Io_0@,
        e is Command ==> r@ == "MDM provider command failed: "@ + e->Command_0@,
        e is Unsupported ==> r@ == "MDM provider does not support this operation on the current host: "@ + e->Unsupported_0@,
        e is InvalidProfile ==> r@ == "MDM signed config profile is invalid: "@ + e->InvalidProfile_0@,
{
}

/// An error says what failed and gives its cause as it is.
pub proof fn law_messages_on_connections(e: NetworkMonitorError, r: String)
    requires
        call_ensures(NetworkMonitorError::message, (&e,), r),
    ensures
        e is Io ==> r@ == "network monitor IO error: "@ + e->Io_0@,
        e is Unsupported ==> r@ == "network monitor unsupported: "@ + e->Unsupported_0@,
        e is AlreadySubscribed ==> r@ == "network monitor already subscribed"@,
        e is Command ==> r@ == "network monitor command failed: "@ + e->Command_0@,
{
}

/// An error says what failed and gives its cause as it is.
pub proof fn law_messages_on_packages(e: PackageError, r: String)
    requires
        call_ensures(PackageError::message, (&e,), r),
    ensures
        e is Io ==> r@ == "package manager IO error: "@ + e->Io_0@,
        e is Command ==> r@ == "package manager command failed: "@ + e->Command_0@,
        e is Unsupported ==> r@ == "no supported package manager detected on this host"@,
        e is NotImplemented ==> r@ == "not implemented"@,
{
}

/// An error says what failed and gives its cause as it is.
pub proof fn law_messages_on_posture(e: PostureError, r: String)
    requires
        call_ensures(PostureError::message, (&e,), r),
    ensures
        e is Io ==> r@ == "posture provider IO error: "@ + e->Io_0@,
        e is Command ==> r@ == "posture provider command failed: "@ + e->Command_0@,
{
}

/// An error says what failed and gives its cause as it is.
pub proof fn law_messages_on_processes(e: ProcessMonitorError, r: String)
    requires
        call_ensures(ProcessMonitorError::message, (&e,), r),
    ensures
        e is Io ==> r@ == "process monitor IO error: "@ + e->Io_0@,
        e is Unsupported ==> r@ == "process monitor unsupported: "@ + e->Unsupported_0@,
        e is AlreadySubscribed ==> r@ == "process monitor already subscribed"@,
        e is Command ==> r@ == "process monitor command failed: "@ + e->Command_0@,
{
}

/// An error says what failed and gives its cause as it is.
pub proof fn law_messages_on_scheduled_queries(e: ClientError, r: String)
    requires
        call_ensures(ClientError::message, (&e,), r),
    ensures
        e is Unavailable ==> r@ == "osquery extension socket unavailable: "@ + e->Unavailable_0@,
        e is QueryFailed ==> r@ == "osquery query failed: "@ + e->QueryFailed_0@,
        e is Io ==> r@ == "osquery client I/O: "@ + e->Io_0@,
{
}

/// An error says what failed and gives its cause as it is.
pub proof fn law_messages_on_kernel_channels(e: AttachError, r: String)
    requires
        call_ensures(AttachError::message, (&e,), r),
    ensures
        e is NotPresent ==> r@ == "kernel publisher not present: "@ + e->NotPresent_0@,
        e is Privilege ==> r@ == "insufficient privilege: "@ + e->Privilege_0@,
        e is Io ==> r@ == "kernel channel io error: "@ + e->Io_0@,
{
}

/// An error says what failed and gives its cause as it is; a version that
/// goes back is told with the one in force.
pub proof fn law_messages_on_policies(e: AppControlError, r: String)
    requires
        call_ensures(AppControlError::message, (&e,), r),
    ensures
        e is InvalidSignature ==> r@ == "app-control policy signature invalid"@,
        e is InvalidSigningKey ==> r@ == "app-control signing key malformed: "@ + e->InvalidSigningKey_0@,
        e is InvalidPayload ==> r@ == "app-control policy payload invalid: "@ + e->InvalidPayload_0@,
        e is PolicyRegressed ==> r@ == "app-control policy version regressed: applied="@ + numeral(
            e->applied as nat,
            10,
        ) + " new="@ + numeral(e->new as nat, 10),
        e is NotSupported ==> r@ == "app-control not supported on this platform"@,
        e is Backend ==> r@ == "app-control backend failed: "@ + e->Backend_0@,
{
}

/// An error says what failed and gives its cause as it is; one on a path
/// names the path.
pub proof fn law_messages_on_files(e: FsWatcherError, r: String)
    requires
        call_ensures(FsWatcherError::message, (&e,), r),
    ensures
        e is InitFailed ==> r@ == "watcher initialization failed: "@ + e->InitFailed_0@,
        e is WatchFailed ==> r@ == "failed to watch path "@ + e->path@ + ": "@ + e->source@,
        e is ChannelClosed ==> r@ == "watcher channel closed"@,
{
}

/// What a build or a system lacks is refused, with the reason.
pub proof fn law_what_is_not_there(
    w: WindowsProcessMonitor,
    m: MacosProcessMonitor,
    s: UnsupportedMemoryScanner,
    pid: u32,
    depth: u32,
    a: Result<Vec<ProcessAncestor>, ProcessMonitorError>,
    b: Result<Vec<ProcessAncestor>, ProcessMonitorError>,
    c: Result<Vec<MemoryRegion>, ScanError>,
    d: AttachResult<()>,
    e: AttachResult<()>,
)
    requires
        call_ensures(WindowsProcessMonitor::lookup_ancestors, (&w, pid, depth), a),
        call_ensures(MacosProcessMonitor::lookup_ancestors, (&m, pid, depth), b),
        call_ensures(UnsupportedMemoryScanner::enumerate, (&s, pid), c),
        call_ensures(crate::kernel::macos::attach_to_system_extension, (), d),
        call_ensures(crate::kernel::windows::attach_to_named_pipe, (), e),
    ensures
        a is Err && a->Err_0 is Unsupported && a->Err_0->Unsupported_0@
            == "Windows toolhelp32 ancestry not wired"@,
        b is Err && b->Err_0 is Unsupported && b->Err_0->Unsupported_0@
            == "macOS proc_listallpids ancestry not wired"@,
        c is Err && c->Err_0.kind == ScanErrorKind::Unsupported && c->Err_0.message@
            == "memory scanning not supported on this platform"@,
        d is Err && d->Err_0 is NotPresent && d->Err_0->NotPresent_0@
            == "kernel-macos feature not enabled"@,
        e is Err && e->Err_0 is NotPresent && e->Err_0->NotPresent_0@
            == "kernel-windows feature not enabled"@,
{
}

/// Monitors of Linux read the process file system where it usually stands.
pub proof fn law_where_monitors_read(n: LinuxNetworkMonitor, p: LinuxProcessMonitor)
    requires
        call_ensures(LinuxNetworkMonitor::new, (), n),
        call_ensures(LinuxProcessMonitor::new, (), p),
    ensures
        n.root() == "/proc"@,
        p.root() == "/proc"@,
{
}

} // verus!
