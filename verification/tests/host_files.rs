use sda_agent::fs_watcher::{convert_event, FsWatcher, FsWatcherError, NotifyKind};
use sda_agent::sysinfo::{
    linux_hardware_info, linux_os_info, SystemInfoCollector, SystemReading,
};
use sda_agent::types::FsEventKind;

#[test]
fn test_watcher_creation() {
    let watcher = FsWatcher::new(Ok(()));
    assert!(watcher.is_ok());
}

#[test]
fn test_watch_directory() {
    let mut watcher = FsWatcher::new(Ok(())).unwrap();
    let result = watcher.watch("/tmp/dir", Ok(()));
    assert!(result.is_ok());
    assert_eq!(watcher.watched_paths().len(), 1);
}

#[test]
fn test_unwatch() {
    let mut watcher = FsWatcher::new(Ok(())).unwrap();

    watcher.watch("/tmp/dir", Ok(())).unwrap();
    assert_eq!(watcher.watched_paths().len(), 1);

    watcher.unwatch("/tmp/dir", Ok(())).unwrap();
    assert_eq!(watcher.watched_paths().len(), 0);
}

#[test]
fn refused_paths_are_not_watched() {
    let mut watcher = FsWatcher::new(Ok(())).unwrap();
    assert_eq!(
        watcher.watch("/x", Err("denied".into())).unwrap_err().message(),
        "failed to watch path /x: denied"
    );
    assert!(watcher.watched_paths().is_empty());
    watcher.watch("/a", Ok(())).unwrap();
    watcher.watch("/b", Ok(())).unwrap();
    watcher.watch("/a", Ok(())).unwrap();
    assert!(watcher.unwatch("/a", Err("busy".into())).is_err());
    assert_eq!(watcher.watched_paths().len(), 3);
    watcher.unwatch("/a", Ok(())).unwrap();
    assert_eq!(watcher.watched_paths(), &vec!["/b".to_string()]);
    assert_eq!(
        FsWatcher::new(Err("no inotify".into())).unwrap_err().message(),
        "watcher initialization failed: no inotify"
    );
    assert_eq!(
        FsWatcherError::ChannelClosed.message(),
        "watcher channel closed"
    );
}

#[test]
fn changes_are_reported_for_each_path() {
    let paths = vec!["/a".to_string(), "/b".to_string()];
    let events = convert_event(NotifyKind::ModifyName, &paths).unwrap();
    assert_eq!(events.len(), 2);
    assert_eq!(events[1].path, "/b");
    for (kind, want) in [
        (NotifyKind::Create, Some(FsEventKind::Created)),
        (NotifyKind::ModifyMetadata, Some(FsEventKind::MetadataChanged)),
        (NotifyKind::ModifyName, Some(FsEventKind::Renamed)),
        (NotifyKind::Modify, Some(FsEventKind::Modified)),
        (NotifyKind::Any, Some(FsEventKind::Modified)),
        (NotifyKind::Remove, Some(FsEventKind::Deleted)),
        (NotifyKind::Access, None),
        (NotifyKind::Other, None),
    ] {
        assert_eq!(convert_event(kind, &paths).map(|v| v[0].kind), want);
        assert!(convert_event(kind, &vec![]).is_none());
    }
}

#[test]
fn linux_system_is_read_from_its_files() {
    let os = linux_os_info(
        Some("NAME=\"Old\"\nNAME=\"Ubuntu\"\nVERSION_ID=\"24.04\"\nPRETTY_NAME=\"x\"\n"),
        Some("Linux version 6.8.0-31-generic (build)"),
        "x86_64".into(),
        "host".into(),
    );
    assert_eq!(os.name, "Ubuntu");
    assert_eq!(os.version, "24.04");
    assert_eq!(os.kernel_version, "6.8.0-31-generic");
    assert_eq!(os.architecture, "x86_64");
    assert_eq!(os.hostname, "host");
    let bare = linux_os_info(None, Some("Linux"), String::new(), String::new());
    assert_eq!(bare.name, "Linux");
    assert_eq!(bare.version, "unknown");
    assert_eq!(bare.kernel_version, "unknown");
}

#[test]
fn linux_hardware_is_read_from_its_files() {
    let cpuinfo = "processor\t: 0\nmodel name\t: First CPU \nmodel name : bad\nprocessor\t: 1\nmodel name\t: Last CPU\n";
    let hw = linux_hardware_info(
        Some(cpuinfo),
        Some("MemTotal:       16384000 kB\nMemFree: 1 kB\n"),
    );
    assert_eq!(hw.cpu_name, "Last CPU");
    assert_eq!(hw.cpu_cores, 2);
    assert_eq!(hw.total_ram_mb, 16000);
    let odd = linux_hardware_info(None, Some("MemTotal: 2048 kB kB\nMemTotal: lots\n"));
    assert_eq!(odd.cpu_name, "unknown");
    assert_eq!(odd.cpu_cores, 0);
    assert_eq!(odd.total_ram_mb, 2);
    assert_eq!(linux_hardware_info(None, None).total_ram_mb, 0);
}

#[test]
fn other_systems_tell_little() {
    let c = SystemInfoCollector::new();
    let os = c.os_info(&SystemReading::Macos, "arm64".into(), "mac".into());
    assert_eq!(os.name, "macOS");
    assert_eq!(os.version, "unknown");
    assert_eq!(
        c.os_info(&SystemReading::Windows, String::new(), String::new())
            .name,
        "Windows"
    );
    assert_eq!(
        c.os_info(&SystemReading::Other("plan9"), String::new(), String::new())
            .name,
        "plan9"
    );
    assert_eq!(c.hardware_info(&SystemReading::Windows).cpu_name, "unknown");
    assert!(c.network_interfaces().is_empty());
    assert!(c.installed_packages().is_empty());
    assert!(c.running_processes().is_empty());
}
