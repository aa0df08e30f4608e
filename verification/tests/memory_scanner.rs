use sda_agent::memory_scanner::{
    parse_proc_maps, permissions_from_win_protect, LinuxMemoryScanner, MacosMemoryScanner, MappingKind,
    MemoryPermissions, MemoryRegion, MockMemoryScanner, RegionInfo, RegionWalk, ScanError, ScanErrorKind,
    UnsupportedMemoryScanner, WindowsMemoryScanner, MEM_COMMIT, MEM_IMAGE, MEM_MAPPED, MEM_PRIVATE,
    WIN_PAGE_EXECUTE, WIN_PAGE_EXECUTE_READ, WIN_PAGE_EXECUTE_READWRITE, WIN_PAGE_EXECUTE_WRITECOPY,
    WIN_PAGE_GUARD, WIN_PAGE_NOACCESS, WIN_PAGE_NOCACHE, WIN_PAGE_READONLY, WIN_PAGE_READWRITE,
    WIN_PAGE_WRITECOMBINE, WIN_PAGE_WRITECOPY,
};

const SAMPLE_MAPS: &str = "\
00400000-0040b000 r-xp 00000000 fd:00 1234 /usr/bin/cat
0060a000-0060b000 r--p 0000a000 fd:00 1234 /usr/bin/cat
0060b000-0060c000 rw-p 0000b000 fd:00 1234 /usr/bin/cat
014a3000-014c4000 rw-p 00000000 00:00 0 [heap]
7f1c00000000-7f1c00021000 rw-p 00000000 00:00 0
7ffe1234a000-7ffe1234b000 r-xp 00000000 00:00 0 [vdso]
7ffe5678a000-7ffe5678b000 rwxp 00000000 00:00 0
7ffe9abc0000-7ffe9abc1000 rwxp 00000000 fd:00 9999 /tmp/loader.so
";

fn region(base: u64, size: u64, rwx: bool, kind: MappingKind) -> MemoryRegion {
    MemoryRegion {
        base,
        size,
        permissions: if rwx {
            rights(true, true, true)
        } else {
            rights(true, false, false)
        },
        mapping: kind,
    }
}

fn rights(readable: bool, writable: bool, executable: bool) -> MemoryPermissions {
    MemoryPermissions { readable, writable, executable }
}

fn not_found() -> ScanError {
    ScanError { kind: ScanErrorKind::NotFound, message: "No such process".to_string() }
}

// ---- maps files ----

#[test]
fn parses_canonical_maps_lines() {
    let regions = parse_proc_maps(SAMPLE_MAPS);
    assert_eq!(regions.len(), 8);
    assert_eq!(regions[0].base, 0x0040_0000);
    assert_eq!(regions[0].size, 0xb000);
    assert!(regions[0].permissions.readable);
    assert!(!regions[0].permissions.writable);
    assert!(regions[0].permissions.executable);
    assert!(regions[0].mapping.is_file_backed());
}

#[test]
fn detects_anonymous_heap_mapping() {
    let regions = parse_proc_maps(SAMPLE_MAPS);
    let heap = regions.iter().find(|r| r.base == 0x014a_3000).expect("heap line present");
    assert!(matches!(heap.mapping, MappingKind::Anonymous));
    assert!(heap.permissions.writable);
    assert!(!heap.permissions.executable);
}

#[test]
fn detects_anonymous_unnamed_mapping() {
    let regions = parse_proc_maps(SAMPLE_MAPS);
    let anon = regions.iter().find(|r| r.base == 0x7f1c_0000_0000).expect("anon line present");
    assert!(matches!(anon.mapping, MappingKind::Anonymous));
}

#[test]
fn detects_jit_anon_rwx_mapping() {
    let regions = parse_proc_maps(SAMPLE_MAPS);
    let jit = regions.iter().find(|r| r.base == 0x7ffe_5678_a000).expect("rwx anon line present");
    assert!(matches!(jit.mapping, MappingKind::Jit));
    assert!(jit.permissions.is_rwx());
    assert!(jit.is_interesting());
}

#[test]
fn detects_jit_file_backed_rwx_mapping() {
    let regions = parse_proc_maps(SAMPLE_MAPS);
    let suspicious =
        regions.iter().find(|r| r.base == 0x7ffe_9abc_0000).expect("rwx file-backed line present");
    assert!(matches!(suspicious.mapping, MappingKind::Jit));
}

#[test]
fn is_interesting_only_for_rwx_anon_or_jit() {
    let regions = parse_proc_maps(SAMPLE_MAPS);
    let rx_text = &regions[0];
    assert!(!rx_text.is_interesting());
    let rw_text = &regions[2];
    assert!(!rw_text.is_interesting());
    let heap = regions.iter().find(|r| r.base == 0x014a_3000).expect("heap");
    assert!(heap.is_interesting());
}

#[test]
fn ignores_garbage_lines() {
    let regions = parse_proc_maps("garbage\nnot a maps line\n\n");
    assert!(regions.is_empty());
}

#[test]
fn paths_with_blanks_are_kept_whole() {
    let regions = parse_proc_maps("1000-2000 r--p 00000000 fd:00 7 /tmp/a  b\n3000-2000 r--p 0 0 0\n");
    assert_eq!(
        regions,
        vec![MemoryRegion {
            base: 0x1000,
            size: 0x1000,
            permissions: rights(true, false, false),
            mapping: MappingKind::FileBacked("/tmp/a b".to_string()),
        }]
    );
}

// ---- backends ----

#[test]
fn memory_scanner_enumerate_for_self_pid_returns_empty() {
    let linux = LinuxMemoryScanner::new(42);
    let regions = linux.enumerate(linux.self_pid(), Ok(SAMPLE_MAPS.to_string())).unwrap();
    assert!(regions.is_empty());

    let windows = WindowsMemoryScanner::new(42);
    let answers = vec![RegionInfo {
        base: 0,
        size: 0x1000,
        state: MEM_COMMIT,
        protect: WIN_PAGE_READWRITE,
        kind: MEM_PRIVATE,
    }];
    assert!(windows.enumerate(windows.self_pid(), &answers).is_empty());

    let macos = MacosMemoryScanner::new(42);
    assert!(macos.enumerate(macos.self_pid()).unwrap().is_empty());
}

#[test]
fn memory_scanner_read_for_self_pid_is_permission_denied() {
    let linux = LinuxMemoryScanner::new(42);
    let err = linux.read_limit(linux.self_pid(), 8, 8).unwrap_err();
    assert_eq!(err.kind(), ScanErrorKind::PermissionDenied);

    let windows = WindowsMemoryScanner::new(42);
    let err = windows.read_limit(windows.self_pid(), 4, 4).unwrap_err();
    assert_eq!(err.kind(), ScanErrorKind::PermissionDenied);

    let macos = MacosMemoryScanner::new(42);
    let mut buf = [0u8; 4];
    let err = macos.read(macos.self_pid(), 0x1000, 4, &mut buf).unwrap_err();
    assert_eq!(err.kind(), ScanErrorKind::PermissionDenied);
}

#[test]
fn enumerate_unknown_pid_returns_io_error() {
    let scanner = LinuxMemoryScanner::new(42);
    let result = scanner.enumerate(2_147_483_647, Err(not_found()));
    assert!(result.is_err());
}

#[test]
fn enumerate_other_pid_returns_unsupported_in_user_mode() {
    let scanner = MacosMemoryScanner::new(42);
    let err = scanner.enumerate(scanner.self_pid().wrapping_add(1)).unwrap_err();
    assert_eq!(err.kind(), ScanErrorKind::Unsupported);
    let mut buf = [0u8; 4];
    let err = scanner.read(43, 0x1000, 4, &mut buf).unwrap_err();
    assert_eq!(err.kind(), ScanErrorKind::Unsupported);
}

#[test]
fn other_systems_are_not_supported() {
    let scanner = UnsupportedMemoryScanner {};
    assert_eq!(scanner.enumerate(7).unwrap_err().kind(), ScanErrorKind::Unsupported);
    let mut buf = [0u8; 4];
    assert_eq!(scanner.read(7, 0, 4, &mut buf).unwrap_err().kind(), ScanErrorKind::Unsupported);
}

#[test]
fn linux_backend_reads_the_files_of_the_process() {
    let scanner = LinuxMemoryScanner::new(42);
    assert_eq!(scanner.maps_path(99), "/proc/99/maps");
    assert_eq!(scanner.mem_path(99), "/proc/99/mem");
    assert_eq!(scanner.enumerate(99, Ok(SAMPLE_MAPS.to_string())).unwrap().len(), 8);
    assert_eq!(scanner.read_limit(99, 8, 4), Ok(4));
    assert_eq!(scanner.read_limit(99, 4, 8), Ok(4));
}

#[test]
fn windows_walk_follows_the_regions() {
    let info = |base: u64, size: u64, state: u32, protect: u32, kind: u32| RegionInfo {
        base,
        size,
        state,
        protect,
        kind,
    };
    let answers = vec![
        info(0, 0x1000, 0x2000, 0, 0),
        info(0x1000, 0x1000, MEM_COMMIT, WIN_PAGE_EXECUTE_READWRITE | WIN_PAGE_GUARD, MEM_PRIVATE),
        info(0x2000, 0x1000, MEM_COMMIT, WIN_PAGE_EXECUTE_READ, MEM_IMAGE),
        info(0x3000, 0x1000, MEM_COMMIT, WIN_PAGE_EXECUTE_READWRITE, MEM_MAPPED),
        info(0x4000, 0x1000, MEM_COMMIT, WIN_PAGE_READWRITE, 7),
    ];
    let expected = vec![
        region(0x1000, 0x1000, true, MappingKind::Jit),
        MemoryRegion {
            base: 0x2000,
            size: 0x1000,
            permissions: rights(true, false, true),
            mapping: MappingKind::FileBacked(String::new()),
        },
        region(0x3000, 0x1000, true, MappingKind::Jit),
        MemoryRegion {
            base: 0x4000,
            size: 0x1000,
            permissions: rights(true, true, false),
            mapping: MappingKind::Anonymous,
        },
    ];
    assert_eq!(WindowsMemoryScanner::new(42).enumerate(99, &answers), expected);

    let mut walk = RegionWalk::begin();
    let mut i = 0;
    while let Some(address) = walk.next_address() {
        assert!(i >= answers.len() || address == answers[i].base);
        walk.step(if i < answers.len() { Some(answers[i]) } else { None });
        i += 1;
    }
    assert_eq!(walk.finish(), expected);
}

#[test]
fn windows_walk_stops_where_the_address_does_not_grow() {
    let stuck = RegionInfo {
        base: 0,
        size: 0,
        state: MEM_COMMIT,
        protect: WIN_PAGE_READONLY,
        kind: MEM_PRIVATE,
    };
    let mut walk = RegionWalk::begin();
    assert_eq!(walk.next_address(), Some(0));
    walk.step(Some(stuck));
    assert_eq!(walk.next_address(), None);
    assert_eq!(walk.finish().len(), 1);
}

#[test]
fn memory_region_end_saturates_on_overflow() {
    let r = MemoryRegion {
        base: u64::MAX - 4,
        size: u64::MAX,
        permissions: MemoryPermissions::default(),
        mapping: MappingKind::Anonymous,
    };
    assert_eq!(r.end(), u64::MAX);
}

#[test]
fn memory_region_ends_at_its_last_address() {
    let mut r = MemoryRegion {
        base: 0x1000,
        size: 0x1000,
        permissions: MemoryPermissions::default(),
        mapping: MappingKind::Anonymous,
    };
    assert_eq!(r.end(), 0x1fff);
    r.size = 0;
    assert_eq!(r.end(), 0x1000);
    r.base = u64::MAX;
    r.size = 1;
    assert_eq!(r.end(), u64::MAX);
}

// ---- protection constants ----

#[test]
fn win_protect_translates_each_base_constant() {
    assert_eq!(permissions_from_win_protect(WIN_PAGE_NOACCESS), MemoryPermissions::default());
    assert_eq!(permissions_from_win_protect(WIN_PAGE_READONLY), rights(true, false, false));
    for c in [WIN_PAGE_READWRITE, WIN_PAGE_WRITECOPY] {
        assert_eq!(permissions_from_win_protect(c), rights(true, true, false));
    }
    assert_eq!(permissions_from_win_protect(WIN_PAGE_EXECUTE), rights(false, false, true));
    assert_eq!(permissions_from_win_protect(WIN_PAGE_EXECUTE_READ), rights(true, false, true));
    for c in [WIN_PAGE_EXECUTE_READWRITE, WIN_PAGE_EXECUTE_WRITECOPY] {
        assert_eq!(permissions_from_win_protect(c), rights(true, true, true));
    }
}

#[test]
fn win_protect_preserves_rwx_under_page_guard() {
    let p = permissions_from_win_protect(WIN_PAGE_EXECUTE_READWRITE | WIN_PAGE_GUARD);
    assert!(p.is_rwx(), "PAGE_EXECUTE_READWRITE | PAGE_GUARD must stay RWX");
}

#[test]
fn win_protect_preserves_base_under_nocache_and_writecombine() {
    let p = permissions_from_win_protect(WIN_PAGE_READWRITE | WIN_PAGE_NOCACHE | WIN_PAGE_WRITECOMBINE);
    assert_eq!(p, rights(true, true, false));
}

#[test]
fn win_protect_preserves_base_under_all_modifiers() {
    let p = permissions_from_win_protect(
        WIN_PAGE_EXECUTE_READ | WIN_PAGE_GUARD | WIN_PAGE_NOCACHE | WIN_PAGE_WRITECOMBINE,
    );
    assert_eq!(p, rights(true, false, true));
}

#[test]
fn win_protect_masks_high_bit_modifiers() {
    let page_targets_no_update: u32 = 0x4000_0000;
    let page_enclave_thread_control: u32 = 0x8000_0000;
    let p = permissions_from_win_protect(
        WIN_PAGE_EXECUTE_READWRITE | page_targets_no_update | page_enclave_thread_control,
    );
    assert!(p.is_rwx());
}

#[test]
fn win_protect_returns_default_for_unknown_value() {
    assert_eq!(permissions_from_win_protect(0), MemoryPermissions::default());
    assert_eq!(permissions_from_win_protect(0x07), MemoryPermissions::default());
}

#[test]
fn memory_permissions_is_rwx_only_when_all_three_set() {
    assert!(rights(true, true, true).is_rwx());
    assert!(!rights(true, true, false).is_rwx());
    assert!(!MemoryPermissions::default().is_rwx());
}

// ---- canned memory ----

#[test]
fn mock_returns_canned_regions_for_known_pid() {
    let mut m = MockMemoryScanner::with_self_pid(99);
    m.set_regions(123, vec![region(0x1000, 0x100, true, MappingKind::Anonymous)]);
    let regions = m.enumerate(123).unwrap();
    assert_eq!(regions.len(), 1);
    assert_eq!(regions[0].base, 0x1000);
    assert!(regions[0].permissions.is_rwx());
}

#[test]
fn mock_enumerates_to_empty_for_unknown_pid() {
    let mut m = MockMemoryScanner::with_self_pid(99);
    assert!(m.enumerate(555).unwrap().is_empty());
}

#[test]
fn mock_enumerate_for_self_pid_always_returns_empty() {
    let mut m = MockMemoryScanner::with_self_pid(42);
    m.set_regions(42, vec![region(0x1000, 0x100, true, MappingKind::Jit)]);
    let regions = m.enumerate(42).unwrap();
    assert!(regions.is_empty());
}

#[test]
fn mock_read_returns_canned_bytes() {
    let mut m = MockMemoryScanner::with_self_pid(99);
    m.set_read(123, 0x1000, b"hello memory".to_vec());
    let mut buf = [0u8; 12];
    let n = m.read(123, 0x1000, 12, &mut buf).unwrap();
    assert_eq!(n, 12);
    assert_eq!(&buf, b"hello memory");
}

#[test]
fn mock_read_truncates_to_buf_capacity() {
    let mut m = MockMemoryScanner::with_self_pid(99);
    m.set_read(123, 0x1000, b"abcdefghij".to_vec());
    let mut buf = [0u8; 4];
    let n = m.read(123, 0x1000, 4, &mut buf).unwrap();
    assert_eq!(n, 4);
    assert_eq!(&buf, b"abcd");
}

#[test]
fn mock_read_for_self_pid_is_permission_denied() {
    let mut m = MockMemoryScanner::with_self_pid(42);
    let mut buf = [0u8; 4];
    let err = m.read(42, 0x1000, 4, &mut buf).unwrap_err();
    assert_eq!(err.kind(), ScanErrorKind::PermissionDenied);
}

#[test]
fn mock_read_returns_zero_for_unknown_region() {
    let mut m = MockMemoryScanner::with_self_pid(99);
    let mut buf = [0u8; 4];
    let n = m.read(123, 0x4000, 4, &mut buf).unwrap();
    assert_eq!(n, 0);
}

#[test]
fn mock_counters_track_calls() {
    let mut m = MockMemoryScanner::with_self_pid(99);
    m.set_regions(123, vec![region(0x1000, 0x100, true, MappingKind::Anonymous)]);
    m.set_read(123, 0x1000, b"x".to_vec());
    let _ = m.enumerate(123).unwrap();
    let _ = m.enumerate(123).unwrap();
    let mut buf = [0u8; 1];
    let _ = m.read(123, 0x1000, 1, &mut buf).unwrap();
    assert_eq!(m.enumerate_calls(), 2);
    assert_eq!(m.read_calls(), 1);
}
