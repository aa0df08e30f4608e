use sda_agent::clock::Timestamp;
use sda_agent::posture::{
    disk_encryption_of, FirewallVerdict, LinuxPostureProvider, MacPostureProvider, PostureError,
    PostureSnapshot, PostureToggle, ToolReport, WindowsPostureProvider,
};
use sda_agent::posture_module::{should_snapshot, DeltaDecision, DeltaTracker, PostureModule};
use sda_agent::power::PowerProfile;

fn report(stdout: &str, success: bool) -> Option<ToolReport> {
    Some(ToolReport {
        stdout: stdout.as_bytes().to_vec(),
        success,
    })
}

#[test]
fn snapshot_default_is_all_unknown() {
    let s = PostureSnapshot::default();
    assert_eq!(s.disk_encryption, PostureToggle::Unknown);
    assert_eq!(s.firewall_enabled, PostureToggle::Unknown);
    assert_eq!(s.screen_lock_enabled, PostureToggle::Unknown);
    assert!(s.os_patch_level.is_none());
    assert!(s.os_version.is_none());
}

#[test]
fn detect_luks_in_lsblk_json() {
    let lsblk = r#"{
                "blockdevices": [{
                    "name": "sda",
                    "type": "disk",
                    "children": [{
                        "name": "sda1",
                        "type": "part",
                        "fstype": "crypto_LUKS",
                        "children": [{
                            "name": "cryptroot",
                            "type": "crypt",
                            "fstype": "ext4"
                        }]
                    }]
                }]
            }"#;
    assert_eq!(
        LinuxPostureProvider::detect_disk_encryption_from_lsblk(lsblk),
        PostureToggle::On
    );
}

#[test]
fn lsblk_without_crypt_returns_unknown_not_off() {
    let lsblk = r#"{
                "blockdevices": [{
                    "name": "sda",
                    "type": "disk",
                    "fstype": "ext4"
                }]
            }"#;
    assert_eq!(
        LinuxPostureProvider::detect_disk_encryption_from_lsblk(lsblk),
        PostureToggle::Unknown
    );
}

#[test]
fn lsblk_garbage_returns_unknown() {
    assert_eq!(
        LinuxPostureProvider::detect_disk_encryption_from_lsblk("not json"),
        PostureToggle::Unknown
    );
}

#[test]
fn parses_pretty_name_from_os_release() {
    let os_release = "\
NAME=\"Ubuntu\"
VERSION=\"22.04.4 LTS (Jammy Jellyfish)\"
ID=ubuntu
PRETTY_NAME=\"Ubuntu 22.04.4 LTS\"
";
    assert_eq!(
        LinuxPostureProvider::parse_os_pretty_name(os_release),
        Some("Ubuntu 22.04.4 LTS".to_string())
    );
}

#[test]
fn classify_firewalld_running() {
    assert_eq!(
        LinuxPostureProvider::classify_firewall_command_output("firewall-cmd", "running\n", true,),
        PostureToggle::On,
    );
    assert_eq!(
        LinuxPostureProvider::classify_firewall_command_output(
            "firewall-cmd",
            "not running\n",
            false,
        ),
        PostureToggle::Off,
    );
}

#[test]
fn classify_ufw_active() {
    assert_eq!(
        LinuxPostureProvider::classify_firewall_command_output("ufw", "Status: active\n", true,),
        PostureToggle::On,
    );
    assert_eq!(
        LinuxPostureProvider::classify_firewall_command_output("ufw", "Status: inactive\n", true,),
        PostureToggle::Off,
    );
}

#[test]
fn posture_snapshot_on_build_host_does_not_panic() {
    let p = LinuxPostureProvider::new();
    let _ = p
        .snapshot(&None, PostureToggle::Unknown, None)
        .expect("snapshot");
    let p = MacPostureProvider::new();
    let _ = p.snapshot(&None, &None, &None, &None).expect("snapshot");
    let p = WindowsPostureProvider::new();
    let _ = p.snapshot(&None, &None, &None).expect("snapshot");
}

#[test]
fn parse_fdesetup_on_off_unknown() {
    assert_eq!(
        MacPostureProvider::parse_fdesetup_status("FileVault is On.\n"),
        PostureToggle::On
    );
    assert_eq!(
        MacPostureProvider::parse_fdesetup_status("FileVault is Off.\n"),
        PostureToggle::Off
    );
    assert_eq!(
        MacPostureProvider::parse_fdesetup_status("ERROR\n"),
        PostureToggle::Unknown
    );
}

#[test]
fn parse_socketfilterfw_states() {
    assert_eq!(
        MacPostureProvider::parse_socketfilterfw("Firewall is enabled. (State = 1)\n"),
        PostureToggle::On
    );
    assert_eq!(
        MacPostureProvider::parse_socketfilterfw("Firewall is disabled. (State = 0)\n"),
        PostureToggle::Off
    );
}

#[test]
fn parse_screensaver_ask_for_password() {
    assert_eq!(
        MacPostureProvider::parse_screensaver_ask_for_password("1\n"),
        PostureToggle::On
    );
    assert_eq!(
        MacPostureProvider::parse_screensaver_ask_for_password("0\n"),
        PostureToggle::Off
    );
    assert_eq!(
        MacPostureProvider::parse_screensaver_ask_for_password(""),
        PostureToggle::Unknown
    );
}

#[test]
fn parse_manage_bde_states() {
    assert_eq!(
        WindowsPostureProvider::parse_manage_bde(
            "Disk volumes that can be protected with\n\
                     BitLocker Drive Encryption:\n\
                     Volume C: [OS]\n\
                     Conversion Status:    Fully Encrypted\n",
        ),
        PostureToggle::On,
    );
    assert_eq!(
        WindowsPostureProvider::parse_manage_bde("Conversion Status:    Fully Decrypted\n",),
        PostureToggle::Off,
    );
    assert_eq!(
        WindowsPostureProvider::parse_manage_bde("nothing relevant\n"),
        PostureToggle::Unknown,
    );
}

#[test]
fn parse_netsh_all_on() {
    let out = "
Domain Profile Settings:
----------------------------------------------------------------------
State                                 ON
...

Private Profile Settings:
----------------------------------------------------------------------
State                                 ON
...

Public Profile Settings:
----------------------------------------------------------------------
State                                 ON
";
    assert_eq!(
        WindowsPostureProvider::parse_netsh_advfirewall(out),
        PostureToggle::On,
    );
}

#[test]
fn parse_netsh_one_profile_off_means_off() {
    let out = "
Domain Profile Settings:
State                                 ON
Private Profile Settings:
State                                 OFF
Public Profile Settings:
State                                 ON
";
    assert_eq!(
        WindowsPostureProvider::parse_netsh_advfirewall(out),
        PostureToggle::Off,
    );
}

#[test]
fn netsh_states_that_are_neither_are_unknown() {
    assert_eq!(
        WindowsPostureProvider::parse_netsh_advfirewall("State  OFF\nState  mixed\n"),
        PostureToggle::Unknown
    );
    assert_eq!(
        WindowsPostureProvider::parse_netsh_advfirewall("nothing\n"),
        PostureToggle::Unknown
    );
}

#[test]
fn firewall_tools_are_asked_in_turn() {
    let p = LinuxPostureProvider::new();
    let mut reports: Vec<Option<ToolReport>> = vec![];
    let mut asked: Vec<String> = vec![];
    for next in [None, report("Status: gone", true), report("inactive\n", false)] {
        match p.detect_firewall(&reports) {
            FirewallVerdict::Ask(c) => {
                asked.push(format!("{} {}", c.program, c.args.join(" ")));
                reports.push(next);
            }
            FirewallVerdict::Decided(t) => panic!("decided too early: {t:?}"),
        }
    }
    assert_eq!(
        asked,
        vec![
            "firewall-cmd --state",
            "ufw status",
            "systemctl is-active nftables"
        ]
    );
    assert!(matches!(
        p.detect_firewall(&reports),
        FirewallVerdict::Decided(PostureToggle::Off)
    ));
    assert!(matches!(
        p.detect_firewall(&vec![report("running", true)]),
        FirewallVerdict::Decided(PostureToggle::On)
    ));
    assert!(matches!(
        p.detect_firewall(&vec![None, None, None]),
        FirewallVerdict::Decided(PostureToggle::Unknown)
    ));
}

#[test]
fn nftables_and_unknown_tools_are_classified() {
    let c = |tool: &str, out: &str| {
        LinuxPostureProvider::classify_firewall_command_output(tool, out, true)
    };
    assert_eq!(c("nftables", "active\n"), PostureToggle::On);
    assert_eq!(c("nftables", "failed\n"), PostureToggle::Off);
    assert_eq!(c("nftables", "odd"), PostureToggle::Unknown);
    assert_eq!(c("iptables", "active"), PostureToggle::Unknown);
    // A tool that says it runs but ends badly shows nothing.
    assert_eq!(
        LinuxPostureProvider::classify_firewall_command_output("firewall-cmd", "running", false),
        PostureToggle::Unknown
    );
}

#[test]
fn snapshots_put_the_readings_together() {
    let p = LinuxPostureProvider::new();
    let s = p
        .snapshot(
            &report(r#"{"blockdevices":[{"type":"CRYPT"}]}"#, true),
            PostureToggle::Off,
            Some("PRETTY_NAME=\"Debian 12\"\n"),
        )
        .unwrap();
    assert_eq!(s.disk_encryption, PostureToggle::On);
    assert_eq!(s.firewall_enabled, PostureToggle::Off);
    assert_eq!(s.os_version, Some("Debian 12".into()));
    let failed = p
        .snapshot(
            &report(r#"{"blockdevices":[{"type":"crypt"}]}"#, false),
            PostureToggle::On,
            None,
        )
        .unwrap();
    assert_eq!(failed.disk_encryption, PostureToggle::Unknown);
    let m = MacPostureProvider::new()
        .snapshot(
            &report("FileVault is Off, but will be enabled", true),
            &report("Firewall is enabled.", true),
            &report("1\n", true),
            &report("14.5\n", true),
        )
        .unwrap();
    assert_eq!(m.disk_encryption, PostureToggle::Off);
    assert_eq!(m.os_version, Some("macOS 14.5".into()));
    let w = WindowsPostureProvider::new()
        .snapshot(
            &report("Conversion Status: Encryption in Progress", true),
            &report("State ON", true),
            &report("\nMicrosoft Windows [Version 10]\n", true),
        )
        .unwrap();
    assert_eq!(w.disk_encryption, PostureToggle::On);
    assert_eq!(w.firewall_enabled, PostureToggle::On);
    assert_eq!(w.os_version, Some("Microsoft Windows [Version 10]".into()));
}

#[test]
fn encrypted_devices_are_found_by_kind_only() {
    assert_eq!(disk_encryption_of(&None), PostureToggle::Unknown);
    for (doc, want) in [
        (r#"{"blockdevices":[]}"#, PostureToggle::Unknown),
        (r#"{"other":[{"type":"crypt"}]}"#, PostureToggle::Unknown),
        (r#"{"blockdevices":[[{"children":[{"fstype":"CRYPTO_luks"}]}]]}"#, PostureToggle::On),
        (r#"{"blockdevices":{"type":"crypt"}}"#, PostureToggle::On),
        (r#"{"blockdevices":[{"kids":[{"type":"crypt"}]}]}"#, PostureToggle::Unknown),
        (r#"{"blockdevices":[{"type":1}]}"#, PostureToggle::Unknown),
    ] {
        assert_eq!(
            LinuxPostureProvider::detect_disk_encryption_from_lsblk(doc),
            want
        );
    }
}

#[test]
fn posture_errors_have_their_texts() {
    assert_eq!(
        PostureError::Io("x".into()).message(),
        "posture provider IO error: x"
    );
    assert_eq!(
        PostureError::Command("x".into()).message(),
        "posture provider command failed: x"
    );
}

#[test]
fn posture_commands_are_those_of_the_tools() {
    let l = LinuxPostureProvider::new().lsblk_command();
    assert_eq!(l.program, "lsblk");
    assert_eq!(l.args, vec!["--json", "-o", "NAME,TYPE,FSTYPE"]);
    let (disk, firewall, lock, version) = MacPostureProvider::new().commands();
    assert_eq!(disk.program, "fdesetup");
    assert_eq!(firewall.args, vec!["--getglobalstate"]);
    assert_eq!(lock.args[2], "askForPassword");
    assert_eq!(version.args, vec!["-productVersion"]);
    let (disk, firewall, version) = WindowsPostureProvider::new().commands();
    assert_eq!(disk.args, vec!["-status", "C:"]);
    assert_eq!(firewall.args, vec!["advfirewall", "show", "allprofiles"]);
    assert_eq!(version.args, vec!["/C", "ver"]);
}

// ---------------------------------------------------------------------
// Module
// ---------------------------------------------------------------------

fn snap(disk: bool, fw: bool, lock: bool) -> PostureSnapshot {
    let toggle = |b: bool| {
        if b {
            PostureToggle::On
        } else {
            PostureToggle::Off
        }
    };
    PostureSnapshot {
        disk_encryption: toggle(disk),
        firewall_enabled: toggle(fw),
        screen_lock_enabled: toggle(lock),
        os_patch_level: Some("2026-04".into()),
        os_version: Some("24.04".into()),
    }
}

#[test]
fn delta_tracker_first_snapshot_emits() {
    let mut t = DeltaTracker::new();
    assert_eq!(t.observe(snap(true, true, true)), DeltaDecision::Emit);
    assert!(t.last().is_some());
}

#[test]
fn delta_tracker_identical_snapshot_skips() {
    let mut t = DeltaTracker::new();
    let s = snap(true, true, true);
    assert_eq!(t.observe(s.clone()), DeltaDecision::Emit);
    assert_eq!(t.observe(s), DeltaDecision::Skip);
}

#[test]
fn delta_tracker_changed_snapshot_emits() {
    let mut t = DeltaTracker::new();
    assert_eq!(t.observe(snap(true, true, true)), DeltaDecision::Emit);
    // Disk encryption flipped off — must emit a new event.
    assert_eq!(t.observe(snap(false, true, true)), DeltaDecision::Emit);
    // …and emit again when it flips back on.
    assert_eq!(t.observe(snap(true, true, true)), DeltaDecision::Emit);
}

#[test]
fn delta_tracker_handles_partial_change() {
    let mut t = DeltaTracker::new();
    let mut s = snap(true, true, true);
    s.os_patch_level = Some("2026-04".into());
    assert_eq!(t.observe(s.clone()), DeltaDecision::Emit);
    s.os_patch_level = Some("2026-05".into());
    assert_eq!(t.observe(s), DeltaDecision::Emit);
}

#[test]
fn power_aware_should_snapshot_on_ac() {
    assert!(should_snapshot(PowerProfile::Normal));
    assert!(should_snapshot(PowerProfile::IdleAC));
}

#[test]
fn power_aware_skips_on_battery() {
    assert!(!should_snapshot(PowerProfile::BatteryActive));
    assert!(!should_snapshot(PowerProfile::BatteryIdle));
    assert!(!should_snapshot(PowerProfile::CriticalBattery));
}

#[test]
fn lib_re_exports_compile() {
    let _ = DeltaTracker::new();
    let _ = should_snapshot(PowerProfile::Normal);
}

#[test]
fn module_publishes_changes_only() {
    let at = Timestamp {
        secs: 1_700_000_000,
        nanos: 0,
    };
    let mut m = PostureModule::new(3, true);
    assert_eq!(m.interval_secs(), 10);
    assert_eq!(m.name(), "posture");
    assert!(m.on_tick(PowerProfile::IdleAC));
    assert!(!m.on_tick(PowerProfile::BatteryIdle));
    assert!(PostureModule::new(60, false).on_tick(PowerProfile::CriticalBattery));
    let p = m.on_snapshot(Ok(snap(true, true, true)), at).unwrap();
    assert_eq!(p.captured_at, at);
    assert_eq!(p.snapshot, snap(true, true, true));
    assert!(m
        .on_snapshot(Err(PostureError::Command("x".into())), at)
        .is_none());
    assert!(m.on_snapshot(Ok(snap(true, true, true)), at).is_none());
    assert!(m.on_snapshot(Ok(snap(true, false, true)), at).is_some());
}
