use sda_agent::clock::Timestamp;
use sda_agent::command::CommandLine;
use sda_agent::mdm::{
    count_updates_installed, dnf_automatic_args, dnf_upgrade_args, log_indicates_reboot,
    pswindowsupdate_script, security_only_mode, sha2_sha256, should_perform_factory_reset,
    softwareupdate_args, unattended_upgrade_args, zypper_args, FirewallStep, LinuxMdmProvider,
    MacMdmProvider, MdmError, MdmProvider, MdmReport, OsUpdateOpts, RebootPolicy, RecoveryKeyType,
    SignedConfigProfile, StubMdmProvider, Uuid, WindowsMdmProvider, WipeOpts,
};

fn line(c: &CommandLine) -> String {
    format!("{} {}", c.program, c.args.join(" "))
}

fn report(stdout: &[u8], stderr: &[u8], success: bool) -> Result<MdmReport, String> {
    Ok(MdmReport {
        stdout: stdout.to_vec(),
        stderr: stderr.to_vec(),
        success,
        status: "exit status: 1".into(),
    })
}

fn at() -> Timestamp {
    Timestamp {
        secs: 1_700_000_000,
        nanos: 0,
    }
}

const LUKS_MOUNTS: &str = "/dev/mapper/cryptroot / ext4 rw 0 0\n";

#[test]
fn wipe_opts_default_is_disabled() {
    let opts = WipeOpts::default();
    assert!(!opts.crypto_shred_only);
    assert!(!opts.wait_for_ac);
}

#[test]
fn should_perform_factory_reset_honours_crypto_shred_only() {
    let cases = [
        (
            WipeOpts {
                crypto_shred_only: false,
                wait_for_ac: false,
            },
            true,
        ),
        (
            WipeOpts {
                crypto_shred_only: false,
                wait_for_ac: true,
            },
            true,
        ),
        (
            WipeOpts {
                crypto_shred_only: true,
                wait_for_ac: false,
            },
            false,
        ),
        (
            WipeOpts {
                crypto_shred_only: true,
                wait_for_ac: true,
            },
            false,
        ),
    ];
    for (opts, want) in cases {
        assert_eq!(
            should_perform_factory_reset(&opts),
            want,
            "should_perform_factory_reset({opts:?}) mismatch",
        );
    }
}

#[test]
fn reboot_policy_default_is_never() {
    assert_eq!(RebootPolicy::default(), RebootPolicy::Never);
}

#[test]
fn sha256_helper_matches_known_vector() {
    let mut h = sha2_sha256();
    h.update(b"abc");
    let digest = h.finalize();
    // SHA-256("abc")
    let expected: [u8; 32] = [
        0xba, 0x78, 0x16, 0xbf, 0x8f, 0x01, 0xcf, 0xea, 0x41, 0x41, 0x40, 0xde, 0x5d, 0xae, 0x22,
        0x23, 0xb0, 0x03, 0x61, 0xa3, 0x96, 0x17, 0x7a, 0x9c, 0xb4, 0x10, 0xff, 0x61, 0xf2, 0x00,
        0x15, 0xad,
    ];
    assert_eq!(digest, expected);
}

#[test]
fn count_updates_installed_counts_apt_inst_lines() {
    let log = "Reading package lists...\nInst openssl [1.1] (1.2 amd64)\nInst curl [7.81] (7.82 amd64)\nFetched X kB in Ys\n";
    assert_eq!(count_updates_installed(log), 2);
}

#[test]
fn log_indicates_reboot_detects_marker() {
    assert!(log_indicates_reboot("System needs to reboot."));
    assert!(log_indicates_reboot("Please restart your computer."));
    assert!(!log_indicates_reboot("All packages up to date."));
}

fn os_update_opts_cases() -> [(bool, bool); 4] {
    [(true, false), (true, true), (false, true), (false, false)]
}

fn mk_opts(include_security: bool, include_feature: bool) -> OsUpdateOpts {
    OsUpdateOpts {
        include_security,
        include_feature,
        reboot_policy: RebootPolicy::Never,
    }
}

#[test]
fn security_only_mode_decision_tree() {
    for (include_security, include_feature) in os_update_opts_cases() {
        let opts = mk_opts(include_security, include_feature);
        let expected = include_security && !include_feature;
        assert_eq!(
            security_only_mode(&opts),
            expected,
            "security_only_mode mismatch for (include_security={include_security}, include_feature={include_feature})"
        );
    }
}

#[test]
fn unattended_upgrade_args_decision_tree() {
    for (include_security, include_feature) in os_update_opts_cases() {
        let opts = mk_opts(include_security, include_feature);
        let args = unattended_upgrade_args(&opts);
        assert!(
            args.starts_with(&["--debug", "-v"]),
            "args missing --debug -v prefix: {args:?}"
        );
        let has_security_only = args.contains(&"--security-only");
        let want_security_only = include_security && !include_feature;
        assert_eq!(
            has_security_only, want_security_only,
            "unattended_upgrade_args --security-only mismatch for (include_security={include_security}, include_feature={include_feature}): {args:?}"
        );
    }
}

#[test]
fn dnf_upgrade_args_decision_tree() {
    for (include_security, include_feature) in os_update_opts_cases() {
        let opts = mk_opts(include_security, include_feature);
        let args = dnf_upgrade_args(&opts);
        assert!(
            args.starts_with(&["upgrade", "--refresh", "-y"]),
            "args missing common prefix: {args:?}"
        );
        let has_security = args.contains(&"--security");
        let want_security = include_security && !include_feature;
        assert_eq!(
            has_security, want_security,
            "dnf_upgrade_args --security mismatch for (include_security={include_security}, include_feature={include_feature}): {args:?}"
        );
    }
}

#[test]
fn dnf_automatic_args_is_invariant_under_opts() {
    let mut seen = std::collections::HashSet::new();
    for (include_security, include_feature) in os_update_opts_cases() {
        let opts = mk_opts(include_security, include_feature);
        let args = dnf_automatic_args(&opts);
        assert_eq!(
            args,
            vec!["--installupdates"],
            "dnf_automatic_args returned unexpected args for (include_security={include_security}, include_feature={include_feature}): {args:?}"
        );
        seen.insert(args);
    }
    assert_eq!(
        seen.len(),
        1,
        "dnf_automatic_args is documented as invariant under OsUpdateOpts but produced multiple outputs"
    );
}

#[test]
fn zypper_args_decision_tree() {
    for (include_security, include_feature) in os_update_opts_cases() {
        let opts = mk_opts(include_security, include_feature);
        let args = zypper_args(&opts);
        let want_security_only = include_security && !include_feature;
        if want_security_only {
            assert_eq!(
                args,
                vec!["patch", "-y", "--category", "security"],
                "zypper_args wrong for security-only mode (include_security={include_security}, include_feature={include_feature})"
            );
        } else {
            assert_eq!(
                args,
                vec!["update", "-y"],
                "zypper_args wrong for everything mode (include_security={include_security}, include_feature={include_feature})"
            );
        }
    }
}

#[test]
fn softwareupdate_args_decision_tree() {
    for (include_security, include_feature) in os_update_opts_cases() {
        let opts = mk_opts(include_security, include_feature);
        let args = softwareupdate_args(&opts);
        assert_eq!(args[0], "--install");
        let want_security_only = include_security && !include_feature;
        if want_security_only {
            assert_eq!(
                args,
                vec!["--install", "--recommended"],
                "softwareupdate_args wrong for security-only mode (include_security={include_security}, include_feature={include_feature})"
            );
        } else {
            assert_eq!(
                args,
                vec!["--install", "--all"],
                "softwareupdate_args wrong for everything mode (include_security={include_security}, include_feature={include_feature})"
            );
        }
    }
}

#[test]
fn pswindowsupdate_script_decision_tree() {
    for (include_security, include_feature) in os_update_opts_cases() {
        let opts = mk_opts(include_security, include_feature);
        let script = pswindowsupdate_script(&opts);
        // Common shape is always present.
        assert!(
            script.contains("Install-WindowsUpdate -AcceptAll -AutoReboot:$false"),
            "pswindowsupdate_script missing Install-WindowsUpdate shape: {script:?}"
        );
        assert!(
            script.contains("PSWindowsUpdate"),
            "pswindowsupdate_script missing PSWindowsUpdate module: {script:?}"
        );
        let has_category = script.contains("-Category");
        let want_category = include_security && !include_feature;
        assert_eq!(
            has_category, want_category,
            "pswindowsupdate_script -Category mismatch for (include_security={include_security}, include_feature={include_feature}): {script:?}"
        );
        if want_category {
            assert!(
                script.contains(
                    "-Category 'Security Updates','Critical Updates','Definition Updates'"
                ),
                "pswindowsupdate_script wrong -Category list for security-only mode: {script:?}"
            );
        }
    }
}

#[test]
fn root_luks_device_resolves_mapper_device() {
    let mounts = "\
            sysfs /sys sysfs rw 0 0\n\
            /dev/mapper/cryptroot / ext4 rw,relatime 0 0\n\
            /dev/sda1 /boot ext4 rw 0 0\n";
    assert_eq!(
        LinuxMdmProvider::root_luks_device(mounts),
        Some("/dev/mapper/cryptroot".to_string())
    );
}

#[test]
fn root_luks_device_returns_none_for_plain_root() {
    let mounts = "/dev/sda1 / ext4 rw,relatime 0 0\n";
    assert_eq!(LinuxMdmProvider::root_luks_device(mounts), None);
}

#[test]
fn root_luks_device_skips_malformed_lines_and_keeps_searching() {
    let mounts = "\
            # comment\n\
            \n\
            \t  \n\
            singletoken\n\
            sysfs /sys sysfs rw 0 0\n\
            /dev/mapper/cryptroot / ext4 rw,relatime 0 0\n\
            /dev/sda1 /boot ext4 rw 0 0\n";
    assert_eq!(
        LinuxMdmProvider::root_luks_device(mounts),
        Some("/dev/mapper/cryptroot".to_string()),
        "must skip malformed lines and keep walking until the root mount is found"
    );
}

#[test]
fn linux_provider_constructible() {
    let _ = LinuxMdmProvider::new();
}

#[test]
fn linux_enable_disk_encryption_returns_unsupported() {
    let p = LinuxMdmProvider::new();
    let r = p.enable_disk_encryption();
    assert!(matches!(r, Err(MdmError::Unsupported(_))));
}

#[test]
fn parse_softwareupdate_count_zero() {
    assert_eq!(
        MacMdmProvider::parse_softwareupdate_count("No new software available."),
        0
    );
}

#[test]
fn parse_softwareupdate_count_two() {
    let out = "Software Update found the following new or updated software:\n\
                   * Label: Safari\n\
                     Title: Safari 17.5\n\
                   * Label: macOS Sonoma 14.5\n\
                     Title: macOS Sonoma 14.5\n";
    assert_eq!(MacMdmProvider::parse_softwareupdate_count(out), 2);
}

#[test]
fn macos_provider_constructible() {
    let _ = MacMdmProvider::new();
}

#[test]
fn windows_provider_constructible() {
    let _ = WindowsMdmProvider::new();
}

#[test]
fn parse_bitlocker_recovery_password_finds_48_digit() {
    let out = "BitLocker Drive Encryption: Configuration Tool\n\
            Volume C: [OS]\n\
            All Key Protectors\n\
            Numerical Password:\n\
              ID: {12345678-1234-1234-1234-123456789012}\n\
              Password:\n\
                123456-123456-123456-123456-123456-123456-123456-123456\n";
    let pwd = WindowsMdmProvider::parse_bitlocker_recovery_password(out);
    assert!(pwd.is_some());
    let pwd = pwd.unwrap();
    assert_eq!(pwd.len(), 55);
    assert_eq!(pwd.chars().filter(|c| *c == '-').count(), 7);
}

#[test]
fn parse_pswindowsupdate_count_two_lines() {
    let out = "Status              KB          Title\n\
                   ------              --          -----\n\
                   Installed           KB123456    Update A\n\
                   Installed           KB123457    Update B\n";
    assert_eq!(WindowsMdmProvider::parse_pswindowsupdate_count(out), 2);
}

// ---------------------------------------------------------------------
// Plans and outcomes
// ---------------------------------------------------------------------

fn shred_only() -> WipeOpts {
    WipeOpts {
        crypto_shred_only: true,
        wait_for_ac: false,
    }
}

#[test]
fn shredding_wipes_stop_after_the_keys() {
    let l = LinuxMdmProvider::new();
    let full = l.wipe_commands(&WipeOpts::default(), LUKS_MOUNTS).unwrap();
    assert_eq!(
        full.iter().map(line).collect::<Vec<_>>(),
        vec![
            "cryptsetup luksErase --batch-mode /dev/mapper/cryptroot",
            "dd if=/dev/urandom of=/dev/mapper/cryptroot bs=1M count=10 conv=notrunc",
            "systemctl --force --force reboot",
        ]
    );
    let shred = l.wipe_commands(&shred_only(), LUKS_MOUNTS).unwrap();
    assert_eq!(shred.len(), 1);
    assert_eq!(shred[0], full[0]);
    let m = MacMdmProvider::new();
    assert_eq!(
        m.wipe_commands(&WipeOpts::default())
            .iter()
            .map(line)
            .collect::<Vec<_>>(),
        vec![
            "fdesetup removerecovery -personal",
            "/usr/bin/sudo nvram obliterate=%01"
        ]
    );
    assert_eq!(m.wipe_commands(&shred_only()).len(), 1);
    let w = WindowsMdmProvider::new();
    assert_eq!(
        w.wipe_commands(&WipeOpts::default())
            .iter()
            .map(line)
            .collect::<Vec<_>>(),
        vec!["manage-bde -off C:", "systemreset.exe /factoryreset /quiet"]
    );
    assert_eq!(w.wipe_commands(&shred_only()).len(), 1);
}

#[test]
fn wipe_outcomes_tell_what_went_well() {
    let l = LinuxMdmProvider::new();
    let o = l
        .wipe(&WipeOpts::default(), LUKS_MOUNTS, &vec![true, false, true], at())
        .unwrap();
    assert!(o.crypto_shred_succeeded && o.factory_reset_invoked);
    assert_eq!(o.started_at, at());
    let o = l
        .wipe(&shred_only(), LUKS_MOUNTS, &vec![true, true, true], at())
        .unwrap();
    assert!(o.crypto_shred_succeeded && !o.factory_reset_invoked);
    assert_eq!(
        l.wipe(&shred_only(), "", &vec![true], at()),
        Err(MdmError::Unsupported(
            "no LUKS-backed root device detected".into()
        ))
    );
    assert!(l.wipe_commands(&shred_only(), "").is_err());
    let m = MacMdmProvider::new()
        .wipe(&WipeOpts::default(), &vec![false, false], at())
        .unwrap();
    assert!(m.crypto_shred_succeeded && !m.factory_reset_invoked);
    let w = WindowsMdmProvider::new()
        .wipe(&WipeOpts::default(), &vec![false, true], at())
        .unwrap();
    assert!(!w.crypto_shred_succeeded && w.factory_reset_invoked);
}

#[test]
fn update_tools_are_preferred_in_order() {
    let l = LinuxMdmProvider::new();
    let tools = l.update_tools();
    assert_eq!(tools.len(), 5);
    assert_eq!(
        l.detect_update_tool(&vec![false, false, true, true, true]),
        Some("/usr/bin/dnf")
    );
    assert_eq!(
        l.detect_update_tool(&vec![false, true, true, true, true]),
        Some("/usr/sbin/unattended-upgrade")
    );
    assert_eq!(
        l.detect_update_tool(&vec![false, false, false, false, false]),
        None
    );
    let opts = mk_opts(true, false);
    let run = |t: &str| line(&l.update_command(Some(t), &opts).unwrap());
    assert_eq!(run("/usr/bin/dnf"), "/usr/bin/dnf upgrade --refresh -y --security");
    assert_eq!(
        run("/usr/bin/dnf-automatic"),
        "/usr/bin/dnf-automatic --installupdates"
    );
    assert_eq!(
        run("/usr/bin/zypper"),
        "/usr/bin/zypper patch -y --category security"
    );
    assert_eq!(
        run("/usr/bin/unattended-upgrade"),
        "/usr/bin/unattended-upgrade --debug -v --security-only"
    );
    assert_eq!(
        l.update_command(None, &opts),
        Err(MdmError::Unsupported("no supported OS update tool".into()))
    );
}

#[test]
fn update_outcomes_come_from_the_whole_log() {
    let l = LinuxMdmProvider::new();
    let o = l
        .install_os_updates(report(b"Inst a\nInst b\n", b"please reboot\n", false))
        .unwrap();
    assert_eq!(o.updates_installed, 2);
    assert!(o.reboot_required);
    let mut h = sha2_sha256();
    h.update(b"Inst a\nInst b\n");
    h.update(b"please reboot\n");
    assert_eq!(o.log_sha256, h.finalize());
    let m = MacMdmProvider::new()
        .install_os_updates(report(b"  * Label: x\n", b"Restart now", true))
        .unwrap();
    assert_eq!((m.updates_installed, m.reboot_required), (1, true));
    let w = WindowsMdmProvider::new()
        .install_os_updates(report(b"Installed KB1\n", b"restart", true))
        .unwrap();
    assert_eq!((w.updates_installed, w.reboot_required), (1, false));
    assert_eq!(
        l.install_os_updates(Err("gone".into())),
        Err(MdmError::Io("gone".into()))
    );
}

#[test]
fn keys_are_escrowed_from_what_the_tools_print() {
    let l = LinuxMdmProvider::new();
    assert_eq!(
        line(&l.escrow_command(LUKS_MOUNTS).unwrap()),
        "cryptsetup luksDump --dump-master-key /dev/mapper/cryptroot"
    );
    let k = l.escrow_recovery_key(report(b"key", b"", true)).unwrap();
    assert_eq!((k.key_type, k.material), (RecoveryKeyType::Luks, b"key".to_vec()));
    assert_eq!(
        l.escrow_recovery_key(report(b"", b"denied", false)),
        Err(MdmError::Command("cryptsetup luksDump failed: denied".into()))
    );
    assert_eq!(
        MacMdmProvider::new().escrow_recovery_key(report(b"", b"denied", false)),
        Err(MdmError::Command(
            "fdesetup showrecoverykey failed: denied".into()
        ))
    );
    let w = WindowsMdmProvider::new();
    assert_eq!(
        w.escrow_recovery_key(report(b"nothing", b"", true)),
        Err(MdmError::Unsupported(
            "no BitLocker recovery password protector found".into()
        ))
    );
    assert_eq!(
        w.escrow_recovery_key(report(b"", b"", false)),
        Err(MdmError::Command("manage-bde returned exit status: 1".into()))
    );
    let password = "123456-123456-123456-123456-123456-123456-123456-123456";
    let k = w
        .escrow_recovery_key(report(format!("  {password}\r\n").as_bytes(), b"", true))
        .unwrap();
    assert_eq!(
        (k.key_type, k.material),
        (RecoveryKeyType::BitLocker, password.as_bytes().to_vec())
    );
}

#[test]
fn firewall_is_switched_on_by_the_first_tool_that_can() {
    let l = LinuxMdmProvider::new();
    let run = |ran: Vec<Option<bool>>| match l.enable_firewall(&ran) {
        FirewallStep::Run(c) => line(&c),
        FirewallStep::Done(r) => format!("{r:?}"),
    };
    assert_eq!(
        run(vec![]),
        "firewall-cmd --set-default-zone=public --permanent"
    );
    assert_eq!(run(vec![Some(true)]), "firewall-cmd --reload");
    assert_eq!(run(vec![Some(true), None]), "Ok(())");
    assert_eq!(run(vec![None]), "nft add table inet filter");
    assert_eq!(
        run(vec![Some(false), Some(true)]),
        "nft add chain inet filter input { type filter hook input priority 0 ; policy drop ; }"
    );
    assert_eq!(run(vec![None, Some(true), Some(false)]), "Ok(())");
    assert_eq!(
        run(vec![None, Some(false)]),
        "Err(Unsupported(\"neither firewalld nor nftables is available\"))"
    );
    let m = MacMdmProvider::new();
    assert_eq!(
        m.enable_firewall(Ok(Err("exit status: 2".into()))),
        Err(MdmError::Command(
            "socketfilterfw --setglobalstate on returned exit status: 2".into()
        ))
    );
    assert_eq!(m.enable_firewall(Ok(Ok(()))), Ok(()));
    assert_eq!(
        WindowsMdmProvider::new().enable_firewall(Err("gone".into())),
        Err(MdmError::Io("gone".into()))
    );
}

#[test]
fn locks_and_lost_mode_are_plain_commands() {
    let l = LinuxMdmProvider::new();
    assert_eq!(line(&l.lock_command()), "loginctl lock-sessions");
    assert_eq!(l.lock(Ok(false)), Ok(()));
    assert_eq!(l.lock(Err("x".into())), Err(MdmError::Io("x".into())));
    assert_eq!(
        l.screen_lock_commands(300)
            .iter()
            .map(line)
            .collect::<Vec<_>>(),
        vec![
            "dconf write /org/gnome/desktop/session/idle-delay uint32 300",
            "dconf write /org/gnome/desktop/screensaver/lock-enabled true"
        ]
    );
    assert_eq!(
        l.enter_lost_mode_commands()
            .iter()
            .map(line)
            .collect::<Vec<_>>(),
        vec![
            "systemctl start sda-mdm-lost-mode.service",
            "loginctl lock-sessions"
        ]
    );
    assert_eq!(
        l.exit_lost_mode_commands()
            .iter()
            .map(line)
            .collect::<Vec<_>>(),
        vec![
            "systemctl stop sda-mdm-lost-mode.service",
            "loginctl unlock-sessions"
        ]
    );
    assert_eq!(l.profile_commands().len(), 2);
    let w = WindowsMdmProvider::new();
    assert_eq!(
        w.screen_lock_commands(60)[0].args,
        vec![
            "add",
            r"HKCU\Control Panel\Desktop",
            "/v",
            "ScreenSaveTimeOut",
            "/t",
            "REG_SZ",
            "/d",
            "60",
            "/f"
        ]
    );
    assert_eq!(
        w.exit_lost_mode_command().args[1],
        r"HKLM\SOFTWARE\Microsoft\Windows\CurrentVersion\Authentication\Credential Providers\{SN360-LOST-MODE}"
    );
}

#[test]
fn profiles_are_written_under_their_identifier() {
    let profile = SignedConfigProfile {
        profile_id: Uuid {
            bytes: [
                0x67, 0xe5, 0x50, 0x44, 0x10, 0xb1, 0x42, 0x6f, 0x92, 0x47, 0xbb, 0x68, 0x0e, 0x5f,
                0xe0, 0xc8,
            ],
        },
        tenant_id: Uuid { bytes: [0; 16] },
        canonical_json: "{}".into(),
        signature: vec![],
        key_id: "k".into(),
    };
    let m = MacMdmProvider::new();
    assert_eq!(
        m.profile_file_name(&profile),
        "sn360-mdm-67e55044-10b1-426f-9247-bb680e5fe0c8.json"
    );
    assert_eq!(line(&m.profile_command("/tmp/p")), "profiles install -path=/tmp/p");
    assert_eq!(
        m.apply_config_profile(Ok(Err("exit status: 9".into()))),
        Err(MdmError::Command(
            "profiles install returned exit status: 9".into()
        ))
    );
}

#[test]
fn encryption_outcomes_name_their_provider() {
    let o = MacMdmProvider::new().enable_disk_encryption(Ok(true)).unwrap();
    assert_eq!((o.enabled, o.provider.as_str()), (true, "filevault"));
    let o = WindowsMdmProvider::new()
        .enable_disk_encryption(Ok(false))
        .unwrap();
    assert_eq!((o.enabled, o.provider.as_str()), (false, "bitlocker"));
    assert!(!o.recovery_key_escrowed);
    assert_eq!(
        MacMdmProvider::new().enable_disk_encryption(Err("x".into())),
        Err(MdmError::Io("x".into()))
    );
}

#[test]
fn other_systems_support_nothing() {
    let s = StubMdmProvider {};
    let stub = || MdmError::Unsupported("stub".into());
    assert_eq!(s.wipe(&shred_only()), Err(stub()));
    assert_eq!(s.lock("m"), Err(stub()));
    assert_eq!(s.exit_lost_mode(), Err(stub()));
    assert_eq!(s.enable_firewall(), Err(stub()));
}

#[test]
fn mdm_errors_have_their_texts() {
    assert_eq!(MdmError::Io("x".into()).message(), "MDM provider IO error: x");
    assert_eq!(
        MdmError::Command("x".into()).message(),
        "MDM provider command failed: x"
    );
    assert_eq!(
        MdmError::Unsupported("x".into()).message(),
        "MDM provider does not support this operation on the current host: x"
    );
    assert_eq!(
        MdmError::InvalidProfile("x".into()).message(),
        "MDM signed config profile is invalid: x"
    );
}
