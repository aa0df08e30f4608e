use sda_agent::command::CommandLine;
use sda_agent::json::{parse_json, Json};
use sda_agent::package_manager::{
    action_result, applications_of, interpret_winget_exit, parse_dpkg_query, parse_pkgutil_pkg_info,
    parse_receipt_ids, parse_rpm_qa, parse_system_profiler_applications, parse_winget_list, run_action,
    InstallOpts, InstalledPackage, LinuxFlavour, LinuxPackageManager, MacosPackageManager, PackageError,
    PackageManager, PackageOp, PackageRef, ReceiptInfo, WindowsPackageManager,
};

fn line(program: &str, args: &[&str]) -> CommandLine {
    CommandLine {
        program: program.to_string(),
        args: args.iter().map(|a| a.to_string()).collect(),
    }
}

fn package(id: &str, version: Option<&str>) -> PackageRef {
    PackageRef { id: id.to_string(), version: version.map(|v| v.to_string()) }
}

#[test]
fn install_opts_default_is_all_none() {
    let o = InstallOpts::default();
    assert!(o.expected_sha256.is_none());
    assert!(o.source_url.is_none());
    assert!(!o.force);
}

fn accept(_b: Box<dyn PackageManager>) {}

#[test]
fn package_manager_is_dyn_safe() {
    let _ = accept;
}

#[test]
fn package_error_display_includes_io_chain() {
    let e = PackageError::Io("missing".to_string());
    let s = e.message();
    assert!(s.contains("IO error"));
    assert_eq!(s, "package manager IO error: missing");
    assert_eq!(
        PackageError::Command("x".into()).message(),
        "package manager command failed: x"
    );
    assert_eq!(
        PackageError::Unsupported.message(),
        "no supported package manager detected on this host"
    );
    assert_eq!(PackageError::NotImplemented.message(), "not implemented");
}

// ---- Linux ----

#[test]
fn linux_parses_dpkg_query_two_columns() {
    let out = "firefox\t126.0+build1-0ubuntu0.22.04.1\ncurl\t7.81.0-1ubuntu1.16\n";
    let pkgs = parse_dpkg_query(out);
    assert_eq!(pkgs.len(), 2);
    assert_eq!(pkgs[0].id, "firefox");
    assert_eq!(pkgs[0].version, "126.0+build1-0ubuntu0.22.04.1");
    assert_eq!(pkgs[0].source, "apt-get");
    assert!(pkgs[0].name.is_none());
    assert_eq!(pkgs[1].id, "curl");
}

#[test]
fn linux_parses_dpkg_query_skips_blank_lines() {
    let out = "\nfirefox\t126.0\n\n\ncurl\t7.81.0\n";
    let pkgs = parse_dpkg_query(out);
    assert_eq!(pkgs.len(), 2);
}

#[test]
fn linux_parses_rpm_qa_with_release_suffix() {
    let out = "kernel\t6.4.0-1.fc39\nbash\t5.2-1.el9\n";
    let pkgs = parse_rpm_qa(out, "dnf");
    assert_eq!(pkgs.len(), 2);
    assert_eq!(pkgs[0].id, "kernel");
    assert_eq!(pkgs[0].version, "6.4.0-1.fc39");
    assert_eq!(pkgs[0].source, "dnf");
    assert_eq!(pkgs[1].source, "dnf");
}

#[test]
fn linux_parses_rpm_qa_with_zypper_label() {
    let pkgs = parse_rpm_qa("zypper\t1.14.0-1.suse\n", "zypper");
    assert_eq!(pkgs.len(), 1);
    assert_eq!(pkgs[0].source, "zypper");
}

#[test]
fn linux_picks_the_first_program_found() {
    let pick = |a, d, y, z| LinuxPackageManager::detect(a, d, y, z).map(|m| m.flavour());
    assert_eq!(pick(true, true, true, true), Ok(LinuxFlavour::Apt));
    assert_eq!(pick(false, true, true, true), Ok(LinuxFlavour::Dnf));
    assert_eq!(pick(false, false, true, true), Ok(LinuxFlavour::Yum));
    assert_eq!(pick(false, false, false, true), Ok(LinuxFlavour::Zypper));
    assert_eq!(pick(false, false, false, false), Err(PackageError::Unsupported));
}

#[test]
fn linux_commands() {
    let pinned = package("curl", Some("8.0"));
    assert_eq!(
        run_action(LinuxFlavour::Apt, PackageOp::Install, &pinned),
        line("apt-get", &["-y", "install", "curl=8.0"])
    );
    assert_eq!(
        run_action(LinuxFlavour::Zypper, PackageOp::Install, &pinned),
        line("zypper", &["--non-interactive", "install", "curl-8.0"])
    );
    assert_eq!(
        run_action(LinuxFlavour::Dnf, PackageOp::Update, &package("curl", None)),
        line("dnf", &["-y", "upgrade", "curl"])
    );
    assert_eq!(
        run_action(LinuxFlavour::Apt, PackageOp::Update, &pinned),
        line("apt-get", &["-y", "install", "curl=8.0"])
    );
    assert_eq!(
        run_action(LinuxFlavour::Yum, PackageOp::Update, &pinned),
        line("yum", &["-y", "update", "curl-8.0"])
    );
    assert_eq!(
        run_action(LinuxFlavour::Dnf, PackageOp::Uninstall, &pinned),
        line("dnf", &["-y", "remove", "curl"])
    );
    assert_eq!(
        run_action(LinuxFlavour::Yum, PackageOp::Uninstall, &package("curl", None)),
        line("yum", &["-y", "remove", "curl"])
    );
    assert_eq!(action_result(LinuxFlavour::Apt, PackageOp::Install, true), Ok(()));
    assert_eq!(
        action_result(LinuxFlavour::Apt, PackageOp::Uninstall, false),
        Err(PackageError::Command("Apt uninstall exited non-zero".to_string()))
    );
}

#[test]
fn forced_installations_replace_what_is_there() {
    let forced = InstallOpts { force: true, ..InstallOpts::default() };
    let pinned = package("curl", Some("8.0"));
    let commands = |f: LinuxFlavour| LinuxPackageManager::with_flavour(f).install_commands(&pinned, &forced);
    assert_eq!(
        commands(LinuxFlavour::Apt),
        vec![line("apt-get", &["-y", "install", "--reinstall", "curl=8.0"])]
    );
    assert_eq!(
        commands(LinuxFlavour::Zypper),
        vec![line("zypper", &["--non-interactive", "install", "--force", "curl-8.0"])]
    );
    assert_eq!(
        commands(LinuxFlavour::Yum),
        vec![
            line("yum", &["-y", "install", "curl-8.0"]),
            line("yum", &["-y", "reinstall", "curl-8.0"])
        ]
    );
    assert_eq!(commands(LinuxFlavour::Dnf)[1], line("dnf", &["-y", "reinstall", "curl-8.0"]));
    assert_eq!(
        LinuxPackageManager::with_flavour(LinuxFlavour::Dnf)
            .install_commands(&package("curl", None), &InstallOpts::default()),
        vec![line("dnf", &["-y", "install", "curl"])]
    );
}

#[test]
fn removal_of_what_is_not_there_is_no_error() {
    let m = LinuxPackageManager::with_flavour(LinuxFlavour::Zypper);
    let left = parse_rpm_qa("curl\t8.0-1\n", "zypper");
    let failed = Err(PackageError::Command("Zypper uninstall exited non-zero".to_string()));
    assert_eq!(m.removal_result(&package("vim", None), false, Some(&left)), Ok(()));
    assert_eq!(m.removal_result(&package("curl", None), false, Some(&left)), failed);
    assert!(m.removal_result(&package("vim", None), false, None).is_err());
    assert_eq!(m.removal_result(&package("curl", None), true, None), Ok(()));
}

#[test]
fn linux_listing_depends_on_the_flavour() {
    let apt = LinuxPackageManager::with_flavour(LinuxFlavour::Apt);
    assert_eq!(apt.list_command().program, "dpkg-query");
    assert_eq!(apt.list_installed(true, b"a\t1\n").unwrap()[0].source, "apt-get");
    let dnf = LinuxPackageManager::with_flavour(LinuxFlavour::Dnf);
    assert_eq!(dnf.list_command().program, "rpm");
    assert_eq!(dnf.list_installed(true, b"a\t1\n").unwrap()[0].source, "dnf");
    assert!(matches!(dnf.list_installed(false, b""), Err(PackageError::Command(_))));
}

// ---- macOS ----

#[test]
fn macos_parses_pkgutil_pkg_info() {
    let out = "package-id: com.apple.pkg.Foo\n\
               version: 13.6.4\n\
               volume: /\n\
               location: /\n\
               install-time: 1700000000\n";
    let pkg = parse_pkgutil_pkg_info("com.apple.pkg.Foo", out).expect("parsed");
    assert_eq!(pkg.id, "com.apple.pkg.Foo");
    assert_eq!(pkg.version, "13.6.4");
    assert_eq!(pkg.source, "pkgutil");
}

#[test]
fn macos_parse_pkgutil_pkg_info_returns_none_when_no_version() {
    let out = "package-id: com.apple.pkg.Foo\nvolume: /\n";
    let pkg = parse_pkgutil_pkg_info("com.apple.pkg.Foo", out);
    assert!(pkg.is_none());
}

#[test]
fn macos_parses_system_profiler_applications() {
    let json = r#"{
      "SPApplicationsDataType": [
        {"_name": "Safari", "version": "17.4"},
        {"_name": "Mail",   "version": "16.0"},
        {"_name": "NoVer",  "version": ""}
      ]
    }"#;
    let pkgs = parse_system_profiler_applications(json);
    assert_eq!(pkgs.len(), 2);
    assert_eq!(pkgs[0].id, "Safari");
    assert_eq!(pkgs[0].version, "17.4");
    assert_eq!(pkgs[0].source, "system_profiler");
}

#[test]
fn macos_parse_system_profiler_handles_garbage_json() {
    let pkgs = parse_system_profiler_applications("not json");
    assert!(pkgs.is_empty());
}

#[test]
fn macos_applications_of_a_document() {
    let app = Json::Object(vec![
        ("_name".to_string(), Json::Text("Safari".to_string())),
        ("version".to_string(), Json::Text("17.4".to_string())),
    ]);
    let report = Json::Object(vec![(
        "SPApplicationsDataType".to_string(),
        Json::Array(vec![app, Json::Array(vec![])]),
    )]);
    let pkgs = applications_of(&report);
    assert_eq!(pkgs.len(), 1);
    assert_eq!(pkgs[0].name.as_deref(), Some("Safari"));
}

#[test]
fn documents_are_read_by_key() {
    let doc = parse_json(r#"{"a": {"b": [1, "x", null]}, "a": {"b": ["last"]}}"#).unwrap();
    let inner = doc.get("a").unwrap();
    assert_eq!(inner.items_of("b").unwrap().len(), 1);
    assert!(doc.get("b").is_none());
    assert!(doc.text_of("a").is_none());
    assert!(parse_json("{").is_none());
    assert_eq!(parse_json("[1]").unwrap().get("a"), None);
}

#[test]
fn macos_receipts_are_one_to_a_line() {
    assert_eq!(parse_receipt_ids(b"com.a\ncom.b\n"), vec!["com.a", "com.b"]);
    assert!(parse_receipt_ids(b"com.\xff\n").is_empty());
}

#[test]
fn macos_lists_receipts_that_can_be_described() {
    let m = MacosPackageManager::new();
    assert_eq!(m.list_command(), line("pkgutil", &["--pkgs"]));
    assert_eq!(m.receipts(true, b"a\nb\n"), Ok(vec!["a".to_string(), "b".to_string()]));
    assert_eq!(
        m.receipts(false, b"a\n"),
        Err(PackageError::Command("pkgutil --pkgs exited non-zero".to_string()))
    );
    assert_eq!(m.info_command("a"), line("pkgutil", &["--pkg-info", "a"]));
    let info = |id: &str, success: bool, out: &[u8]| ReceiptInfo {
        id: id.to_string(),
        success,
        stdout: out.to_vec(),
    };
    let pkgs = m.list_installed(&vec![
        info("a", true, b"version: 1\xff\n"),
        info("b", false, b"version: 2\n"),
        info("c", true, b"volume: /\n"),
        info("d", true, b"version: 4\n"),
    ]);
    assert_eq!(pkgs.len(), 2);
    assert_eq!(pkgs[0].id, "a");
    assert_eq!(pkgs[0].version, "1\u{fffd}");
    assert_eq!(pkgs[1].id, "d");
}

#[test]
fn macos_installs_local_files_only() {
    let m = MacosPackageManager::new();
    let opts = |url: Option<&str>| InstallOpts {
        source_url: url.map(|u| u.to_string()),
        ..InstallOpts::default()
    };
    assert_eq!(m.local_package(&opts(Some("file:///tmp/a.pkg"))), Ok("/tmp/a.pkg".to_string()));
    assert_eq!(m.local_package(&opts(Some("https://x/a.pkg"))), Err(PackageError::Unsupported));
    assert_eq!(m.local_package(&opts(None)), Err(PackageError::Unsupported));
    assert_eq!(
        m.install_command("/tmp/a.pkg"),
        line("installer", &["-pkg", "/tmp/a.pkg", "-target", "/"])
    );
    assert_eq!(
        m.install_result(&package("a", None), false),
        Err(PackageError::Command("installer -pkg a -target / exited non-zero".to_string()))
    );
    assert_eq!(m.uninstall_command(&package("a", None)), line("pkgutil", &["--files", "a"]));
    assert_eq!(
        m.uninstall_result(&package("a", None), false, None),
        Err(PackageError::Command("pkgutil --files a exited non-zero".to_string()))
    );
    let there = vec!["b".to_string(), "a".to_string()];
    assert!(m.uninstall_result(&package("a", None), false, Some(&there)).is_err());
    assert_eq!(m.uninstall_result(&package("c", None), false, Some(&there)), Ok(()));
    assert_eq!(m.uninstall_result(&package("a", None), true, None), Ok(()));
}

// ---- Windows ----

#[test]
fn windows_parses_winget_list_basic() {
    let out = "Name             Id                Version    Source\n\
               ----------------------------------------------------\n\
               Mozilla Firefox  Mozilla.Firefox   126.0      winget\n\
               7-Zip            7zip.7zip         24.07      winget\n";
    let pkgs = parse_winget_list(out);
    assert_eq!(pkgs.len(), 2);
    assert_eq!(pkgs[0].id, "Mozilla.Firefox");
    assert_eq!(pkgs[0].version, "126.0");
    assert_eq!(pkgs[0].source, "winget");
    assert_eq!(pkgs[0].name.as_deref(), Some("Mozilla Firefox"));
    assert_eq!(pkgs[1].id, "7zip.7zip");
    assert_eq!(pkgs[1].version, "24.07");
}

#[test]
fn windows_parses_winget_list_empty_when_no_header() {
    let pkgs = parse_winget_list("garbage without a header line\n");
    assert!(pkgs.is_empty());
}

#[test]
fn windows_parses_winget_list_skips_blank_and_separator_lines() {
    let out = "Name      Id           Version   Source\n\
               --------------------------------------\n\
               \n\
               Foo       foo.id       1.0       winget\n";
    let pkgs = parse_winget_list(out);
    assert_eq!(pkgs.len(), 1);
    assert_eq!(pkgs[0].id, "foo.id");
}

#[test]
fn windows_columns_are_counted_in_octets() {
    let out = "Name      Id           Version   Source\n\
               \u{fc}ber     foo.id       1.0       winget\n";
    assert_eq!(
        parse_winget_list(out),
        vec![InstalledPackage {
            id: "foo.id".to_string(),
            name: Some("\u{fc}ber".to_string()),
            version: "1.0".to_string(),
            source: "winget".to_string(),
        }]
    );
}

#[test]
fn windows_exit_codes() {
    assert_eq!(interpret_winget_exit(Some(0), "install"), Ok(()));
    let nothing = 0x8A15_0011u32 as i32;
    assert_eq!(interpret_winget_exit(Some(nothing), "upgrade"), Ok(()));
    assert_eq!(
        interpret_winget_exit(Some(nothing), "install"),
        Err(PackageError::Command("winget install exited with code 0x8a150011".to_string()))
    );
    assert_eq!(
        interpret_winget_exit(None, "upgrade"),
        Err(PackageError::Command("winget upgrade exited with code 0xffffffff".to_string()))
    );
}

#[test]
fn windows_commands() {
    let m = WindowsPackageManager::new();
    assert_eq!(m.list_command(), line("winget", &["list", "--source", "winget"]));
    assert_eq!(
        m.install_command(&package("a", Some("1")), &InstallOpts::default()),
        line(
            "winget",
            &[
                "install",
                "--id",
                "a",
                "--accept-package-agreements",
                "--accept-source-agreements",
                "--version",
                "1"
            ]
        )
    );
    let forced = InstallOpts { force: true, ..InstallOpts::default() };
    assert_eq!(m.install_command(&package("a", None), &forced).args.last().unwrap(), "--force");
    assert_eq!(m.update_command(&package("a", None)), line("winget", &["upgrade", "--id", "a"]));
    assert_eq!(
        m.uninstall_command(&package("a", Some("1"))),
        line("winget", &["uninstall", "--id", "a"])
    );
    assert_eq!(
        m.list_installed(false, Some(-7), b""),
        Err(PackageError::Command("winget list exited with code Some(-7)".to_string()))
    );
    assert_eq!(
        m.list_installed(false, None, b""),
        Err(PackageError::Command("winget list exited with code None".to_string()))
    );
    assert_eq!(m.list_installed(true, Some(0), b"x"), Ok(vec![]));
}
