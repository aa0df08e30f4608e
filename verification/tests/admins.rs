use sda_agent::admin_manager::{
    candidate_path, drop_grant, drop_in_path, new_grant_id, read_grants, record_grant, render_sudoers,
    validate_username, visudo_command, visudo_refusal, AdminError, CommandOutput, GrantHandle, GrantPhase,
    GrantState, LedgerFile, LinuxAdminManager, MacAdminManager, UserRef, WindowsAdminManager,
};
use sda_agent::admin_run::{AdminReply, AdminStep};
use sda_agent::clock::Timestamp;

const SAMPLE_GROUP: &str = "\
root:x:0:
daemon:x:1:
sudo:x:27:alice,bob
wheel:x:10:carol
admin:x:11:dave
nogroup:x:65534:
";

const SAMPLE_PASSWD: &str = "\
root:x:0:0:root:/root:/bin/bash
toor:x:0:0:alt-root:/root:/bin/bash
alice:x:1000:1000:alice:/home/alice:/bin/bash
bin:x:2:2:bin:/bin:/usr/sbin/nologin
";

const LOCAL_GROUP: &str = r"
Alias name     Administrators
Comment        Administrators have complete and unrestricted access to the computer/domain

Members

-------------------------------------------------------------------------------
Administrator
CONTOSO\alice
.\bob
The command completed successfully.

";

fn user(name: &str) -> UserRef {
    UserRef { username: name.to_string(), domain: None }
}

fn grant(id: &str, name: &str) -> GrantHandle {
    GrantHandle {
        id: id.to_string(),
        user: user(name),
        until: Timestamp::from_timestamp(1_700_000_000, 0).unwrap(),
    }
}

fn output(status: i32, stderr: &[u8]) -> CommandOutput {
    CommandOutput { status, stdout: vec![], stderr: stderr.to_vec() }
}

#[test]
fn admin_error_not_implemented_message() {
    let err = AdminError::NotImplemented;
    assert_eq!(err.message(), "not implemented in Phase 1");
}

#[test]
fn admin_errors_describe_themselves() {
    assert_eq!(
        AdminError::Command("x".into()).message(),
        "admin manager OS command failed: x"
    );
    assert_eq!(AdminError::Io("x".into()).message(), "admin manager IO error: x");
    assert_eq!(AdminError::InvalidInput("x".into()).message(), "admin manager input invalid: x");
    assert_eq!(
        AdminError::StateCorrupt("x".into()).message(),
        "admin manager grant state corrupt: x"
    );
}

#[test]
fn validate_username_accepts_simple_logins() {
    validate_username("alice").unwrap();
    validate_username("alice.bob").unwrap();
    validate_username("alice_bob").unwrap();
    validate_username("alice-bob").unwrap();
    validate_username("CONTOSO\\alice").unwrap();
}

#[test]
fn validate_username_rejects_dangerous_inputs() {
    assert!(validate_username("").is_err());
    assert!(validate_username("-rm").is_err());
    assert!(validate_username("alice;rm -rf /").is_err());
    assert!(validate_username("alice space").is_err());
    assert!(validate_username("alice/bob").is_err());
    assert!(validate_username("a\\b\\c").is_err());
}

#[test]
fn refused_characters_are_quoted() {
    for name in ["a;b", "a\nb", "a'b", "a\u{200b}b"] {
        let c = name.chars().nth(1).unwrap();
        match validate_username(name) {
            Err(AdminError::InvalidInput(m)) => assert!(m.contains(&format!("{:?}", c)), "{}", m),
            other => panic!("expected a refusal, got {:?}", other),
        }
    }
}

// ---- programs ----

#[test]
fn failed_programs_tell_what_they_complained_of() {
    assert!(output(0, b"noise").require_success("dscl").is_ok());
    assert_eq!(
        output(-3, b"  no such user\n").require_success("dscl"),
        Err(AdminError::Command("dscl exited with status -3 stderr=no such user".to_string()))
    );
    assert_eq!(
        output(1, b"bad \xff\n").require_success("net"),
        Err(AdminError::Command("net exited with status 1 stderr=bad \u{fffd}".to_string()))
    );
}

// ---- ledger ----

#[test]
fn grant_state_round_trips_through_state_file() {
    let handle = grant("grant-xyz", "alice");
    let state = GrantState::new(vec![handle]);
    assert_eq!(state.schema_version, 1);
    let read_back = read_grants(LedgerFile::State(state)).unwrap();
    assert_eq!(read_back.len(), 1);
    assert_eq!(read_back[0].id, "grant-xyz");
    assert_eq!(read_back[0].user.username, "alice");
}

#[test]
fn grant_state_corrupt_file_yields_state_corrupt() {
    let err = read_grants(LedgerFile::Corrupt("expected ident".to_string()))
        .expect_err("must fail on garbage");
    assert!(matches!(err, AdminError::StateCorrupt(_)), "got {:?}", err);
    let err = read_grants(LedgerFile::Unreadable("denied".to_string())).unwrap_err();
    assert_eq!(err, AdminError::Io("denied".to_string()));
}

#[test]
fn grant_state_missing_file_returns_empty() {
    assert!(read_grants(LedgerFile::Missing).unwrap().is_empty());
    assert!(read_grants(LedgerFile::Empty).unwrap().is_empty());
}

#[test]
fn grant_for_same_user_replaces_previous_handle() {
    let first = grant(&new_grant_id(1, "ThreadId(1)"), "alice");
    let second = grant(&new_grant_id(2, "ThreadId(1)"), "alice");
    assert_ne!(first.id, second.id, "second grant must mint a new id");
    let before = vec![grant("other", "bob")];
    let grants = record_grant(&record_grant(&before, &first), &second);
    assert_eq!(grants.len(), 2);
    assert_eq!(grants[0].id, "other");
    assert_eq!(grants[1].id, second.id);
}

#[test]
fn revoke_removes_drop_in_and_clears_ledger_entry() {
    let handle = grant("g1", "alice");
    let grants = record_grant(&vec![], &handle);
    let after = drop_grant(&grants, &handle);
    assert!(after.is_empty());
    assert!(drop_grant(&after, &handle).is_empty());

    let mgr = LinuxAdminManager::with_components("/l".to_string(), "/d".to_string());
    let mut run = mgr.revoke_admin(&handle);
    assert_eq!(run.next(), Some(AdminStep::RemoveIfThere("/d/sda-jit-alice".to_string())));
    run.report(AdminReply::Done);
    run.report(AdminReply::Ledger(LedgerFile::State(GrantState::new(grants))));
    assert_eq!(run.next(), Some(AdminStep::WriteLedger(vec![])));
    run.report(AdminReply::Done);
    assert_eq!(run.outcome(), Some(Ok(())));
}

#[test]
fn grant_identifiers_start_with_the_time() {
    let id = new_grant_id(0xabc, "ThreadId(3)");
    assert!(id.starts_with("sda-jit-abc-"));
    assert_eq!(id, new_grant_id(0xabc, "ThreadId(3)"));
    assert_ne!(id, new_grant_id(0xabc, "ThreadId(4)"));
}

// ---- Linux ----

#[test]
fn parses_wheel_sudo_admin_groups() {
    let mems = LinuxAdminManager::parse_group_members(SAMPLE_GROUP, &["wheel", "sudo", "admin"]);
    let names: Vec<String> = mems.iter().map(|(u, _)| u.clone()).collect();
    assert!(names.contains(&"alice".to_string()));
    assert!(names.contains(&"bob".to_string()));
    assert!(names.contains(&"carol".to_string()));
    assert!(names.contains(&"dave".to_string()));
    assert!(!names.contains(&"daemon".to_string()));
}

#[test]
fn parses_uid_zero_aliases_excluding_root() {
    let aliases = LinuxAdminManager::parse_uid_zero_aliases(SAMPLE_PASSWD);
    assert_eq!(aliases, vec!["toor".to_string()]);
}

#[test]
fn list_admins_on_build_host_returns_root() {
    let admins = LinuxAdminManager::list_admins(SAMPLE_GROUP, SAMPLE_PASSWD);
    assert!(admins.iter().any(|a| a.username == "root"), "expected root in admins: {:?}", admins);
    assert!(admins.iter().any(|a| a.username == "toor"));
    assert!(LinuxAdminManager::list_admins("", "").iter().any(|a| a.username == "root"));
}

#[test]
fn grant_writes_validated_drop_in_and_persists_handle() {
    let mgr = LinuxAdminManager::with_components(
        "/tmp/grants.json".to_string(),
        "/tmp/sudoers.d".to_string(),
    );
    assert_eq!(drop_in_path(mgr.sudoers_dir(), "alice"), "/tmp/sudoers.d/sda-jit-alice");
    let tmp = candidate_path(mgr.sudoers_dir(), "alice");
    assert_eq!(tmp, "/tmp/sudoers.d/sda-jit-alice.tmp");
    assert_eq!(drop_in_path("/tmp/", "a"), "/tmp/sda-jit-a");

    let handle = grant("grant-1", "alice");
    let body = render_sudoers("alice", &handle.id, &handle.until);
    assert!(body.contains("alice ALL=(ALL) NOPASSWD:ALL"), "unexpected body: {}", body);
    assert!(body.contains("# grant_id: grant-1"));
    assert!(body.contains("# until:    2023-11-14T22:13:20+00:00"));

    let last = visudo_command(&tmp);
    assert_eq!(last.program, "visudo");
    assert_eq!(last.args[0], "-c");
    assert_eq!(last.args[1], "-f");

    let mut run = mgr.grant_admin(&user("alice"), handle.until, handle.id.clone()).unwrap();
    let earlier = GrantState::new(vec![grant("old", "alice"), grant("kept", "bob")]);
    let mut ledger = Some(LedgerFile::State(earlier));
    let mut steps = vec![];
    while let Some(step) = run.next() {
        run.report(match &step {
            AdminStep::Run(_) => AdminReply::Ran(output(0, b"")),
            AdminStep::ReadLedger => AdminReply::Ledger(ledger.take().unwrap()),
            _ => AdminReply::Done,
        });
        steps.push(step);
    }
    assert_eq!(
        steps,
        vec![
            AdminStep::MakeDir("/tmp/sudoers.d".to_string()),
            AdminStep::WriteFile { path: tmp.clone(), body },
            AdminStep::Restrict { path: tmp.clone(), mode: 0o440 },
            AdminStep::Run(last),
            AdminStep::Rename { from: tmp, to: drop_in_path(mgr.sudoers_dir(), "alice") },
            AdminStep::ReadLedger,
            AdminStep::WriteLedger(vec![grant("kept", "bob"), handle.clone()]),
        ]
    );
    assert_eq!(run.outcome(), Some(Ok(handle)));
}

#[test]
fn grant_fails_when_visudo_rejects_drop_in() {
    let err = visudo_refusal("alice", &output(1, b"syntax error near `:`"));
    assert_eq!(
        err,
        AdminError::Command("visudo rejected drop-in for alice: syntax error near `:`".to_string())
    );
    let mgr = LinuxAdminManager::with_components("/l".to_string(), "/d".to_string());
    let mut run = mgr.grant_admin(&user("alice"), grant("g", "alice").until, "g".to_string()).unwrap();
    let mut last = None;
    while let Some(step) = run.next() {
        assert_eq!(run.outcome(), None);
        assert!(!matches!(step, AdminStep::Rename { .. } | AdminStep::WriteLedger(_)));
        run.report(match &step {
            AdminStep::Run(_) => AdminReply::Ran(output(1, b"syntax error near `:`")),
            AdminStep::Remove(_) => AdminReply::Failed(AdminError::Io("gone".to_string())),
            _ => AdminReply::Done,
        });
        last = Some(step);
    }
    assert_eq!(last, Some(AdminStep::Remove("/d/sda-jit-alice.tmp".to_string())));
    assert_eq!(run.outcome(), Some(Err(err)));

    let mut run = mgr.grant_admin(&user("alice"), grant("g", "alice").until, "g".to_string()).unwrap();
    run.report(AdminReply::Failed(AdminError::Io("read-only".to_string())));
    assert_eq!(run.outcome(), Some(Err(AdminError::Io("read-only".to_string()))));
    assert_eq!(GrantPhase::ValidateCandidate.next(false), GrantPhase::DiscardCandidate);
}

#[test]
fn invalid_username_is_rejected_before_any_command_runs() {
    let bad = user("alice; rm -rf /");
    let until = grant("g", "x").until;
    let linux = LinuxAdminManager::new().grant_admin(&bad, until, "g".to_string()).err();
    let mac = MacAdminManager::new().grant_admin(&bad, until, "g".to_string()).err();
    let windows = WindowsAdminManager::new().grant_admin(&bad, until, "g".to_string()).err();
    for err in [linux, mac, windows] {
        let err = err.expect("must reject");
        assert!(matches!(err, AdminError::InvalidInput(_)), "got {:?}", err);
    }
}

#[test]
fn program_runs_before_the_ledger_is_changed() {
    let handle = grant("g", "alice");
    let mac = MacAdminManager::new();
    let mut run = mac.grant_admin(&user("alice"), handle.until, "g".to_string()).unwrap();
    assert_eq!(run.next(), Some(AdminStep::Run(mac.grant_command(&user("alice")))));
    run.report(AdminReply::Ran(output(0, b"")));
    assert_eq!(run.next(), Some(AdminStep::ReadLedger));
    run.report(AdminReply::Ledger(LedgerFile::Missing));
    assert_eq!(run.next(), Some(AdminStep::WriteLedger(vec![handle.clone()])));
    run.report(AdminReply::Done);
    assert_eq!(run.next(), None);
    assert_eq!(run.outcome(), Some(Ok(())));

    let windows = WindowsAdminManager::new();
    let mut run = windows.revoke_admin(&handle);
    assert_eq!(run.next(), Some(AdminStep::Run(windows.revoke_command(&handle))));
    run.report(AdminReply::Ran(output(2, b"System error 5\r\n")));
    assert_eq!(
        run.outcome(),
        Some(Err(AdminError::Command(
            "net localgroup delete exited with status 2 stderr=System error 5".to_string()
        )))
    );

    let mut run = mac.revoke_admin(&handle);
    run.report(AdminReply::Ran(output(0, b"")));
    run.report(AdminReply::Ledger(LedgerFile::Corrupt("bad".to_string())));
    assert_eq!(run.outcome(), Some(Err(AdminError::StateCorrupt("bad".to_string()))));
}

#[test]
fn grant_is_handed_out_once_it_is_on_record() {
    let handle = grant("g", "alice");
    let mac = MacAdminManager::new();
    let mut run = mac.grant_admin(&user("alice"), handle.until, "g".to_string()).unwrap();
    assert_eq!(run.granted(), None);
    run.report(AdminReply::Ran(output(0, b"")));
    run.report(AdminReply::Ledger(LedgerFile::Missing));
    assert_eq!(run.granted(), None);
    run.report(AdminReply::Done);
    assert_eq!(run.granted(), Some(handle.clone()));

    let windows = WindowsAdminManager::new();
    let mut run = windows.grant_admin(&user("alice"), handle.until, "g".to_string()).unwrap();
    run.report(AdminReply::Ran(output(2, b"")));
    assert_eq!(run.granted(), None);

    let mut run = windows.revoke_admin(&handle);
    run.report(AdminReply::Ran(output(0, b"")));
    run.report(AdminReply::Ledger(LedgerFile::Missing));
    run.report(AdminReply::Done);
    assert_eq!(run.outcome(), Some(Ok(())));
    assert_eq!(run.granted(), None);
}

#[test]
fn linux_files_have_their_places() {
    let mgr = LinuxAdminManager::new();
    assert_eq!(mgr.sudoers_dir(), "/etc/sudoers.d");
    assert!(mgr.state_file().ends_with(".json"));
}

// ---- macOS ----

#[test]
fn parses_dscl_membership_line() {
    let out = "GroupMembership: root alice bob\n";
    let users = MacAdminManager::parse_dscl_membership(out);
    assert_eq!(users, vec!["root", "alice", "bob"]);
}

#[test]
fn parses_dscl_membership_with_space_before_colon() {
    let out = "GroupMembership : alice\n";
    let users = MacAdminManager::parse_dscl_membership(out);
    assert_eq!(users, vec!["alice"]);
}

#[test]
fn parses_dscl_empty_membership() {
    let out = "name: admin\n";
    let users = MacAdminManager::parse_dscl_membership(out);
    assert!(users.is_empty());
}

#[test]
fn macos_commands_for_admins() {
    let mgr = MacAdminManager::with_components("/tmp/grants.json".to_string());
    assert_eq!(mgr.list_command().args, vec![".", "-read", "/Groups/admin", "GroupMembership"]);
    assert_eq!(
        mgr.grant_command(&user("alice")).args,
        vec!["-o", "edit", "-a", "alice", "-t", "user", "admin"]
    );
    assert_eq!(
        mgr.revoke_command(&grant("g", "alice")).args,
        vec!["-o", "edit", "-d", "alice", "-t", "user", "admin"]
    );
    let listed = CommandOutput {
        status: 0,
        stdout: b"GroupMembership: root alice\n".to_vec(),
        stderr: vec![],
    };
    let admins = MacAdminManager::list_admins(listed).unwrap();
    assert_eq!(admins.len(), 2);
    assert_eq!(admins[1].group.as_deref(), Some("admin"));
    assert_eq!(
        MacAdminManager::list_admins(output(1, b"no group\n")),
        Err(AdminError::Command("dscl exited with status 1 stderr=no group".to_string()))
    );
}

// ---- Windows ----

#[test]
fn parses_net_localgroup_output() {
    let admins = WindowsAdminManager::parse_net_localgroup(LOCAL_GROUP);
    assert_eq!(admins.len(), 3);
    assert_eq!(admins[0].username, "Administrator");
    assert_eq!(admins[0].source, "local");
    assert_eq!(admins[1].username, "CONTOSO\\alice");
    assert_eq!(admins[1].source, "domain");
    assert_eq!(admins[2].username, ".\\bob");
    assert_eq!(admins[2].source, "local");
}

#[test]
fn dot_prefix_is_local_account() {
    let sample = "
Members

-------------------------------------------------------------------------------
.\\carol
The command completed successfully.

";
    let admins = WindowsAdminManager::parse_net_localgroup(sample);
    assert_eq!(admins.len(), 1);
    assert_eq!(admins[0].username, ".\\carol");
    assert_eq!(admins[0].source, "local");
}

#[test]
fn empty_domain_prefix_is_local_account() {
    let sample = "
Members

-------------------------------------------------------------------------------
\\dave
The command completed successfully.

";
    let admins = WindowsAdminManager::parse_net_localgroup(sample);
    assert_eq!(admins.len(), 1);
    assert_eq!(admins[0].username, "\\dave");
    assert_eq!(admins[0].source, "local");
}

#[test]
fn parses_empty_membership() {
    let out = "
Alias name     Administrators
Comment        ...

Members

-------------------------------------------------------------------------------
The command completed successfully.

";
    let admins = WindowsAdminManager::parse_net_localgroup(out);
    assert!(admins.is_empty());
}

#[test]
fn windows_commands_for_admins() {
    let mgr = WindowsAdminManager::with_components("C:\\grants.json".to_string());
    let listed = CommandOutput { status: 0, stdout: LOCAL_GROUP.as_bytes().to_vec(), stderr: vec![] };
    assert_eq!(WindowsAdminManager::list_admins(listed).unwrap().len(), 3);
    assert_eq!(
        WindowsAdminManager::list_admins(output(5, b"Access is denied.")),
        Err(AdminError::Command(
            "net localgroup exited with status 5 stderr=Access is denied.".to_string()
        ))
    );
    assert_eq!(mgr.list_command().args, vec!["localgroup", "Administrators"]);
    assert_eq!(
        mgr.grant_command(&user("alice")).args,
        vec!["localgroup", "Administrators", "alice", "/add"]
    );
    assert_eq!(
        mgr.revoke_command(&grant("g", "alice")).args,
        vec!["localgroup", "Administrators", "alice", "/delete"]
    );
}
