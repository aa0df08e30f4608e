//! Device management: what each command does to the device, and what its
//! outcome says.

use crate::clock::Timestamp;
use crate::command::CommandLine;
use crate::laws::text::law_words_come_apart;
use crate::mdm::{
    count_updates_installed, dnf_automatic_args, dnf_upgrade_args, firewall_step, hex_pair,
    hex_run, hyphens, install_line, installed_line, log_indicates_reboot, password_from,
    password_on, plan_view, pswindowsupdate_script, root_device, root_device_from,
    root_device_on, security_only_mode, sha2_sha256, should_perform_factory_reset,
    softwareupdate_args, star_line, tally, unattended_upgrade_args, uuid_text, zypper_args,
    EncryptionOutcome, FirewallStep, LinuxMdmProvider, MacMdmProvider, MdmError, MdmReport,
    OsUpdateOpts, OsUpdateOutcome, RawRecoveryKey, RecoveryKeyType, Sha256, SignedConfigProfile,
    WindowsMdmProvider, WipeOpts, WipeOutcome,
};
use crate::text::{has_text, lines_of, lossy_utf8, numeral, strs, trimmed, utf8_len, words_of};
use vstd::prelude::*;

verus! {

// ---------------------------------------------------------------------
// Wiping
// ---------------------------------------------------------------------

proof fn lemma_plan(v: Seq<CommandLine>, i: int)
    ensures
        plan_view(v).len() == v.len(),
        0 <= i < v.len() ==> plan_view(v)[i] == v[i]@,
{
}

/// A wipe erases the keys of the very device that is mounted as the root,
/// and, unless it stops there, overwrites the start of that device and starts
/// the system anew.
pub proof fn law_wipes_of_linux(
    p: LinuxMdmProvider,
    opts: WipeOpts,
    mounts: &str,
    r: Result<Vec<CommandLine>, MdmError>,
    dev: Option<String>,
)
    requires
        call_ensures(LinuxMdmProvider::wipe_commands, (&p, &opts, mounts), r),
        call_ensures(LinuxMdmProvider::root_luks_device, (mounts,), dev),
    ensures
        r is Ok <==> dev is Some,
        r is Err ==> r->Err_0 is Unsupported,
        r is Ok ==> {
            let v = r->Ok_0@;
            &&& v.len() == if opts.crypto_shred_only {
                1int
            } else {
                3
            }
            &&& v[0]@.program == "cryptsetup"@
            &&& v[0]@.args == seq!["luksErase"@, "--batch-mode"@, dev->0@]
            &&& !opts.crypto_shred_only ==> {
                &&& v[1]@.program == "dd"@
                &&& v[1]@.args == seq![
                    "if=/dev/urandom"@,
                    "of="@ + dev->0@,
                    "bs=1M"@,
                    "count=10"@,
                    "conv=notrunc"@,
                ]
                &&& v[2]@.program == "systemctl"@
                &&& v[2]@.args == seq!["--force"@, "--force"@, "reboot"@]
            }
        },
{
    if r is Ok {
        lemma_plan(r->Ok_0@, 0);
        lemma_plan(r->Ok_0@, 1);
        lemma_plan(r->Ok_0@, 2);
    }
}

/// The wipes of macOS and Windows take the keys away first, and reset the
/// system only where the wipe does not stop there.
pub proof fn law_wipes_of_macos_and_windows(
    m: MacMdmProvider,
    w: WindowsMdmProvider,
    opts: WipeOpts,
    a: Vec<CommandLine>,
    b: Vec<CommandLine>,
    reset: bool,
)
    requires
        call_ensures(MacMdmProvider::wipe_commands, (&m, &opts), a),
        call_ensures(WindowsMdmProvider::wipe_commands, (&w, &opts), b),
        call_ensures(should_perform_factory_reset, (&opts,), reset),
    ensures
        reset <==> !opts.crypto_shred_only,
        a@[0]@.program == "fdesetup"@ && a@[0]@.args == seq!["removerecovery"@, "-personal"@],
        b@[0]@.program == "manage-bde"@ && b@[0]@.args == seq!["-off"@, "C:"@],
        a@.len() == b@.len() == if opts.crypto_shred_only {
            1int
        } else {
            2
        },
        !opts.crypto_shred_only ==> a@[1]@.program == "/usr/bin/sudo"@ && a@[1]@.args == seq![
            "nvram"@,
            "obliterate=%01"@,
        ],
        !opts.crypto_shred_only ==> b@[1]@.program == "systemreset.exe"@ && b@[1]@.args == seq![
            "/factoryreset"@,
            "/quiet"@,
        ],
{
    lemma_plan(a@, 0);
    lemma_plan(a@, 1);
    lemma_plan(b@, 0);
    lemma_plan(b@, 1);
}

/// The outcome of a wipe says of each command what became of it: the keys are
/// gone where the first went well, and the reset is under way where one was
/// wanted and the last went well.
pub proof fn law_outcomes_of_wipes(
    p: LinuxMdmProvider,
    m: MacMdmProvider,
    w: WindowsMdmProvider,
    opts: WipeOpts,
    mounts: &str,
    lran: Vec<bool>,
    ran: Vec<bool>,
    at: Timestamp,
    a: Result<WipeOutcome, MdmError>,
    b: Result<WipeOutcome, MdmError>,
    c: Result<WipeOutcome, MdmError>,
)
    requires
        lran@.len() == 3,
        ran@.len() == 2,
        call_ensures(LinuxMdmProvider::wipe, (&p, &opts, mounts, &lran, at), a),
        call_ensures(MacMdmProvider::wipe, (&m, &opts, &ran, at), b),
        call_ensures(WindowsMdmProvider::wipe, (&w, &opts, &ran, at), c),
    ensures
        a is Ok ==> {
            &&& a->Ok_0.crypto_shred_succeeded == lran@[0]
            &&& a->Ok_0.factory_reset_invoked == (!opts.crypto_shred_only && lran@[2])
            &&& a->Ok_0.started_at == at
        },
        a is Ok <==> root_device(mounts@) is Some,
        b is Ok && b->Ok_0.crypto_shred_succeeded && b->Ok_0.started_at == at,
        b->Ok_0.factory_reset_invoked == (!opts.crypto_shred_only && ran@[1]),
        c is Ok && c->Ok_0.crypto_shred_succeeded == ran@[0] && c->Ok_0.started_at == at,
        c->Ok_0.factory_reset_invoked == (!opts.crypto_shred_only && ran@[1]),
{
}

/// A line of `mounts` shows the device under the root where its mount point
/// is the root and its device is a mapped one.
pub proof fn law_mount_lines(device: Seq<char>, point: Seq<char>, rest: Seq<char>)
    requires
        device.len() > 0,
        point.len() > 0,
        forall|i: int| 0 <= i < device.len() ==> !crate::text::is_space(#[trigger] device[i]),
        forall|i: int| 0 <= i < point.len() ==> !crate::text::is_space(#[trigger] point[i]),
    ensures
        root_device_on(device + seq![' '] + (point + seq![' '] + rest)) == if point == "/"@ && (
        "/dev/mapper/"@.is_prefix_of(device) || "/dev/dm-"@.is_prefix_of(device)) {
            Some(device)
        } else {
            None
        },
{
    let b = seq![' '];
    crate::laws::text::law_white_space_of_ascii(' ');
    law_words_come_apart(point, b, rest);
    law_words_come_apart(device, b, point + b + rest);
    let w = words_of(device + b + (point + b + rest));
    assert(w =~= seq![device, point] + words_of(rest));
    assert(w[0] == device && w[1] == point);
}

/// The first line that shows such a device counts.
pub proof fn law_the_first_root_counts(mounts: Seq<char>, i: int)
    requires
        0 <= i <= lines_of(mounts).len(),
        forall|k: int| 0 <= k < i ==> root_device_on(#[trigger] lines_of(mounts)[k]) is None,
    ensures
        i == lines_of(mounts).len() ==> root_device(mounts) is None,
        i < lines_of(mounts).len() && root_device_on(lines_of(mounts)[i]) is Some ==> root_device(
            mounts,
        ) == root_device_on(lines_of(mounts)[i]),
{
    lemma_root(lines_of(mounts), 0, i);
}

proof fn lemma_root(l: Seq<Seq<char>>, from: int, i: int)
    requires
        0 <= from <= i <= l.len(),
        forall|k: int| 0 <= k < i ==> root_device_on(#[trigger] l[k]) is None,
    ensures
        root_device_from(l, from) == root_device_from(l, i),
    decreases i - from,
{
    if from < i {
        assert(root_device_on(l[from]) is None);
        lemma_root(l, from + 1, i);
    }
}

// ---------------------------------------------------------------------
// Locking and lost mode
// ---------------------------------------------------------------------

/// Lost mode ends what it began: the same service and the same sessions, each
/// with the opposite verb; it begins by locking the sessions as a lock does.
pub proof fn law_lost_mode_of_linux(
    p: LinuxMdmProvider,
    enter: Vec<CommandLine>,
    exit: Vec<CommandLine>,
    lock: CommandLine,
)
    requires
        call_ensures(LinuxMdmProvider::enter_lost_mode_commands, (&p,), enter),
        call_ensures(LinuxMdmProvider::exit_lost_mode_commands, (&p,), exit),
        call_ensures(LinuxMdmProvider::lock_command, (&p,), lock),
    ensures
        enter@.len() == 2 && exit@.len() == 2,
        enter@[0]@.program == "systemctl"@ && enter@[0]@.args == seq![
            "start"@,
            "sda-mdm-lost-mode.service"@,
        ],
        exit@[0]@.program == enter@[0]@.program && exit@[0]@.args == enter@[0]@.args.update(0, "stop"@),
        enter@[1]@ == lock@,
        lock@.program == "loginctl"@ && lock@.args == seq!["lock-sessions"@],
        exit@[1]@.program == lock@.program && exit@[1]@.args == seq!["unlock-sessions"@],
{
    lemma_plan(enter@, 0);
    lemma_plan(enter@, 1);
    lemma_plan(exit@, 0);
    lemma_plan(exit@, 1);
    assert(exit@[0]@.args =~= enter@[0]@.args.update(0, "stop"@));
}

/// On macOS and Windows too, lost mode takes away what it put there.
pub proof fn law_lost_mode_of_macos_and_windows(
    m: MacMdmProvider,
    w: WindowsMdmProvider,
    me: CommandLine,
    mx: CommandLine,
    we: CommandLine,
    wx: CommandLine,
    ml: CommandLine,
    wl: CommandLine,
)
    requires
        call_ensures(MacMdmProvider::enter_lost_mode_command, (&m,), me),
        call_ensures(MacMdmProvider::exit_lost_mode_command, (&m,), mx),
        call_ensures(WindowsMdmProvider::enter_lost_mode_command, (&w,), we),
        call_ensures(WindowsMdmProvider::exit_lost_mode_command, (&w,), wx),
        call_ensures(MacMdmProvider::lock_command, (&m,), ml),
        call_ensures(WindowsMdmProvider::lock_command, (&w,), wl),
    ensures
        me@.program == "launchctl"@ && me@.args == seq![
            "load"@,
            "/Library/LaunchDaemons/com.sn360.sda.mdm.lost-mode.plist"@,
        ],
        mx@.program == me@.program && mx@.args == me@.args.update(0, "unload"@),
        we@.program == "reg"@ && wx@.program == "reg"@,
        we@.args[0] == "add"@ && wx@.args[0] == "delete"@,
        we@.args[1]
            == "HKLM\\SOFTWARE\\Microsoft\\Windows\\CurrentVersion\\Authentication\\Credential Providers\\{SN360-LOST-MODE}"@,
        wx@.args[1] == we@.args[1],
        we@.args.skip(2) == seq!["/ve"@, "/d"@, "SN360 SDA Lost Mode"@, "/f"@],
        wx@.args.skip(2) == seq!["/f"@],
        ml@.program
            == "/System/Library/CoreServices/Menu Extras/User.menu/Contents/Resources/CGSession"@,
        ml@.args == seq!["-suspend"@],
        wl@.program == "rundll32.exe"@ && wl@.args == seq!["user32.dll,LockWorkStation"@],
{
    assert(mx@.args =~= me@.args.update(0, "unload"@));
    assert(we@.args.skip(2) =~= seq!["/ve"@, "/d"@, "SN360 SDA Lost Mode"@, "/f"@]);
    assert(wx@.args.skip(2) =~= seq!["/f"@]);
}

/// A lock fails only where its command could not be run.
pub proof fn law_locks(
    p: LinuxMdmProvider,
    m: MacMdmProvider,
    w: WindowsMdmProvider,
    ran: Result<bool, String>,
    a: Result<(), MdmError>,
    b: Result<(), MdmError>,
    c: Result<(), MdmError>,
)
    requires
        call_ensures(LinuxMdmProvider::lock, (&p, ran), a),
        call_ensures(MacMdmProvider::lock, (&m, ran), b),
        call_ensures(WindowsMdmProvider::lock, (&w, ran), c),
    ensures
        a is Err <==> ran is Err,
        b is Err <==> ran is Err,
        c is Err <==> ran is Err,
        ran is Err ==> a->Err_0 == MdmError::Io(ran->Err_0) && b->Err_0 == MdmError::Io(ran->Err_0)
            && c->Err_0 == MdmError::Io(ran->Err_0),
{
}

/// A screen lock is set to the time that was asked for, in decimal, and
/// switched on.
pub proof fn law_screen_locks(
    p: LinuxMdmProvider,
    m: MacMdmProvider,
    w: WindowsMdmProvider,
    t: u32,
    a: Vec<CommandLine>,
    b: Vec<CommandLine>,
    c: Vec<CommandLine>,
)
    requires
        call_ensures(LinuxMdmProvider::screen_lock_commands, (&p, t), a),
        call_ensures(MacMdmProvider::screen_lock_commands, (&m, t), b),
        call_ensures(WindowsMdmProvider::screen_lock_commands, (&w, t), c),
    ensures
        a@.len() == 2 && b@.len() == 2 && c@.len() == 2,
        a@[0]@.program == "dconf"@ && a@[0]@.args == seq![
            "write"@,
            "/org/gnome/desktop/session/idle-delay"@,
            "uint32 "@ + numeral(t as nat, 10),
        ],
        a@[1]@.program == "dconf"@ && a@[1]@.args == seq![
            "write"@,
            "/org/gnome/desktop/screensaver/lock-enabled"@,
            "true"@,
        ],
        b@[0]@.program == "defaults"@ && b@[0]@.args == seq![
            "-currentHost"@,
            "write"@,
            "com.apple.screensaver"@,
            "idleTime"@,
            numeral(t as nat, 10),
        ],
        b@[1]@.program == "defaults"@ && b@[1]@.args == seq![
            "write"@,
            "com.apple.screensaver"@,
            "askForPassword"@,
            "1"@,
        ],
        c@[0]@.program == "reg"@ && c@[0]@.args == seq![
            "add"@,
            "HKCU\\Control Panel\\Desktop"@,
            "/v"@,
            "ScreenSaveTimeOut"@,
            "/t"@,
            "REG_SZ"@,
            "/d"@,
            numeral(t as nat, 10),
            "/f"@,
        ],
        c@[1]@.program == "reg"@ && c@[1]@.args == c@[0]@.args.update(3, "ScreenSaverIsSecure"@).update(
            7,
            "1"@,
        ),
{
    lemma_plan(a@, 0);
    lemma_plan(a@, 1);
    lemma_plan(b@, 0);
    lemma_plan(b@, 1);
    lemma_plan(c@, 0);
    lemma_plan(c@, 1);
    assert(c@[1]@.args =~= c@[0]@.args.update(3, "ScreenSaverIsSecure"@).update(7, "1"@));
}

// ---------------------------------------------------------------------
// Keys and encryption
// ---------------------------------------------------------------------

/// The key that is escrowed is what the tool printed, under the name of the
/// host's own encryption; a tool that failed gives no key.
pub proof fn law_escrowed_keys(
    p: LinuxMdmProvider,
    m: MacMdmProvider,
    report: Result<MdmReport, String>,
    a: Result<RawRecoveryKey, MdmError>,
    b: Result<RawRecoveryKey, MdmError>,
)
    requires
        call_ensures(LinuxMdmProvider::escrow_recovery_key, (&p, report), a),
        call_ensures(MacMdmProvider::escrow_recovery_key, (&m, report), b),
    ensures
        a is Ok <==> report is Ok && report->Ok_0.success,
        b is Ok <==> report is Ok && report->Ok_0.success,
        a is Ok ==> a->Ok_0.key_type == RecoveryKeyType::Luks && a->Ok_0.material
            == report->Ok_0.stdout,
        b is Ok ==> b->Ok_0.key_type == RecoveryKeyType::FileVault && b->Ok_0.material
            == report->Ok_0.stdout,
        report is Err ==> a->Err_0 is Io && b->Err_0 is Io,
        report is Ok && !report->Ok_0.success ==> {
            &&& a->Err_0 is Command
            &&& a->Err_0->Command_0@ == "cryptsetup luksDump failed: "@ + lossy_utf8(report->Ok_0.stderr@)
            &&& b->Err_0 is Command
            &&& b->Err_0->Command_0@ == "fdesetup showrecoverykey failed: "@ + lossy_utf8(
                report->Ok_0.stderr@,
            )
        },
{
}

/// The key is asked for of the device under the root, of FileVault, or of the
/// protectors of the system drive.
pub proof fn law_key_commands(
    p: LinuxMdmProvider,
    m: MacMdmProvider,
    w: WindowsMdmProvider,
    mounts: &str,
    a: Result<CommandLine, MdmError>,
    b: CommandLine,
    c: CommandLine,
)
    requires
        call_ensures(LinuxMdmProvider::escrow_command, (&p, mounts), a),
        call_ensures(MacMdmProvider::escrow_command, (&m,), b),
        call_ensures(WindowsMdmProvider::escrow_command, (&w,), c),
    ensures
        a is Ok <==> root_device(mounts@) is Some,
        a is Ok ==> a->Ok_0@.program == "cryptsetup"@ && a->Ok_0@.args == seq![
            "luksDump"@,
            "--dump-master-key"@,
            root_device(mounts@)->0,
        ],
        a is Err ==> a->Err_0 is Unsupported && a->Err_0->Unsupported_0@
            == "no LUKS-backed root device detected"@,
        b@.program == "fdesetup"@ && b@.args == seq!["showrecoverykey"@],
        c@.program == "manage-bde"@ && c@.args == seq![
            "-protectors"@,
            "-get"@,
            "C:"@,
            "-type"@,
            "RecoveryPassword"@,
        ],
{
}

/// A recovery password has 55 characters, eight groups with seven hyphens
/// between; it is the first such line that counts, without the space around.
pub proof fn law_recovery_passwords(stdout: &str, r: Option<String>, i: int)
    requires
        call_ensures(WindowsMdmProvider::parse_bitlocker_recovery_password, (stdout,), r),
        0 <= i <= lines_of(stdout@).len(),
        forall|k: int|
            0 <= k < i ==> {
                let t = trimmed(#[trigger] lines_of(stdout@)[k]);
                utf8_len(t) != 55 || hyphens(t) != 7
            },
    ensures
        i == lines_of(stdout@).len() ==> r is None,
        i < lines_of(stdout@).len() && utf8_len(trimmed(lines_of(stdout@)[i])) == 55 && hyphens(
            trimmed(lines_of(stdout@)[i]),
        ) == 7 ==> r is Some && r->0@ == trimmed(lines_of(stdout@)[i]),
{
    lemma_password(lines_of(stdout@), 0, i);
}

proof fn lemma_password(l: Seq<Seq<char>>, from: int, i: int)
    requires
        0 <= from <= i <= l.len(),
        forall|k: int|
            0 <= k < i ==> {
                let t = trimmed(#[trigger] l[k]);
                utf8_len(t) != 55 || hyphens(t) != 7
            },
    ensures
        password_from(l, from) == password_from(l, i),
    decreases i - from,
{
    if from < i {
        assert(password_on(l[from]) is None);
        lemma_password(l, from + 1, i);
    }
}

/// Hyphens are counted one by one.
pub proof fn law_hyphens(a: Seq<char>, b: Seq<char>)
    requires
        !a.contains('-'),
    ensures
        hyphens(a) == 0,
        hyphens(a + seq!['-'] + b) == 1 + hyphens(b),
    decreases b.len(),
{
    lemma_no_hyphens(a);
    let s = a + seq!['-'] + b;
    if b.len() == 0 {
        assert(s.drop_last() =~= a);
    } else {
        law_hyphens(a, b.drop_last());
        assert(s.drop_last() =~= a + seq!['-'] + b.drop_last());
        assert(s.last() == b.last());
    }
}

proof fn lemma_no_hyphens(a: Seq<char>)
    requires
        !a.contains('-'),
    ensures
        hyphens(a) == 0,
    decreases a.len(),
{
    if a.len() > 0 {
        assert(a.contains(a.last()));
        assert(!a.drop_last().contains('-')) by {
            if a.drop_last().contains('-') {
                let i = choose|i: int| 0 <= i < a.drop_last().len() && a.drop_last()[i] == '-';
                assert(a[i] == '-');
            }
        }
        lemma_no_hyphens(a.drop_last());
    }
}

/// The password of BitLocker is escrowed as it was shown; without one there
/// is no key.
pub proof fn law_escrowed_passwords(
    w: WindowsMdmProvider,
    report: Result<MdmReport, String>,
    r: Result<RawRecoveryKey, MdmError>,
)
    requires
        call_ensures(WindowsMdmProvider::escrow_recovery_key, (&w, report), r),
    ensures
        report is Err ==> r is Err && r->Err_0 is Io,
        report is Ok && !report->Ok_0.success ==> r is Err && r->Err_0 is Command
            && r->Err_0->Command_0@ == "manage-bde returned "@ + report->Ok_0.status@,
        report is Ok && report->Ok_0.success ==> {
            let p = password_from(lines_of(lossy_utf8(report->Ok_0.stdout@)), 0);
            &&& r is Ok <==> p is Some
            &&& p is None ==> r->Err_0 is Unsupported
            &&& r is Ok ==> r->Ok_0.key_type == RecoveryKeyType::BitLocker && r->Ok_0.material@
                == vstd::utf8::encode_utf8(p->0)
        },
{
}

/// Encryption is on where its command went well; no key is escrowed with it;
/// a Linux host refuses.
pub proof fn law_encryption(
    p: LinuxMdmProvider,
    m: MacMdmProvider,
    w: WindowsMdmProvider,
    ran: Result<bool, String>,
    a: Result<EncryptionOutcome, MdmError>,
    b: Result<EncryptionOutcome, MdmError>,
    c: Result<EncryptionOutcome, MdmError>,
    mc: CommandLine,
    wc: CommandLine,
)
    requires
        call_ensures(LinuxMdmProvider::enable_disk_encryption, (&p,), a),
        call_ensures(MacMdmProvider::enable_disk_encryption, (&m, ran), b),
        call_ensures(WindowsMdmProvider::enable_disk_encryption, (&w, ran), c),
        call_ensures(MacMdmProvider::encryption_command, (&m,), mc),
        call_ensures(WindowsMdmProvider::encryption_command, (&w,), wc),
    ensures
        a is Err && a->Err_0 is Unsupported,
        b is Ok <==> ran is Ok,
        c is Ok <==> ran is Ok,
        ran is Ok ==> b->Ok_0.enabled == ran->Ok_0 && c->Ok_0.enabled == ran->Ok_0,
        ran is Ok ==> !b->Ok_0.recovery_key_escrowed && !c->Ok_0.recovery_key_escrowed,
        ran is Ok ==> b->Ok_0.provider@ == "filevault"@ && c->Ok_0.provider@ == "bitlocker"@,
        mc@.program == "fdesetup"@ && mc@.args == seq![
            "enable"@,
            "-defer"@,
            "/var/db/sn360-mdm-fdesetup.plist"@,
        ],
        wc@.program == "manage-bde"@ && wc@.args == seq![
            "-on"@,
            "C:"@,
            "-RecoveryPassword"@,
            "-SkipHardwareTest"@,
            "-UsedSpaceOnly"@,
        ],
{
}

// ---------------------------------------------------------------------
// Updates
// ---------------------------------------------------------------------

/// Only security updates are meant where they are wanted and no others are.
pub proof fn law_security_updates_alone(opts: OsUpdateOpts, r: bool)
    requires
        call_ensures(security_only_mode, (&opts,), r),
    ensures
        r <==> opts.include_security && !opts.include_feature,
{
}

/// What each tool is told: the same in either case but for what limits it to
/// security updates.
pub proof fn law_arguments_of_update_tools(
    opts: OsUpdateOpts,
    u: Vec<&'static str>,
    d: Vec<&'static str>,
    a: Vec<&'static str>,
    z: Vec<&'static str>,
    s: Vec<&'static str>,
    script: String,
)
    requires
        call_ensures(unattended_upgrade_args, (&opts,), u),
        call_ensures(dnf_upgrade_args, (&opts,), d),
        call_ensures(dnf_automatic_args, (&opts,), a),
        call_ensures(zypper_args, (&opts,), z),
        call_ensures(softwareupdate_args, (&opts,), s),
        call_ensures(pswindowsupdate_script, (&opts,), script),
    ensures
        ({
            let alone = opts.include_security && !opts.include_feature;
            &&& strs(u@).take(2) == seq!["--debug"@, "-v"@]
            &&& strs(u@).skip(2) == if alone {
                seq!["--security-only"@]
            } else {
                Seq::empty()
            }
            &&& strs(d@).take(3) == seq!["upgrade"@, "--refresh"@, "-y"@]
            &&& strs(d@).skip(3) == if alone {
                seq!["--security"@]
            } else {
                Seq::empty()
            }
            &&& strs(a@) == seq!["--installupdates"@]
            &&& strs(z@) == if alone {
                seq!["patch"@, "-y"@, "--category"@, "security"@]
            } else {
                seq!["update"@, "-y"@]
            }
            &&& strs(s@) == if alone {
                seq!["--install"@, "--recommended"@]
            } else {
                seq!["--install"@, "--all"@]
            }
            &&& script@
                == "if (-not (Get-Module -ListAvailable PSWindowsUpdate)) { Install-Module PSWindowsUpdate -Scope CurrentUser -Force -ErrorAction SilentlyContinue }; Install-WindowsUpdate -AcceptAll -AutoReboot:$false"@
                + if alone {
                " -Category 'Security Updates','Critical Updates','Definition Updates'"@
            } else {
                Seq::empty()
            }
        }),
{
    let alone = opts.include_security && !opts.include_feature;
    assert(strs(u@).take(2) =~= seq!["--debug"@, "-v"@]);
    assert(strs(d@).take(3) =~= seq!["upgrade"@, "--refresh"@, "-y"@]);
    if alone {
        assert(strs(u@).skip(2) =~= seq!["--security-only"@]);
        assert(strs(d@).skip(3) =~= seq!["--security"@]);
    } else {
        assert(strs(u@).skip(2) =~= Seq::empty());
        assert(strs(d@).skip(3) =~= Seq::empty());
        assert(script@ + Seq::<char>::empty() =~= script@);
    }
}

/// The tool that is preferred is the first one that is there.
pub proof fn law_the_first_tool_is_taken(
    p: LinuxMdmProvider,
    present: Vec<bool>,
    r: Option<&'static str>,
    places: Vec<&'static str>,
    i: int,
)
    requires
        present@.len() <= 5,
        call_ensures(LinuxMdmProvider::detect_update_tool, (&p, &present), r),
        call_ensures(LinuxMdmProvider::update_tools, (&p,), places),
        0 <= i <= present@.len(),
        forall|k: int| 0 <= k < i ==> !#[trigger] present@[k],
    ensures
        i == present@.len() ==> r is None,
        i < present@.len() && present@[i] ==> r is Some && r->0@ == places@[i]@,
        strs(places@) == seq![
            "/usr/bin/unattended-upgrade"@,
            "/usr/sbin/unattended-upgrade"@,
            "/usr/bin/dnf"@,
            "/usr/bin/dnf-automatic"@,
            "/usr/bin/zypper"@,
        ],
{
    lemma_present(present@, 0, i);
    let s = strs(places@);
    assert(s.len() == places@.len());
    assert(s[0] == places@[0]@ && s[1] == places@[1]@ && s[2] == places@[2]@ && s[3] == places@[3]@ && s[4]
        == places@[4]@);
    assert(s =~= seq![
        "/usr/bin/unattended-upgrade"@,
        "/usr/sbin/unattended-upgrade"@,
        "/usr/bin/dnf"@,
        "/usr/bin/dnf-automatic"@,
        "/usr/bin/zypper"@,
    ]);
}

proof fn lemma_present(present: Seq<bool>, from: int, i: int)
    requires
        0 <= from <= i <= present.len(),
        forall|k: int| 0 <= k < i ==> !#[trigger] present[k],
    ensures
        crate::mdm::first_present(present, from) == crate::mdm::first_present(present, i),
    decreases i - from,
{
    if from < i {
        assert(!present[from]);
        lemma_present(present, from + 1, i);
    }
}

/// Each tool is run with the arguments that were made for it.
pub proof fn law_tools_get_their_own_arguments(
    p: LinuxMdmProvider,
    tool: &str,
    opts: OsUpdateOpts,
    r: Result<CommandLine, MdmError>,
    none: Result<CommandLine, MdmError>,
    u: Vec<&'static str>,
    d: Vec<&'static str>,
    a: Vec<&'static str>,
    z: Vec<&'static str>,
)
    requires
        call_ensures(LinuxMdmProvider::update_command, (&p, Some(tool), &opts), r),
        call_ensures(LinuxMdmProvider::update_command, (&p, None::<&str>, &opts), none),
        call_ensures(unattended_upgrade_args, (&opts,), u),
        call_ensures(dnf_upgrade_args, (&opts,), d),
        call_ensures(dnf_automatic_args, (&opts,), a),
        call_ensures(zypper_args, (&opts,), z),
    ensures
        r is Ok && r->Ok_0@.program == tool@,
        tool@ == "/usr/bin/unattended-upgrade"@ || tool@ == "/usr/sbin/unattended-upgrade"@
            ==> r->Ok_0@.args == strs(u@),
        tool@ == "/usr/bin/dnf"@ ==> r->Ok_0@.args == strs(d@),
        tool@ == "/usr/bin/dnf-automatic"@ ==> r->Ok_0@.args == strs(a@),
        tool@ == "/usr/bin/zypper"@ ==> r->Ok_0@.args == strs(z@),
        none is Err && none->Err_0 is Unsupported,
{
    reveal_strlit("/usr/bin/unattended-upgrade");
    reveal_strlit("/usr/sbin/unattended-upgrade");
    reveal_strlit("/usr/bin/dnf");
    reveal_strlit("/usr/bin/dnf-automatic");
    reveal_strlit("/usr/bin/zypper");
    reveal_strlit("zypper");
    reveal_strlit("dnf-automatic");
    reveal_strlit("/dnf");
    let z = "zypper"@;
    let f = "dnf-automatic"@;
    let n = "/dnf"@;
    lemma_ends(tool@, z);
    lemma_ends(tool@, f);
    lemma_ends(tool@, n);
    assert(z[5] == 'r' && f[12] == 'c' && n[3] == 'f' && n[0] == '/' && f[0] == 'd');
    if tool@ == "/usr/bin/unattended-upgrade"@ {
        assert(tool@.last() == 'e');
    } else if tool@ == "/usr/sbin/unattended-upgrade"@ {
        assert(tool@.last() == 'e');
    } else if tool@ == "/usr/bin/dnf"@ {
        assert(tool@.last() == 'f');
        assert(tool@.skip(8) =~= n);
    } else if tool@ == "/usr/bin/dnf-automatic"@ {
        assert(tool@.last() == 'c');
        assert(tool@.skip(9) =~= f);
    } else if tool@ == "/usr/bin/zypper"@ {
        assert(tool@.last() == 'r');
        assert(tool@.skip(9) =~= z);
    }
}

proof fn lemma_ends(s: Seq<char>, e: Seq<char>)
    requires
        e.len() > 0,
    ensures
        e.is_suffix_of(s) ==> s.len() >= e.len() && s.last() == e.last(),
        s.len() >= e.len() && s.skip(s.len() - e.len()) == e ==> e.is_suffix_of(s),
{
    if e.is_suffix_of(s) {
        let t = s.subrange(s.len() - e.len(), s.len() as int);
        assert(t == e);
        assert(t.last() == s.last());
    }
    if s.len() >= e.len() && s.skip(s.len() - e.len()) == e {
        assert(s.subrange(s.len() - e.len(), s.len() as int) =~= s.skip(s.len() - e.len()));
    }
}

/// The updates of macOS and Windows are installed by their own tools with
/// those arguments.
pub proof fn law_update_commands(
    m: MacMdmProvider,
    w: WindowsMdmProvider,
    opts: OsUpdateOpts,
    a: CommandLine,
    b: CommandLine,
    s: Vec<&'static str>,
    script: String,
)
    requires
        call_ensures(MacMdmProvider::update_command, (&m, &opts), a),
        call_ensures(WindowsMdmProvider::update_command, (&w, &opts), b),
        call_ensures(softwareupdate_args, (&opts,), s),
        call_ensures(pswindowsupdate_script, (&opts,), script),
    ensures
        a@.program == "softwareupdate"@ && a@.args == strs(s@),
        b@.program == "powershell"@ && b@.args == seq!["-NoProfile"@, "-Command"@, script@],
{
}

proof fn lemma_tally(l: Seq<Seq<char>>, p: spec_fn(Seq<char>) -> bool, x: Seq<char>, n: int)
    requires
        0 <= n <= l.len(),
    ensures
        tally(seq![x] + l, p, n + 1) == tally(l, p, n) + if p(x) {
            1nat
        } else {
            0nat
        },
    decreases n,
{
    let s = seq![x] + l;
    if n == 0 {
        assert(s[0] == x);
        assert(tally(s, p, 0) == 0);
    } else {
        lemma_tally(l, p, x, n - 1);
        assert(s[n] == l[n - 1]);
    }
}

/// How many lines of a log tell of an update: each line that does adds one.
pub open spec fn lines_that(text: Seq<char>, p: spec_fn(Seq<char>) -> bool) -> nat {
    tally(lines_of(text), p, lines_of(text).len() as int)
}

/// Each line of a log counts once, and only where it tells of an update:
/// `Inst` at its start or `Installed:` anywhere for Linux, a star at its start
/// for macOS, and `Installed` anywhere for Windows.
pub proof fn law_each_line_counts_once(line: Seq<char>, rest: Seq<char>)
    requires
        !line.contains('\n'),
        line.len() > 0 ==> line.last() != '\r',
    ensures
        lines_that(line + seq!['\n'] + rest, install_line()) == lines_that(rest, install_line()) + if (
        "Inst "@.is_prefix_of(line) || has_text(line, "Installed:"@)) {
            1nat
        } else {
            0nat
        },
        lines_that(line + seq!['\n'] + rest, star_line()) == lines_that(rest, star_line()) + if (
        "* "@.is_prefix_of(crate::text::drop_front(line, crate::text::space()))) {
            1nat
        } else {
            0nat
        },
        lines_that(line + seq!['\n'] + rest, installed_line()) == lines_that(rest, installed_line())
            + if has_text(line, "Installed"@) {
            1nat
        } else {
            0nat
        },
        lines_that(Seq::empty(), install_line()) == 0,
{
    crate::laws::text::law_lines_come_apart(line, rest);
    let l = lines_of(rest);
    lemma_tally(l, install_line(), line, l.len() as int);
    lemma_tally(l, star_line(), line, l.len() as int);
    lemma_tally(l, installed_line(), line, l.len() as int);
    assert(lines_of(Seq::<char>::empty()) =~= Seq::empty());
}

/// The number of updates is the number of lines that tell of one, as far as
/// 32 bits can hold it.
pub proof fn law_numbers_of_updates(log: &str, a: u32, b: u32, c: u32)
    requires
        call_ensures(count_updates_installed, (log,), a),
        call_ensures(MacMdmProvider::parse_softwareupdate_count, (log,), b),
        call_ensures(WindowsMdmProvider::parse_pswindowsupdate_count, (log,), c),
    ensures
        lines_that(log@, install_line()) <= 0xffff_ffff ==> a == lines_that(log@, install_line()),
        lines_that(log@, star_line()) <= 0xffff_ffff ==> b == lines_that(log@, star_line()),
        lines_that(log@, installed_line()) <= 0xffff_ffff ==> c == lines_that(log@, installed_line()),
{
}

/// The outcome of an update counts the lines of all that the tool printed,
/// looks there for a restart, and carries the digest of the whole; a tool
/// that could not be run is an error.
pub proof fn law_outcomes_of_updates(
    p: LinuxMdmProvider,
    m: MacMdmProvider,
    w: WindowsMdmProvider,
    report: MdmReport,
    fault: String,
    a: Result<OsUpdateOutcome, MdmError>,
    b: Result<OsUpdateOutcome, MdmError>,
    c: Result<OsUpdateOutcome, MdmError>,
    e: Result<OsUpdateOutcome, MdmError>,
)
    requires
        report.log().len() < 0x2000_0000_0000_0000,
        call_ensures(
            LinuxMdmProvider::install_os_updates,
            (&p, Ok::<MdmReport, String>(report)),
            a,
        ),
        call_ensures(MacMdmProvider::install_os_updates, (&m, Ok::<MdmReport, String>(report)), b),
        call_ensures(WindowsMdmProvider::install_os_updates, (&w, Ok::<MdmReport, String>(report)), c),
        call_ensures(LinuxMdmProvider::install_os_updates, (&p, Err::<MdmReport, String>(fault)), e),
    ensures
        ({
            let log = report.stdout@ + report.stderr@;
            let text = lossy_utf8(log);
            &&& a is Ok && b is Ok && c is Ok
            &&& a->Ok_0.reboot_required <==> has_text(text, "reboot"@) || has_text(text, "restart"@)
            &&& b->Ok_0.reboot_required <==> has_text(text, "Restart"@) || has_text(text, "restart"@)
            &&& c->Ok_0.reboot_required <==> has_text(text, "reboot"@) || has_text(text, "Restart"@)
            &&& a->Ok_0.log_sha256@ == crate::mdm::sha256_digest(log)
            &&& b->Ok_0.log_sha256@ == crate::mdm::sha256_digest(log)
            &&& c->Ok_0.log_sha256@ == crate::mdm::sha256_digest(log)
            &&& lines_that(text, install_line()) <= 0xffff_ffff ==> a->Ok_0.updates_installed == lines_that(
                text,
                install_line(),
            )
            &&& lines_that(text, star_line()) <= 0xffff_ffff ==> b->Ok_0.updates_installed == lines_that(
                text,
                star_line(),
            )
            &&& lines_that(text, installed_line()) <= 0xffff_ffff ==> c->Ok_0.updates_installed
                == lines_that(text, installed_line())
            &&& e == Err::<OsUpdateOutcome, MdmError>(MdmError::Io(fault))
        }),
{
}

/// A log asks for a restart where it speaks of one.
pub proof fn law_restarts(log: &str, r: bool)
    requires
        call_ensures(log_indicates_reboot, (log,), r),
    ensures
        r <==> has_text(log@, "reboot"@) || has_text(log@, "restart"@),
{
}

/// Octets that come in pieces are digested as a whole.
pub proof fn law_pieces_are_digested_as_a_whole(h: &mut Sha256, data: &[u8], begun: Sha256, d: [u8; 32], done: Sha256)
    requires
        call_ensures(sha2_sha256, (), begun),
        call_ensures(Sha256::update, (h, data), ()),
        call_ensures(Sha256::finalize, (done,), d),
    ensures
        begun.taken() == Seq::<u8>::empty(),
        final(h).taken() == old(h).taken() + data@,
        d@ == crate::mdm::sha256_digest(done.taken()),
{
}

// ---------------------------------------------------------------------
// Firewall and profiles
// ---------------------------------------------------------------------

/// The firewall of Linux is switched on by `firewalld` where that can be, by
/// the packet filter otherwise, and not at all where neither can.
pub proof fn law_firewall_of_linux(p: LinuxMdmProvider, ran: Vec<Option<bool>>, r: FirewallStep)
    requires
        call_ensures(LinuxMdmProvider::enable_firewall, (&p, &ran), r),
    ensures
        ran@.len() == 0 ==> r is Run && r->Run_0@.program == "firewall-cmd"@ && r->Run_0@.args == seq![
            "--set-default-zone=public"@,
            "--permanent"@,
        ],
        ran@.len() == 1 && ran@[0] == Some(true) ==> r is Run && r->Run_0@.program == "firewall-cmd"@
            && r->Run_0@.args == seq!["--reload"@],
        ran@.len() == 1 && ran@[0] != Some(true) ==> r is Run && r->Run_0@.program == "nft"@
            && r->Run_0@.args == seq!["add"@, "table"@, "inet"@, "filter"@],
        ran@.len() == 2 && ran@[0] == Some(true) ==> r is Done && r->Done_0 is Ok,
        ran@.len() == 2 && ran@[0] != Some(true) && ran@[1] == Some(true) ==> r is Run
            && r->Run_0@.program == "nft"@ && r->Run_0@.args == seq![
            "add"@,
            "chain"@,
            "inet"@,
            "filter"@,
            "input"@,
            "{ type filter hook input priority 0 ; policy drop ; }"@,
        ],
        ran@.len() >= 2 && ran@[0] != Some(true) && ran@[1] != Some(true) ==> r is Done
            && r->Done_0 is Err && r->Done_0->Err_0 is Unsupported,
        ran@.len() == 3 && (ran@[0] == Some(true) || ran@[1] == Some(true)) ==> r is Done
            && r->Done_0 is Ok,
{
}

/// The firewalls of macOS and Windows are switched on, never off, and are on
/// where their command went well.
pub proof fn law_firewalls_of_macos_and_windows(
    m: MacMdmProvider,
    w: WindowsMdmProvider,
    ran: Result<Result<(), String>, String>,
    mc: CommandLine,
    mf: CommandLine,
    wc: CommandLine,
    a: Result<(), MdmError>,
    b: Result<(), MdmError>,
)
    requires
        call_ensures(MacMdmProvider::firewall_command, (&m,), mc),
        call_ensures(MacMdmProvider::firewall_follow_up, (&m,), mf),
        call_ensures(WindowsMdmProvider::firewall_command, (&w,), wc),
        call_ensures(MacMdmProvider::enable_firewall, (&m, ran), a),
        call_ensures(WindowsMdmProvider::enable_firewall, (&w, ran), b),
    ensures
        mc@.program == "/usr/libexec/ApplicationFirewall/socketfilterfw"@ && mc@.args == seq![
            "--setglobalstate"@,
            "on"@,
        ],
        mf@.program == mc@.program && mf@.args == seq!["--setblockall"@, "off"@],
        wc@.program == "powershell"@ && wc@.args == seq![
            "-NoProfile"@,
            "-Command"@,
            "Set-NetFirewallProfile -Profile Domain,Public,Private -Enabled True"@,
        ],
        a is Ok <==> ran is Ok && ran->Ok_0 is Ok,
        b is Ok <==> ran is Ok && ran->Ok_0 is Ok,
        ran is Err ==> a->Err_0 is Io && b->Err_0 is Io,
        ran is Ok && ran->Ok_0 is Err ==> a->Err_0 is Command && a->Err_0->Command_0@
            == "socketfilterfw --setglobalstate on returned "@ + ran->Ok_0->Err_0@
            && b->Err_0 is Command && b->Err_0->Command_0@ == "Set-NetFirewallProfile returned "@
            + ran->Ok_0->Err_0@,
{
}

/// The commands that apply a profile.
pub proof fn law_profile_commands(
    p: LinuxMdmProvider,
    m: MacMdmProvider,
    w: WindowsMdmProvider,
    path: &str,
    ran: Result<Result<(), String>, String>,
    a: Vec<CommandLine>,
    b: CommandLine,
    c: CommandLine,
    r: Result<(), MdmError>,
)
    requires
        call_ensures(LinuxMdmProvider::profile_commands, (&p,), a),
        call_ensures(MacMdmProvider::profile_command, (&m, path), b),
        call_ensures(WindowsMdmProvider::profile_command, (&w,), c),
        call_ensures(MacMdmProvider::apply_config_profile, (&m, ran), r),
    ensures
        a@.len() == 2,
        a@[0]@.program == "dconf"@ && a@[0]@.args == seq![
            "write"@,
            "/org/gnome/desktop/lockdown/disable-camera"@,
            "false"@,
        ],
        a@[1]@.program == "dconf"@ && a@[1]@.args == seq![
            "write"@,
            "/org/gnome/desktop/screensaver/lock-enabled"@,
            "true"@,
        ],
        b@.program == "profiles"@ && b@.args == seq!["install"@, "-path="@ + path@],
        c@.program == "reg"@ && c@.args == seq![
            "add"@,
            "HKLM\\SOFTWARE\\Policies\\Microsoft\\Windows\\System"@,
            "/v"@,
            "EnableSmartScreen"@,
            "/t"@,
            "REG_DWORD"@,
            "/d"@,
            "1"@,
            "/f"@,
        ],
        r is Ok <==> ran is Ok && ran->Ok_0 is Ok,
        ran is Ok && ran->Ok_0 is Err ==> r->Err_0 is Command && r->Err_0->Command_0@
            == "profiles install returned "@ + ran->Ok_0->Err_0@,
{
    lemma_plan(a@, 0);
    lemma_plan(a@, 1);
}

/// Different profiles are written to different files.
pub proof fn law_profiles_have_files_of_their_own(
    m: MacMdmProvider,
    a: SignedConfigProfile,
    b: SignedConfigProfile,
    x: String,
    y: String,
)
    requires
        call_ensures(MacMdmProvider::profile_file_name, (&m, &a), x),
        call_ensures(MacMdmProvider::profile_file_name, (&m, &b), y),
        x@ == y@,
    ensures
        a.profile_id.bytes@ == b.profile_id.bytes@,
{
    let p = a.profile_id.bytes@;
    let q = b.profile_id.bytes@;
    let h = "sn360-mdm-"@.len() as int;
    let t = ".json"@.len() as int;
    lemma_uuid_len(p);
    lemma_uuid_len(q);
    assert(x@.subrange(h, x@.len() - t) =~= uuid_text(p));
    assert(y@.subrange(h, y@.len() - t) =~= uuid_text(q));
    assert forall|i: int| 0 <= i < 16 implies p[i] == q[i] by {
        lemma_uuid_at(p, i);
        lemma_uuid_at(q, i);
        lemma_pair(p[i], q[i]);
    }
    assert(p =~= q);
}

spec fn dashes_before(i: int) -> int {
    if i < 4 {
        0
    } else if i < 6 {
        1
    } else if i < 8 {
        2
    } else if i < 10 {
        3
    } else {
        4
    }
}

proof fn lemma_run(b: Seq<u8>, i: int, j: int, k: int)
    requires
        i <= k < j,
    ensures
        hex_run(b, i, j).len() == 2 * (j - i),
        hex_run(b, i, j)[2 * (k - i)] == hex_pair(b[k])[0],
        hex_run(b, i, j)[2 * (k - i) + 1] == hex_pair(b[k])[1],
    decreases j - i,
{
    if i + 1 < j {
        lemma_run(b, i + 1, j, if k > i {
            k
        } else {
            i + 1
        });
    } else {
        assert(hex_run(b, i + 1, j).len() == 0);
    }
}

proof fn lemma_uuid_len(b: Seq<u8>)
    ensures
        uuid_text(b).len() == 36,
{
    reveal_strlit("-");
    lemma_run(b, 0, 4, 0);
    lemma_run(b, 4, 6, 4);
    lemma_run(b, 6, 8, 6);
    lemma_run(b, 8, 10, 8);
    lemma_run(b, 10, 16, 10);
}

proof fn lemma_uuid_at(b: Seq<u8>, i: int)
    requires
        0 <= i < 16,
    ensures
        uuid_text(b)[2 * i + dashes_before(i)] == hex_pair(b[i])[0],
        uuid_text(b)[2 * i + dashes_before(i) + 1] == hex_pair(b[i])[1],
{
    reveal_strlit("-");
    lemma_run(b, 0, 4, if i < 4 {
        i
    } else {
        0
    });
    lemma_run(b, 4, 6, if 4 <= i < 6 {
        i
    } else {
        4
    });
    lemma_run(b, 6, 8, if 6 <= i < 8 {
        i
    } else {
        6
    });
    lemma_run(b, 8, 10, if 8 <= i < 10 {
        i
    } else {
        8
    });
    lemma_run(b, 10, 16, if 10 <= i < 16 {
        i
    } else {
        10
    });
}

proof fn lemma_pair(x: u8, y: u8)
    requires
        hex_pair(x)[0] == hex_pair(y)[0],
        hex_pair(x)[1] == hex_pair(y)[1],
    ensures
        x == y,
{
    crate::laws::text::law_digits((x / 16) as nat);
    crate::laws::text::law_digits((y / 16) as nat);
    crate::laws::text::law_digits((x % 16) as nat);
    crate::laws::text::law_digits((y % 16) as nat);
}

/// The name of a profile's file.
pub proof fn law_names_of_profile_files(m: MacMdmProvider, p: SignedConfigProfile, r: String)
    requires
        call_ensures(MacMdmProvider::profile_file_name, (&m, &p), r),
    ensures
        r@ == "sn360-mdm-"@ + uuid_text(p.profile_id.bytes@) + ".json"@,
        uuid_text(p.profile_id.bytes@).len() == 36,
{
    lemma_uuid_len(p.profile_id.bytes@);
}

/// Where neither firewall can be had, where no update tool is there and where
/// no password is shown, that is the error.
pub proof fn law_what_a_device_lacks(
    p: WindowsMdmProvider,
    report: MdmReport,
    r: Result<RawRecoveryKey, MdmError>,
    a: Option<bool>,
    b: Option<bool>,
    step: FirewallStep,
)
    requires
        call_ensures(WindowsMdmProvider::escrow_recovery_key, (&p, Ok::<MdmReport, String>(report)), r),
        report.success,
        password_from(lines_of(lossy_utf8(report.stdout@)), 0) is None,
        a != Some(true),
        b != Some(true),
        firewall_step(seq![a, b], step),
    ensures
        r is Err && r->Err_0 is Unsupported && r->Err_0->Unsupported_0@
            == "no BitLocker recovery password protector found"@,
        step is Done && step->Done_0 is Err && step->Done_0->Err_0 is Unsupported
            && step->Done_0->Err_0->Unsupported_0@ == "neither firewalld nor nftables is available"@,
{
}

} // verus!
