//! Posture: what the tools of the system print is taken for what it says, and
//! nothing is shown that no tool has told.

use crate::clock::Timestamp;
use crate::command::CommandLine;
use crate::json::JsonView;
use crate::laws::text::law_trimming_takes_white_space_only;
use crate::posture::{
    conversion_on, crypt_device, crypt_in, encryption_shown, first_conversion, first_pretty_name,
    first_shown, pretty_name, report_shows, state_line, FirewallVerdict, LinuxPostureProvider,
    MacPostureProvider, PostureError, PostureSnapshot, PostureToggle, ToolReport,
    WindowsPostureProvider,
};
use crate::posture_module::{should_snapshot, DeltaDecision, DeltaTracker, PostureModule, PosturePayload};
use crate::power::PowerProfile;
use crate::text::{ascii_lower, drop_back, drop_front, has_text, just, lines_of, lossy_utf8, opt_view, trimmed};
use vstd::prelude::*;

verus! {

// ---------------------------------------------------------------------
// Linux
// ---------------------------------------------------------------------

/// What each firewall tool has to print for the firewall to be on or off; the
/// case of letters and the space around do not matter.
pub proof fn law_what_firewall_tools_print(
    cmd: &str,
    stdout: &str,
    success: bool,
    r: PostureToggle,
)
    requires
        call_ensures(
            LinuxPostureProvider::classify_firewall_command_output,
            (cmd, stdout, success),
            r,
        ),
    ensures
        ({
            let s = ascii_lower(trimmed(stdout@));
            &&& cmd@ == "firewall-cmd"@ ==> {
                &&& r == PostureToggle::On <==> s == "running"@ && success
                &&& r == PostureToggle::Off <==> s == "not running"@
            }
            &&& cmd@ == "ufw"@ ==> {
                &&& r == PostureToggle::On <==> has_text(s, "status: active"@)
                &&& r == PostureToggle::Off <==> has_text(s, "status: inactive"@) && !has_text(
                    s,
                    "status: active"@,
                )
            }
            &&& cmd@ == "nftables"@ ==> {
                &&& r == PostureToggle::On <==> s == "active"@
                &&& r == PostureToggle::Off <==> s == "inactive"@ || s == "failed"@
            }
            &&& cmd@ != "firewall-cmd"@ && cmd@ != "ufw"@ && cmd@ != "nftables"@ ==> r
                == PostureToggle::Unknown
        }),
{
    reveal_strlit("firewall-cmd");
    reveal_strlit("ufw");
    reveal_strlit("nftables");
    reveal_strlit("running");
    reveal_strlit("not running");
    reveal_strlit("active");
    reveal_strlit("inactive");
    reveal_strlit("failed");
    assert("firewall-cmd"@.len() == 12 && "ufw"@.len() == 3 && "nftables"@.len() == 8);
    assert("running"@.len() == 7 && "not running"@.len() == 11);
    assert("active"@.len() == 6 && "inactive"@.len() == 8 && "failed"@.len() == 6);
    assert("active"@[0] != "failed"@[0]);
}

/// The tools are asked one after another, and only until one of them tells.
pub proof fn law_firewall_tools_are_asked_in_turn(
    p: LinuxPostureProvider,
    reports: Vec<Option<ToolReport>>,
    r: FirewallVerdict,
)
    requires
        reports@.len() <= 3,
        call_ensures(LinuxPostureProvider::detect_firewall, (&p, &reports), r),
    ensures
        reports@.len() == 0 ==> r is Ask && r->Ask_0@.program == "firewall-cmd"@ && r->Ask_0@.args == seq![
            "--state"@,
        ],
        reports@.len() == 1 && reports@[0] is None ==> r is Ask && r->Ask_0@.program == "ufw"@
            && r->Ask_0@.args == seq!["status"@],
        reports@.len() == 2 && reports@[0] is None && reports@[1] is None ==> r is Ask
            && r->Ask_0@.program == "systemctl"@ && r->Ask_0@.args == seq!["is-active"@, "nftables"@],
        reports@.len() == 3 ==> r is Decided,
        reports@.len() == 3 && reports@[0] is None && reports@[1] is None && reports@[2] is None ==> r
            == FirewallVerdict::Decided(PostureToggle::Unknown),
{
    let v = reports@;
    if v.len() > 0 && v[0] is None {
        assert(report_shows(v, 0) == PostureToggle::Unknown);
        assert(first_shown(v, 0) == first_shown(v, 1));
        if v.len() > 1 && v[1] is None {
            assert(report_shows(v, 1) == PostureToggle::Unknown);
            assert(first_shown(v, 1) == first_shown(v, 2));
            if v.len() > 2 && v[2] is None {
                assert(report_shows(v, 2) == PostureToggle::Unknown);
                assert(first_shown(v, 2) == first_shown(v, 3));
            }
        }
    }
}

/// The first tool that tells is believed, whatever the others say.
pub proof fn law_the_first_tool_that_tells_decides(
    p: LinuxPostureProvider,
    reports: Vec<Option<ToolReport>>,
    r: FirewallVerdict,
    cmd: &str,
    stdout: &str,
    t: PostureToggle,
)
    requires
        0 < reports@.len() <= 3,
        call_ensures(LinuxPostureProvider::detect_firewall, (&p, &reports), r),
        reports@[0] is Some,
        cmd@ == "firewall-cmd"@,
        stdout@ == lossy_utf8(reports@[0]->0.stdout@),
        call_ensures(
            LinuxPostureProvider::classify_firewall_command_output,
            (cmd, stdout, reports@[0]->0.success),
            t,
        ),
        t != PostureToggle::Unknown,
    ensures
        r == FirewallVerdict::Decided(t),
{
    assert(report_shows(reports@, 0) == t);
    assert(first_shown(reports@, 0) == t);
}

/// A device is encrypted by its type or by its file system.
pub proof fn law_encrypted_devices(j: JsonView, t: Seq<char>)
    requires
        j is Object,
    ensures
        j.text_of("type"@) == Some(t) && ascii_lower(t) == "crypt"@ ==> crypt_in(j),
        j.text_of("fstype"@) == Some(t) && ascii_lower(t) == "crypto_luks"@ ==> crypt_in(j),
        j.text_of("type"@) is None && j.text_of("fstype"@) is None && j.get("children"@) is None
            ==> !crypt_in(j),
        j.text_of("type"@) == Some(t) && ascii_lower(t) != "crypt"@ && j.text_of("fstype"@) is None
            && j.get("children"@) is None ==> !crypt_in(j),
        crypt_in(j) && !crypt_device(j) ==> j.get("children"@) is Some && crypt_in(
            j.get("children"@)->0,
        ),
{
    reveal_strlit("crypt");
    reveal_strlit("crypto_luks");
    reveal_strlit("crypto_LUKS");
    assert(ascii_lower("crypt"@) =~= "crypt"@);
    assert(ascii_lower("crypto_LUKS"@) =~= "crypto_luks"@);
}

/// The disk counts as encrypted exactly where the list of block devices holds
/// an encrypted one.
pub proof fn law_encrypted_disks(d: JsonView)
    ensures
        encryption_shown(Some(d)) == PostureToggle::On <==> d.get("blockdevices"@) is Some && crypt_in(
            d.get("blockdevices"@)->0,
        ),
        encryption_shown(None) == PostureToggle::Unknown,
{
}

/// The name of the system stands behind `PRETTY_NAME=`, with or without
/// double quotes.
pub proof fn law_names_of_systems(name: Seq<char>)
    requires
        name.len() > 0,
        name[0] != '"',
        name.last() != '"',
    ensures
        pretty_name("PRETTY_NAME="@ + seq!['"'] + name + seq!['"']) == Some(name),
        pretty_name("PRETTY_NAME="@ + name) == Some(name),
{
    reveal_strlit("PRETTY_NAME=");
    let q = seq!['"'];
    let a = "PRETTY_NAME="@ + q + name + q;
    let b = "PRETTY_NAME="@ + name;
    let n = "PRETTY_NAME="@.len() as int;
    assert("PRETTY_NAME="@.is_prefix_of(a));
    assert("PRETTY_NAME="@.is_prefix_of(b));
    let x = a.skip(n);
    assert(x =~= q + name + q);
    assert(b.skip(n) =~= name);
    assert(x[0] == '"');
    let y = x.drop_first();
    assert(y =~= name + q);
    assert(y[0] == name[0]);
    assert(drop_front(y, just('"')) == y);
    assert(drop_front(x, just('"')) == drop_front(y, just('"')));
    assert(y.last() == '"');
    assert(y.drop_last() =~= name);
    assert(drop_back(name, just('"')) == name);
    assert(drop_back(y, just('"')) == drop_back(y.drop_last(), just('"')));
    assert(drop_front(name, just('"')) == name);
}

/// The first line that names the system counts.
pub proof fn law_the_first_name_counts(os_release: &str, r: Option<String>, i: int)
    requires
        call_ensures(LinuxPostureProvider::parse_os_pretty_name, (os_release,), r),
        0 <= i <= lines_of(os_release@).len(),
        forall|k: int|
            0 <= k < i ==> !"PRETTY_NAME="@.is_prefix_of(#[trigger] lines_of(os_release@)[k]),
    ensures
        i == lines_of(os_release@).len() ==> r is None,
        i < lines_of(os_release@).len() && "PRETTY_NAME="@.is_prefix_of(lines_of(os_release@)[i])
            ==> opt_view(r) == pretty_name(lines_of(os_release@)[i]) && r is Some,
{
    lemma_pretty(lines_of(os_release@), 0, i);
}

proof fn lemma_pretty(l: Seq<Seq<char>>, from: int, i: int)
    requires
        0 <= from <= i <= l.len(),
        forall|k: int| 0 <= k < i ==> !"PRETTY_NAME="@.is_prefix_of(#[trigger] l[k]),
    ensures
        first_pretty_name(l, from) == first_pretty_name(l, i),
    decreases i - from,
{
    if from < i {
        assert(pretty_name(l[from]) is None);
        lemma_pretty(l, from + 1, i);
    }
}

/// A snapshot of a Linux host: each of its fields comes from its own tool,
/// and a tool that failed tells nothing.
pub proof fn law_snapshots_of_linux(
    p: LinuxPostureProvider,
    lsblk: Option<ToolReport>,
    firewall: PostureToggle,
    os_release: Option<&str>,
    r: Result<PostureSnapshot, PostureError>,
    c: CommandLine,
)
    requires
        call_ensures(LinuxPostureProvider::snapshot, (&p, &lsblk, firewall, os_release), r),
        call_ensures(LinuxPostureProvider::lsblk_command, (&p,), c),
    ensures
        r is Ok,
        r->Ok_0.firewall_enabled == firewall,
        r->Ok_0.screen_lock_enabled == PostureToggle::Unknown,
        lsblk is None || !lsblk->0.success ==> r->Ok_0.disk_encryption == PostureToggle::Unknown,
        lsblk is Some && lsblk->0.success ==> r->Ok_0.disk_encryption == encryption_shown(
            crate::json::json_document(lossy_utf8(lsblk->0.stdout@)),
        ),
        os_release is None ==> r->Ok_0.os_version is None,
        os_release is Some ==> opt_view(r->Ok_0.os_version) == first_pretty_name(
            lines_of(os_release->0@),
            0,
        ),
        r->Ok_0.os_patch_level is None,
        c@.program == "lsblk"@ && c@.args == seq!["--json"@, "-o"@, "NAME,TYPE,FSTYPE"@],
{
    let v = r->Ok_0@;
    assert(v.os_version == opt_view(r->Ok_0.os_version));
    assert(v.os_patch_level == opt_view(r->Ok_0.os_patch_level));
}

// ---------------------------------------------------------------------
// macOS
// ---------------------------------------------------------------------

/// FileVault and the firewall of macOS say in their first words whether they
/// are on or off.
pub proof fn law_first_words_of_macos_tools(stdout: &str, f: PostureToggle, s: PostureToggle)
    requires
        call_ensures(MacPostureProvider::parse_fdesetup_status, (stdout,), f),
        call_ensures(MacPostureProvider::parse_socketfilterfw, (stdout,), s),
    ensures
        ({
            let t = ascii_lower(trimmed(stdout@));
            &&& f == PostureToggle::On <==> "filevault is on"@.is_prefix_of(t)
            &&& f == PostureToggle::Off <==> "filevault is off"@.is_prefix_of(t)
            &&& s == PostureToggle::On <==> "firewall is enabled"@.is_prefix_of(t)
            &&& s == PostureToggle::Off <==> "firewall is disabled"@.is_prefix_of(t)
        }),
{
    reveal_strlit("filevault is on");
    reveal_strlit("filevault is off");
    reveal_strlit("firewall is enabled");
    reveal_strlit("firewall is disabled");
    let t = ascii_lower(trimmed(stdout@));
    assert("filevault is on"@[14] == 'n' && "filevault is off"@[14] == 'f');
    assert("firewall is enabled"@[12] == 'e' && "firewall is disabled"@[12] == 'd');
    if "filevault is on"@.is_prefix_of(t) {
        assert(t[14] == t.subrange(0, "filevault is on"@.len() as int)[14]);
        assert(t[14] == 'n');
        if "filevault is off"@.is_prefix_of(t) {
            assert(t[14] == t.subrange(0, "filevault is off"@.len() as int)[14]);
        }
    }
    if "firewall is enabled"@.is_prefix_of(t) {
        assert(t[12] == t.subrange(0, "firewall is enabled"@.len() as int)[12]);
        assert(t[12] == 'e');
        if "firewall is disabled"@.is_prefix_of(t) {
            assert(t[12] == t.subrange(0, "firewall is disabled"@.len() as int)[12]);
        }
    }
}

/// The screen is locked where the setting is `1`, and not where it is `0`.
pub proof fn law_screen_lock_setting(stdout: &str, r: PostureToggle)
    requires
        call_ensures(MacPostureProvider::parse_screensaver_ask_for_password, (stdout,), r),
    ensures
        r == PostureToggle::On <==> trimmed(stdout@) == "1"@,
        r == PostureToggle::Off <==> trimmed(stdout@) == "0"@,
{
    reveal_strlit("1");
    reveal_strlit("0");
    assert("1"@[0] != "0"@[0]);
}

/// A snapshot of a macOS host: each of its fields comes from the report of
/// the command in its place, and a tool that failed tells nothing.
pub proof fn law_snapshots_of_macos(
    p: MacPostureProvider,
    fd: Option<ToolReport>,
    fw: Option<ToolReport>,
    sc: Option<ToolReport>,
    sw: Option<ToolReport>,
    r: Result<PostureSnapshot, PostureError>,
    c: (CommandLine, CommandLine, CommandLine, CommandLine),
)
    requires
        call_ensures(MacPostureProvider::snapshot, (&p, &fd, &fw, &sc, &sw), r),
        call_ensures(MacPostureProvider::commands, (&p,), c),
    ensures
        r is Ok,
        fd is None || !fd->0.success ==> r->Ok_0.disk_encryption == PostureToggle::Unknown,
        fw is None || !fw->0.success ==> r->Ok_0.firewall_enabled == PostureToggle::Unknown,
        sc is None || !sc->0.success ==> r->Ok_0.screen_lock_enabled == PostureToggle::Unknown,
        sw is None || !sw->0.success ==> r->Ok_0.os_version is None,
        fd is Some && fd->0.success && ascii_lower(trimmed(lossy_utf8(fd->0.stdout@)))
            == "filevault is on."@ ==> r->Ok_0.disk_encryption == PostureToggle::On,
        fw is Some && fw->0.success && ascii_lower(trimmed(lossy_utf8(fw->0.stdout@)))
            == "firewall is enabled."@ ==> r->Ok_0.firewall_enabled == PostureToggle::On,
        sc is Some && sc->0.success && trimmed(lossy_utf8(sc->0.stdout@)) == "1"@
            ==> r->Ok_0.screen_lock_enabled == PostureToggle::On,
        sw is Some && sw->0.success ==> r->Ok_0.os_version is Some && r->Ok_0.os_version->0@ == "macOS "@
            + trimmed(lossy_utf8(sw->0.stdout@)),
        r->Ok_0.os_patch_level is None,
        c.0@.program == "fdesetup"@ && c.0@.args == seq!["status"@],
        c.1@.program == "/usr/libexec/ApplicationFirewall/socketfilterfw"@ && c.1@.args == seq![
            "--getglobalstate"@,
        ],
        c.2@.program == "defaults"@ && c.2@.args == seq![
            "read"@,
            "/Library/Preferences/com.apple.screensaver"@,
            "askForPassword"@,
        ],
        c.3@.program == "sw_vers"@ && c.3@.args == seq!["-productVersion"@],
{
    reveal_strlit("filevault is on");
    reveal_strlit("filevault is on.");
    reveal_strlit("firewall is enabled");
    reveal_strlit("firewall is enabled.");
    assert("filevault is on"@.is_prefix_of("filevault is on."@));
    assert("firewall is enabled"@.is_prefix_of("firewall is enabled."@));
    let v = r->Ok_0@;
    assert(v.os_version == opt_view(r->Ok_0.os_version));
    assert(v.os_patch_level == opt_view(r->Ok_0.os_patch_level));
}

// ---------------------------------------------------------------------
// Windows
// ---------------------------------------------------------------------

/// A line on the conversion of a volume: encrypted or being encrypted is on,
/// decrypted is off.
pub proof fn law_conversion_lines(status: Seq<char>)
    requires
        status.len() > 0,
        !crate::text::is_space(status[0]),
        !crate::text::is_space(status.last()),
    ensures
        ({
            let s = ascii_lower(status);
            let c = conversion_on("Conversion Status:"@ + seq![' '] + status);
            &&& c == PostureToggle::On <==> "fully encrypted"@.is_prefix_of(s)
                || "encryption in progress"@.is_prefix_of(s)
            &&& c == PostureToggle::Off <==> "fully decrypted"@.is_prefix_of(s)
        }),
{
    reveal_strlit("Conversion Status:");
    reveal_strlit("fully encrypted");
    reveal_strlit("fully decrypted");
    reveal_strlit("encryption in progress");
    let h = "Conversion Status:"@;
    let line = h + seq![' '] + status;
    let none: Seq<char> = Seq::empty();
    crate::laws::text::law_white_space_of_ascii(' ');
    crate::laws::text::law_white_space_of_ascii('C');
    assert(line[0] == 'C');
    assert(line.last() == status.last());
    law_trimming_takes_white_space_only(none, line, none);
    assert(none + line + none =~= line);
    assert(h.is_prefix_of(line));
    let rest = line.skip(h.len() as int);
    assert(rest =~= seq![' '] + status + none);
    law_trimming_takes_white_space_only(seq![' '], status, none);
    let s = ascii_lower(status);
    assert("fully encrypted"@[6] == 'e' && "fully decrypted"@[6] == 'd');
    assert("encryption in progress"@[0] == 'e' && "fully decrypted"@[0] == 'f');
    if "fully decrypted"@.is_prefix_of(s) {
        assert(s[6] == s.subrange(0, "fully decrypted"@.len() as int)[6]);
        assert(s[0] == s.subrange(0, "fully decrypted"@.len() as int)[0]);
        if "fully encrypted"@.is_prefix_of(s) {
            assert(s[6] == s.subrange(0, "fully encrypted"@.len() as int)[6]);
        }
        if "encryption in progress"@.is_prefix_of(s) {
            assert(s[0] == s.subrange(0, "encryption in progress"@.len() as int)[0]);
        }
    }
}

/// The first line that tells decides.
pub proof fn law_the_first_conversion_counts(stdout: &str, r: PostureToggle, i: int)
    requires
        call_ensures(WindowsPostureProvider::parse_manage_bde, (stdout,), r),
        0 <= i <= lines_of(stdout@).len(),
        forall|k: int|
            0 <= k < i ==> !"Conversion Status:"@.is_prefix_of(trimmed(#[trigger] lines_of(stdout@)[k])),
    ensures
        i == lines_of(stdout@).len() ==> r == PostureToggle::Unknown,
        i < lines_of(stdout@).len() && conversion_on(lines_of(stdout@)[i]) != PostureToggle::Unknown
            ==> r == conversion_on(lines_of(stdout@)[i]),
{
    lemma_conversion(lines_of(stdout@), 0, i);
}

proof fn lemma_conversion(l: Seq<Seq<char>>, from: int, i: int)
    requires
        0 <= from <= i <= l.len(),
        forall|k: int|
            0 <= k < i ==> !"Conversion Status:"@.is_prefix_of(trimmed(#[trigger] l[k])),
    ensures
        first_conversion(l, from) == first_conversion(l, i),
    decreases i - from,
{
    if from < i {
        assert(conversion_on(l[from]) == PostureToggle::Unknown);
        lemma_conversion(l, from + 1, i);
    }
}

/// Whether a line tells the state of a firewall profile, and which.
pub open spec fn told_state(line: Seq<char>, state: Seq<char>) -> bool {
    "state"@.is_prefix_of(ascii_lower(trimmed(line))) && state.is_suffix_of(ascii_lower(trimmed(line)))
}

/// The firewall is on where there is a profile and all profiles are on, and
/// off where all tell a state and one of them is off.
pub proof fn law_all_profiles_count(stdout: &str, r: PostureToggle)
    requires
        call_ensures(WindowsPostureProvider::parse_netsh_advfirewall, (stdout,), r),
        forall|k: int|
            0 <= k < lines_of(stdout@).len() && "state"@.is_prefix_of(
                ascii_lower(trimmed(#[trigger] lines_of(stdout@)[k])),
            ) ==> told_state(lines_of(stdout@)[k], "on"@) || told_state(lines_of(stdout@)[k], "off"@),
    ensures
        r == PostureToggle::Off <==> exists|k: int|
            0 <= k < lines_of(stdout@).len() && told_state(#[trigger] lines_of(stdout@)[k], "off"@),
        r == PostureToggle::On <==> {
            &&& exists|k: int|
                0 <= k < lines_of(stdout@).len() && told_state(#[trigger] lines_of(stdout@)[k], "on"@)
            &&& forall|k: int|
                0 <= k < lines_of(stdout@).len() ==> !told_state(#[trigger] lines_of(stdout@)[k], "off"@)
        },
{
    let l = lines_of(stdout@);
    assert forall|k: int| 0 <= k < l.len() implies (told_state(l[k], "off"@)
        <==> crate::posture::state_off(#[trigger] l[k])) by {}
    assert forall|k: int| 0 <= k < l.len() implies !crate::posture::state_odd(#[trigger] l[k]) by {
        if "state"@.is_prefix_of(ascii_lower(trimmed(l[k]))) {
            assert(told_state(l[k], "on"@) || told_state(l[k], "off"@));
        }
    }
    if exists|k: int| 0 <= k < l.len() && told_state(#[trigger] l[k], "off"@) {
        let k = choose|k: int| 0 <= k < l.len() && told_state(#[trigger] l[k], "off"@);
        assert(crate::posture::state_off(l[k]));
        assert(state_line(l[k]));
    }
    if exists|k: int| 0 <= k < l.len() && told_state(#[trigger] l[k], "on"@) {
        let k = choose|k: int| 0 <= k < l.len() && told_state(#[trigger] l[k], "on"@);
        assert(state_line(l[k]));
    }
    if exists|k: int| 0 <= k < l.len() && state_line(#[trigger] l[k]) {
        let k = choose|k: int| 0 <= k < l.len() && state_line(#[trigger] l[k]);
        assert(told_state(l[k], "on"@) || told_state(l[k], "off"@));
    }
}

/// A snapshot of a Windows host: each of its fields comes from the report of
/// the command in its place, and a tool that failed tells nothing.
pub proof fn law_snapshots_of_windows(
    p: WindowsPostureProvider,
    bde: Option<ToolReport>,
    fw: Option<ToolReport>,
    ver: Option<ToolReport>,
    r: Result<PostureSnapshot, PostureError>,
    c: (CommandLine, CommandLine, CommandLine),
)
    requires
        call_ensures(WindowsPostureProvider::snapshot, (&p, &bde, &fw, &ver), r),
        call_ensures(WindowsPostureProvider::commands, (&p,), c),
    ensures
        r is Ok,
        bde is None || !bde->0.success ==> r->Ok_0.disk_encryption == PostureToggle::Unknown,
        bde is Some && bde->0.success ==> r->Ok_0.disk_encryption == first_conversion(
            lines_of(lossy_utf8(bde->0.stdout@)),
            0,
        ),
        fw is None || !fw->0.success ==> r->Ok_0.firewall_enabled == PostureToggle::Unknown,
        fw is Some && fw->0.success ==> r->Ok_0.firewall_enabled == crate::posture::profiles_show(
            lines_of(lossy_utf8(fw->0.stdout@)),
        ),
        r->Ok_0.screen_lock_enabled == PostureToggle::Unknown,
        ver is None || !ver->0.success ==> r->Ok_0.os_version is None,
        ver is Some && ver->0.success ==> r->Ok_0.os_version is Some && r->Ok_0.os_version->0@ == trimmed(
            lossy_utf8(ver->0.stdout@),
        ),
        r->Ok_0.os_patch_level is None,
        c.0@.program == "manage-bde"@ && c.0@.args == seq!["-status"@, "C:"@],
        c.1@.program == "netsh"@ && c.1@.args == seq!["advfirewall"@, "show"@, "allprofiles"@],
        c.2@.program == "cmd"@ && c.2@.args == seq!["/C"@, "ver"@],
{
    let v = r->Ok_0@;
    assert(v.os_version == opt_view(r->Ok_0.os_version));
    assert(v.os_patch_level == opt_view(r->Ok_0.os_patch_level));
}

// ---------------------------------------------------------------------
// Module
// ---------------------------------------------------------------------

/// Two snapshots one after the other: the second is published exactly where
/// they differ, and the tracker then knows the second.
pub proof fn law_a_repeated_snapshot_is_skipped(
    t: &mut DeltaTracker,
    s: PostureSnapshot,
    r: DeltaDecision,
)
    requires
        call_ensures(DeltaTracker::observe, (t, s), r),
    ensures
        r == DeltaDecision::Skip <==> old(t).seen() == Some(s@),
        final(t).seen() == Some(s@),
{
}

/// Snapshots are taken on mains, and on battery only where they do not wait.
pub proof fn law_snapshots_wait_for_mains(
    m: PostureModule,
    profile: PowerProfile,
    r: bool,
    waits: bool,
    name: &'static str,
)
    requires
        call_ensures(PostureModule::on_tick, (&m, profile), r),
        call_ensures(should_snapshot, (profile,), waits),
        call_ensures(PostureModule::name, (&m,), name),
    ensures
        waits <==> profile == PowerProfile::Normal || profile == PowerProfile::IdleAC,
        r <==> !m.defers() || profile == PowerProfile::Normal || profile == PowerProfile::IdleAC,
        name@ == "posture"@,
{
}

/// The interval is what was configured, and at least ten seconds.
pub proof fn law_posture_interval(interval_secs: u64, defer: bool, m: PostureModule)
    requires
        call_ensures(PostureModule::new, (interval_secs, defer), m),
    ensures
        m.every() >= 10,
        interval_secs >= 10 ==> m.every() == interval_secs,
        interval_secs < 10 ==> m.every() == 10,
        m.defers() == defer,
        m.seen() is None,
{
}

/// An error publishes nothing and forgets nothing; a snapshot is published as
/// it is, with its time, unless it is the one before.
pub proof fn law_published_snapshots(
    m: &mut PostureModule,
    snapshot: Result<PostureSnapshot, PostureError>,
    at: Timestamp,
    r: Option<PosturePayload>,
)
    requires
        call_ensures(PostureModule::on_snapshot, (m, snapshot, at), r),
    ensures
        snapshot is Err ==> r is None && final(m).seen() == old(m).seen(),
        snapshot is Ok ==> final(m).seen() == Some(snapshot->Ok_0@),
        snapshot is Ok ==> (r is None <==> old(m).seen() == Some(snapshot->Ok_0@)),
        r is Some ==> r->0.captured_at == at && r->0.snapshot@ == snapshot->Ok_0@,
        final(m).every() == old(m).every() && final(m).defers() == old(m).defers(),
{
}

/// So is the second tool where the first is silent, and the third where both
/// are.
pub proof fn law_later_tools_decide_after_silence(
    p: LinuxPostureProvider,
    reports: Vec<Option<ToolReport>>,
    r: FirewallVerdict,
    cmd: &str,
    stdout: &str,
    t: PostureToggle,
    k: int,
)
    requires
        1 <= k <= 2,
        k < reports@.len() <= 3,
        call_ensures(LinuxPostureProvider::detect_firewall, (&p, &reports), r),
        forall|j: int| 0 <= j < k ==> #[trigger] reports@[j] is None,
        reports@[k] is Some,
        cmd@ == if k == 1 {
            "ufw"@
        } else {
            "nftables"@
        },
        stdout@ == lossy_utf8(reports@[k]->0.stdout@),
        call_ensures(
            LinuxPostureProvider::classify_firewall_command_output,
            (cmd, stdout, reports@[k]->0.success),
            t,
        ),
        t != PostureToggle::Unknown,
    ensures
        r == FirewallVerdict::Decided(t),
{
    let v = reports@;
    assert(v[0] is None);
    assert(report_shows(v, 0) == PostureToggle::Unknown);
    assert(first_shown(v, 0) == first_shown(v, 1));
    if k == 2 {
        assert(v[1] is None);
        assert(report_shows(v, 1) == PostureToggle::Unknown);
        assert(first_shown(v, 1) == first_shown(v, 2));
    }
    assert(report_shows(v, k) == t);
    assert(first_shown(v, k) == t);
}

/// An encrypted device counts wherever it stands: among the devices of a
/// list, and among the children of a device.
pub proof fn law_encrypted_devices_below_others(a: Seq<JsonView>, j: JsonView, i: int)
    requires
        0 <= i < a.len(),
        crypt_in(a[i]),
    ensures
        crypt_in(JsonView::Array(a)),
        j is Object && j.get("children"@) == Some(JsonView::Array(a)) ==> crypt_in(j),
{
    lemma_crypt_found(a, i, a.len());
    if j is Object && j.get("children"@) == Some(JsonView::Array(a)) {
        let c = j.get("children"@)->0;
        assert(crypt_in(c));
        assert(j matches JsonView::Object(m));
        assert(crypt_in(j));
    }
}

/// A list without an encrypted device counts as none.
pub proof fn law_lists_without_encrypted_devices(a: Seq<JsonView>)
    requires
        forall|i: int| 0 <= i < a.len() ==> !crypt_in(#[trigger] a[i]),
    ensures
        !crypt_in(JsonView::Array(a)),
{
    lemma_crypt_absent(a, a.len());
}

proof fn lemma_crypt_found(a: Seq<JsonView>, i: int, n: nat)
    requires
        0 <= i < n <= a.len(),
        crypt_in(a[i]),
    ensures
        crate::posture::crypt_among(a, n),
    decreases n,
{
    if i < n - 1 {
        lemma_crypt_found(a, i, (n - 1) as nat);
    }
}

proof fn lemma_crypt_absent(a: Seq<JsonView>, n: nat)
    requires
        n <= a.len(),
        forall|i: int| 0 <= i < a.len() ==> !crypt_in(#[trigger] a[i]),
    ensures
        !crate::posture::crypt_among(a, n),
    decreases n,
{
    if n > 0 {
        assert(!crypt_in(a[n - 1]));
        lemma_crypt_absent(a, (n - 1) as nat);
    }
}

/// What is neither a device nor a list of devices is not encrypted.
pub proof fn law_what_is_no_device(j: JsonView)
    requires
        !(j is Object),
        !(j is Array),
    ensures
        !crypt_in(j),
{
}

} // verus!
