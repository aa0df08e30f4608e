//! Device posture: disk encryption, firewall, screen lock and system
//! version, as the tools of the system tell them.

use crate::command::{command, CommandLine, CommandView};
use crate::json::{json_document, lemma_array_items, member_from, parse_json, Json, JsonView};
use crate::text::{
    ascii_lower, chars_of, contains, drop_back, drop_front, ends_with, has_text, is_text, just,
    lines, lines_of, lossy_text, lossy_utf8, opt_view, same_chars, same_str, starts_with, string_of,
    texts, to_ascii_lower, trim, trim_char, trimmed,
};
use vstd::prelude::*;
use vstd::slice::slice_subrange;
use vstd::string::*;

verus! {

/// What can go wrong in a posture provider.
#[derive(Debug, PartialEq, Eq)]
pub enum PostureError {
    Io(String),
    Command(String),
}

impl PostureError {
    /// The text that describes the error.
    pub open spec fn text(self) -> Seq<char> {
        match self {
            PostureError::Io(e) => "posture provider IO error: "@ + e@,
            PostureError::Command(e) => "posture provider command failed: "@ + e@,
        }
    }

    /// Describes the error.
    pub fn message(&self) -> (r: String)
        ensures
            r@ == self.text(),
    {
        match self {
            PostureError::Io(e) => "posture provider IO error: ".to_owned().concat(e.as_str()),
            PostureError::Command(e) => "posture provider command failed: ".to_owned().concat(
                e.as_str(),
            ),
        }
    }
}

/// Whether a feature is on, off, or cannot be told.
#[derive(Debug, Clone, Copy, PartialEq, Eq, Structural)]
pub enum PostureToggle {
    On,
    Off,
    Unknown,
}

impl Default for PostureToggle {
    fn default() -> (r: Self)
        ensures
            r == PostureToggle::Unknown,
    {
        PostureToggle::Unknown
    }
}

/// What is known of the posture of a device.
#[derive(Debug, PartialEq, Eq)]
pub struct PostureSnapshot {
    pub disk_encryption: PostureToggle,
    pub firewall_enabled: PostureToggle,
    pub screen_lock_enabled: PostureToggle,
    pub os_patch_level: Option<String>,
    pub os_version: Option<String>,
}

impl Default for PostureSnapshot {
    fn default() -> (r: Self)
        ensures
            r == (PostureSnapshot {
                disk_encryption: PostureToggle::Unknown,
                firewall_enabled: PostureToggle::Unknown,
                screen_lock_enabled: PostureToggle::Unknown,
                os_patch_level: None,
                os_version: None,
            }),
    {
        PostureSnapshot {
            disk_encryption: PostureToggle::Unknown,
            firewall_enabled: PostureToggle::Unknown,
            screen_lock_enabled: PostureToggle::Unknown,
            os_patch_level: None,
            os_version: None,
        }
    }
}

impl Clone for PostureSnapshot {
    fn clone(&self) -> (r: Self)
        ensures
            r == *self,
    {
        PostureSnapshot {
            disk_encryption: self.disk_encryption,
            firewall_enabled: self.firewall_enabled,
            screen_lock_enabled: self.screen_lock_enabled,
            os_patch_level: self.os_patch_level.clone(),
            os_version: self.os_version.clone(),
        }
    }
}

/// The contents of a snapshot.
#[verifier::ext_equal]
pub struct PostureView {
    pub disk_encryption: PostureToggle,
    pub firewall_enabled: PostureToggle,
    pub screen_lock_enabled: PostureToggle,
    pub os_patch_level: Option<Seq<char>>,
    pub os_version: Option<Seq<char>>,
}

impl View for PostureSnapshot {
    type V = PostureView;

    open spec fn view(&self) -> PostureView {
        PostureView {
            disk_encryption: self.disk_encryption,
            firewall_enabled: self.firewall_enabled,
            screen_lock_enabled: self.screen_lock_enabled,
            os_patch_level: opt_view(self.os_patch_level),
            os_version: opt_view(self.os_version),
        }
    }
}

/// Takes snapshots of the posture of the device.
pub trait DevicePostureProvider {
    fn snapshot(&self) -> Result<PostureSnapshot, PostureError>;
}

/// What a tool has printed, and whether it ended well.
#[derive(Debug)]
pub struct ToolReport {
    pub stdout: Vec<u8>,
    pub success: bool,
}

impl ToolReport {
    /// What the tool has printed, as text.
    pub open spec fn text(self) -> Seq<char> {
        lossy_utf8(self.stdout@)
    }
}

/// What a tool that ended well has printed.
pub open spec fn printed(report: Option<ToolReport>) -> Option<Seq<char>> {
    match report {
        Some(t) => if t.success {
            Some(t.text())
        } else {
            None
        },
        None => None,
    }
}

fn printed_text(report: &Option<ToolReport>) -> (r: Option<String>)
    ensures
        opt_view(r) == printed(*report),
{
    match report {
        Some(t) => if t.success {
            Some(lossy_text(t.stdout.as_slice()))
        } else {
            None
        },
        None => None,
    }
}

/// A text without blanks around it, in lower case.
pub open spec fn folded(s: Seq<char>) -> Seq<char> {
    ascii_lower(trimmed(s))
}

fn fold(s: &str) -> (r: Vec<char>)
    ensures
        r@ == folded(s@),
{
    let chars = chars_of(s);
    to_ascii_lower(trim(chars.as_slice()))
}

// ---------------------------------------------------------------------
// Linux
// ---------------------------------------------------------------------

/// Whether two texts differ at most in the case of ASCII letters.
pub open spec fn same_but_case(a: Seq<char>, b: Seq<char>) -> bool {
    ascii_lower(a) == ascii_lower(b)
}

fn equal_but_case(a: &str, b: &str) -> (r: bool)
    ensures
        r == same_but_case(a@, b@),
{
    let va = chars_of(a);
    let vb = chars_of(b);
    let la = to_ascii_lower(va.as_slice());
    let lb = to_ascii_lower(vb.as_slice());
    same_chars(la.as_slice(), lb.as_slice())
}

/// The member that is found is one of the members.
pub proof fn lemma_member_found(m: Seq<(Seq<char>, JsonView)>, key: Seq<char>, i: int) -> (k: int)
    requires
        0 <= i,
        member_from(m, key, i) is Some,
    ensures
        i <= k < m.len(),
        member_from(m, key, i) == Some(m[k].1),
    decreases m.len() - i,
{
    if m[i].0 == key {
        i
    } else {
        lemma_member_found(m, key, i + 1)
    }
}

/// Whether the device that an object describes is itself encrypted.
pub open spec fn crypt_device(j: JsonView) -> bool {
    ||| j.text_of("type"@) matches Some(t) && same_but_case(t, "crypt"@)
    ||| j.text_of("fstype"@) matches Some(t) && same_but_case(t, "crypto_LUKS"@)
}

/// Whether a tree of devices holds an encrypted one: among the items of an
/// array, in the device itself or among its children.
pub open spec fn crypt_in(j: JsonView) -> bool
    decreases j, 0nat,
{
    match j {
        JsonView::Array(a) => crypt_among(a, a.len()),
        JsonView::Object(m) => crypt_device(j) || match j.get("children"@) {
            Some(c) => {
                proof {
                    let k = lemma_member_found(m, "children"@, 0);
                    assert(decreases_to!(m[k] => m[k].1));
                    assert(decreases_to!(m => m[k]));
                    assert(decreases_to!(j => m));
                }
                crypt_in(c)
            },
            None => false,
        },
        _ => false,
    }
}

/// Whether one of the first `n` trees holds an encrypted device.
pub open spec fn crypt_among(a: Seq<JsonView>, n: nat) -> bool
    decreases a, n,
{
    if n == 0 || n > a.len() {
        false
    } else {
        crypt_among(a, (n - 1) as nat) || crypt_in(a[n - 1])
    }
}

proof fn lemma_crypt_among(a: Seq<JsonView>, i: int, n: nat)
    requires
        0 <= i < n <= a.len(),
        crypt_in(a[i]),
    ensures
        crypt_among(a, n),
    decreases n,
{
    if i < n - 1 {
        lemma_crypt_among(a, i, (n - 1) as nat);
    }
}

/// Whether a list of devices shows that the disk is encrypted. That no
/// encrypted device is listed does not show that it is not.
pub open spec fn encryption_shown(doc: Option<JsonView>) -> PostureToggle {
    match doc {
        Some(d) => match d.get("blockdevices"@) {
            Some(devs) => if crypt_in(devs) {
                PostureToggle::On
            } else {
                PostureToggle::Unknown
            },
            None => PostureToggle::Unknown,
        },
        None => PostureToggle::Unknown,
    }
}

/// What a parsed list of devices shows of disk encryption.
pub fn disk_encryption_of(doc: &Option<Json>) -> (r: PostureToggle)
    ensures
        r == encryption_shown(
            match *doc {
                Some(d) => Some(d@),
                None => None,
            },
        ),
{
    match doc {
        Some(d) => match d.get("blockdevices") {
            Some(devs) => if any_crypt_in_tree(devs) {
                PostureToggle::On
            } else {
                PostureToggle::Unknown
            },
            None => PostureToggle::Unknown,
        },
        None => PostureToggle::Unknown,
    }
}

fn any_crypt_in_tree(node: &Json) -> (r: bool)
    ensures
        r == crypt_in(node@),
    decreases node@,
{
    match node {
        Json::Array(items) => {
            let ghost a = node@->Array_0;
            proof {
                lemma_array_items(*items);
            }
            let mut i: usize = 0;
            while i < items.len()
                invariant
                    i <= items@.len(),
                    node@ is Array,
                    a == node@->Array_0,
                    a.len() == items@.len(),
                    forall|k: int| 0 <= k < items@.len() ==> #[trigger] a[k] == items@[k]@,
                    !crypt_among(a, i as nat),
                decreases items@.len() - i,
            {
                proof {
                    assert(a[i as int] == items@[i as int]@);
                    assert(decreases_to!(a => a[i as int]));
                    assert(decreases_to!(node@ => node@->Array_0));
                }
                if any_crypt_in_tree(&items[i]) {
                    proof {
                        lemma_crypt_among(a, i as int, a.len());
                    }
                    return true;
                }
                i += 1;
            }
            false
        },
        Json::Object(_) => {
            match node.text_of("type") {
                Some(t) => if equal_but_case(t.as_str(), "crypt") {
                    return true;
                },
                None => {},
            }
            match node.text_of("fstype") {
                Some(t) => if equal_but_case(t.as_str(), "crypto_LUKS") {
                    return true;
                },
                None => {},
            }
            assert(!crypt_device(node@));
            match node.get("children") {
                Some(c) => {
                    proof {
                        let m = node@->Object_0;
                        let k = lemma_member_found(m, "children"@, 0);
                        assert(decreases_to!(m[k] => m[k].1));
                        assert(decreases_to!(m => m[k]));
                        assert(decreases_to!(node@ => m));
                    }
                    any_crypt_in_tree(c)
                },
                None => false,
            }
        },
        _ => false,
    }
}

/// What stands behind `PRETTY_NAME=` on a line, without double quotes.
pub open spec fn pretty_name(line: Seq<char>) -> Option<Seq<char>> {
    if "PRETTY_NAME="@.is_prefix_of(line) {
        Some(
            drop_back(
                drop_front(line.skip("PRETTY_NAME="@.len() as int), just('"')),
                just('"'),
            ),
        )
    } else {
        None
    }
}

/// The name on the first line from the `i`-th on that has one.
pub open spec fn first_pretty_name(l: Seq<Seq<char>>, i: int) -> Option<Seq<char>>
    decreases l.len() - i,
{
    if i < 0 || i >= l.len() {
        None
    } else {
        match pretty_name(l[i]) {
            Some(n) => Some(n),
            None => first_pretty_name(l, i + 1),
        }
    }
}

/// What the output of a firewall tool shows. The name tells which tool it
/// was.
pub open spec fn firewall_shown(tool: Seq<char>, stdout: Seq<char>, success: bool) -> PostureToggle {
    let s = folded(stdout);
    if tool == "firewall-cmd"@ {
        if s == "running"@ && success {
            PostureToggle::On
        } else if s == "not running"@ {
            PostureToggle::Off
        } else {
            PostureToggle::Unknown
        }
    } else if tool == "ufw"@ {
        if has_text(s, "status: active"@) {
            PostureToggle::On
        } else if has_text(s, "status: inactive"@) {
            PostureToggle::Off
        } else {
            PostureToggle::Unknown
        }
    } else if tool == "nftables"@ {
        if s == "active"@ {
            PostureToggle::On
        } else if s == "inactive"@ || s == "failed"@ {
            PostureToggle::Off
        } else {
            PostureToggle::Unknown
        }
    } else {
        PostureToggle::Unknown
    }
}

/// Name of the `i`-th firewall tool that is asked.
pub open spec fn firewall_tool(i: int) -> Seq<char> {
    if i == 0 {
        "firewall-cmd"@
    } else if i == 1 {
        "ufw"@
    } else {
        "nftables"@
    }
}

/// The command that asks the `i`-th firewall tool.
pub open spec fn firewall_command(i: int) -> CommandView {
    if i == 0 {
        command("firewall-cmd"@, seq!["--state"@])
    } else if i == 1 {
        command("ufw"@, seq!["status"@])
    } else {
        command("systemctl"@, seq!["is-active"@, "nftables"@])
    }
}

/// What the report of the `i`-th tool shows; a tool that could not be run
/// shows nothing.
pub open spec fn report_shows(reports: Seq<Option<ToolReport>>, i: int) -> PostureToggle {
    match reports[i] {
        Some(t) => firewall_shown(firewall_tool(i), t.text(), t.success),
        None => PostureToggle::Unknown,
    }
}

/// What the first of the reports from the `i`-th on shows that shows
/// something.
pub open spec fn first_shown(reports: Seq<Option<ToolReport>>, i: int) -> PostureToggle
    decreases reports.len() - i,
{
    if i < 0 || i >= reports.len() {
        PostureToggle::Unknown
    } else if report_shows(reports, i) != PostureToggle::Unknown {
        report_shows(reports, i)
    } else {
        first_shown(reports, i + 1)
    }
}

/// What is known of the firewall so far, or what is to be asked next.
#[derive(Debug)]
pub enum FirewallVerdict {
    Decided(PostureToggle),
    Ask(CommandLine),
}

/// Number of firewall tools.
pub const FIREWALL_TOOLS: usize = 3;

/// Posture of Linux hosts.
#[derive(Debug, Clone, Copy)]
pub struct LinuxPostureProvider {}

impl LinuxPostureProvider {
    pub fn new() -> (r: LinuxPostureProvider)
        ensures
            r == (LinuxPostureProvider {  }),
    {
        LinuxPostureProvider {  }
    }

    /// What the output of `lsblk --json -o NAME,TYPE,FSTYPE` shows of disk
    /// encryption.
    pub fn detect_disk_encryption_from_lsblk(output: &str) -> (r: PostureToggle)
        ensures
            r == encryption_shown(json_document(output@)),
    {
        disk_encryption_of(&parse_json(output))
    }

    /// The name of the system in an `os-release` file.
    pub fn parse_os_pretty_name(os_release: &str) -> (r: Option<String>)
        ensures
            opt_view(r) == first_pretty_name(lines_of(os_release@), 0),
    {
        let chars = chars_of(os_release);
        let all = lines(chars.as_slice());
        let ghost l = texts(all@);
        let mut i: usize = 0;
        proof {
            reveal_strlit("PRETTY_NAME=");
        }
        while i < all.len()
            invariant
                i <= all@.len(),
                l == texts(all@),
                l == lines_of(os_release@),
                "PRETTY_NAME="@.len() == 12,
                first_pretty_name(l, 0) == first_pretty_name(l, i as int),
            decreases all@.len() - i,
        {
            let line = all[i];
            assert(l[i as int] == line@);
            if starts_with(line, "PRETTY_NAME=") {
                let rest = slice_subrange(line, 12, line.len());
                assert(line@.skip(12) =~= rest@);
                return Some(string_of(trim_char(rest, '"')));
            }
            i += 1;
        }
        None
    }

    /// What the output of a firewall tool shows.
    pub fn classify_firewall_command_output(cmd: &str, stdout: &str, success: bool) -> (r:
        PostureToggle)
        ensures
            r == firewall_shown(cmd@, stdout@, success),
    {
        let v = fold(stdout);
        let s = v.as_slice();
        if same_str(cmd, "firewall-cmd") {
            if is_text(s, "running") && success {
                PostureToggle::On
            } else if is_text(s, "not running") {
                PostureToggle::Off
            } else {
                PostureToggle::Unknown
            }
        } else if same_str(cmd, "ufw") {
            if contains(s, "status: active") {
                PostureToggle::On
            } else if contains(s, "status: inactive") {
                PostureToggle::Off
            } else {
                PostureToggle::Unknown
            }
        } else if same_str(cmd, "nftables") {
            if is_text(s, "active") {
                PostureToggle::On
            } else if is_text(s, "inactive") || is_text(s, "failed") {
                PostureToggle::Off
            } else {
                PostureToggle::Unknown
            }
        } else {
            PostureToggle::Unknown
        }
    }

    /// Tells from the reports of the first tools whether the firewall is on.
    /// The first tool that shows it decides; while none does, the next is
    /// to be asked.
    pub fn detect_firewall(&self, reports: &Vec<Option<ToolReport>>) -> (r: FirewallVerdict)
        requires
            reports@.len() <= FIREWALL_TOOLS,
        ensures
            match r {
                FirewallVerdict::Decided(t) => t == first_shown(reports@, 0) && (t
                    != PostureToggle::Unknown || reports@.len() == FIREWALL_TOOLS),
                FirewallVerdict::Ask(c) => first_shown(reports@, 0) == PostureToggle::Unknown
                    && reports@.len() < FIREWALL_TOOLS && c@ == firewall_command(
                    reports@.len() as int,
                ),
            },
    {
        let mut i: usize = 0;
        while i < reports.len()
            invariant
                i <= reports@.len(),
                reports@.len() <= FIREWALL_TOOLS,
                first_shown(reports@, 0) == first_shown(reports@, i as int),
            decreases reports@.len() - i,
        {
            let shown = match &reports[i] {
                Some(t) => {
                    let text = lossy_text(t.stdout.as_slice());
                    let tool = if i == 0 {
                        "firewall-cmd"
                    } else if i == 1 {
                        "ufw"
                    } else {
                        "nftables"
                    };
                    LinuxPostureProvider::classify_firewall_command_output(
                        tool,
                        text.as_str(),
                        t.success,
                    )
                },
                None => PostureToggle::Unknown,
            };
            assert(shown == report_shows(reports@, i as int));
            if shown != PostureToggle::Unknown {
                return FirewallVerdict::Decided(shown);
            }
            i += 1;
        }
        if i == FIREWALL_TOOLS {
            return FirewallVerdict::Decided(PostureToggle::Unknown);
        }
        let c = if i == 0 {
            CommandLine::new("firewall-cmd").arg("--state")
        } else if i == 1 {
            CommandLine::new("ufw").arg("status")
        } else {
            CommandLine::new("systemctl").arg("is-active").arg("nftables")
        };
        assert(c@ =~~= firewall_command(i as int));
        FirewallVerdict::Ask(c)
    }

    /// The command that lists the disks.
    pub fn lsblk_command(&self) -> (r: CommandLine)
        ensures
            r@ == command("lsblk"@, seq!["--json"@, "-o"@, "NAME,TYPE,FSTYPE"@]),
    {
        let c = CommandLine::new("lsblk").arg("--json").arg("-o").arg("NAME,TYPE,FSTYPE");
        assert(c@ =~~= command("lsblk"@, seq!["--json"@, "-o"@, "NAME,TYPE,FSTYPE"@]));
        c
    }

    /// A snapshot by the report of `lsblk`, what is known of the firewall,
    /// and the `os-release` file. Screen locks cannot be told.
    pub fn snapshot(
        &self,
        lsblk: &Option<ToolReport>,
        firewall: PostureToggle,
        os_release: Option<&str>,
    ) -> (r: Result<PostureSnapshot, PostureError>)
        ensures
            r is Ok,
            r->Ok_0@ == (PostureView {
                disk_encryption: match printed(*lsblk) {
                    Some(t) => encryption_shown(json_document(t)),
                    None => PostureToggle::Unknown,
                },
                firewall_enabled: firewall,
                screen_lock_enabled: PostureToggle::Unknown,
                os_patch_level: None,
                os_version: match os_release {
                    Some(t) => first_pretty_name(lines_of(t@), 0),
                    None => None,
                },
            }),
    {
        let disk_encryption = match printed_text(lsblk) {
            Some(t) => LinuxPostureProvider::detect_disk_encryption_from_lsblk(t.as_str()),
            None => PostureToggle::Unknown,
        };
        let os_version = match os_release {
            Some(t) => LinuxPostureProvider::parse_os_pretty_name(t),
            None => None,
        };
        Ok(
            PostureSnapshot {
                disk_encryption,
                firewall_enabled: firewall,
                screen_lock_enabled: PostureToggle::Unknown,
                os_patch_level: None,
                os_version,
            },
        )
    }
}

impl Default for LinuxPostureProvider {
    fn default() -> (r: Self)
        ensures
            r == (LinuxPostureProvider {  }),
    {
        LinuxPostureProvider {  }
    }
}

/// A list of devices never shows that a disk is not encrypted.
pub proof fn law_missing_crypt_is_not_off(doc: Option<JsonView>)
    ensures
        encryption_shown(doc) != PostureToggle::Off,
{
}

/// An encrypted device is found wherever it stands among the items of a
/// list.
pub proof fn law_crypt_is_found_in_lists(a: Seq<JsonView>, i: int)
    requires
        0 <= i < a.len(),
        crypt_in(a[i]),
    ensures
        crypt_in(JsonView::Array(a)),
{
    lemma_crypt_among(a, i, a.len());
}

/// An encrypted device is found among the children of a device.
pub proof fn law_crypt_is_found_among_children(m: Seq<(Seq<char>, JsonView)>, c: JsonView)
    requires
        JsonView::Object(m).get("children"@) == Some(c),
        crypt_in(c),
    ensures
        crypt_in(JsonView::Object(m)),
{
}

// ---------------------------------------------------------------------
// macOS
// ---------------------------------------------------------------------

/// What `yes` and `no` at the start of a text show.
pub open spec fn begins(s: Seq<char>, yes: Seq<char>, no: Seq<char>) -> PostureToggle {
    if yes.is_prefix_of(s) {
        PostureToggle::On
    } else if no.is_prefix_of(s) {
        PostureToggle::Off
    } else {
        PostureToggle::Unknown
    }
}

fn begins_with(s: &[char], yes: &str, no: &str) -> (r: PostureToggle)
    ensures
        r == begins(s@, yes@, no@),
{
    if starts_with(s, yes) {
        PostureToggle::On
    } else if starts_with(s, no) {
        PostureToggle::Off
    } else {
        PostureToggle::Unknown
    }
}

/// What the screen saver setting shows.
pub open spec fn lock_shown(stdout: Seq<char>) -> PostureToggle {
    if trimmed(stdout) == "1"@ {
        PostureToggle::On
    } else if trimmed(stdout) == "0"@ {
        PostureToggle::Off
    } else {
        PostureToggle::Unknown
    }
}

/// Posture of macOS hosts.
#[derive(Debug, Clone, Copy)]
pub struct MacPostureProvider {}

impl MacPostureProvider {
    pub fn new() -> (r: MacPostureProvider)
        ensures
            r == (MacPostureProvider {  }),
    {
        MacPostureProvider {  }
    }

    /// What `fdesetup status` shows.
    pub fn parse_fdesetup_status(stdout: &str) -> (r: PostureToggle)
        ensures
            r == begins(folded(stdout@), "filevault is on"@, "filevault is off"@),
    {
        let v = fold(stdout);
        begins_with(v.as_slice(), "filevault is on", "filevault is off")
    }

    /// What `socketfilterfw --getglobalstate` shows.
    pub fn parse_socketfilterfw(stdout: &str) -> (r: PostureToggle)
        ensures
            r == begins(folded(stdout@), "firewall is enabled"@, "firewall is disabled"@),
    {
        let v = fold(stdout);
        begins_with(v.as_slice(), "firewall is enabled", "firewall is disabled")
    }

    /// What the screen saver setting shows.
    pub fn parse_screensaver_ask_for_password(stdout: &str) -> (r: PostureToggle)
        ensures
            r == lock_shown(stdout@),
    {
        let chars = chars_of(stdout);
        let s = trim(chars.as_slice());
        if is_text(s, "1") {
            PostureToggle::On
        } else if is_text(s, "0") {
            PostureToggle::Off
        } else {
            PostureToggle::Unknown
        }
    }

    /// The commands whose reports make a snapshot: disk encryption,
    /// firewall, screen lock, version.
    pub fn commands(&self) -> (r: (CommandLine, CommandLine, CommandLine, CommandLine))
        ensures
            r.0@ == command("fdesetup"@, seq!["status"@]),
            r.1@ == command(
                "/usr/libexec/ApplicationFirewall/socketfilterfw"@,
                seq!["--getglobalstate"@],
            ),
            r.2@ == command(
                "defaults"@,
                seq![
                    "read"@,
                    "/Library/Preferences/com.apple.screensaver"@,
                    "askForPassword"@,
                ],
            ),
            r.3@ == command("sw_vers"@, seq!["-productVersion"@]),
    {
        let disk = CommandLine::new("fdesetup").arg("status");
        let firewall = CommandLine::new("/usr/libexec/ApplicationFirewall/socketfilterfw").arg(
            "--getglobalstate",
        );
        let lock = CommandLine::new("defaults").arg("read").arg(
            "/Library/Preferences/com.apple.screensaver",
        ).arg("askForPassword");
        let version = CommandLine::new("sw_vers").arg("-productVersion");
        assert(disk@ =~~= command("fdesetup"@, seq!["status"@]));
        assert(firewall@ =~~= command(
            "/usr/libexec/ApplicationFirewall/socketfilterfw"@,
            seq!["--getglobalstate"@],
        ));
        assert(lock@ =~~= command(
            "defaults"@,
            seq!["read"@, "/Library/Preferences/com.apple.screensaver"@, "askForPassword"@],
        ));
        assert(version@ =~~= command("sw_vers"@, seq!["-productVersion"@]));
        (disk, firewall, lock, version)
    }

    /// A snapshot by the reports of the tools.
    pub fn snapshot(
        &self,
        fdesetup: &Option<ToolReport>,
        socketfilterfw: &Option<ToolReport>,
        screensaver: &Option<ToolReport>,
        sw_vers: &Option<ToolReport>,
    ) -> (r: Result<PostureSnapshot, PostureError>)
        ensures
            r is Ok,
            r->Ok_0@ == (PostureView {
                disk_encryption: match printed(*fdesetup) {
                    Some(t) => begins(folded(t), "filevault is on"@, "filevault is off"@),
                    None => PostureToggle::Unknown,
                },
                firewall_enabled: match printed(*socketfilterfw) {
                    Some(t) => begins(folded(t), "firewall is enabled"@, "firewall is disabled"@),
                    None => PostureToggle::Unknown,
                },
                screen_lock_enabled: match printed(*screensaver) {
                    Some(t) => lock_shown(t),
                    None => PostureToggle::Unknown,
                },
                os_patch_level: None,
                os_version: match printed(*sw_vers) {
                    Some(t) => Some("macOS "@ + trimmed(t)),
                    None => None,
                },
            }),
    {
        let disk_encryption = match printed_text(fdesetup) {
            Some(t) => MacPostureProvider::parse_fdesetup_status(t.as_str()),
            None => PostureToggle::Unknown,
        };
        let firewall_enabled = match printed_text(socketfilterfw) {
            Some(t) => MacPostureProvider::parse_socketfilterfw(t.as_str()),
            None => PostureToggle::Unknown,
        };
        let screen_lock_enabled = match printed_text(screensaver) {
            Some(t) => MacPostureProvider::parse_screensaver_ask_for_password(t.as_str()),
            None => PostureToggle::Unknown,
        };
        let os_version = match printed_text(sw_vers) {
            Some(t) => {
                let chars = chars_of(t.as_str());
                let version = string_of(trim(chars.as_slice()));
                Some("macOS ".to_owned().concat(version.as_str()))
            },
            None => None,
        };
        Ok(
            PostureSnapshot {
                disk_encryption,
                firewall_enabled,
                screen_lock_enabled,
                os_patch_level: None,
                os_version,
            },
        )
    }
}

impl Default for MacPostureProvider {
    fn default() -> (r: Self)
        ensures
            r == (MacPostureProvider {  }),
    {
        MacPostureProvider {  }
    }
}

// ---------------------------------------------------------------------
// Windows
// ---------------------------------------------------------------------

/// What a line of `manage-bde` shows.
pub open spec fn conversion_on(line: Seq<char>) -> PostureToggle {
    let t = trimmed(line);
    if "Conversion Status:"@.is_prefix_of(t) {
        let s = folded(t.skip("Conversion Status:"@.len() as int));
        if "fully encrypted"@.is_prefix_of(s) || "encryption in progress"@.is_prefix_of(s) {
            PostureToggle::On
        } else if "fully decrypted"@.is_prefix_of(s) {
            PostureToggle::Off
        } else {
            PostureToggle::Unknown
        }
    } else {
        PostureToggle::Unknown
    }
}

/// What the first line from the `i`-th on shows that shows something.
pub open spec fn first_conversion(l: Seq<Seq<char>>, i: int) -> PostureToggle
    decreases l.len() - i,
{
    if i < 0 || i >= l.len() {
        PostureToggle::Unknown
    } else if conversion_on(l[i]) != PostureToggle::Unknown {
        conversion_on(l[i])
    } else {
        first_conversion(l, i + 1)
    }
}

/// Whether a line tells the state of a firewall profile.
pub open spec fn state_line(line: Seq<char>) -> bool {
    "state"@.is_prefix_of(folded(line))
}

/// Whether a line tells that a profile is off.
pub open spec fn state_off(line: Seq<char>) -> bool {
    state_line(line) && "off"@.is_suffix_of(folded(line))
}

/// Whether a line tells a state that is neither on nor off.
pub open spec fn state_odd(line: Seq<char>) -> bool {
    state_line(line) && !"off"@.is_suffix_of(folded(line)) && !"on"@.is_suffix_of(folded(line))
}

/// What the states of all profiles show: unknown where there is none or one
/// is neither on nor off; off where one is off; on where all are on.
pub open spec fn profiles_show(l: Seq<Seq<char>>) -> PostureToggle {
    if (exists|i: int| 0 <= i < l.len() && state_odd(#[trigger] l[i])) || !(exists|i: int|
        0 <= i < l.len() && state_line(#[trigger] l[i])) {
        PostureToggle::Unknown
    } else if exists|i: int| 0 <= i < l.len() && state_off(#[trigger] l[i]) {
        PostureToggle::Off
    } else {
        PostureToggle::On
    }
}

/// Posture of Windows hosts.
#[derive(Debug, Clone, Copy)]
pub struct WindowsPostureProvider {}

impl WindowsPostureProvider {
    pub fn new() -> (r: WindowsPostureProvider)
        ensures
            r == (WindowsPostureProvider {  }),
    {
        WindowsPostureProvider {  }
    }

    /// What `manage-bde -status C:` shows.
    pub fn parse_manage_bde(stdout: &str) -> (r: PostureToggle)
        ensures
            r == first_conversion(lines_of(stdout@), 0),
    {
        let chars = chars_of(stdout);
        let all = lines(chars.as_slice());
        let ghost l = texts(all@);
        let mut i: usize = 0;
        proof {
            reveal_strlit("Conversion Status:");
        }
        while i < all.len()
            invariant
                i <= all@.len(),
                l == texts(all@),
                l == lines_of(stdout@),
                "Conversion Status:"@.len() == 18,
                first_conversion(l, 0) == first_conversion(l, i as int),
            decreases all@.len() - i,
        {
            assert(l[i as int] == all@[i as int]@);
            let t = trim(all[i]);
            if starts_with(t, "Conversion Status:") {
                let rest = slice_subrange(t, 18, t.len());
                assert(t@.skip(18) =~= rest@);
                let s = to_ascii_lower(trim(rest));
                if starts_with(s.as_slice(), "fully encrypted") || starts_with(
                    s.as_slice(),
                    "encryption in progress",
                ) {
                    return PostureToggle::On;
                }
                if starts_with(s.as_slice(), "fully decrypted") {
                    return PostureToggle::Off;
                }
            }
            i += 1;
        }
        PostureToggle::Unknown
    }

    /// What `netsh advfirewall show allprofiles` shows.
    pub fn parse_netsh_advfirewall(stdout: &str) -> (r: PostureToggle)
        ensures
            r == profiles_show(lines_of(stdout@)),
    {
        let chars = chars_of(stdout);
        let all = lines(chars.as_slice());
        let ghost l = texts(all@);
        let mut saw_state = false;
        let mut all_on = true;
        let mut i: usize = 0;
        while i < all.len()
            invariant
                i <= all@.len(),
                l == texts(all@),
                l == lines_of(stdout@),
                saw_state == (exists|k: int| 0 <= k < i && state_line(#[trigger] l[k])),
                all_on == !(exists|k: int| 0 <= k < i && state_off(#[trigger] l[k])),
                forall|k: int| 0 <= k < i ==> !state_odd(#[trigger] l[k]),
            decreases all@.len() - i,
        {
            assert(l[i as int] == all@[i as int]@);
            let v = to_ascii_lower(trim(all[i]));
            let line = v.as_slice();
            assert(line@ == folded(l[i as int]));
            if starts_with(line, "state") {
                saw_state = true;
                assert(state_line(l[i as int]));
                if ends_with(line, "off") {
                    all_on = false;
                    assert(state_off(l[i as int]));
                } else if !ends_with(line, "on") {
                    assert(state_odd(l[i as int]));
                    return PostureToggle::Unknown;
                }
            }
            i += 1;
        }
        if !saw_state {
            PostureToggle::Unknown
        } else if all_on {
            PostureToggle::On
        } else {
            PostureToggle::Off
        }
    }

    /// The commands whose reports make a snapshot: disk encryption,
    /// firewall, version.
    pub fn commands(&self) -> (r: (CommandLine, CommandLine, CommandLine))
        ensures
            r.0@ == command("manage-bde"@, seq!["-status"@, "C:"@]),
            r.1@ == command("netsh"@, seq!["advfirewall"@, "show"@, "allprofiles"@]),
            r.2@ == command("cmd"@, seq!["/C"@, "ver"@]),
    {
        let disk = CommandLine::new("manage-bde").arg("-status").arg("C:");
        let firewall = CommandLine::new("netsh").arg("advfirewall").arg("show").arg("allprofiles");
        let version = CommandLine::new("cmd").arg("/C").arg("ver");
        assert(disk@ =~~= command("manage-bde"@, seq!["-status"@, "C:"@]));
        assert(firewall@ =~~= command("netsh"@, seq!["advfirewall"@, "show"@, "allprofiles"@]));
        assert(version@ =~~= command("cmd"@, seq!["/C"@, "ver"@]));
        (disk, firewall, version)
    }

    /// A snapshot by the reports of the tools. Screen locks cannot be told.
    pub fn snapshot(
        &self,
        manage_bde: &Option<ToolReport>,
        netsh: &Option<ToolReport>,
        ver: &Option<ToolReport>,
    ) -> (r: Result<PostureSnapshot, PostureError>)
        ensures
            r is Ok,
            r->Ok_0@ == (PostureView {
                disk_encryption: match printed(*manage_bde) {
                    Some(t) => first_conversion(lines_of(t), 0),
                    None => PostureToggle::Unknown,
                },
                firewall_enabled: match printed(*netsh) {
                    Some(t) => profiles_show(lines_of(t)),
                    None => PostureToggle::Unknown,
                },
                screen_lock_enabled: PostureToggle::Unknown,
                os_patch_level: None,
                os_version: match printed(*ver) {
                    Some(t) => Some(trimmed(t)),
                    None => None,
                },
            }),
    {
        let disk_encryption = match printed_text(manage_bde) {
            Some(t) => WindowsPostureProvider::parse_manage_bde(t.as_str()),
            None => PostureToggle::Unknown,
        };
        let firewall_enabled = match printed_text(netsh) {
            Some(t) => WindowsPostureProvider::parse_netsh_advfirewall(t.as_str()),
            None => PostureToggle::Unknown,
        };
        let os_version = match printed_text(ver) {
            Some(t) => {
                let chars = chars_of(t.as_str());
                Some(string_of(trim(chars.as_slice())))
            },
            None => None,
        };
        Ok(
            PostureSnapshot {
                disk_encryption,
                firewall_enabled,
                screen_lock_enabled: PostureToggle::Unknown,
                os_patch_level: None,
                os_version,
            },
        )
    }
}

impl Default for WindowsPostureProvider {
    fn default() -> (r: Self)
        ensures
            r == (WindowsPostureProvider {  }),
    {
        WindowsPostureProvider {  }
    }
}

/// One profile that is off makes the whole firewall count as off, unless
/// the state of some profile cannot be told.
pub proof fn law_one_profile_off_means_off(l: Seq<Seq<char>>, i: int)
    requires
        0 <= i < l.len(),
        state_off(l[i]),
    ensures
        profiles_show(l) != PostureToggle::On,
        (forall|k: int| 0 <= k < l.len() ==> !state_odd(#[trigger] l[k])) ==> profiles_show(l)
            == PostureToggle::Off,
{
}

} // verus!
