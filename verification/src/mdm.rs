//! Device management: wiping, locking, key escrow, updates, encryption,
//! firewall and screen lock, as commands for the tools of the system and
//! what comes of them.

use crate::clock::Timestamp;
use crate::command::{command, CommandLine, CommandView};
use crate::text::{
    byte_len, chars_of, contains, decimal, digit_char, drop_front, ends_with, has_text, is_text, lines,
    lines_of, lossy_text, lossy_utf8, numeral, opt_view, space, starts_with, string_of, strs, texts,
    trim, trim_start, trimmed, utf8_len, words, words_of,
};
use vstd::prelude::*;
use vstd::string::*;

verus! {

/// What can go wrong in device management.
#[derive(Debug, PartialEq, Eq)]
pub enum MdmError {
    Io(String),
    Command(String),
    Unsupported(String),
    InvalidProfile(String),
}

impl MdmError {
    /// The text that describes the error.
    pub open spec fn text(self) -> Seq<char> {
        match self {
            MdmError::Io(e) => "MDM provider IO error: "@ + e@,
            MdmError::Command(e) => "MDM provider command failed: "@ + e@,
            MdmError::Unsupported(e) =>
                "MDM provider does not support this operation on the current host: "@ + e@,
            MdmError::InvalidProfile(e) => "MDM signed config profile is invalid: "@ + e@,
        }
    }

    /// Describes the error.
    pub fn message(&self) -> (r: String)
        ensures
            r@ == self.text(),
    {
        match self {
            MdmError::Io(e) => "MDM provider IO error: ".to_owned().concat(e.as_str()),
            MdmError::Command(e) => "MDM provider command failed: ".to_owned().concat(e.as_str()),
            MdmError::Unsupported(e) =>
                "MDM provider does not support this operation on the current host: ".to_owned().concat(
                e.as_str(),
            ),
            MdmError::InvalidProfile(e) => "MDM signed config profile is invalid: ".to_owned().concat(
                e.as_str(),
            ),
        }
    }
}

/// How a device is to be wiped.
#[derive(Debug, Clone, Copy, PartialEq, Eq, Structural)]
pub struct WipeOpts {
    /// Destroy the keys and leave it at that.
    pub crypto_shred_only: bool,
    /// Wait for mains power.
    pub wait_for_ac: bool,
}

impl Default for WipeOpts {
    fn default() -> (r: Self)
        ensures
            r == (WipeOpts { crypto_shred_only: false, wait_for_ac: false }),
    {
        WipeOpts { crypto_shred_only: false, wait_for_ac: false }
    }
}

/// What became of a wipe.
#[derive(Debug, Clone, Copy, PartialEq, Eq, Structural)]
pub struct WipeOutcome {
    pub crypto_shred_succeeded: bool,
    pub factory_reset_invoked: bool,
    pub started_at: Timestamp,
}

/// Kinds of recovery keys.
#[derive(Debug, Clone, Copy, PartialEq, Eq, Structural)]
pub enum RecoveryKeyType {
    BitLocker,
    FileVault,
    Luks,
}

/// An identifier of 16 octets.
#[derive(Debug, Clone, Copy, PartialEq, Eq)]
pub struct Uuid {
    pub bytes: [u8; 16],
}

/// A recovery key on its way, encrypted and signed.
#[derive(Debug, Clone, PartialEq, Eq)]
pub struct RecoveryKeyPayload {
    pub tenant_id: Uuid,
    pub device_id: Uuid,
    pub key_type: RecoveryKeyType,
    pub ciphertext: Vec<u8>,
    pub nonce: [u8; 12],
    pub escrowed_at: Timestamp,
    pub signature: Vec<u8>,
    pub key_id: String,
}

/// When the device may be started anew after updates.
#[derive(Debug, Clone, Copy, PartialEq, Eq, Structural)]
pub enum RebootPolicy {
    Never,
    OnIdle,
    OnMaintenanceWindow,
}

impl Default for RebootPolicy {
    fn default() -> (r: Self)
        ensures
            r == RebootPolicy::Never,
    {
        RebootPolicy::Never
    }
}

/// Which updates are to be installed.
#[derive(Debug, Clone, Copy, PartialEq, Eq, Structural)]
pub struct OsUpdateOpts {
    pub include_security: bool,
    pub include_feature: bool,
    pub reboot_policy: RebootPolicy,
}

impl Default for OsUpdateOpts {
    fn default() -> (r: Self)
        ensures
            r == (OsUpdateOpts {
                include_security: false,
                include_feature: false,
                reboot_policy: RebootPolicy::Never,
            }),
    {
        OsUpdateOpts {
            include_security: false,
            include_feature: false,
            reboot_policy: RebootPolicy::Never,
        }
    }
}

/// What became of an installation of updates.
#[derive(Debug, Clone, PartialEq, Eq)]
pub struct OsUpdateOutcome {
    pub updates_installed: u32,
    pub reboot_required: bool,
    /// SHA-256 of the log.
    pub log_sha256: [u8; 32],
}

/// What became of switching on disk encryption.
#[derive(Debug, Clone, PartialEq, Eq)]
pub struct EncryptionOutcome {
    pub enabled: bool,
    pub recovery_key_escrowed: bool,
    /// `bitlocker`, `filevault` or `luks`.
    pub provider: String,
}

/// A signed configuration profile.
#[derive(Debug, Clone, PartialEq, Eq)]
pub struct SignedConfigProfile {
    pub profile_id: Uuid,
    pub tenant_id: Uuid,
    pub canonical_json: String,
    pub signature: Vec<u8>,
    pub key_id: String,
}

/// A recovery key in the clear.
#[derive(Debug, Clone, PartialEq, Eq)]
pub struct RawRecoveryKey {
    pub key_type: RecoveryKeyType,
    pub material: Vec<u8>,
}

/// Manages the device.
pub trait MdmProvider {
    fn wipe(&self, opts: &WipeOpts) -> Result<WipeOutcome, MdmError>;

    fn lock(&self, message: &str) -> Result<(), MdmError>;

    fn escrow_recovery_key(&self) -> Result<RawRecoveryKey, MdmError>;

    fn install_os_updates(&self, opts: &OsUpdateOpts) -> Result<OsUpdateOutcome, MdmError>;

    fn apply_config_profile(&self, profile: &SignedConfigProfile) -> Result<(), MdmError>;

    fn enable_disk_encryption(&self) -> Result<EncryptionOutcome, MdmError>;

    fn enable_firewall(&self) -> Result<(), MdmError>;

    fn set_screen_lock(&self, timeout_secs: u32) -> Result<(), MdmError>;

    fn enter_lost_mode(&self, message: &str) -> Result<(), MdmError>;

    fn exit_lost_mode(&self) -> Result<(), MdmError>;
}

// ---------------------------------------------------------------------
// Decisions
// ---------------------------------------------------------------------

/// Whether a wipe goes on to reset the system.
pub open spec fn resets(opts: WipeOpts) -> bool {
    !opts.crypto_shred_only
}

/// Whether a wipe goes on to reset the system.
pub fn should_perform_factory_reset(opts: &WipeOpts) -> (r: bool)
    ensures
        r == resets(*opts),
{
    !opts.crypto_shred_only
}

/// Whether only security updates are wanted.
pub open spec fn security_only(opts: OsUpdateOpts) -> bool {
    opts.include_security && !opts.include_feature
}

/// Whether only security updates are wanted.
pub fn security_only_mode(opts: &OsUpdateOpts) -> (r: bool)
    ensures
        r == security_only(*opts),
{
    opts.include_security && !opts.include_feature
}

/// The arguments of `unattended-upgrade`.
pub open spec fn unattended_upgrade_args_for(opts: OsUpdateOpts) -> Seq<Seq<char>> {
    if security_only(opts) {
        seq!["--debug"@, "-v"@, "--security-only"@]
    } else {
        seq!["--debug"@, "-v"@]
    }
}

/// The arguments of `unattended-upgrade`.
pub fn unattended_upgrade_args(opts: &OsUpdateOpts) -> (r: Vec<&'static str>)
    ensures
        strs(r@) == unattended_upgrade_args_for(*opts),
{
    let args: Vec<&'static str> = if security_only_mode(opts) {
        vec!["--debug", "-v", "--security-only"]
    } else {
        vec!["--debug", "-v"]
    };
    assert(strs(args@) =~= unattended_upgrade_args_for(*opts));
    args
}

/// The arguments of `dnf`.
pub open spec fn dnf_upgrade_args_for(opts: OsUpdateOpts) -> Seq<Seq<char>> {
    if security_only(opts) {
        seq!["upgrade"@, "--refresh"@, "-y"@, "--security"@]
    } else {
        seq!["upgrade"@, "--refresh"@, "-y"@]
    }
}

/// The arguments of `dnf`.
pub fn dnf_upgrade_args(opts: &OsUpdateOpts) -> (r: Vec<&'static str>)
    ensures
        strs(r@) == dnf_upgrade_args_for(*opts),
{
    let args: Vec<&'static str> = if security_only_mode(opts) {
        vec!["upgrade", "--refresh", "-y", "--security"]
    } else {
        vec!["upgrade", "--refresh", "-y"]
    };
    assert(strs(args@) =~= dnf_upgrade_args_for(*opts));
    args
}

/// The arguments of `dnf-automatic`, whose scope cannot be set by them.
pub fn dnf_automatic_args(opts: &OsUpdateOpts) -> (r: Vec<&'static str>)
    ensures
        strs(r@) == seq!["--installupdates"@],
{
    let args: Vec<&'static str> = vec!["--installupdates"];
    assert(strs(args@) =~= seq!["--installupdates"@]);
    args
}

/// The arguments of `zypper`.
pub open spec fn zypper_args_for(opts: OsUpdateOpts) -> Seq<Seq<char>> {
    if security_only(opts) {
        seq!["patch"@, "-y"@, "--category"@, "security"@]
    } else {
        seq!["update"@, "-y"@]
    }
}

/// The arguments of `zypper`.
pub fn zypper_args(opts: &OsUpdateOpts) -> (r: Vec<&'static str>)
    ensures
        strs(r@) == zypper_args_for(*opts),
{
    let args: Vec<&'static str> = if security_only_mode(opts) {
        vec!["patch", "-y", "--category", "security"]
    } else {
        vec!["update", "-y"]
    };
    assert(strs(args@) =~= zypper_args_for(*opts));
    args
}

/// The arguments of `softwareupdate`.
pub open spec fn softwareupdate_args_for(opts: OsUpdateOpts) -> Seq<Seq<char>> {
    if security_only(opts) {
        seq!["--install"@, "--recommended"@]
    } else {
        seq!["--install"@, "--all"@]
    }
}

/// The arguments of `softwareupdate`.
pub fn softwareupdate_args(opts: &OsUpdateOpts) -> (r: Vec<&'static str>)
    ensures
        strs(r@) == softwareupdate_args_for(*opts),
{
    let args: Vec<&'static str> = if security_only_mode(opts) {
        vec!["--install", "--recommended"]
    } else {
        vec!["--install", "--all"]
    };
    assert(strs(args@) =~= softwareupdate_args_for(*opts));
    args
}

/// The script that installs updates on Windows.
pub open spec fn update_script(opts: OsUpdateOpts) -> Seq<char> {
    let script =
        "if (-not (Get-Module -ListAvailable PSWindowsUpdate)) { Install-Module PSWindowsUpdate -Scope CurrentUser -Force -ErrorAction SilentlyContinue }; Install-WindowsUpdate -AcceptAll -AutoReboot:$false"@;
    if security_only(opts) {
        script + " -Category 'Security Updates','Critical Updates','Definition Updates'"@
    } else {
        script
    }
}

/// The script that installs updates on Windows.
pub fn pswindowsupdate_script(opts: &OsUpdateOpts) -> (r: String)
    ensures
        r@ == update_script(*opts),
{
    let script =
        "if (-not (Get-Module -ListAvailable PSWindowsUpdate)) { Install-Module PSWindowsUpdate -Scope CurrentUser -Force -ErrorAction SilentlyContinue }; Install-WindowsUpdate -AcceptAll -AutoReboot:$false".to_owned();
    if security_only_mode(opts) {
        script.concat(" -Category 'Security Updates','Critical Updates','Definition Updates'")
    } else {
        script
    }
}

/// Where only security updates are wanted, every tool that can be told so
/// is told so, and otherwise none is.
pub proof fn law_security_only_is_passed_on(opts: OsUpdateOpts)
    ensures
        security_only(opts) <==> unattended_upgrade_args_for(opts).contains("--security-only"@),
        security_only(opts) <==> dnf_upgrade_args_for(opts).contains("--security"@),
        security_only(opts) <==> zypper_args_for(opts).contains("security"@),
        security_only(opts) <==> softwareupdate_args_for(opts).contains("--recommended"@),
{
    reveal_strlit("--debug");
    reveal_strlit("-v");
    reveal_strlit("--security-only");
    reveal_strlit("upgrade");
    reveal_strlit("--refresh");
    reveal_strlit("-y");
    reveal_strlit("--security");
    reveal_strlit("update");
    reveal_strlit("security");
    reveal_strlit("--install");
    reveal_strlit("--all");
    reveal_strlit("--recommended");
    if security_only(opts) {
        assert(unattended_upgrade_args_for(opts)[2] == "--security-only"@);
        assert(dnf_upgrade_args_for(opts)[3] == "--security"@);
        assert(zypper_args_for(opts)[3] == "security"@);
        assert(softwareupdate_args_for(opts)[1] == "--recommended"@);
    } else {
        assert("--debug"@.len() != "--security-only"@.len());
        assert("upgrade"@.len() != "--security"@.len());
        assert("--refresh"@.len() != "--security"@.len());
        assert("update"@.len() != "security"@.len());
        assert("-y"@.len() != "security"@.len());
        assert("--install"@.len() != "--recommended"@.len());
    }
}

// ---------------------------------------------------------------------
// Logs
// ---------------------------------------------------------------------

/// SHA-256 of octets, as `ring` computes it.
pub uninterp spec fn sha256_digest(data: Seq<u8>) -> Seq<u8>;

/// `ring::digest::digest` with SHA-256: 32 octets that depend on the data
/// alone. It panics on more than 2^61 - 1 octets, which are left out.
#[verifier::external_body]
fn ring_sha256(data: &[u8]) -> (r: [u8; 32])
    requires
        data@.len() < 0x2000_0000_0000_0000,
    ensures
        r@ == sha256_digest(data@),
{
    ring::digest::digest(&ring::digest::SHA256, data).as_ref().try_into().unwrap()
}

/// Computes SHA-256 of octets that come piece by piece.
#[derive(Debug)]
pub struct Sha256 {
    data: Vec<u8>,
}

/// Begins to compute SHA-256.
pub fn sha2_sha256() -> (r: Sha256)
    ensures
        r.taken() == Seq::<u8>::empty(),
{
    Sha256 { data: Vec::new() }
}

impl Sha256 {
    /// The octets so far.
    pub closed spec fn taken(&self) -> Seq<u8> {
        self.data@
    }

    /// Takes more octets.
    pub fn update(&mut self, data: &[u8])
        ensures
            final(self).taken() == old(self).taken() + data@,
    {
        self.data.extend_from_slice(data);
        assert(self.data@ =~= old(self).data@ + data@);
    }

    /// SHA-256 of all octets.
    pub fn finalize(self) -> (r: [u8; 32])
        requires
            self.taken().len() < 0x2000_0000_0000_0000,
        ensures
            r@ == sha256_digest(self.taken()),
    {
        ring_sha256(self.data.as_slice())
    }
}

/// Number of the first `n` lines of which `p` holds.
pub open spec fn tally(l: Seq<Seq<char>>, p: spec_fn(Seq<char>) -> bool, n: int) -> nat
    decreases n,
{
    if n <= 0 {
        0
    } else {
        tally(l, p, n - 1) + if p(l[n - 1]) {
            1nat
        } else {
            0nat
        }
    }
}

/// Number of lines of a text of which `p` holds. The count begins anew
/// after 2^32.
pub open spec fn line_count(text: Seq<char>, p: spec_fn(Seq<char>) -> bool) -> int {
    tally(lines_of(text), p, lines_of(text).len() as int) as int % 0x1_0000_0000
}

/// Whether a line tells of an installed package.
pub open spec fn install_line() -> spec_fn(Seq<char>) -> bool {
    |l: Seq<char>| "Inst "@.is_prefix_of(l) || has_text(l, "Installed:"@)
}

/// Number of packages that a log tells of.
pub fn count_updates_installed(log: &str) -> (r: u32)
    ensures
        r == line_count(log@, install_line()),
{
    let chars = chars_of(log);
    let all = lines(chars.as_slice());
    let ghost l = texts(all@);
    let mut n: u32 = 0;
    let mut i: usize = 0;
    while i < all.len()
        invariant
            i <= all@.len(),
            l == texts(all@),
            n == tally(l, install_line(), i as int) % 0x1_0000_0000,
        decreases all@.len() - i,
    {
        assert(l[i as int] == all@[i as int]@);
        if starts_with(all[i], "Inst ") || contains(all[i], "Installed:") {
            n = n.wrapping_add(1);
        }
        i += 1;
    }
    n
}

/// Whether a log tells that the system is to be started anew.
pub fn log_indicates_reboot(log: &str) -> (r: bool)
    ensures
        r == (has_text(log@, "reboot"@) || has_text(log@, "restart"@)),
{
    let chars = chars_of(log);
    contains(chars.as_slice(), "reboot") || contains(chars.as_slice(), "restart")
}

/// What a tool has printed, and how it ended.
#[derive(Debug)]
pub struct MdmReport {
    pub stdout: Vec<u8>,
    pub stderr: Vec<u8>,
    pub success: bool,
    /// The way it ended, in words.
    pub status: String,
}

impl MdmReport {
    /// All that the tool has printed.
    pub open spec fn log(self) -> Seq<u8> {
        self.stdout@ + self.stderr@
    }

    fn whole_log(&self) -> (r: Vec<u8>)
        ensures
            r@ == self.log(),
    {
        let mut log: Vec<u8> = Vec::new();
        log.extend_from_slice(self.stdout.as_slice());
        log.extend_from_slice(self.stderr.as_slice());
        assert(log@ =~= self.log());
        log
    }
}

fn log_digest(log: &Vec<u8>) -> (r: [u8; 32])
    requires
        log@.len() < 0x2000_0000_0000_0000,
    ensures
        r@ == sha256_digest(log@),
{
    let mut hasher = sha2_sha256();
    hasher.update(log.as_slice());
    assert(Seq::<u8>::empty() + log@ =~= log@);
    hasher.finalize()
}

/// Whether the `i`-th of some commands went well; one that was not run did
/// not.
pub open spec fn went_well(ran: Seq<bool>, i: int) -> bool {
    0 <= i < ran.len() && ran[i]
}

fn did_well(ran: &Vec<bool>, i: usize) -> (r: bool)
    ensures
        r == went_well(ran@, i as int),
{
    i < ran.len() && ran[i]
}

/// The contents of a list of commands.
pub open spec fn plan_view(v: Seq<CommandLine>) -> Seq<CommandView> {
    v.map_values(|c: CommandLine| c@)
}

/// The error that no encrypted root device was found.
pub open spec fn no_luks() -> Seq<char> {
    "no LUKS-backed root device detected"@
}

// ---------------------------------------------------------------------
// Linux
// ---------------------------------------------------------------------

/// Device management of Linux hosts.
#[derive(Debug, Clone, Copy)]
pub struct LinuxMdmProvider {}

impl Default for LinuxMdmProvider {
    fn default() -> (r: Self)
        ensures
            r == (LinuxMdmProvider {  }),
    {
        LinuxMdmProvider {  }
    }
}

/// The encrypted device that a line of `mounts` shows under the root.
pub open spec fn root_device_on(line: Seq<char>) -> Option<Seq<char>> {
    let w = words_of(line);
    if w.len() >= 2 && w[1] == "/"@ && ("/dev/mapper/"@.is_prefix_of(w[0])
        || "/dev/dm-"@.is_prefix_of(w[0])) {
        Some(w[0])
    } else {
        None
    }
}

/// The device on the first line from the `i`-th on that shows one.
pub open spec fn root_device_from(l: Seq<Seq<char>>, i: int) -> Option<Seq<char>>
    decreases l.len() - i,
{
    if i < 0 || i >= l.len() {
        None
    } else {
        match root_device_on(l[i]) {
            Some(d) => Some(d),
            None => root_device_from(l, i + 1),
        }
    }
}

/// The encrypted device under the root, by the `mounts` file.
pub open spec fn root_device(mounts: Seq<char>) -> Option<Seq<char>> {
    root_device_from(lines_of(mounts), 0)
}

/// The commands of a wipe: the keys are erased; where the system is reset
/// too, the start of the device is overwritten and the system is started
/// anew.
pub open spec fn linux_wipe(opts: WipeOpts, dev: Seq<char>) -> Seq<CommandView> {
    let shred = command("cryptsetup"@, seq!["luksErase"@, "--batch-mode"@, dev]);
    if resets(opts) {
        seq![
            shred,
            command(
                "dd"@,
                seq![
                    "if=/dev/urandom"@,
                    "of="@ + dev,
                    "bs=1M"@,
                    "count=10"@,
                    "conv=notrunc"@,
                ],
            ),
            command("systemctl"@, seq!["--force"@, "--force"@, "reboot"@]),
        ]
    } else {
        seq![shred]
    }
}

/// Places where tools that install updates are looked for, the preferred
/// first.
pub open spec fn update_tool(i: int) -> Seq<char> {
    if i == 0 {
        "/usr/bin/unattended-upgrade"@
    } else if i == 1 {
        "/usr/sbin/unattended-upgrade"@
    } else if i == 2 {
        "/usr/bin/dnf"@
    } else if i == 3 {
        "/usr/bin/dnf-automatic"@
    } else {
        "/usr/bin/zypper"@
    }
}

/// Number of places where tools are looked for.
pub const UPDATE_TOOLS: usize = 5;

/// Index of the first place from the `i`-th on at which a tool was found.
pub open spec fn first_present(present: Seq<bool>, i: int) -> Option<int>
    decreases present.len() - i,
{
    if i < 0 || i >= present.len() {
        None
    } else if present[i] {
        Some(i)
    } else {
        first_present(present, i + 1)
    }
}

/// The arguments with which a tool installs updates.
pub open spec fn tool_arguments(tool: Seq<char>, opts: OsUpdateOpts) -> Seq<Seq<char>> {
    if "zypper"@.is_suffix_of(tool) {
        zypper_args_for(opts)
    } else if "dnf-automatic"@.is_suffix_of(tool) {
        seq!["--installupdates"@]
    } else if "/dnf"@.is_suffix_of(tool) {
        dnf_upgrade_args_for(opts)
    } else {
        unattended_upgrade_args_for(opts)
    }
}

fn command_with(program: &str, args: &Vec<&'static str>) -> (r: CommandLine)
    ensures
        r@ == command(program@, strs(args@)),
{
    let mut c = CommandLine::new(program);
    let mut i: usize = 0;
    assert(strs(args@).take(0) =~= Seq::empty());
    while i < args.len()
        invariant
            i <= args@.len(),
            c@ == command(program@, strs(args@).take(i as int)),
        decreases args@.len() - i,
    {
        c = c.arg(args[i]);
        assert(strs(args@).take(i + 1) =~= strs(args@).take(i as int).push(args@[i as int]@));
        i += 1;
    }
    assert(strs(args@).take(i as int) =~= strs(args@));
    c
}

/// What is to be done next to switch the firewall on.
#[derive(Debug)]
pub enum FirewallStep {
    Run(CommandLine),
    Done(Result<(), MdmError>),
}

/// Whether a step is the right one after the commands so far; `None` stands
/// for a command that could not be run. `firewalld` is tried first, the
/// packet filter next. The second command of each only rounds off the first.
pub open spec fn firewall_step(ran: Seq<Option<bool>>, step: FirewallStep) -> bool {
    let yes = Some(true);
    if ran.len() == 0 {
        step matches FirewallStep::Run(c) && c@ == command(
            "firewall-cmd"@,
            seq!["--set-default-zone=public"@, "--permanent"@],
        )
    } else if ran[0] == yes {
        if ran.len() == 1 {
            step matches FirewallStep::Run(c) && c@ == command("firewall-cmd"@, seq!["--reload"@])
        } else {
            step matches FirewallStep::Done(r) && r is Ok
        }
    } else if ran.len() == 1 {
        step matches FirewallStep::Run(c) && c@ == command(
            "nft"@,
            seq!["add"@, "table"@, "inet"@, "filter"@],
        )
    } else if ran[1] == yes {
        if ran.len() == 2 {
            step matches FirewallStep::Run(c) && c@ == command(
                "nft"@,
                seq![
                    "add"@,
                    "chain"@,
                    "inet"@,
                    "filter"@,
                    "input"@,
                    "{ type filter hook input priority 0 ; policy drop ; }"@,
                ],
            )
        } else {
            step matches FirewallStep::Done(r) && r is Ok
        }
    } else {
        step matches FirewallStep::Done(r) && r is Err && r->Err_0 is Unsupported
            && r->Err_0->Unsupported_0@ == "neither firewalld nor nftables is available"@
    }
}

fn is_yes(o: &Option<bool>) -> (r: bool)
    ensures
        r == (*o == Some(true)),
{
    match o {
        Some(b) => *b,
        None => false,
    }
}

/// Whether `r` is the key that a tool has shown: all it has printed where it
/// went well, and otherwise what it complained of.
pub open spec fn escrowed(
    report: Result<MdmReport, String>,
    key_type: RecoveryKeyType,
    label: Seq<char>,
    r: Result<RawRecoveryKey, MdmError>,
) -> bool {
    match report {
        Err(e) => r == Err::<RawRecoveryKey, MdmError>(MdmError::Io(e)),
        Ok(rep) => if rep.success {
            r is Ok && r->Ok_0.key_type == key_type && r->Ok_0.material == rep.stdout
        } else {
            r is Err && r->Err_0 is Command && r->Err_0->Command_0@ == label + lossy_utf8(
                rep.stderr@,
            )
        },
    }
}

impl LinuxMdmProvider {
    pub fn new() -> (r: LinuxMdmProvider)
        ensures
            r == (LinuxMdmProvider {  }),
    {
        LinuxMdmProvider {  }
    }

    /// The encrypted device under the root, by the `mounts` file. Lines that
    /// are not those of a mount are passed over.
    pub fn root_luks_device(mounts: &str) -> (r: Option<String>)
        ensures
            opt_view(r) == root_device(mounts@),
    {
        let chars = chars_of(mounts);
        let all = lines(chars.as_slice());
        let ghost l = texts(all@);
        let mut i: usize = 0;
        while i < all.len()
            invariant
                i <= all@.len(),
                l == texts(all@),
                l == lines_of(mounts@),
                root_device_from(l, 0) == root_device_from(l, i as int),
            decreases all@.len() - i,
        {
            assert(l[i as int] == all@[i as int]@);
            let w = words(all[i]);
            assert(texts(w@).len() == w@.len());
            if w.len() >= 2 {
                assert(texts(w@)[0] == w@[0]@ && texts(w@)[1] == w@[1]@);
                if is_text(w[1], "/") && (starts_with(w[0], "/dev/mapper/") || starts_with(
                    w[0],
                    "/dev/dm-",
                )) {
                    return Some(string_of(w[0]));
                }
            }
            i += 1;
        }
        None
    }

    fn require_root(mounts: &str) -> (r: Result<String, MdmError>)
        ensures
            match r {
                Ok(d) => root_device(mounts@) == Some(d@),
                Err(e) => root_device(mounts@) is None && e is Unsupported && e->Unsupported_0@
                    == no_luks(),
            },
    {
        match LinuxMdmProvider::root_luks_device(mounts) {
            Some(d) => Ok(d),
            None => Err(MdmError::Unsupported("no LUKS-backed root device detected".to_owned())),
        }
    }

    /// The commands of a wipe; all are run, whatever comes of them.
    pub fn wipe_commands(&self, opts: &WipeOpts, mounts: &str) -> (r: Result<
        Vec<CommandLine>,
        MdmError,
    >)
        ensures
            match r {
                Ok(v) => root_device(mounts@) matches Some(d) && plan_view(v@) == linux_wipe(
                    *opts,
                    d,
                ),
                Err(e) => root_device(mounts@) is None && e is Unsupported && e->Unsupported_0@
                    == no_luks(),
            },
    {
        let dev = match LinuxMdmProvider::require_root(mounts) {
            Ok(d) => d,
            Err(e) => {
                return Err(e);
            },
        };
        let shred = CommandLine::new("cryptsetup").arg("luksErase").arg("--batch-mode").arg(
            dev.as_str(),
        );
        let mut plan: Vec<CommandLine> = vec![shred];
        assert(shred@ =~~= linux_wipe(*opts, dev@)[0]);
        if should_perform_factory_reset(opts) {
            let target = "of=".to_owned().concat(dev.as_str());
            let dd = CommandLine::new("dd").arg("if=/dev/urandom").arg(target.as_str()).arg(
                "bs=1M",
            ).arg("count=10").arg("conv=notrunc");
            let reboot = CommandLine::new("systemctl").arg("--force").arg("--force").arg("reboot");
            assert(dd@ =~~= linux_wipe(*opts, dev@)[1]);
            assert(reboot@ =~~= linux_wipe(*opts, dev@)[2]);
            plan.push(dd);
            plan.push(reboot);
        }
        assert(plan_view(plan@) =~= linux_wipe(*opts, dev@));
        Ok(plan)
    }

    /// What became of a wipe; `ran` tells which of its commands went well.
    pub fn wipe(
        &self,
        opts: &WipeOpts,
        mounts: &str,
        ran: &Vec<bool>,
        started_at: Timestamp,
    ) -> (r: Result<WipeOutcome, MdmError>)
        ensures
            match r {
                Ok(o) => root_device(mounts@) is Some && o == (WipeOutcome {
                    crypto_shred_succeeded: went_well(ran@, 0),
                    factory_reset_invoked: resets(*opts) && went_well(ran@, 2),
                    started_at,
                }),
                Err(e) => root_device(mounts@) is None && e is Unsupported && e->Unsupported_0@
                    == no_luks(),
            },
    {
        match LinuxMdmProvider::require_root(mounts) {
            Ok(_) => Ok(
                WipeOutcome {
                    crypto_shred_succeeded: did_well(ran, 0),
                    factory_reset_invoked: should_perform_factory_reset(opts) && did_well(ran, 2),
                    started_at,
                },
            ),
            Err(e) => Err(e),
        }
    }

    /// The command that locks all sessions.
    pub fn lock_command(&self) -> (r: CommandLine)
        ensures
            r@ == command("loginctl"@, seq!["lock-sessions"@]),
    {
        let c = CommandLine::new("loginctl").arg("lock-sessions");
        assert(c@ =~~= command("loginctl"@, seq!["lock-sessions"@]));
        c
    }

    /// Locks the sessions: `ran` tells whether the command went well, or why
    /// it could not be run. That it did not go well does no harm.
    pub fn lock(&self, ran: Result<bool, String>) -> (r: Result<(), MdmError>)
        ensures
            match ran {
                Ok(_) => r is Ok,
                Err(e) => r == Err::<(), MdmError>(MdmError::Io(e)),
            },
    {
        match ran {
            Ok(_) => Ok(()),
            Err(e) => Err(MdmError::Io(e)),
        }
    }

    /// The command that shows the key of the encrypted device.
    pub fn escrow_command(&self, mounts: &str) -> (r: Result<CommandLine, MdmError>)
        ensures
            match r {
                Ok(c) => root_device(mounts@) matches Some(d) && c@ == command(
                    "cryptsetup"@,
                    seq!["luksDump"@, "--dump-master-key"@, d],
                ),
                Err(e) => root_device(mounts@) is None && e is Unsupported && e->Unsupported_0@
                    == no_luks(),
            },
    {
        match LinuxMdmProvider::require_root(mounts) {
            Ok(dev) => {
                let c = CommandLine::new("cryptsetup").arg("luksDump").arg("--dump-master-key").arg(
                    dev.as_str(),
                );
                assert(c@ =~~= command(
                    "cryptsetup"@,
                    seq!["luksDump"@, "--dump-master-key"@, dev@],
                ));
                Ok(c)
            },
            Err(e) => Err(e),
        }
    }

    /// The key that the command has shown.
    pub fn escrow_recovery_key(&self, report: Result<MdmReport, String>) -> (r: Result<
        RawRecoveryKey,
        MdmError,
    >)
        ensures
            escrowed(
                report,
                RecoveryKeyType::Luks,
                "cryptsetup luksDump failed: "@,
                r,
            ),
    {
        match report {
            Err(e) => Err(MdmError::Io(e)),
            Ok(rep) => if rep.success {
                Ok(RawRecoveryKey { key_type: RecoveryKeyType::Luks, material: rep.stdout })
            } else {
                let words = lossy_text(rep.stderr.as_slice());
                Err(
                    MdmError::Command(
                        "cryptsetup luksDump failed: ".to_owned().concat(words.as_str()),
                    ),
                )
            },
        }
    }

    /// The places where tools that install updates are looked for.
    pub fn update_tools(&self) -> (r: Vec<&'static str>)
        ensures
            r@.len() == UPDATE_TOOLS,
            forall|i: int| 0 <= i < r@.len() ==> (#[trigger] r@[i])@ == update_tool(i),
    {
        vec![
            "/usr/bin/unattended-upgrade",
            "/usr/sbin/unattended-upgrade",
            "/usr/bin/dnf",
            "/usr/bin/dnf-automatic",
            "/usr/bin/zypper",
        ]
    }

    /// The preferred of the tools that are there; `present` tells that of
    /// each place.
    pub fn detect_update_tool(&self, present: &Vec<bool>) -> (r: Option<&'static str>)
        requires
            present@.len() <= UPDATE_TOOLS,
        ensures
            match r {
                Some(t) => first_present(present@, 0) matches Some(i) && t@ == update_tool(i),
                None => first_present(present@, 0) is None,
            },
    {
        let tools = self.update_tools();
        let mut i: usize = 0;
        while i < present.len()
            invariant
                i <= present@.len() <= UPDATE_TOOLS,
                tools@.len() == UPDATE_TOOLS,
                forall|k: int| 0 <= k < tools@.len() ==> (#[trigger] tools@[k])@ == update_tool(k),
                first_present(present@, 0) == first_present(present@, i as int),
            decreases present@.len() - i,
        {
            if present[i] {
                return Some(tools[i]);
            }
            i += 1;
        }
        None
    }

    /// The command with which a tool installs updates.
    pub fn update_command(&self, tool: Option<&str>, opts: &OsUpdateOpts) -> (r: Result<
        CommandLine,
        MdmError,
    >)
        ensures
            match tool {
                Some(t) => r is Ok && r->Ok_0@ == command(t@, tool_arguments(t@, *opts)),
                None => r is Err && r->Err_0 is Unsupported && r->Err_0->Unsupported_0@
                    == "no supported OS update tool"@,
            },
    {
        match tool {
            Some(t) => {
                let chars = chars_of(t);
                let name = chars.as_slice();
                let args = if ends_with(name, "zypper") {
                    zypper_args(opts)
                } else if ends_with(name, "dnf-automatic") {
                    dnf_automatic_args(opts)
                } else if ends_with(name, "/dnf") {
                    dnf_upgrade_args(opts)
                } else {
                    unattended_upgrade_args(opts)
                };
                Ok(command_with(t, &args))
            },
            None => Err(MdmError::Unsupported("no supported OS update tool".to_owned())),
        }
    }

    /// What became of an installation: `report` is what the tool has
    /// printed, or why it could not be run.
    pub fn install_os_updates(&self, report: Result<MdmReport, String>) -> (r: Result<
        OsUpdateOutcome,
        MdmError,
    >)
        requires
            report matches Ok(rep) ==> rep.log().len() < 0x2000_0000_0000_0000,
        ensures
            match report {
                Ok(rep) => {
                    &&& r is Ok
                    &&& r->Ok_0.updates_installed == line_count(lossy_utf8(rep.log()), install_line())
                    &&& r->Ok_0.reboot_required == (
                        has_text(lossy_utf8(rep.log()), "reboot"@)
                        || has_text(lossy_utf8(rep.log()), "restart"@)
                    )
                    &&& r->Ok_0.log_sha256@ == sha256_digest(rep.log())
                },
                Err(e) => r == Err::<OsUpdateOutcome, MdmError>(MdmError::Io(e)),
            },
    {
        match report {
            Ok(rep) => {
                let log = rep.whole_log();
                let text = lossy_text(log.as_slice());
                Ok(
                    OsUpdateOutcome {
                        updates_installed: count_updates_installed(text.as_str()),
                        reboot_required: log_indicates_reboot(text.as_str()),
                        log_sha256: log_digest(&log),
                    },
                )
            },
            Err(e) => Err(MdmError::Io(e)),
        }
    }

    /// The commands that apply a configuration profile; all are run, whatever
    /// comes of them.
    pub fn profile_commands(&self) -> (r: Vec<CommandLine>)
        ensures
            plan_view(r@) == seq![
                command(
                    "dconf"@,
                    seq!["write"@, "/org/gnome/desktop/lockdown/disable-camera"@, "false"@],
                ),
                command(
                    "dconf"@,
                    seq!["write"@, "/org/gnome/desktop/screensaver/lock-enabled"@, "true"@],
                ),
            ],
    {
        let c0 = CommandLine::new("dconf")
            .arg("write")
            .arg("/org/gnome/desktop/lockdown/disable-camera")
            .arg("false");
        assert(c0@ =~~= command(
            "dconf"@,
            seq!["write"@, "/org/gnome/desktop/lockdown/disable-camera"@, "false"@],
        ));
        let c1 = CommandLine::new("dconf")
            .arg("write")
            .arg("/org/gnome/desktop/screensaver/lock-enabled")
            .arg("true");
        assert(c1@ =~~= command(
            "dconf"@,
            seq!["write"@, "/org/gnome/desktop/screensaver/lock-enabled"@, "true"@],
        ));
        let r = vec![c0, c1];
        assert(plan_view(r@) =~= seq![
                command(
                    "dconf"@,
                    seq!["write"@, "/org/gnome/desktop/lockdown/disable-camera"@, "false"@],
                ),
                command(
                    "dconf"@,
                    seq!["write"@, "/org/gnome/desktop/screensaver/lock-enabled"@, "true"@],
                ),
            ]);
        r
    }

    /// A profile counts as applied once its commands were run.
    pub fn apply_config_profile(&self) -> (r: Result<(), MdmError>)
        ensures
            r is Ok,
    {
        Ok(())
    }

    /// A root device in use cannot be encrypted afterwards.
    pub fn enable_disk_encryption(&self) -> (r: Result<EncryptionOutcome, MdmError>)
        ensures
            r is Err,
            r->Err_0 is Unsupported,
            r->Err_0->Unsupported_0@
                == "Linux luksFormat retrofit on a live root device is not supported"@,
    {
        Err(
            MdmError::Unsupported(
                "Linux luksFormat retrofit on a live root device is not supported".to_owned(),
            ),
        )
    }

    /// What is to be done next to switch the firewall on; `ran` tells what
    /// became of the commands so far.
    pub fn enable_firewall(&self, ran: &Vec<Option<bool>>) -> (r: FirewallStep)
        ensures
            firewall_step(ran@, r),
    {
        if ran.len() == 0 {
            let c = CommandLine::new("firewall-cmd").arg("--set-default-zone=public").arg(
                "--permanent",
            );
            assert(c@ =~~= command(
                "firewall-cmd"@,
                seq!["--set-default-zone=public"@, "--permanent"@],
            ));
            return FirewallStep::Run(c);
        }
        if is_yes(&ran[0]) {
            if ran.len() == 1 {
                let c = CommandLine::new("firewall-cmd").arg("--reload");
                assert(c@ =~~= command("firewall-cmd"@, seq!["--reload"@]));
                return FirewallStep::Run(c);
            }
            return FirewallStep::Done(Ok(()));
        }
        if ran.len() == 1 {
            let c = CommandLine::new("nft").arg("add").arg("table").arg("inet").arg("filter");
            assert(c@ =~~= command("nft"@, seq!["add"@, "table"@, "inet"@, "filter"@]));
            return FirewallStep::Run(c);
        }
        if is_yes(&ran[1]) {
            if ran.len() == 2 {
                let c = CommandLine::new("nft").arg("add").arg("chain").arg("inet").arg("filter").arg(
                    "input",
                ).arg("{ type filter hook input priority 0 ; policy drop ; }");
                assert(c@ =~~= command(
                    "nft"@,
                    seq![
                        "add"@,
                        "chain"@,
                        "inet"@,
                        "filter"@,
                        "input"@,
                        "{ type filter hook input priority 0 ; policy drop ; }"@,
                    ],
                ));
                return FirewallStep::Run(c);
            }
            return FirewallStep::Done(Ok(()));
        }
        FirewallStep::Done(
            Err(MdmError::Unsupported("neither firewalld nor nftables is available".to_owned())),
        )
    }

    /// The commands that set the screen lock; all are run, whatever comes of
    /// them.
    pub fn screen_lock_commands(&self, timeout_secs: u32) -> (r: Vec<CommandLine>)
        ensures
            plan_view(r@) == seq![
                command(
                    "dconf"@,
                    seq![
                        "write"@,
                        "/org/gnome/desktop/session/idle-delay"@,
                        "uint32 "@ + numeral(timeout_secs as nat, 10),
                    ],
                ),
                command(
                    "dconf"@,
                    seq!["write"@, "/org/gnome/desktop/screensaver/lock-enabled"@, "true"@],
                ),
            ],
    {
        let idle = "uint32 ".to_owned().concat(decimal(timeout_secs as u64).as_str());
        let c0 = CommandLine::new("dconf").arg("write").arg(
            "/org/gnome/desktop/session/idle-delay",
        ).arg(idle.as_str());
        let c1 = CommandLine::new("dconf").arg("write").arg(
            "/org/gnome/desktop/screensaver/lock-enabled",
        ).arg("true");
        assert(c0@ =~~= command(
            "dconf"@,
            seq!["write"@, "/org/gnome/desktop/session/idle-delay"@, idle@],
        ));
        assert(c1@ =~~= command(
            "dconf"@,
            seq!["write"@, "/org/gnome/desktop/screensaver/lock-enabled"@, "true"@],
        ));
        let r = vec![c0, c1];
        assert(plan_view(r@) =~= seq![c0@, c1@]);
        r
    }

    /// The screen lock counts as set once its commands were run.
    pub fn set_screen_lock(&self) -> (r: Result<(), MdmError>)
        ensures
            r is Ok,
    {
        Ok(())
    }

    /// The commands that begin lost mode.
    pub fn enter_lost_mode_commands(&self) -> (r: Vec<CommandLine>)
        ensures
            plan_view(r@) == seq![
                command("systemctl"@, seq!["start"@, "sda-mdm-lost-mode.service"@]),
                command("loginctl"@, seq!["lock-sessions"@]),
            ],
    {
        let c0 = CommandLine::new("systemctl").arg("start").arg("sda-mdm-lost-mode.service");
        assert(c0@ =~~= command("systemctl"@, seq!["start"@, "sda-mdm-lost-mode.service"@]));
        let c1 = CommandLine::new("loginctl").arg("lock-sessions");
        assert(c1@ =~~= command("loginctl"@, seq!["lock-sessions"@]));
        let r = vec![c0, c1];
        assert(plan_view(r@) =~= seq![
                command("systemctl"@, seq!["start"@, "sda-mdm-lost-mode.service"@]),
                command("loginctl"@, seq!["lock-sessions"@]),
            ]);
        r
    }

    /// Lost mode counts as begun once its commands were run.
    pub fn enter_lost_mode(&self) -> (r: Result<(), MdmError>)
        ensures
            r is Ok,
    {
        Ok(())
    }

    /// The commands that end lost mode.
    pub fn exit_lost_mode_commands(&self) -> (r: Vec<CommandLine>)
        ensures
            plan_view(r@) == seq![
                command("systemctl"@, seq!["stop"@, "sda-mdm-lost-mode.service"@]),
                command("loginctl"@, seq!["unlock-sessions"@]),
            ],
    {
        let c0 = CommandLine::new("systemctl").arg("stop").arg("sda-mdm-lost-mode.service");
        assert(c0@ =~~= command("systemctl"@, seq!["stop"@, "sda-mdm-lost-mode.service"@]));
        let c1 = CommandLine::new("loginctl").arg("unlock-sessions");
        assert(c1@ =~~= command("loginctl"@, seq!["unlock-sessions"@]));
        let r = vec![c0, c1];
        assert(plan_view(r@) =~= seq![
                command("systemctl"@, seq!["stop"@, "sda-mdm-lost-mode.service"@]),
                command("loginctl"@, seq!["unlock-sessions"@]),
            ]);
        r
    }

    /// Lost mode counts as ended once its commands were run.
    pub fn exit_lost_mode(&self) -> (r: Result<(), MdmError>)
        ensures
            r is Ok,
    {
        Ok(())
    }
}

/// A wipe that only destroys keys never touches the device otherwise, never
/// starts the system anew and never counts as a reset.
pub proof fn law_crypto_shred_stops_there(opts: WipeOpts, dev: Seq<char>)
    requires
        opts.crypto_shred_only,
    ensures
        linux_wipe(opts, dev) == seq![
            command("cryptsetup"@, seq!["luksErase"@, "--batch-mode"@, dev]),
        ],
        macos_wipe(opts) == seq![
            command("fdesetup"@, seq!["removerecovery"@, "-personal"@]),
        ],
        windows_wipe(opts) == seq![command("manage-bde"@, seq!["-off"@, "C:"@])],
        !resets(opts),
{
}

/// Both kinds of wipe destroy the keys first.
pub proof fn law_keys_go_first(opts: WipeOpts, dev: Seq<char>)
    ensures
        linux_wipe(opts, dev)[0] == command(
            "cryptsetup"@,
            seq!["luksErase"@, "--batch-mode"@, dev],
        ),
        macos_wipe(opts)[0] == command("fdesetup"@, seq!["removerecovery"@, "-personal"@]),
        windows_wipe(opts)[0] == command("manage-bde"@, seq!["-off"@, "C:"@]),
{
}

// ---------------------------------------------------------------------
// macOS
// ---------------------------------------------------------------------

/// Device management of macOS hosts.
#[derive(Debug, Clone, Copy)]
pub struct MacMdmProvider {}

impl Default for MacMdmProvider {
    fn default() -> (r: Self)
        ensures
            r == (MacMdmProvider {  }),
    {
        MacMdmProvider {  }
    }
}

/// Whether a line lists an update.
pub open spec fn star_line() -> spec_fn(Seq<char>) -> bool {
    |l: Seq<char>| "* "@.is_prefix_of(drop_front(l, space()))
}

/// The commands of a wipe: the keys are destroyed; where the system is reset
/// too, that follows.
pub open spec fn macos_wipe(opts: WipeOpts) -> Seq<CommandView> {
    let shred = command("fdesetup"@, seq!["removerecovery"@, "-personal"@]);
    if resets(opts) {
        seq![shred, command("/usr/bin/sudo"@, seq!["nvram"@, "obliterate=%01"@])]
    } else {
        seq![shred]
    }
}

/// Whether `r` is what becomes of a command that has to go well: `ran` tells
/// that it did, the way it ended otherwise, or why it could not be run.
pub open spec fn status_told(
    ran: Result<Result<(), String>, String>,
    label: Seq<char>,
    r: Result<(), MdmError>,
) -> bool {
    match ran {
        Ok(Ok(_)) => r is Ok,
        Ok(Err(status)) => r is Err && r->Err_0 is Command && r->Err_0->Command_0@ == label
            + status@,
        Err(e) => r == Err::<(), MdmError>(MdmError::Io(e)),
    }
}

/// The two hexadecimal digits of an octet.
pub open spec fn hex_pair(b: u8) -> Seq<char> {
    seq![digit_char((b / 16) as nat), digit_char((b % 16) as nat)]
}

/// The hexadecimal digits of the octets from index `i` up to `j`.
pub open spec fn hex_run(b: Seq<u8>, i: int, j: int) -> Seq<char>
    decreases j - i,
{
    if i >= j {
        Seq::empty()
    } else {
        hex_pair(b[i]) + hex_run(b, i + 1, j)
    }
}

/// An identifier as text: its digits in groups of 8, 4, 4, 4 and 12.
pub open spec fn uuid_text(b: Seq<u8>) -> Seq<char> {
    hex_run(b, 0, 4) + "-"@ + hex_run(b, 4, 6) + "-"@ + hex_run(b, 6, 8) + "-"@ + hex_run(b, 8, 10)
        + "-"@ + hex_run(b, 10, 16)
}

/// `uuid::Uuid` as `Display` writes it: lower-case hexadecimal digits in
/// groups of 8, 4, 4, 4 and 12 with hyphens between them.
#[verifier::external_body]
fn uuid_display(bytes: [u8; 16]) -> (r: String)
    ensures
        r@ == uuid_text(bytes@),
{
    uuid::Uuid::from_bytes(bytes).to_string()
}

impl MacMdmProvider {
    pub fn new() -> (r: MacMdmProvider)
        ensures
            r == (MacMdmProvider {  }),
    {
        MacMdmProvider {  }
    }

    /// Number of updates that `softwareupdate` lists.
    pub fn parse_softwareupdate_count(stdout: &str) -> (r: u32)
        ensures
            r == line_count(stdout@, star_line()),
    {
        let chars = chars_of(stdout);
        let all = lines(chars.as_slice());
        let ghost l = texts(all@);
        let mut n: u32 = 0;
        let mut i: usize = 0;
        while i < all.len()
            invariant
                i <= all@.len(),
                l == texts(all@),
                n == tally(l, star_line(), i as int) % 0x1_0000_0000,
            decreases all@.len() - i,
        {
            assert(l[i as int] == all@[i as int]@);
            if starts_with(trim_start(all[i]), "* ") {
                n = n.wrapping_add(1);
            }
            i += 1;
        }
        n
    }

    /// The commands of a wipe; all are run, whatever comes of them.
    pub fn wipe_commands(&self, opts: &WipeOpts) -> (r: Vec<CommandLine>)
        ensures
            plan_view(r@) == macos_wipe(*opts),
    {
        let shred = CommandLine::new("fdesetup").arg("removerecovery").arg("-personal");
        assert(shred@ =~~= macos_wipe(*opts)[0]);
        let mut plan: Vec<CommandLine> = vec![shred];
        if should_perform_factory_reset(opts) {
            let reset = CommandLine::new("/usr/bin/sudo").arg("nvram").arg("obliterate=%01");
            assert(reset@ =~~= macos_wipe(*opts)[1]);
            plan.push(reset);
        }
        assert(plan_view(plan@) =~= macos_wipe(*opts));
        plan
    }

    /// What became of a wipe; `ran` tells which of its commands went well.
    pub fn wipe(&self, opts: &WipeOpts, ran: &Vec<bool>, started_at: Timestamp) -> (r: Result<
        WipeOutcome,
        MdmError,
    >)
        ensures
            r == Ok::<WipeOutcome, MdmError>(
                WipeOutcome {
                    crypto_shred_succeeded: true,
                    factory_reset_invoked: resets(*opts) && went_well(ran@, 1),
                    started_at,
                },
            ),
    {
        Ok(
            WipeOutcome {
                crypto_shred_succeeded: true,
                factory_reset_invoked: should_perform_factory_reset(opts) && did_well(ran, 1),
                started_at,
            },
        )
    }

    /// The command that locks the session.
    pub fn lock_command(&self) -> (r: CommandLine)
        ensures
            r@ == command(
                "/System/Library/CoreServices/Menu Extras/User.menu/Contents/Resources/CGSession"@,
                seq!["-suspend"@],
            ),
    {
        let c = CommandLine::new(
            "/System/Library/CoreServices/Menu Extras/User.menu/Contents/Resources/CGSession",
        )
            .arg("-suspend");
        assert(c@ =~~= command(
            "/System/Library/CoreServices/Menu Extras/User.menu/Contents/Resources/CGSession"@,
            seq!["-suspend"@],
        ));
        c
    }

    /// Locks the sessions: `ran` tells whether the command went well, or why
    /// it could not be run. That it did not go well does no harm.
    pub fn lock(&self, ran: Result<bool, String>) -> (r: Result<(), MdmError>)
        ensures
            match ran {
                Ok(_) => r is Ok,
                Err(e) => r == Err::<(), MdmError>(MdmError::Io(e)),
            },
    {
        match ran {
            Ok(_) => Ok(()),
            Err(e) => Err(MdmError::Io(e)),
        }
    }

    /// The command that shows the recovery key.
    pub fn escrow_command(&self) -> (r: CommandLine)
        ensures
            r@ == command("fdesetup"@, seq!["showrecoverykey"@]),
    {
        let c = CommandLine::new("fdesetup").arg("showrecoverykey");
        assert(c@ =~~= command("fdesetup"@, seq!["showrecoverykey"@]));
        c
    }

    /// The key that the command has shown.
    pub fn escrow_recovery_key(&self, report: Result<MdmReport, String>) -> (r: Result<
        RawRecoveryKey,
        MdmError,
    >)
        ensures
            escrowed(
                report,
                RecoveryKeyType::FileVault,
                "fdesetup showrecoverykey failed: "@,
                r,
            ),
    {
        match report {
            Err(e) => Err(MdmError::Io(e)),
            Ok(rep) => if rep.success {
                Ok(RawRecoveryKey { key_type: RecoveryKeyType::FileVault, material: rep.stdout })
            } else {
                let words = lossy_text(rep.stderr.as_slice());
                Err(
                    MdmError::Command(
                        "fdesetup showrecoverykey failed: ".to_owned().concat(words.as_str()),
                    ),
                )
            },
        }
    }

    /// The command that installs updates.
    pub fn update_command(&self, opts: &OsUpdateOpts) -> (r: CommandLine)
        ensures
            r@ == command("softwareupdate"@, softwareupdate_args_for(*opts)),
    {
        command_with("softwareupdate", &softwareupdate_args(opts))
    }

    /// What became of an installation: `report` is what the tool has
    /// printed, or why it could not be run.
    pub fn install_os_updates(&self, report: Result<MdmReport, String>) -> (r: Result<
        OsUpdateOutcome,
        MdmError,
    >)
        requires
            report matches Ok(rep) ==> rep.log().len() < 0x2000_0000_0000_0000,
        ensures
            match report {
                Ok(rep) => {
                    &&& r is Ok
                    &&& r->Ok_0.updates_installed == line_count(lossy_utf8(rep.log()), star_line())
                    &&& r->Ok_0.reboot_required == (
                        has_text(lossy_utf8(rep.log()), "Restart"@)
                        || has_text(lossy_utf8(rep.log()), "restart"@)
                    )
                    &&& r->Ok_0.log_sha256@ == sha256_digest(rep.log())
                },
                Err(e) => r == Err::<OsUpdateOutcome, MdmError>(MdmError::Io(e)),
            },
    {
        match report {
            Ok(rep) => {
                let log = rep.whole_log();
                let text = lossy_text(log.as_slice());
                let chars = chars_of(text.as_str());
                Ok(
                    OsUpdateOutcome {
                        updates_installed: MacMdmProvider::parse_softwareupdate_count(text.as_str()),
                        reboot_required: contains(chars.as_slice(), "Restart")
                            || contains(chars.as_slice(), "restart"),
                        log_sha256: log_digest(&log),
                    },
                )
            },
            Err(e) => Err(MdmError::Io(e)),
        }
    }

    /// Name of the file that a profile is written to.
    pub fn profile_file_name(&self, profile: &SignedConfigProfile) -> (r: String)
        ensures
            r@ == "sn360-mdm-"@ + uuid_text(profile.profile_id.bytes@) + ".json"@,
    {
        "sn360-mdm-".to_owned().concat(uuid_display(profile.profile_id.bytes).as_str()).concat(
            ".json",
        )
    }

    /// The command that installs the profile in the file at `path`.
    pub fn profile_command(&self, path: &str) -> (r: CommandLine)
        ensures
            r@ == command("profiles"@, seq!["install"@, "-path="@ + path@]),
    {
        let arg = "-path=".to_owned().concat(path);
        let c = CommandLine::new("profiles").arg("install").arg(arg.as_str());
        assert(c@ =~~= command("profiles"@, seq!["install"@, "-path="@ + path@]));
        c
    }

    /// What became of installing a profile.
    pub fn apply_config_profile(&self, ran: Result<Result<(), String>, String>) -> (r: Result<(), MdmError>)
        ensures
            status_told(ran, "profiles install returned "@, r),
    {
        match ran {
            Ok(Ok(_)) => Ok(()),
            Ok(Err(status)) => Err(
                MdmError::Command("profiles install returned ".to_owned().concat(status.as_str())),
            ),
            Err(e) => Err(MdmError::Io(e)),
        }
    }

    /// The command that switches on disk encryption.
    pub fn encryption_command(&self) -> (r: CommandLine)
        ensures
            r@ == command("fdesetup"@, seq!["enable"@, "-defer"@, "/var/db/sn360-mdm-fdesetup.plist"@]),
    {
        let c = CommandLine::new("fdesetup")
            .arg("enable")
            .arg("-defer")
            .arg("/var/db/sn360-mdm-fdesetup.plist");
        assert(c@ =~~= command(
            "fdesetup"@,
            seq!["enable"@, "-defer"@, "/var/db/sn360-mdm-fdesetup.plist"@],
        ));
        c
    }

    /// What became of switching on disk encryption: `ran` tells whether the
    /// command went well, or why it could not be run.
    pub fn enable_disk_encryption(&self, ran: Result<bool, String>) -> (r: Result<
        EncryptionOutcome,
        MdmError,
    >)
        ensures
            match ran {
                Ok(ok) => r is Ok && r->Ok_0.enabled == ok && !r->Ok_0.recovery_key_escrowed
                    && r->Ok_0.provider@ == "filevault"@,
                Err(e) => r == Err::<EncryptionOutcome, MdmError>(MdmError::Io(e)),
            },
    {
        match ran {
            Ok(ok) => Ok(
                EncryptionOutcome {
                    enabled: ok,
                    recovery_key_escrowed: false,
                    provider: "filevault".to_owned(),
                },
            ),
            Err(e) => Err(MdmError::Io(e)),
        }
    }

    /// The command that switches on the firewall.
    pub fn firewall_command(&self) -> (r: CommandLine)
        ensures
            r@ == command(
                "/usr/libexec/ApplicationFirewall/socketfilterfw"@,
                seq!["--setglobalstate"@, "on"@],
            ),
    {
        let c = CommandLine::new("/usr/libexec/ApplicationFirewall/socketfilterfw")
            .arg("--setglobalstate")
            .arg("on");
        assert(c@ =~~= command(
            "/usr/libexec/ApplicationFirewall/socketfilterfw"@,
            seq!["--setglobalstate"@, "on"@],
        ));
        c
    }

    /// The command that follows where that went well, whatever comes of it.
    pub fn firewall_follow_up(&self) -> (r: CommandLine)
        ensures
            r@ == command(
                "/usr/libexec/ApplicationFirewall/socketfilterfw"@,
                seq!["--setblockall"@, "off"@],
            ),
    {
        let c = CommandLine::new("/usr/libexec/ApplicationFirewall/socketfilterfw")
            .arg("--setblockall")
            .arg("off");
        assert(c@ =~~= command(
            "/usr/libexec/ApplicationFirewall/socketfilterfw"@,
            seq!["--setblockall"@, "off"@],
        ));
        c
    }

    /// What became of switching on the firewall.
    pub fn enable_firewall(&self, ran: Result<Result<(), String>, String>) -> (r: Result<(), MdmError>)
        ensures
            status_told(ran, "socketfilterfw --setglobalstate on returned "@, r),
    {
        match ran {
            Ok(Ok(_)) => Ok(()),
            Ok(Err(status)) => Err(
                MdmError::Command(
                    "socketfilterfw --setglobalstate on returned ".to_owned().concat(
                        status.as_str(),
                    ),
                ),
            ),
            Err(e) => Err(MdmError::Io(e)),
        }
    }

    /// The commands that set the screen lock; all are run, whatever comes of
    /// them.
    pub fn screen_lock_commands(&self, timeout_secs: u32) -> (r: Vec<CommandLine>)
        ensures
            plan_view(r@) == seq![
                command(
                    "defaults"@,
                    seq![
                        "-currentHost"@,
                        "write"@,
                        "com.apple.screensaver"@,
                        "idleTime"@,
                        numeral(timeout_secs as nat, 10),
                    ],
                ),
                command(
                    "defaults"@,
                    seq!["write"@, "com.apple.screensaver"@, "askForPassword"@, "1"@],
                ),
            ],
    {
        let secs = decimal(timeout_secs as u64);
        let c0 = CommandLine::new("defaults").arg("-currentHost").arg("write").arg(
            "com.apple.screensaver",
        ).arg("idleTime").arg(secs.as_str());
        let c1 = CommandLine::new("defaults").arg("write").arg("com.apple.screensaver").arg(
            "askForPassword",
        ).arg("1");
        assert(c0@ =~~= command(
            "defaults"@,
            seq!["-currentHost"@, "write"@, "com.apple.screensaver"@, "idleTime"@, secs@],
        ));
        assert(c1@ =~~= command(
            "defaults"@,
            seq!["write"@, "com.apple.screensaver"@, "askForPassword"@, "1"@],
        ));
        let r = vec![c0, c1];
        assert(plan_view(r@) =~= seq![c0@, c1@]);
        r
    }

    /// The screen lock counts as set once its commands were run.
    pub fn set_screen_lock(&self) -> (r: Result<(), MdmError>)
        ensures
            r is Ok,
    {
        Ok(())
    }

    /// The command that begins lost mode.
    pub fn enter_lost_mode_command(&self) -> (r: CommandLine)
        ensures
            r@ == command(
                "launchctl"@,
                seq!["load"@, "/Library/LaunchDaemons/com.sn360.sda.mdm.lost-mode.plist"@],
            ),
    {
        let c = CommandLine::new("launchctl")
            .arg("load")
            .arg("/Library/LaunchDaemons/com.sn360.sda.mdm.lost-mode.plist");
        assert(c@ =~~= command(
            "launchctl"@,
            seq!["load"@, "/Library/LaunchDaemons/com.sn360.sda.mdm.lost-mode.plist"@],
        ));
        c
    }

    /// Lost mode counts as begun once its command was run.
    pub fn enter_lost_mode(&self) -> (r: Result<(), MdmError>)
        ensures
            r is Ok,
    {
        Ok(())
    }

    /// The command that ends lost mode.
    pub fn exit_lost_mode_command(&self) -> (r: CommandLine)
        ensures
            r@ == command(
                "launchctl"@,
                seq!["unload"@, "/Library/LaunchDaemons/com.sn360.sda.mdm.lost-mode.plist"@],
            ),
    {
        let c = CommandLine::new("launchctl")
            .arg("unload")
            .arg("/Library/LaunchDaemons/com.sn360.sda.mdm.lost-mode.plist");
        assert(c@ =~~= command(
            "launchctl"@,
            seq!["unload"@, "/Library/LaunchDaemons/com.sn360.sda.mdm.lost-mode.plist"@],
        ));
        c
    }

    /// Lost mode counts as ended once its command was run.
    pub fn exit_lost_mode(&self) -> (r: Result<(), MdmError>)
        ensures
            r is Ok,
    {
        Ok(())
    }
}

// ---------------------------------------------------------------------
// Windows
// ---------------------------------------------------------------------

/// Device management of Windows hosts.
#[derive(Debug, Clone, Copy)]
pub struct WindowsMdmProvider {}

impl Default for WindowsMdmProvider {
    fn default() -> (r: Self)
        ensures
            r == (WindowsMdmProvider {  }),
    {
        WindowsMdmProvider {  }
    }
}

/// Whether a line tells of an installed update.
pub open spec fn installed_line() -> spec_fn(Seq<char>) -> bool {
    |l: Seq<char>| has_text(l, "Installed"@)
}

/// The commands of a wipe: the keys are destroyed; where the system is reset
/// too, that follows.
pub open spec fn windows_wipe(opts: WipeOpts) -> Seq<CommandView> {
    let shred = command("manage-bde"@, seq!["-off"@, "C:"@]);
    if resets(opts) {
        seq![shred, command("systemreset.exe"@, seq!["/factoryreset"@, "/quiet"@])]
    } else {
        seq![shred]
    }
}

/// Number of hyphens in a text.
pub open spec fn hyphens(s: Seq<char>) -> nat
    decreases s.len(),
{
    if s.len() == 0 {
        0
    } else {
        hyphens(s.drop_last()) + if s.last() == '-' {
            1nat
        } else {
            0nat
        }
    }
}

/// The recovery password on a line: 55 octets with 7 hyphens.
pub open spec fn password_on(line: Seq<char>) -> Option<Seq<char>> {
    let l = trimmed(line);
    if utf8_len(l) == 55 && hyphens(l) == 7 {
        Some(l)
    } else {
        None
    }
}

/// The password on the first line from the `i`-th on that has one.
pub open spec fn password_from(l: Seq<Seq<char>>, i: int) -> Option<Seq<char>>
    decreases l.len() - i,
{
    if i < 0 || i >= l.len() {
        None
    } else {
        match password_on(l[i]) {
            Some(p) => Some(p),
            None => password_from(l, i + 1),
        }
    }
}

fn count_hyphens(s: &[char]) -> (n: usize)
    ensures
        n == hyphens(s@),
{
    let mut n: usize = 0;
    let mut i: usize = 0;
    assert(s@.take(0) =~= Seq::empty());
    while i < s.len()
        invariant
            i <= s@.len(),
            n <= i,
            n == hyphens(s@.take(i as int)),
        decreases s@.len() - i,
    {
        assert(s@.take(i + 1).drop_last() =~= s@.take(i as int));
        if s[i] == '-' {
            n += 1;
        }
        i += 1;
    }
    assert(s@.take(i as int) =~= s@);
    n
}

impl WindowsMdmProvider {
    pub fn new() -> (r: WindowsMdmProvider)
        ensures
            r == (WindowsMdmProvider {  }),
    {
        WindowsMdmProvider {  }
    }

    /// The recovery password that `manage-bde` has shown.
    pub fn parse_bitlocker_recovery_password(stdout: &str) -> (r: Option<String>)
        ensures
            opt_view(r) == password_from(lines_of(stdout@), 0),
    {
        let chars = chars_of(stdout);
        let all = lines(chars.as_slice());
        let ghost l = texts(all@);
        let mut i: usize = 0;
        while i < all.len()
            invariant
                i <= all@.len(),
                l == texts(all@),
                l == lines_of(stdout@),
                password_from(l, 0) == password_from(l, i as int),
            decreases all@.len() - i,
        {
            assert(l[i as int] == all@[i as int]@);
            let t = trim(all[i]);
            if byte_len(t) == 55 && count_hyphens(t) == 7 {
                return Some(string_of(t));
            }
            i += 1;
        }
        None
    }

    /// Number of updates that were installed.
    pub fn parse_pswindowsupdate_count(stdout: &str) -> (r: u32)
        ensures
            r == line_count(stdout@, installed_line()),
    {
        let chars = chars_of(stdout);
        let all = lines(chars.as_slice());
        let ghost l = texts(all@);
        let mut n: u32 = 0;
        let mut i: usize = 0;
        while i < all.len()
            invariant
                i <= all@.len(),
                l == texts(all@),
                n == tally(l, installed_line(), i as int) % 0x1_0000_0000,
            decreases all@.len() - i,
        {
            assert(l[i as int] == all@[i as int]@);
            if contains(all[i], "Installed") {
                n = n.wrapping_add(1);
            }
            i += 1;
        }
        n
    }

    /// The commands of a wipe; all are run, whatever comes of them.
    pub fn wipe_commands(&self, opts: &WipeOpts) -> (r: Vec<CommandLine>)
        ensures
            plan_view(r@) == windows_wipe(*opts),
    {
        let shred = CommandLine::new("manage-bde").arg("-off").arg("C:");
        assert(shred@ =~~= windows_wipe(*opts)[0]);
        let mut plan: Vec<CommandLine> = vec![shred];
        if should_perform_factory_reset(opts) {
            let reset = CommandLine::new("systemreset.exe").arg("/factoryreset").arg("/quiet");
            assert(reset@ =~~= windows_wipe(*opts)[1]);
            plan.push(reset);
        }
        assert(plan_view(plan@) =~= windows_wipe(*opts));
        plan
    }

    /// What became of a wipe; `ran` tells which of its commands went well.
    pub fn wipe(&self, opts: &WipeOpts, ran: &Vec<bool>, started_at: Timestamp) -> (r: Result<
        WipeOutcome,
        MdmError,
    >)
        ensures
            r == Ok::<WipeOutcome, MdmError>(
                WipeOutcome {
                    crypto_shred_succeeded: went_well(ran@, 0),
                    factory_reset_invoked: resets(*opts) && went_well(ran@, 1),
                    started_at,
                },
            ),
    {
        Ok(
            WipeOutcome {
                crypto_shred_succeeded: did_well(ran, 0),
                factory_reset_invoked: should_perform_factory_reset(opts) && did_well(ran, 1),
                started_at,
            },
        )
    }

    /// The command that locks the session.
    pub fn lock_command(&self) -> (r: CommandLine)
        ensures
            r@ == command("rundll32.exe"@, seq!["user32.dll,LockWorkStation"@]),
    {
        let c = CommandLine::new("rundll32.exe").arg("user32.dll,LockWorkStation");
        assert(c@ =~~= command("rundll32.exe"@, seq!["user32.dll,LockWorkStation"@]));
        c
    }

    /// Locks the sessions: `ran` tells whether the command went well, or why
    /// it could not be run. That it did not go well does no harm.
    pub fn lock(&self, ran: Result<bool, String>) -> (r: Result<(), MdmError>)
        ensures
            match ran {
                Ok(_) => r is Ok,
                Err(e) => r == Err::<(), MdmError>(MdmError::Io(e)),
            },
    {
        match ran {
            Ok(_) => Ok(()),
            Err(e) => Err(MdmError::Io(e)),
        }
    }

    /// The command that shows the recovery password.
    pub fn escrow_command(&self) -> (r: CommandLine)
        ensures
            r@ == command(
                "manage-bde"@,
                seq!["-protectors"@, "-get"@, "C:"@, "-type"@, "RecoveryPassword"@],
            ),
    {
        let c = CommandLine::new("manage-bde")
            .arg("-protectors")
            .arg("-get")
            .arg("C:")
            .arg("-type")
            .arg("RecoveryPassword");
        assert(c@ =~~= command(
            "manage-bde"@,
            seq!["-protectors"@, "-get"@, "C:"@, "-type"@, "RecoveryPassword"@],
        ));
        c
    }

    /// The recovery password that the command has shown.
    pub fn escrow_recovery_key(&self, report: Result<MdmReport, String>) -> (r: Result<
        RawRecoveryKey,
        MdmError,
    >)
        ensures
            match report {
                Err(e) => r == Err::<RawRecoveryKey, MdmError>(MdmError::Io(e)),
                Ok(rep) => if !rep.success {
                    r is Err && r->Err_0 is Command && r->Err_0->Command_0@
                        == "manage-bde returned "@ + rep.status@
                } else {
                    match password_from(lines_of(lossy_utf8(rep.stdout@)), 0) {
                        Some(p) => r is Ok && r->Ok_0.key_type == RecoveryKeyType::BitLocker
                            && r->Ok_0.material@ == vstd::utf8::encode_utf8(p),
                        None => r is Err && r->Err_0 is Unsupported && r->Err_0->Unsupported_0@
                            == "no BitLocker recovery password protector found"@,
                    }
                },
            },
    {
        match report {
            Err(e) => Err(MdmError::Io(e)),
            Ok(rep) => {
                if !rep.success {
                    return Err(
                        MdmError::Command(
                            "manage-bde returned ".to_owned().concat(rep.status.as_str()),
                        ),
                    );
                }
                let text = lossy_text(rep.stdout.as_slice());
                match WindowsMdmProvider::parse_bitlocker_recovery_password(text.as_str()) {
                    Some(key) => Ok(
                        RawRecoveryKey {
                            key_type: RecoveryKeyType::BitLocker,
                            material: key.as_str().as_bytes_vec(),
                        },
                    ),
                    None => Err(
                        MdmError::Unsupported(
                            "no BitLocker recovery password protector found".to_owned(),
                        ),
                    ),
                }
            },
        }
    }

    /// The command that installs updates.
    pub fn update_command(&self, opts: &OsUpdateOpts) -> (r: CommandLine)
        ensures
            r@ == command("powershell"@, seq!["-NoProfile"@, "-Command"@, update_script(*opts)]),
    {
        let script = pswindowsupdate_script(opts);
        let c = CommandLine::new("powershell").arg("-NoProfile").arg("-Command").arg(
            script.as_str(),
        );
        assert(c@ =~~= command("powershell"@, seq!["-NoProfile"@, "-Command"@, script@]));
        c
    }

    /// What became of an installation: `report` is what the tool has
    /// printed, or why it could not be run.
    pub fn install_os_updates(&self, report: Result<MdmReport, String>) -> (r: Result<
        OsUpdateOutcome,
        MdmError,
    >)
        requires
            report matches Ok(rep) ==> rep.log().len() < 0x2000_0000_0000_0000,
        ensures
            match report {
                Ok(rep) => {
                    &&& r is Ok
                    &&& r->Ok_0.updates_installed == line_count(lossy_utf8(rep.log()), installed_line())
                    &&& r->Ok_0.reboot_required == (
                        has_text(lossy_utf8(rep.log()), "reboot"@)
                        || has_text(lossy_utf8(rep.log()), "Restart"@)
                    )
                    &&& r->Ok_0.log_sha256@ == sha256_digest(rep.log())
                },
                Err(e) => r == Err::<OsUpdateOutcome, MdmError>(MdmError::Io(e)),
            },
    {
        match report {
            Ok(rep) => {
                let log = rep.whole_log();
                let text = lossy_text(log.as_slice());
                let chars = chars_of(text.as_str());
                Ok(
                    OsUpdateOutcome {
                        updates_installed: WindowsMdmProvider::parse_pswindowsupdate_count(text.as_str()),
                        reboot_required: contains(chars.as_slice(), "reboot")
                            || contains(chars.as_slice(), "Restart"),
                        log_sha256: log_digest(&log),
                    },
                )
            },
            Err(e) => Err(MdmError::Io(e)),
        }
    }

    /// The command that applies a configuration profile.
    pub fn profile_command(&self) -> (r: CommandLine)
        ensures
            r@ == command(
                "reg"@,
                seq![
                    "add"@,
                    "HKLM\\SOFTWARE\\Policies\\Microsoft\\Windows\\System"@,
                    "/v"@,
                    "EnableSmartScreen"@,
                    "/t"@,
                    "REG_DWORD"@,
                    "/d"@,
                    "1"@,
                    "/f"@,
                ],
            ),
    {
        let c = CommandLine::new("reg")
            .arg("add")
            .arg("HKLM\\SOFTWARE\\Policies\\Microsoft\\Windows\\System")
            .arg("/v")
            .arg("EnableSmartScreen")
            .arg("/t")
            .arg("REG_DWORD")
            .arg("/d")
            .arg("1")
            .arg("/f");
        assert(c@ =~~= command(
            "reg"@,
            seq![
                "add"@,
                "HKLM\\SOFTWARE\\Policies\\Microsoft\\Windows\\System"@,
                "/v"@,
                "EnableSmartScreen"@,
                "/t"@,
                "REG_DWORD"@,
                "/d"@,
                "1"@,
                "/f"@,
            ],
        ));
        c
    }

    /// A profile counts as applied once its command was run.
    pub fn apply_config_profile(&self) -> (r: Result<(), MdmError>)
        ensures
            r is Ok,
    {
        Ok(())
    }

    /// The command that switches on disk encryption.
    pub fn encryption_command(&self) -> (r: CommandLine)
        ensures
            r@ == command(
                "manage-bde"@,
                seq!["-on"@, "C:"@, "-RecoveryPassword"@, "-SkipHardwareTest"@, "-UsedSpaceOnly"@],
            ),
    {
        let c = CommandLine::new("manage-bde")
            .arg("-on")
            .arg("C:")
            .arg("-RecoveryPassword")
            .arg("-SkipHardwareTest")
            .arg("-UsedSpaceOnly");
        assert(c@ =~~= command(
            "manage-bde"@,
            seq!["-on"@, "C:"@, "-RecoveryPassword"@, "-SkipHardwareTest"@, "-UsedSpaceOnly"@],
        ));
        c
    }

    /// What became of switching on disk encryption: `ran` tells whether the
    /// command went well, or why it could not be run.
    pub fn enable_disk_encryption(&self, ran: Result<bool, String>) -> (r: Result<
        EncryptionOutcome,
        MdmError,
    >)
        ensures
            match ran {
                Ok(ok) => r is Ok && r->Ok_0.enabled == ok && !r->Ok_0.recovery_key_escrowed
                    && r->Ok_0.provider@ == "bitlocker"@,
                Err(e) => r == Err::<EncryptionOutcome, MdmError>(MdmError::Io(e)),
            },
    {
        match ran {
            Ok(ok) => Ok(
                EncryptionOutcome {
                    enabled: ok,
                    recovery_key_escrowed: false,
                    provider: "bitlocker".to_owned(),
                },
            ),
            Err(e) => Err(MdmError::Io(e)),
        }
    }

    /// The command that switches on the firewall.
    pub fn firewall_command(&self) -> (r: CommandLine)
        ensures
            r@ == command(
                "powershell"@,
                seq![
                    "-NoProfile"@,
                    "-Command"@,
                    "Set-NetFirewallProfile -Profile Domain,Public,Private -Enabled True"@,
                ],
            ),
    {
        let c = CommandLine::new("powershell")
            .arg("-NoProfile")
            .arg("-Command")
            .arg("Set-NetFirewallProfile -Profile Domain,Public,Private -Enabled True");
        assert(c@ =~~= command(
            "powershell"@,
            seq![
                "-NoProfile"@,
                "-Command"@,
                "Set-NetFirewallProfile -Profile Domain,Public,Private -Enabled True"@,
            ],
        ));
        c
    }

    /// What became of switching on the firewall.
    pub fn enable_firewall(&self, ran: Result<Result<(), String>, String>) -> (r: Result<(), MdmError>)
        ensures
            status_told(ran, "Set-NetFirewallProfile returned "@, r),
    {
        match ran {
            Ok(Ok(_)) => Ok(()),
            Ok(Err(status)) => Err(
                MdmError::Command("Set-NetFirewallProfile returned ".to_owned().concat(status.as_str())),
            ),
            Err(e) => Err(MdmError::Io(e)),
        }
    }

    /// The commands that set the screen lock; all are run, whatever comes of
    /// them.
    pub fn screen_lock_commands(&self, timeout_secs: u32) -> (r: Vec<CommandLine>)
        ensures
            plan_view(r@) == seq![
                command(
                    "reg"@,
                    seq![
                        "add"@,
                        "HKCU\\Control Panel\\Desktop"@,
                        "/v"@,
                        "ScreenSaveTimeOut"@,
                        "/t"@,
                        "REG_SZ"@,
                        "/d"@,
                        numeral(timeout_secs as nat, 10),
                        "/f"@,
                    ],
                ),
                command(
                    "reg"@,
                    seq![
                        "add"@,
                        "HKCU\\Control Panel\\Desktop"@,
                        "/v"@,
                        "ScreenSaverIsSecure"@,
                        "/t"@,
                        "REG_SZ"@,
                        "/d"@,
                        "1"@,
                        "/f"@,
                    ],
                ),
            ],
    {
        let secs = decimal(timeout_secs as u64);
        let c0 = CommandLine::new("reg")
            .arg("add")
            .arg("HKCU\\Control Panel\\Desktop")
            .arg("/v")
            .arg("ScreenSaveTimeOut")
            .arg("/t")
            .arg("REG_SZ")
            .arg("/d")
            .arg(secs.as_str())
            .arg("/f");
        let c1 = CommandLine::new("reg")
            .arg("add")
            .arg("HKCU\\Control Panel\\Desktop")
            .arg("/v")
            .arg("ScreenSaverIsSecure")
            .arg("/t")
            .arg("REG_SZ")
            .arg("/d")
            .arg("1")
            .arg("/f");
        assert(c0@ =~~= command(
            "reg"@,
            seq![
                "add"@,
                "HKCU\\Control Panel\\Desktop"@,
                "/v"@,
                "ScreenSaveTimeOut"@,
                "/t"@,
                "REG_SZ"@,
                "/d"@,
                secs@,
                "/f"@,
            ],
        ));
        assert(c1@ =~~= command(
            "reg"@,
            seq![
                "add"@,
                "HKCU\\Control Panel\\Desktop"@,
                "/v"@,
                "ScreenSaverIsSecure"@,
                "/t"@,
                "REG_SZ"@,
                "/d"@,
                "1"@,
                "/f"@,
            ],
        ));
        let r = vec![c0, c1];
        assert(plan_view(r@) =~= seq![c0@, c1@]);
        r
    }

    /// The screen lock counts as set once its commands were run.
    pub fn set_screen_lock(&self) -> (r: Result<(), MdmError>)
        ensures
            r is Ok,
    {
        Ok(())
    }

    /// The command that begins lost mode.
    pub fn enter_lost_mode_command(&self) -> (r: CommandLine)
        ensures
            r@ == command(
                "reg"@,
                seq![
                    "add"@,
                    "HKLM\\SOFTWARE\\Microsoft\\Windows\\CurrentVersion\\Authentication\\Credential Providers\\{SN360-LOST-MODE}"@,
                    "/ve"@,
                    "/d"@,
                    "SN360 SDA Lost Mode"@,
                    "/f"@,
                ],
            ),
    {
        let c = CommandLine::new("reg")
            .arg("add")
            .arg("HKLM\\SOFTWARE\\Microsoft\\Windows\\CurrentVersion\\Authentication\\Credential Providers\\{SN360-LOST-MODE}")
            .arg("/ve")
            .arg("/d")
            .arg("SN360 SDA Lost Mode")
            .arg("/f");
        assert(c@ =~~= command(
            "reg"@,
            seq![
                "add"@,
                "HKLM\\SOFTWARE\\Microsoft\\Windows\\CurrentVersion\\Authentication\\Credential Providers\\{SN360-LOST-MODE}"@,
                "/ve"@,
                "/d"@,
                "SN360 SDA Lost Mode"@,
                "/f"@,
            ],
        ));
        c
    }

    /// Lost mode counts as begun once its command was run.
    pub fn enter_lost_mode(&self) -> (r: Result<(), MdmError>)
        ensures
            r is Ok,
    {
        Ok(())
    }

    /// The command that ends lost mode.
    pub fn exit_lost_mode_command(&self) -> (r: CommandLine)
        ensures
            r@ == command(
                "reg"@,
                seq![
                    "delete"@,
                    "HKLM\\SOFTWARE\\Microsoft\\Windows\\CurrentVersion\\Authentication\\Credential Providers\\{SN360-LOST-MODE}"@,
                    "/f"@,
                ],
            ),
    {
        let c = CommandLine::new("reg")
            .arg("delete")
            .arg("HKLM\\SOFTWARE\\Microsoft\\Windows\\CurrentVersion\\Authentication\\Credential Providers\\{SN360-LOST-MODE}")
            .arg("/f");
        assert(c@ =~~= command(
            "reg"@,
            seq![
                "delete"@,
                "HKLM\\SOFTWARE\\Microsoft\\Windows\\CurrentVersion\\Authentication\\Credential Providers\\{SN360-LOST-MODE}"@,
                "/f"@,
            ],
        ));
        c
    }

    /// Lost mode counts as ended once its command was run.
    pub fn exit_lost_mode(&self) -> (r: Result<(), MdmError>)
        ensures
            r is Ok,
    {
        Ok(())
    }
}

// ---------------------------------------------------------------------
// Other systems
// ---------------------------------------------------------------------

/// Device management of other hosts, which can do nothing.
#[derive(Debug, Clone, Copy)]
pub struct StubMdmProvider {}

fn stub<T>() -> (r: Result<T, MdmError>)
    ensures
        r is Err,
        r->Err_0 is Unsupported,
        r->Err_0->Unsupported_0@ == "stub"@,
{
    Err(MdmError::Unsupported("stub".to_owned()))
}

impl MdmProvider for StubMdmProvider {
    fn wipe(&self, opts: &WipeOpts) -> (r: Result<WipeOutcome, MdmError>)
        ensures
            r is Err,
            r->Err_0 is Unsupported,
            r->Err_0->Unsupported_0@ == "stub"@,
    {
        stub()
    }

    fn lock(&self, message: &str) -> (r: Result<(), MdmError>)
        ensures
            r is Err,
            r->Err_0 is Unsupported,
            r->Err_0->Unsupported_0@ == "stub"@,
    {
        stub()
    }

    fn escrow_recovery_key(&self) -> (r: Result<RawRecoveryKey, MdmError>)
        ensures
            r is Err,
            r->Err_0 is Unsupported,
            r->Err_0->Unsupported_0@ == "stub"@,
    {
        stub()
    }

    fn install_os_updates(&self, opts: &OsUpdateOpts) -> (r: Result<OsUpdateOutcome, MdmError>)
        ensures
            r is Err,
            r->Err_0 is Unsupported,
            r->Err_0->Unsupported_0@ == "stub"@,
    {
        stub()
    }

    fn apply_config_profile(&self, profile: &SignedConfigProfile) -> (r: Result<(), MdmError>)
        ensures
            r is Err,
            r->Err_0 is Unsupported,
            r->Err_0->Unsupported_0@ == "stub"@,
    {
        stub()
    }

    fn enable_disk_encryption(&self) -> (r: Result<EncryptionOutcome, MdmError>)
        ensures
            r is Err,
            r->Err_0 is Unsupported,
            r->Err_0->Unsupported_0@ == "stub"@,
    {
        stub()
    }

    fn enable_firewall(&self) -> (r: Result<(), MdmError>)
        ensures
            r is Err,
            r->Err_0 is Unsupported,
            r->Err_0->Unsupported_0@ == "stub"@,
    {
        stub()
    }

    fn set_screen_lock(&self, timeout_secs: u32) -> (r: Result<(), MdmError>)
        ensures
            r is Err,
            r->Err_0 is Unsupported,
            r->Err_0->Unsupported_0@ == "stub"@,
    {
        stub()
    }

    fn enter_lost_mode(&self, message: &str) -> (r: Result<(), MdmError>)
        ensures
            r is Err,
            r->Err_0 is Unsupported,
            r->Err_0->Unsupported_0@ == "stub"@,
    {
        stub()
    }

    fn exit_lost_mode(&self) -> (r: Result<(), MdmError>)
        ensures
            r is Err,
            r->Err_0 is Unsupported,
            r->Err_0->Unsupported_0@ == "stub"@,
    {
        stub()
    }
}

} // verus!
