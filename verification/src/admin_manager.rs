//! Administrator accounts: who has them, and grants of them for a time.

use crate::clock::{rfc3339_text, Timestamp};
use crate::command::{command, CommandLine};
use crate::network_module::{hash_octets, hash_of, octets, push_octets};
use crate::text::{
    ascii_lower, chars_of, cut, gather, is_text, lemma_gather_step, lemma_spread_step,
    lemma_views_push, lines, lines_of, lossy_text, lossy_utf8, numeral, opt_view, pieces,
    pieces_of, push_number, quote_char, quoted_char, same_str, signed_decimal, signed_numeral,
    split_once, spread, starts_with, string_of, strs, texts, to_ascii_lower, trim, trimmed,
    utf8_len, views, words, words_of,
};
use vstd::prelude::*;
use vstd::slice::slice_subrange;
use vstd::string::*;

verus! {

/// What can go wrong in the management of administrators.
#[derive(Debug, PartialEq, Eq)]
pub enum AdminError {
    /// A program failed.
    Command(String),
    /// A program or a file could not be reached.
    Io(String),
    /// Not available yet.
    NotImplemented,
    /// The caller's input is refused.
    InvalidInput(String),
    /// The ledger of grants cannot be read.
    StateCorrupt(String),
}

impl AdminError {
    /// The text that describes the error.
    pub open spec fn text(self) -> Seq<char> {
        match self {
            AdminError::Command(e) => "admin manager OS command failed: "@ + e@,
            AdminError::Io(e) => "admin manager IO error: "@ + e@,
            AdminError::NotImplemented => "not implemented in Phase 1"@,
            AdminError::InvalidInput(e) => "admin manager input invalid: "@ + e@,
            AdminError::StateCorrupt(e) => "admin manager grant state corrupt: "@ + e@,
        }
    }

    /// Describes the error.
    pub fn message(&self) -> (r: String)
        ensures
            r@ == self.text(),
    {
        match self {
            AdminError::Command(e) => "admin manager OS command failed: ".to_owned().concat(e.as_str()),
            AdminError::Io(e) => "admin manager IO error: ".to_owned().concat(e.as_str()),
            AdminError::NotImplemented => "not implemented in Phase 1".to_owned(),
            AdminError::InvalidInput(e) => "admin manager input invalid: ".to_owned().concat(e.as_str()),
            AdminError::StateCorrupt(e) => "admin manager grant state corrupt: ".to_owned().concat(
                e.as_str(),
            ),
        }
    }
}

/// An account with administrator rights.
#[derive(Debug, Clone, PartialEq, Eq)]
pub struct AdminAccount {
    pub username: String,
    pub source: String,
    pub since: Option<Timestamp>,
    pub group: Option<String>,
}

/// The contents of an [`AdminAccount`].
#[verifier::ext_equal]
pub struct AccountView {
    pub username: Seq<char>,
    pub source: Seq<char>,
    pub since: Option<Timestamp>,
    pub group: Option<Seq<char>>,
}

impl View for AdminAccount {
    type V = AccountView;

    open spec fn view(&self) -> AccountView {
        AccountView {
            username: self.username@,
            source: self.source@,
            since: self.since,
            group: opt_view(self.group),
        }
    }
}

/// The contents of a list of accounts.
pub open spec fn account_views(v: Seq<AdminAccount>) -> Seq<AccountView> {
    v.map_values(|a: AdminAccount| a@)
}

/// A local account with rights from `group`.
pub open spec fn local_account(username: Seq<char>, group: Seq<char>) -> AccountView {
    AccountView { username, source: "local"@, since: None, group: Some(group) }
}

/// A user to be granted administrator rights.
#[derive(Debug, PartialEq, Eq)]
pub struct UserRef {
    pub username: String,
    pub domain: Option<String>,
}

impl Clone for UserRef {
    fn clone(&self) -> (r: Self)
        ensures
            r == *self,
    {
        UserRef { username: self.username.clone(), domain: self.domain.clone() }
    }
}

/// A grant of administrator rights.
#[derive(Debug, PartialEq, Eq)]
pub struct GrantHandle {
    pub id: String,
    pub user: UserRef,
    pub until: Timestamp,
}

impl Clone for GrantHandle {
    fn clone(&self) -> (r: Self)
        ensures
            r == *self,
    {
        GrantHandle { id: self.id.clone(), user: self.user.clone(), until: self.until }
    }
}

// ---------------------------------------------------------------------
// Programs
// ---------------------------------------------------------------------

/// What a program left behind.
#[derive(Debug, Clone, PartialEq, Eq)]
pub struct CommandOutput {
    pub status: i32,
    pub stdout: Vec<u8>,
    pub stderr: Vec<u8>,
}

/// What is said of a program that failed: its name, its status and what it
/// complained of.
pub open spec fn program_fault(label: Seq<char>, o: CommandOutput) -> Seq<char> {
    label + " exited with status "@ + signed_numeral(o.status as int) + " stderr="@ + trimmed(
        lossy_utf8(o.stderr@),
    )
}

impl CommandOutput {
    /// Whether the program ended well.
    pub fn is_success(&self) -> (r: bool)
        ensures
            r == (self.status == 0),
    {
        self.status == 0
    }

    /// Passes the output of a program that ended well on; another is an
    /// error that tells its status and what it complained of.
    pub fn require_success(self, label: &str) -> (r: Result<CommandOutput, AdminError>)
        ensures
            match r {
                Ok(o) => self.status == 0 && o == self,
                Err(e) => self.status != 0 && e is Command && e->Command_0@ == program_fault(label@, self),
            },
    {
        if self.is_success() {
            Ok(self)
        } else {
            let text = lossy_text(self.stderr.as_slice());
            let chars = chars_of(text.as_str());
            let stderr = string_of(trim(chars.as_slice()));
            let status = signed_decimal(self.status as i64);
            Err(
                AdminError::Command(
                    label.to_owned().concat(" exited with status ").concat(status.as_str()).concat(
                        " stderr=",
                    ).concat(stderr.as_str()),
                ),
            )
        }
    }
}

/// Runs programs.
pub trait CommandRunner {
    /// Runs `program` with `args` and returns what it left behind.
    fn run(&self, program: &str, args: &[&str]) -> Result<CommandOutput, AdminError>;
}

// ---------------------------------------------------------------------
// User names
// ---------------------------------------------------------------------

/// Characters that a user name may be made of.
pub open spec fn name_char(c: char) -> bool {
    let u = c as u32;
    ||| 0x30 <= u <= 0x39
    ||| 0x41 <= u <= 0x5a
    ||| 0x61 <= u <= 0x7a
    ||| c == '_'
    ||| c == '.'
    ||| c == '-'
}

/// What is wrong with the characters of `u` from the `i`-th on, where a
/// backslash has been seen before or not.
pub open spec fn bad_char_from(u: Seq<char>, i: int, backslash: bool) -> Option<Seq<char>>
    decreases u.len() - i,
{
    if i < 0 || i >= u.len() {
        None
    } else if name_char(u[i]) {
        bad_char_from(u, i + 1, backslash)
    } else if u[i] == '\\' {
        if backslash {
            Some("username has multiple backslashes: "@ + u)
        } else {
            bad_char_from(u, i + 1, true)
        }
    } else {
        Some("username has disallowed character "@ + quoted_char(u[i]) + ": "@ + u)
    }
}

/// What is wrong with a user name, if anything.
pub open spec fn username_fault(u: Seq<char>) -> Option<Seq<char>> {
    if u.len() == 0 {
        Some("empty username"@)
    } else if utf8_len(u) > 256 {
        Some("username too long"@)
    } else if u[0] == '-' {
        Some("username may not start with '-': "@ + u)
    } else {
        bad_char_from(u, 0, false)
    }
}

fn is_name_char(c: char) -> (r: bool)
    ensures
        r == name_char(c),
{
    let u: u32 = c as u32;
    (0x30 <= u && u <= 0x39) || (0x41 <= u && u <= 0x5a) || (0x61 <= u && u <= 0x7a) || c == '_'
        || c == '.' || c == '-'
}

/// Refuses user names that mean something to a shell, a path or a sudoers
/// file.
pub fn validate_username(username: &str) -> (r: Result<(), AdminError>)
    ensures
        match r {
            Ok(_) => username_fault(username@) is None,
            Err(e) => e is InvalidInput && username_fault(username@) == Some(e->InvalidInput_0@),
        },
{
    let u = chars_of(username);
    if u.len() == 0 {
        return Err(AdminError::InvalidInput("empty username".to_owned()));
    }
    if crate::text::byte_len(u.as_slice()) > 256 {
        return Err(AdminError::InvalidInput("username too long".to_owned()));
    }
    if u[0] == '-' {
        return Err(
            AdminError::InvalidInput(
                "username may not start with '-': ".to_owned().concat(username),
            ),
        );
    }
    let mut backslash = false;
    let mut i: usize = 0;
    while i < u.len()
        invariant
            i <= u@.len(),
            u@ == username@,
            username_fault(username@) == bad_char_from(username@, i as int, backslash),
        decreases u@.len() - i,
    {
        let c = u[i];
        if !is_name_char(c) {
            if c == '\\' {
                if backslash {
                    return Err(
                        AdminError::InvalidInput(
                            "username has multiple backslashes: ".to_owned().concat(username),
                        ),
                    );
                }
                backslash = true;
            } else {
                let q = quote_char(c);
                return Err(
                    AdminError::InvalidInput(
                        "username has disallowed character ".to_owned().concat(q.as_str()).concat(
                            ": ",
                        ).concat(username),
                    ),
                );
            }
        }
        i += 1;
    }
    Ok(())
}

/// How many backslashes `u` holds.
pub open spec fn backslashes(u: Seq<char>) -> nat
    decreases u.len(),
{
    if u.len() == 0 {
        0
    } else {
        backslashes(u.drop_last()) + if u.last() == '\\' {
            1nat
        } else {
            0nat
        }
    }
}

/// A user name is accepted exactly when it is not empty, takes at most 256
/// octets, does not begin with a dash, is made of ASCII letters, digits,
/// dots, dashes and underscores, and holds at most one backslash besides.
pub proof fn law_accepted_usernames(u: Seq<char>)
    ensures
        username_fault(u) is None <==> {
            &&& 0 < u.len()
            &&& utf8_len(u) <= 256
            &&& u[0] != '-'
            &&& forall|i: int| 0 <= i < u.len() ==> name_char(#[trigger] u[i]) || u[i] == '\\'
            &&& backslashes(u) <= 1
        },
{
    lemma_bad_char(u, 0, false);
    assert(u.take(0) =~= Seq::empty());
}

proof fn lemma_backslashes_mono(u: Seq<char>, i: int)
    requires
        0 <= i <= u.len(),
    ensures
        backslashes(u.take(i)) <= backslashes(u),
    decreases u.len() - i,
{
    if i == u.len() {
        assert(u.take(i) =~= u);
    } else {
        lemma_backslashes_mono(u, i + 1);
        assert(u.take(i + 1).drop_last() =~= u.take(i));
    }
}

proof fn lemma_bad_char(u: Seq<char>, i: int, seen: bool)
    requires
        0 <= i <= u.len(),
        backslashes(u.take(i)) == if seen {
            1nat
        } else {
            0nat
        },
    ensures
        bad_char_from(u, i, seen) is None <==> {
            &&& forall|k: int| i <= k < u.len() ==> name_char(#[trigger] u[k]) || u[k] == '\\'
            &&& backslashes(u) <= 1
        },
    decreases u.len() - i,
{
    if i < u.len() {
        assert(u.take(i + 1).drop_last() =~= u.take(i));
        if name_char(u[i]) {
            lemma_bad_char(u, i + 1, seen);
        } else if u[i] == '\\' {
            if seen {
                lemma_backslashes_mono(u, i + 1);
            } else {
                lemma_bad_char(u, i + 1, true);
            }
        }
    } else {
        assert(u.take(i) =~= u);
    }
}

// ---------------------------------------------------------------------
// Grants
// ---------------------------------------------------------------------

/// The identifier of a grant made at `nanos` nanoseconds since the epoch by
/// the thread `thread`.
pub open spec fn grant_id(nanos: nat, thread: Seq<char>) -> Seq<char> {
    "sda-jit-"@ + numeral(nanos, 16) + "-"@ + numeral(
        hash_of(octets(nanos as int, 16) + vstd::utf8::encode_utf8(thread)) as nat,
        16,
    )
}

/// Makes the identifier of a grant.
pub fn new_grant_id(nanos: u128, thread: &str) -> (r: String)
    ensures
        r@ == grant_id(nanos as nat, thread@),
{
    let mut b: Vec<u8> = Vec::new();
    push_octets(&mut b, nanos, 16);
    let t = thread.as_bytes_vec();
    let mut i: usize = 0;
    while i < t.len()
        invariant
            i <= t@.len(),
            b@ == octets(nanos as int, 16) + t@.take(i as int),
        decreases t@.len() - i,
    {
        b.push(t[i]);
        assert(b@ =~= octets(nanos as int, 16) + t@.take(i + 1));
        i += 1;
    }
    assert(t@.take(i as int) =~= t@);
    let suffix = hash_octets(&b);
    let mut s = "sda-jit-".to_owned();
    push_number(&mut s, nanos, 16);
    let mut s = s.concat("-");
    push_number(&mut s, suffix as u128, 16);
    s
}

/// The sudoers file that grants `user` everything without a password.
pub open spec fn sudoers_text(user: Seq<char>, id: Seq<char>, until: Timestamp) -> Seq<char> {
    "# sn360 JIT admin grant\n# grant_id: "@ + id + "\n# until:    "@ + rfc3339_text(
        until.secs as int,
        until.nanos as int,
    ) + "\n"@ + user + " ALL=(ALL) NOPASSWD:ALL\n"@
}

/// Writes the sudoers file of a grant.
pub fn render_sudoers(user: &str, grant_id: &str, until: &Timestamp) -> (r: String)
    requires
        until.valid(),
    ensures
        r@ == sudoers_text(user@, grant_id@, *until),
{
    let t = until.to_rfc3339();
    "# sn360 JIT admin grant\n# grant_id: ".to_owned().concat(grant_id).concat("\n# until:    ").concat(
        t.as_str(),
    ).concat("\n").concat(user).concat(" ALL=(ALL) NOPASSWD:ALL\n")
}

/// `name` below directory `dir`.
pub open spec fn below(dir: Seq<char>, name: Seq<char>) -> Seq<char> {
    if dir.len() == 0 {
        name
    } else if dir.last() == '/' {
        dir + name
    } else {
        dir + "/"@ + name
    }
}

fn path_below(dir: &str, name: &str) -> (r: String)
    ensures
        r@ == below(dir@, name@),
{
    let d = chars_of(dir);
    if d.len() == 0 {
        name.to_owned()
    } else if d[d.len() - 1] == '/' {
        dir.to_owned().concat(name)
    } else {
        dir.to_owned().concat("/").concat(name)
    }
}

/// Where the sudoers file of `user` stands once it is in force.
pub fn drop_in_path(sudoers_dir: &str, user: &str) -> (r: String)
    ensures
        r@ == below(sudoers_dir@, "sda-jit-"@ + user@),
{
    let name = "sda-jit-".to_owned().concat(user);
    path_below(sudoers_dir, name.as_str())
}

/// Where the sudoers file of `user` stands until it has been checked.
pub fn candidate_path(sudoers_dir: &str, user: &str) -> (r: String)
    ensures
        r@ == below(sudoers_dir@, "sda-jit-"@ + user@ + ".tmp"@),
{
    let name = "sda-jit-".to_owned().concat(user).concat(".tmp");
    path_below(sudoers_dir, name.as_str())
}

/// Permissions of a sudoers file.
pub const SUDOERS_MODE: u32 = 0o440;

/// Steps of a grant on Linux.
#[derive(Debug, Clone, Copy, PartialEq, Eq, Structural)]
pub enum GrantPhase {
    /// Make the sudoers directory.
    Prepare,
    /// Write the candidate file.
    WriteCandidate,
    /// Restrict the candidate's permissions.
    RestrictCandidate,
    /// Have the candidate checked.
    ValidateCandidate,
    /// Remove a candidate that did not pass.
    DiscardCandidate,
    /// Put the candidate in force.
    Install,
    /// Read the ledger.
    LoadLedger,
    /// Write the ledger with the new grant.
    StoreLedger,
    /// The grant is in force and on record.
    Granted,
    /// The grant has failed.
    Refused,
}

impl GrantPhase {
    /// The step after this one has succeeded or failed.
    pub open spec fn after(self, ok: bool) -> GrantPhase {
        match self {
            GrantPhase::Prepare => if ok {
                GrantPhase::WriteCandidate
            } else {
                GrantPhase::Refused
            },
            GrantPhase::WriteCandidate => if ok {
                GrantPhase::RestrictCandidate
            } else {
                GrantPhase::Refused
            },
            GrantPhase::RestrictCandidate => if ok {
                GrantPhase::ValidateCandidate
            } else {
                GrantPhase::Refused
            },
            GrantPhase::ValidateCandidate => if ok {
                GrantPhase::Install
            } else {
                GrantPhase::DiscardCandidate
            },
            GrantPhase::DiscardCandidate => GrantPhase::Refused,
            GrantPhase::Install => if ok {
                GrantPhase::LoadLedger
            } else {
                GrantPhase::Refused
            },
            GrantPhase::LoadLedger => if ok {
                GrantPhase::StoreLedger
            } else {
                GrantPhase::Refused
            },
            GrantPhase::StoreLedger => if ok {
                GrantPhase::Granted
            } else {
                GrantPhase::Refused
            },
            GrantPhase::Granted => GrantPhase::Granted,
            GrantPhase::Refused => GrantPhase::Refused,
        }
    }

    /// The step after this one has succeeded or failed.
    pub fn next(self, ok: bool) -> (r: GrantPhase)
        ensures
            r == self.after(ok),
    {
        match self {
            GrantPhase::Prepare => if ok {
                GrantPhase::WriteCandidate
            } else {
                GrantPhase::Refused
            },
            GrantPhase::WriteCandidate => if ok {
                GrantPhase::RestrictCandidate
            } else {
                GrantPhase::Refused
            },
            GrantPhase::RestrictCandidate => if ok {
                GrantPhase::ValidateCandidate
            } else {
                GrantPhase::Refused
            },
            GrantPhase::ValidateCandidate => if ok {
                GrantPhase::Install
            } else {
                GrantPhase::DiscardCandidate
            },
            GrantPhase::DiscardCandidate => GrantPhase::Refused,
            GrantPhase::Install => if ok {
                GrantPhase::LoadLedger
            } else {
                GrantPhase::Refused
            },
            GrantPhase::LoadLedger => if ok {
                GrantPhase::StoreLedger
            } else {
                GrantPhase::Refused
            },
            GrantPhase::StoreLedger => if ok {
                GrantPhase::Granted
            } else {
                GrantPhase::Refused
            },
            GrantPhase::Granted => GrantPhase::Granted,
            GrantPhase::Refused => GrantPhase::Refused,
        }
    }
}

/// Where a grant stands after a run of steps that succeeded or failed.
pub open spec fn grant_after(outcomes: Seq<bool>) -> GrantPhase
    decreases outcomes.len(),
{
    if outcomes.len() == 0 {
        GrantPhase::Prepare
    } else {
        grant_after(outcomes.drop_last()).after(outcomes.last())
    }
}

/// No sudoers file is put in force that has not been checked: whatever
/// succeeds or fails on the way, a grant that has come to its installation
/// or beyond has had its candidate validated.
pub proof fn law_only_validated_files_are_installed(outcomes: Seq<bool>)
    ensures
        ({
            let p = grant_after(outcomes);
            (p == GrantPhase::Install || p == GrantPhase::LoadLedger || p == GrantPhase::StoreLedger
                || p == GrantPhase::Granted) ==> outcomes.len() >= 4 && outcomes[3]
        }),
{
    lemma_grant_progress(outcomes);
}

/// A candidate that does not pass is discarded, and the grant is refused
/// without the ledger being touched.
pub proof fn law_rejected_candidate_is_discarded(outcomes: Seq<bool>)
    requires
        outcomes.len() >= 4,
        outcomes[0],
        outcomes[1],
        outcomes[2],
        !outcomes[3],
    ensures
        outcomes.len() == 4 ==> grant_after(outcomes) == GrantPhase::DiscardCandidate,
        outcomes.len() > 4 ==> grant_after(outcomes) == GrantPhase::Refused,
    decreases outcomes.len(),
{
    if outcomes.len() == 4 {
        let o3 = outcomes.drop_last();
        let o2 = o3.drop_last();
        let o1 = o2.drop_last();
        let o0 = o1.drop_last();
        assert(grant_after(o0) == GrantPhase::Prepare);
        assert(o1.last() == outcomes[0]);
        assert(o2.last() == outcomes[1]);
        assert(o3.last() == outcomes[2]);
        assert(grant_after(o1) == GrantPhase::WriteCandidate);
        assert(grant_after(o2) == GrantPhase::RestrictCandidate);
        assert(grant_after(o3) == GrantPhase::ValidateCandidate);
    } else {
        law_rejected_candidate_is_discarded(outcomes.drop_last());
    }
}

spec fn phase_rank(p: GrantPhase) -> int {
    match p {
        GrantPhase::Prepare => 0,
        GrantPhase::WriteCandidate => 1,
        GrantPhase::RestrictCandidate => 2,
        GrantPhase::ValidateCandidate => 3,
        GrantPhase::Install => 4,
        GrantPhase::LoadLedger => 5,
        GrantPhase::StoreLedger => 6,
        GrantPhase::Granted => 7,
        GrantPhase::DiscardCandidate => -1,
        GrantPhase::Refused => -1,
    }
}

proof fn lemma_grant_progress(outcomes: Seq<bool>)
    ensures
        ({
            let k = phase_rank(grant_after(outcomes));
            &&& k <= outcomes.len()
            &&& 0 <= k < 7 ==> k == outcomes.len()
            &&& forall|i: int| 0 <= i < k ==> #[trigger] outcomes[i]
        }),
    decreases outcomes.len(),
{
    if outcomes.len() > 0 {
        let front = outcomes.drop_last();
        lemma_grant_progress(front);
        assert(forall|i: int| 0 <= i < front.len() ==> front[i] == outcomes[i]);
    }
}

/// The command line that checks a sudoers file.
pub fn visudo_command(candidate: &str) -> (r: CommandLine)
    ensures
        r@ == command("visudo"@, seq!["-c"@, "-f"@, candidate@]),
{
    let r = CommandLine::new("visudo").arg("-c").arg("-f").arg(candidate);
    assert(r@.args =~= seq!["-c"@, "-f"@, candidate@]);
    r
}

/// The error of a grant whose sudoers file did not pass.
pub fn visudo_refusal(username: &str, validation: &CommandOutput) -> (r: AdminError)
    ensures
        r is Command,
        r->Command_0@ == "visudo rejected drop-in for "@ + username@ + ": "@ + trimmed(
            lossy_utf8(validation.stderr@),
        ),
{
    let text = lossy_text(validation.stderr.as_slice());
    let chars = chars_of(text.as_str());
    let stderr = string_of(trim(chars.as_slice()));
    AdminError::Command(
        "visudo rejected drop-in for ".to_owned().concat(username).concat(": ").concat(
            stderr.as_str(),
        ),
    )
}

// ---------------------------------------------------------------------
// Ledger
// ---------------------------------------------------------------------

/// Version of the ledger's format.
pub fn default_state_version() -> (r: u16)
    ensures
        r == 1,
{
    1
}

/// The grants of a ledger and the version of its format.
#[derive(Debug, PartialEq, Eq)]
pub struct GrantState {
    pub schema_version: u16,
    pub grants: Vec<GrantHandle>,
}

impl GrantState {
    /// A ledger of the current version.
    pub fn new(grants: Vec<GrantHandle>) -> (r: GrantState)
        ensures
            r.schema_version == 1,
            r.grants == grants,
    {
        GrantState { schema_version: default_state_version(), grants }
    }
}

/// What came of reading the ledger's file.
#[derive(Debug, PartialEq, Eq)]
pub enum LedgerFile {
    /// There is no file.
    Missing,
    /// The file is empty.
    Empty,
    /// The file could not be read.
    Unreadable(String),
    /// The file holds something else.
    Corrupt(String),
    /// The file holds a ledger.
    State(GrantState),
}

/// The grants on record. A ledger that is missing or empty holds none.
pub fn read_grants(file: LedgerFile) -> (r: Result<Vec<GrantHandle>, AdminError>)
    ensures
        match file {
            LedgerFile::Missing => r is Ok && r->Ok_0@ == Seq::<GrantHandle>::empty(),
            LedgerFile::Empty => r is Ok && r->Ok_0@ == Seq::<GrantHandle>::empty(),
            LedgerFile::Unreadable(e) => r == Err::<Vec<GrantHandle>, _>(AdminError::Io(e)),
            LedgerFile::Corrupt(e) => r == Err::<Vec<GrantHandle>, _>(AdminError::StateCorrupt(e)),
            LedgerFile::State(s) => r == Ok::<_, AdminError>(s.grants),
        },
{
    match file {
        LedgerFile::Missing => Ok(Vec::new()),
        LedgerFile::Empty => Ok(Vec::new()),
        LedgerFile::Unreadable(e) => Err(AdminError::Io(e)),
        LedgerFile::Corrupt(e) => Err(AdminError::StateCorrupt(e)),
        LedgerFile::State(s) => Ok(s.grants),
    }
}

/// The class of grants that are not of `username`.
pub open spec fn of_another(username: Seq<char>) -> spec_fn(GrantHandle) -> bool {
    |h: GrantHandle| h.user.username@ != username
}

/// The class of grants with an identifier other than `id`.
pub open spec fn with_other_id(id: Seq<char>) -> spec_fn(GrantHandle) -> bool {
    |h: GrantHandle| h.id@ != id
}

/// The grants that are not of `username`.
pub open spec fn grants_of_others(g: Seq<GrantHandle>, username: Seq<char>) -> Seq<GrantHandle> {
    g.filter(of_another(username))
}

/// The grants other than the one with identifier `id`.
pub open spec fn grants_without(g: Seq<GrantHandle>, id: Seq<char>) -> Seq<GrantHandle> {
    g.filter(with_other_id(id))
}

proof fn lemma_filter_step(g: Seq<GrantHandle>, p: spec_fn(GrantHandle) -> bool, i: int)
    requires
        0 <= i < g.len(),
    ensures
        g.take(i + 1).filter(p) == if p(g[i]) {
            g.take(i).filter(p).push(g[i])
        } else {
            g.take(i).filter(p)
        },
{
    reveal(Seq::filter);
    assert(g.take(i + 1).drop_last() =~= g.take(i));
}

/// Puts a grant on record: it takes the place of any grant of its user.
pub fn record_grant(grants: &Vec<GrantHandle>, handle: &GrantHandle) -> (r: Vec<GrantHandle>)
    ensures
        r@ == grants_of_others(grants@, handle.user.username@).push(*handle),
{
    let ghost p = of_another(handle.user.username@);
    let mut out: Vec<GrantHandle> = Vec::new();
    let mut i: usize = 0;
    proof {
        reveal(Seq::filter);
        assert(grants@.take(0) =~= Seq::empty());
        assert(out@ =~= grants@.take(0).filter(p));
    }
    while i < grants.len()
        invariant
            i <= grants@.len(),
            p == of_another(handle.user.username@),
            out@ == grants@.take(i as int).filter(p),
        decreases grants@.len() - i,
    {
        proof {
            lemma_filter_step(grants@, p, i as int);
        }
        if !same_str(grants[i].user.username.as_str(), handle.user.username.as_str()) {
            out.push(grants[i].clone());
        }
        i += 1;
    }
    assert(grants@.take(i as int) =~= grants@);
    out.push(handle.clone());
    out
}

/// Takes the grant with the identifier of `handle` off the record.
pub fn drop_grant(grants: &Vec<GrantHandle>, handle: &GrantHandle) -> (r: Vec<GrantHandle>)
    ensures
        r@ == grants_without(grants@, handle.id@),
{
    let ghost p = with_other_id(handle.id@);
    let mut out: Vec<GrantHandle> = Vec::new();
    let mut i: usize = 0;
    proof {
        reveal(Seq::filter);
        assert(grants@.take(0) =~= Seq::empty());
        assert(out@ =~= grants@.take(0).filter(p));
    }
    while i < grants.len()
        invariant
            i <= grants@.len(),
            p == with_other_id(handle.id@),
            out@ == grants@.take(i as int).filter(p),
        decreases grants@.len() - i,
    {
        proof {
            lemma_filter_step(grants@, p, i as int);
        }
        if !same_str(grants[i].id.as_str(), handle.id.as_str()) {
            out.push(grants[i].clone());
        }
        i += 1;
    }
    assert(grants@.take(i as int) =~= grants@);
    out
}

proof fn lemma_filter_members(g: Seq<GrantHandle>, p: spec_fn(GrantHandle) -> bool)
    ensures
        forall|h: GrantHandle| #[trigger] g.filter(p).contains(h) <==> g.contains(h) && p(h),
    decreases g.len(),
{
    reveal(Seq::filter);
    if g.len() > 0 {
        let front = g.drop_last();
        lemma_filter_members(front, p);
        assert forall|h: GrantHandle| #[trigger] g.filter(p).contains(h) <==> g.contains(h) && p(h) by {
            let f = front.filter(p);
            let whole = g.filter(p);
            if g.contains(h) && p(h) {
                let i = choose|i: int| 0 <= i < g.len() && g[i] == h;
                if i < front.len() {
                    assert(front[i] == h);
                    assert(f.contains(h));
                    let j = choose|j: int| 0 <= j < f.len() && f[j] == h;
                    assert(whole[j] == h);
                } else {
                    assert(whole.last() == h);
                }
            }
            if whole.contains(h) {
                let j = choose|j: int| 0 <= j < whole.len() && whole[j] == h;
                if j < f.len() {
                    assert(f[j] == h);
                    assert(f.contains(h));
                    let i = choose|i: int| 0 <= i < front.len() && front[i] == h;
                    assert(g[i] == h);
                } else {
                    assert(g[g.len() - 1] == h);
                }
            }
        }
    }
}

/// A user has at most one grant on record: after a grant is recorded it is
/// the only one of its user, and the grants of others are as they were.
pub proof fn law_one_grant_per_user(grants: Seq<GrantHandle>, handle: GrantHandle)
    ensures
        ({
            let after = grants_of_others(grants, handle.user.username@).push(handle);
            &&& after.contains(handle)
            &&& forall|i: int|
                0 <= i < after.len() && (#[trigger] after[i]).user.username@ == handle.user.username@
                    ==> i == after.len() - 1
            &&& forall|h: GrantHandle|
                h.user.username@ != handle.user.username@ ==> (#[trigger] after.contains(h)
                    <==> grants.contains(h))
        }),
{
    let p = of_another(handle.user.username@);
    let others = grants.filter(p);
    let after = others.push(handle);
    lemma_filter_members(grants, p);
    assert(after.last() == handle);
    assert forall|i: int|
        0 <= i < after.len() && (#[trigger] after[i]).user.username@ == handle.user.username@ implies i
        == after.len() - 1 by {
        if i < others.len() {
            assert(others.contains(others[i]));
        }
    }
    assert forall|h: GrantHandle| h.user.username@ != handle.user.username@ implies (
    #[trigger] after.contains(h) <==> grants.contains(h)) by {
        if grants.contains(h) {
            assert(others.contains(h));
            let j = choose|j: int| 0 <= j < others.len() && others[j] == h;
            assert(after[j] == h);
        }
        if after.contains(h) {
            let j = choose|j: int| 0 <= j < after.len() && after[j] == h;
            assert(others[j] == h);
            assert(others.contains(h));
        }
    }
}

/// Revoking takes a grant off the record, and to revoke it again changes
/// nothing.
pub proof fn law_revocation(grants: Seq<GrantHandle>, id: Seq<char>)
    ensures
        forall|h: GrantHandle| #[trigger]
            grants_without(grants, id).contains(h) <==> grants.contains(h) && h.id@ != id,
        grants_without(grants_without(grants, id), id) == grants_without(grants, id),
{
    let p = with_other_id(id);
    lemma_filter_members(grants, p);
    lemma_filter_all(grants.filter(p), p);
}

proof fn lemma_filter_all(g: Seq<GrantHandle>, p: spec_fn(GrantHandle) -> bool)
    requires
        forall|h: GrantHandle| #[trigger] g.contains(h) ==> p(h),
    ensures
        g.filter(p) == g,
    decreases g.len(),
{
    reveal(Seq::filter);
    if g.len() > 0 {
        let front = g.drop_last();
        assert forall|h: GrantHandle| #[trigger] front.contains(h) implies p(h) by {
            let i = choose|i: int| 0 <= i < front.len() && front[i] == h;
            assert(g[i] == h);
            assert(g.contains(h));
        }
        lemma_filter_all(front, p);
        assert(g[g.len() - 1] == g.last());
        assert(g.contains(g.last()));
        assert(g.filter(p) =~= g);
    } else {
        assert(g.filter(p) =~= g);
    }
}

/// A grant that is recorded and then revoked leaves no grant of its user
/// behind, as long as its identifier is its own.
pub proof fn law_grant_then_revoke(grants: Seq<GrantHandle>, handle: GrantHandle)
    requires
        forall|h: GrantHandle| grants.contains(h) ==> #[trigger] h.id@ != handle.id@,
    ensures
        ({
            let recorded = grants_of_others(grants, handle.user.username@).push(handle);
            grants_without(recorded, handle.id@) == grants_of_others(grants, handle.user.username@)
        }),
{
    reveal(Seq::filter);
    let p = of_another(handle.user.username@);
    let q = with_other_id(handle.id@);
    let others = grants.filter(p);
    let recorded = others.push(handle);
    lemma_filter_members(grants, p);
    assert(recorded.drop_last() =~= others);
    lemma_filter_all(others, q);
}

// ---------------------------------------------------------------------
// Linux
// ---------------------------------------------------------------------

/// The names in a list with commas between them.
pub open spec fn member_name(piece: Seq<char>) -> Option<Seq<char>> {
    if trimmed(piece).len() == 0 {
        None
    } else {
        Some(trimmed(piece))
    }
}

/// The members that a line of the group file gives to one of the groups:
/// the names in its fourth field, each with the name of the group.
pub open spec fn group_line(line: Seq<char>, groups: Seq<Seq<char>>) -> Seq<(Seq<char>, Seq<char>)> {
    let f = pieces_of(line, ':');
    if line.len() == 0 || line[0] == '#' || !groups.contains(f[0]) || f.len() < 4 {
        Seq::empty()
    } else {
        gather(pieces_of(f[3], ','), member_reader(f[0]))
    }
}

/// Reads a member of `group`, for use with `gather`.
pub open spec fn member_reader(group: Seq<char>) -> spec_fn(Seq<char>) -> Option<
    (Seq<char>, Seq<char>),
> {
    |piece: Seq<char>|
        match member_name(piece) {
            Some(n) => Some((n, group)),
            None => None,
        }
}

/// Reads a line of the group file, for use with `spread`.
pub open spec fn group_reader(groups: Seq<Seq<char>>) -> spec_fn(Seq<char>) -> Seq<
    (Seq<char>, Seq<char>),
> {
    |line: Seq<char>| group_line(line, groups)
}

/// The members of the groups, each with the name of the group.
pub open spec fn group_members(etc_group: Seq<char>, groups: Seq<Seq<char>>) -> Seq<
    (Seq<char>, Seq<char>),
> {
    spread(lines_of(etc_group), group_reader(groups))
}

/// The contents of a list of pairs of strings.
pub open spec fn pair_views(v: Seq<(String, String)>) -> Seq<(Seq<char>, Seq<char>)> {
    v.map_values(|p: (String, String)| (p.0@, p.1@))
}

fn one_of(name: &[char], groups: &[&str]) -> (r: bool)
    ensures
        r == strs(groups@).contains(name@),
{
    let mut i: usize = 0;
    while i < groups.len()
        invariant
            i <= groups@.len(),
            forall|k: int| 0 <= k < i ==> strs(groups@)[k] != name@,
        decreases groups@.len() - i,
    {
        if is_text(name, groups[i]) {
            assert(strs(groups@)[i as int] == name@);
            return true;
        }
        i += 1;
    }
    false
}

proof fn lemma_pieces_some(s: Seq<char>, c: char)
    ensures
        pieces_of(s, c).len() >= 1,
{
}

/// The login that a line of the password file makes another root: its
/// third field is zero and its name is not `root`.
pub open spec fn uid_zero_alias(line: Seq<char>) -> Option<Seq<char>> {
    let f = pieces_of(line, ':');
    if line.len() == 0 || line[0] == '#' || f.len() < 3 || f[2] != "0"@ || f[0] == "root"@ {
        None
    } else {
        Some(f[0])
    }
}

/// Reads a line of the password file, for use with `gather`.
pub open spec fn alias_reader() -> spec_fn(Seq<char>) -> Option<Seq<char>> {
    |line: Seq<char>| uid_zero_alias(line)
}

/// Groups whose members are administrators.
pub open spec fn admin_groups() -> Seq<Seq<char>> {
    seq!["wheel"@, "sudo"@, "admin"@]
}

/// Whether an account of the list has the name.
pub open spec fn has_account(v: Seq<AccountView>, name: Seq<char>) -> bool {
    exists|i: int| 0 <= i < v.len() && (#[trigger] v[i]).username == name
}

/// The list with an account of that name; the first of a name stays.
pub open spec fn with_account(v: Seq<AccountView>, name: Seq<char>, group: Seq<char>) -> Seq<
    AccountView,
> {
    if has_account(v, name) {
        v
    } else {
        v.push(local_account(name, group))
    }
}

/// The list with the first `n` members added.
pub open spec fn with_members(
    v: Seq<AccountView>,
    members: Seq<(Seq<char>, Seq<char>)>,
    n: int,
) -> Seq<AccountView>
    decreases n,
{
    if n <= 0 {
        v
    } else {
        with_account(with_members(v, members, n - 1), members[n - 1].0, members[n - 1].1)
    }
}

/// The list with the first `n` aliases of root added.
pub open spec fn with_aliases(v: Seq<AccountView>, aliases: Seq<Seq<char>>, n: int) -> Seq<AccountView>
    decreases n,
{
    if n <= 0 {
        v
    } else {
        with_account(with_aliases(v, aliases, n - 1), aliases[n - 1], "uid0"@)
    }
}

/// The administrators of a Linux host: root, the members of the
/// administrator groups and the other accounts with user number zero, each
/// once.
pub open spec fn linux_admins(etc_group: Seq<char>, etc_passwd: Seq<char>) -> Seq<AccountView> {
    let members = group_members(etc_group, admin_groups());
    let aliases = gather(lines_of(etc_passwd), alias_reader());
    let root = seq![local_account("root"@, "root"@)];
    with_aliases(
        with_members(root, members, members.len() as int),
        aliases,
        aliases.len() as int,
    )
}

fn knows_account(v: &Vec<AdminAccount>, name: &str) -> (r: bool)
    ensures
        r == has_account(account_views(v@), name@),
{
    let mut i: usize = 0;
    while i < v.len()
        invariant
            i <= v@.len(),
            forall|k: int| 0 <= k < i ==> (#[trigger] account_views(v@)[k]).username != name@,
        decreases v@.len() - i,
    {
        assert(account_views(v@)[i as int] == v@[i as int]@);
        if same_str(v[i].username.as_str(), name) {
            return true;
        }
        i += 1;
    }
    false
}

fn make_local(username: String, group: &str) -> (r: AdminAccount)
    ensures
        r@ == local_account(username@, group@),
{
    AdminAccount {
        username,
        source: "local".to_owned(),
        since: None,
        group: Some(group.to_owned()),
    }
}

proof fn lemma_accounts_push(v: Seq<AdminAccount>, a: AdminAccount)
    ensures
        account_views(v.push(a)) == account_views(v).push(a@),
{
    assert(account_views(v.push(a)) =~= account_views(v).push(a@));
}

/// The administrators of a Linux host, and where its grants are kept.
#[derive(Debug)]
pub struct LinuxAdminManager {
    state_file: String,
    sudoers_dir: String,
}

impl LinuxAdminManager {
    /// Where the ledger stands.
    pub closed spec fn ledger(&self) -> Seq<char> {
        self.state_file@
    }

    /// Where the sudoers files stand.
    pub closed spec fn sudoers(&self) -> Seq<char> {
        self.sudoers_dir@
    }

    /// The manager of this host.
    pub fn new() -> (r: LinuxAdminManager)
        ensures
            r.ledger() == "/var/lib/sn360/jit-admin-grants.json"@,
            r.sudoers() == "/etc/sudoers.d"@,
    {
        LinuxAdminManager::with_components(
            "/var/lib/sn360/jit-admin-grants.json".to_owned(),
            "/etc/sudoers.d".to_owned(),
        )
    }

    /// A manager with its files elsewhere.
    pub fn with_components(state_file: String, sudoers_dir: String) -> (r: LinuxAdminManager)
        ensures
            r.ledger() == state_file@,
            r.sudoers() == sudoers_dir@,
    {
        LinuxAdminManager { state_file, sudoers_dir }
    }

    /// Where the ledger stands.
    pub fn state_file(&self) -> (r: &str)
        ensures
            r@ == self.ledger(),
    {
        self.state_file.as_str()
    }

    /// Where the sudoers files stand.
    pub fn sudoers_dir(&self) -> (r: &str)
        ensures
            r@ == self.sudoers(),
    {
        self.sudoers_dir.as_str()
    }

    /// The members of the named groups, each with the name of the group.
    pub fn parse_group_members(etc_group: &str, group_names: &[&str]) -> (r: Vec<(String, String)>)
        ensures
            pair_views(r@) == group_members(etc_group@, strs(group_names@)),
    {
        let chars = chars_of(etc_group);
        let all = lines(chars.as_slice());
        let ghost want = texts(all@);
        let ghost reader = group_reader(strs(group_names@));
        let mut out: Vec<(String, String)> = Vec::new();
        let mut i: usize = 0;
        assert(want.take(0) =~= Seq::empty());
        assert(pair_views(out@) =~= spread(want.take(0), reader));
        while i < all.len()
            invariant
                i <= all@.len(),
                want == texts(all@),
                reader == group_reader(strs(group_names@)),
                pair_views(out@) == spread(want.take(i as int), reader),
            decreases all@.len() - i,
        {
            let line = all[i];
            proof {
                lemma_spread_step(want, reader, i as int);
                assert(want[i as int] == line@);
                lemma_pieces_some(line@, ':');
            }
            let ghost before = pair_views(out@);
            if line.len() > 0 && line[0] != '#' {
                let f = pieces(line, ':');
                assert(texts(f@).len() == f@.len());
                assert(texts(f@)[0] == f@[0]@);
                if one_of(f[0], group_names) && f.len() >= 4 {
                    assert(texts(f@)[3] == f@[3]@);
                    let names = pieces(f[3], ',');
                    let ghost parts = texts(names@);
                    let ghost mreader = member_reader(f@[0]@);
                    let mut j: usize = 0;
                    assert(parts.take(0) =~= Seq::empty());
                    assert(pair_views(out@) =~= before + gather(parts.take(0), mreader));
                    while j < names.len()
                        invariant
                            j <= names@.len(),
                            f@.len() >= 4,
                            parts == texts(names@),
                            mreader == member_reader(f@[0]@),
                            pair_views(out@) == before + gather(parts.take(j as int), mreader),
                        decreases names@.len() - j,
                    {
                        proof {
                            lemma_gather_step(parts, mreader, j as int);
                            assert(parts[j as int] == names@[j as int]@);
                        }
                        let m = trim(names[j]);
                        if m.len() > 0 {
                            let ghost prev = out@;
                            let user = string_of(m);
                            let group = string_of(f[0]);
                            assert(mreader(parts[j as int]) == Some((user@, group@)));
                            out.push((user, group));
                            assert(pair_views(out@) =~= pair_views(prev).push((user@, group@)));
                            assert(pair_views(out@) =~= before + gather(parts.take(j + 1), mreader));
                        }
                        j += 1;
                    }
                    assert(parts.take(j as int) =~= parts);
                }
            }
            assert(pair_views(out@) =~= before + group_line(line@, strs(group_names@)));
            i += 1;
        }
        assert(want.take(i as int) =~= want);
        out
    }

    /// The logins other than `root` with user number zero.
    pub fn parse_uid_zero_aliases(etc_passwd: &str) -> (r: Vec<String>)
        ensures
            views(r@) == gather(lines_of(etc_passwd@), alias_reader()),
    {
        let chars = chars_of(etc_passwd);
        let all = lines(chars.as_slice());
        let ghost want = texts(all@);
        let ghost reader = alias_reader();
        let mut out: Vec<String> = Vec::new();
        let mut i: usize = 0;
        assert(want.take(0) =~= Seq::empty());
        assert(views(out@) =~= gather(want.take(0), reader));
        while i < all.len()
            invariant
                i <= all@.len(),
                want == texts(all@),
                reader == alias_reader(),
                views(out@) == gather(want.take(i as int), reader),
            decreases all@.len() - i,
        {
            let line = all[i];
            let ghost before = out@;
            proof {
                lemma_gather_step(want, reader, i as int);
                assert(want[i as int] == line@);
                lemma_pieces_some(line@, ':');
            }
            if line.len() > 0 && line[0] != '#' {
                let f = pieces(line, ':');
                assert(texts(f@).len() == f@.len());
                if f.len() >= 3 {
                    assert(texts(f@)[0] == f@[0]@);
                    assert(texts(f@)[2] == f@[2]@);
                    if is_text(f[2], "0") && !is_text(f[0], "root") {
                        let s = string_of(f[0]);
                        out.push(s);
                        proof {
                            lemma_views_push(before, s);
                        }
                    }
                }
            }
            i += 1;
        }
        assert(want.take(i as int) =~= want);
        out
    }

    /// The administrators that the group file and the password file make.
    pub fn list_admins(etc_group: &str, etc_passwd: &str) -> (r: Vec<AdminAccount>)
        ensures
            account_views(r@) == linux_admins(etc_group@, etc_passwd@),
    {
        let mut admins: Vec<AdminAccount> = Vec::new();
        let root = make_local("root".to_owned(), "root");
        admins.push(root);
        let ghost start = seq![local_account("root"@, "root"@)];
        assert(account_views(admins@) =~= start);
        let names: [&str; 3] = ["wheel", "sudo", "admin"];
        assert(strs(names@) =~= admin_groups());
        let members = LinuxAdminManager::parse_group_members(etc_group, &names);
        let ghost m = group_members(etc_group@, admin_groups());
        let mut i: usize = 0;
        while i < members.len()
            invariant
                i <= members@.len(),
                m == pair_views(members@),
                account_views(admins@) == with_members(start, m, i as int),
            decreases members@.len() - i,
        {
            let ghost before = admins@;
            assert(m[i as int] == (members@[i as int].0@, members@[i as int].1@));
            if !knows_account(&admins, members[i].0.as_str()) {
                let a = make_local(members[i].0.clone(), members[i].1.as_str());
                admins.push(a);
                proof {
                    lemma_accounts_push(before, a);
                }
            }
            i += 1;
        }
        let ghost mid = with_members(start, m, m.len() as int);
        let aliases = LinuxAdminManager::parse_uid_zero_aliases(etc_passwd);
        let ghost z = gather(lines_of(etc_passwd@), alias_reader());
        let mut j: usize = 0;
        while j < aliases.len()
            invariant
                j <= aliases@.len(),
                z == views(aliases@),
                account_views(admins@) == with_aliases(mid, z, j as int),
            decreases aliases@.len() - j,
        {
            let ghost before = admins@;
            assert(z[j as int] == aliases@[j as int]@);
            if !knows_account(&admins, aliases[j].as_str()) {
                let a = make_local(aliases[j].clone(), "uid0");
                admins.push(a);
                proof {
                    lemma_accounts_push(before, a);
                }
            }
            j += 1;
        }
        admins
    }
}

impl Default for LinuxAdminManager {
    fn default() -> (r: Self)
        ensures
            r.ledger() == "/var/lib/sn360/jit-admin-grants.json"@,
            r.sudoers() == "/etc/sudoers.d"@,
    {
        LinuxAdminManager::new()
    }
}

/// No account is listed twice.
pub open spec fn names_differ(v: Seq<AccountView>) -> bool {
    forall|i: int, j: int| 0 <= i < j < v.len() ==> (#[trigger] v[i]).username != (#[trigger] v[j]).username
}

/// Root is always an administrator, it comes first, and no account is
/// listed twice.
pub proof fn law_root_is_listed_first(etc_group: Seq<char>, etc_passwd: Seq<char>)
    ensures
        ({
            let v = linux_admins(etc_group, etc_passwd);
            &&& v.len() >= 1
            &&& v[0] == local_account("root"@, "root"@)
            &&& names_differ(v)
        }),
{
    let members = group_members(etc_group, admin_groups());
    let aliases = gather(lines_of(etc_passwd), alias_reader());
    let root = seq![local_account("root"@, "root"@)];
    lemma_with_members(root, members, members.len() as int);
    let mid = with_members(root, members, members.len() as int);
    lemma_with_aliases(mid, aliases, aliases.len() as int);
}

proof fn lemma_with_account(v: Seq<AccountView>, name: Seq<char>, group: Seq<char>)
    requires
        v.len() >= 1,
        names_differ(v),
    ensures
        with_account(v, name, group).len() >= 1,
        with_account(v, name, group)[0] == v[0],
        names_differ(with_account(v, name, group)),
{
    if !has_account(v, name) {
        let w = with_account(v, name, group);
        assert forall|i: int, j: int| 0 <= i < j < w.len() implies (#[trigger] w[i]).username != (
        #[trigger] w[j]).username by {
            if j == v.len() {
                assert(w[i] == v[i]);
            }
        }
    }
}

proof fn lemma_with_members(v: Seq<AccountView>, members: Seq<(Seq<char>, Seq<char>)>, n: int)
    requires
        v.len() >= 1,
        names_differ(v),
        0 <= n <= members.len(),
    ensures
        with_members(v, members, n).len() >= 1,
        with_members(v, members, n)[0] == v[0],
        names_differ(with_members(v, members, n)),
    decreases n,
{
    if n > 0 {
        lemma_with_members(v, members, n - 1);
        lemma_with_account(
            with_members(v, members, n - 1),
            members[n - 1].0,
            members[n - 1].1,
        );
    }
}

proof fn lemma_with_aliases(v: Seq<AccountView>, aliases: Seq<Seq<char>>, n: int)
    requires
        v.len() >= 1,
        names_differ(v),
        0 <= n <= aliases.len(),
    ensures
        with_aliases(v, aliases, n).len() >= 1,
        with_aliases(v, aliases, n)[0] == v[0],
        names_differ(with_aliases(v, aliases, n)),
    decreases n,
{
    if n > 0 {
        lemma_with_aliases(v, aliases, n - 1);
        lemma_with_account(with_aliases(v, aliases, n - 1), aliases[n - 1], "uid0"@);
    }
}

// ---------------------------------------------------------------------
// macOS
// ---------------------------------------------------------------------

/// What a line says of the members of the administrator group, if it does.
pub open spec fn membership_line(line: Seq<char>) -> Option<Seq<Seq<char>>> {
    let t = trimmed(line);
    if "GroupMembership:"@.is_prefix_of(t) {
        Some(words_of(t.skip("GroupMembership:"@.len() as int)))
    } else if "GroupMembership :"@.is_prefix_of(t) {
        Some(words_of(t.skip("GroupMembership :"@.len() as int)))
    } else {
        None
    }
}

/// What the first line from the `i`-th on says that speaks of members.
pub open spec fn membership_from(l: Seq<Seq<char>>, i: int) -> Seq<Seq<char>>
    decreases l.len() - i,
{
    if i < 0 || i >= l.len() {
        Seq::empty()
    } else {
        match membership_line(l[i]) {
            Some(m) => m,
            None => membership_from(l, i + 1),
        }
    }
}

fn strings_of(v: &Vec<&[char]>) -> (r: Vec<String>)
    ensures
        views(r@) == texts(v@),
{
    let mut out: Vec<String> = Vec::new();
    let mut i: usize = 0;
    assert(views(out@) =~= texts(v@.take(0)));
    while i < v.len()
        invariant
            i <= v@.len(),
            views(out@) == texts(v@.take(i as int)),
        decreases v@.len() - i,
    {
        let ghost before = out@;
        let s = string_of(v[i]);
        out.push(s);
        proof {
            lemma_views_push(before, s);
            assert(views(out@) =~= texts(v@.take(i + 1)));
        }
        i += 1;
    }
    assert(v@.take(i as int) =~= v@);
    out
}

/// The administrators that `dscl` lists.
fn admins_of_membership(out: &str) -> (r: Vec<AdminAccount>)
    ensures
        account_views(r@) == membership_from(lines_of(out@), 0).map_values(
            |u: Seq<char>| local_account(u, "admin"@),
        ),
{
    let users = MacAdminManager::parse_dscl_membership(out);
    let ghost want = views(users@);
    let mut admins: Vec<AdminAccount> = Vec::new();
    let mut i: usize = 0;
    while i < users.len()
        invariant
            i <= users@.len(),
            want == views(users@),
            account_views(admins@) == want.take(i as int).map_values(
                |u: Seq<char>| local_account(u, "admin"@),
            ),
        decreases users@.len() - i,
    {
        let ghost before = admins@;
        assert(want[i as int] == users@[i as int]@);
        let a = make_local(users[i].clone(), "admin");
        admins.push(a);
        proof {
            lemma_accounts_push(before, a);
            assert(account_views(admins@) =~= want.take(i + 1).map_values(
                |u: Seq<char>| local_account(u, "admin"@),
            ));
        }
        i += 1;
    }
    assert(want.take(i as int) =~= want);
    admins
}

/// The administrators of a macOS host, and where its grants are kept.
#[derive(Debug)]
pub struct MacAdminManager {
    state_file: String,
}

impl MacAdminManager {
    /// Where the ledger stands.
    pub closed spec fn ledger(&self) -> Seq<char> {
        self.state_file@
    }

    /// The manager of this host.
    pub fn new() -> (r: MacAdminManager)
        ensures
            r.ledger() == "/Library/Application Support/sn360/jit-admin-grants.json"@,
    {
        MacAdminManager::with_components(
            "/Library/Application Support/sn360/jit-admin-grants.json".to_owned(),
        )
    }

    /// A manager with its ledger elsewhere.
    pub fn with_components(state_file: String) -> (r: MacAdminManager)
        ensures
            r.ledger() == state_file@,
    {
        MacAdminManager { state_file }
    }

    /// Where the ledger stands.
    pub fn state_file(&self) -> (r: &str)
        ensures
            r@ == self.ledger(),
    {
        self.state_file.as_str()
    }

    /// The members that `dscl` lists for the administrator group.
    pub fn parse_dscl_membership(out: &str) -> (r: Vec<String>)
        ensures
            views(r@) == membership_from(lines_of(out@), 0),
    {
        let chars = chars_of(out);
        let all = lines(chars.as_slice());
        let ghost l = texts(all@);
        let mut i: usize = 0;
        proof {
            reveal_strlit("GroupMembership:");
            reveal_strlit("GroupMembership :");
        }
        while i < all.len()
            invariant
                i <= all@.len(),
                l == texts(all@),
                l == lines_of(out@),
                membership_from(l, 0) == membership_from(l, i as int),
                "GroupMembership:"@.len() == 16,
                "GroupMembership :"@.len() == 17,
            decreases all@.len() - i,
        {
            assert(l[i as int] == all@[i as int]@);
            let t = trim(all[i]);
            if starts_with(t, "GroupMembership:") {
                let rest = slice_subrange(t, 16, t.len());
                assert(t@.skip(16) =~= rest@);
                let w = words(rest);
                return strings_of(&w);
            }
            if starts_with(t, "GroupMembership :") {
                let rest = slice_subrange(t, 17, t.len());
                assert(t@.skip(17) =~= rest@);
                let w = words(rest);
                return strings_of(&w);
            }
            i += 1;
        }
        let none: Vec<String> = Vec::new();
        assert(views(none@) =~= Seq::empty());
        none
    }

    /// The command line that lists the administrator group.
    pub fn list_command(&self) -> (r: CommandLine)
        ensures
            r@ == command("dscl"@, seq!["."@, "-read"@, "/Groups/admin"@, "GroupMembership"@]),
    {
        let r = CommandLine::new("dscl").arg(".").arg("-read").arg("/Groups/admin").arg(
            "GroupMembership",
        );
        assert(r@.args =~= seq!["."@, "-read"@, "/Groups/admin"@, "GroupMembership"@]);
        r
    }

    /// Reads the output of that program once it has ended.
    pub fn list_admins(output: CommandOutput) -> (r: Result<Vec<AdminAccount>, AdminError>)
        ensures
            match r {
                Ok(v) => output.status == 0 && account_views(v@) == membership_from(
                    lines_of(lossy_utf8(output.stdout@)),
                    0,
                ).map_values(|u: Seq<char>| local_account(u, "admin"@)),
                Err(e) => output.status != 0 && e is Command && e->Command_0@ == program_fault(
                    "dscl"@,
                    output,
                ),
            },
    {
        match output.require_success("dscl") {
            Ok(o) => {
                let text = lossy_text(o.stdout.as_slice());
                Ok(admins_of_membership(text.as_str()))
            },
            Err(e) => Err(e),
        }
    }

    /// The command line that makes `user` an administrator.
    pub fn grant_command(&self, user: &UserRef) -> (r: CommandLine)
        ensures
            r@ == command(
                "dseditgroup"@,
                seq!["-o"@, "edit"@, "-a"@, user.username@, "-t"@, "user"@, "admin"@],
            ),
    {
        let r = CommandLine::new("dseditgroup").arg("-o").arg("edit").arg("-a").arg(
            user.username.as_str(),
        ).arg("-t").arg("user").arg("admin");
        assert(r@.args =~= seq![
            "-o"@,
            "edit"@,
            "-a"@,
            user.username@,
            "-t"@,
            "user"@,
            "admin"@,
        ]);
        r
    }

    /// The command line that takes the rights of a grant away.
    pub fn revoke_command(&self, handle: &GrantHandle) -> (r: CommandLine)
        ensures
            r@ == command(
                "dseditgroup"@,
                seq!["-o"@, "edit"@, "-d"@, handle.user.username@, "-t"@, "user"@, "admin"@],
            ),
    {
        let r = CommandLine::new("dseditgroup").arg("-o").arg("edit").arg("-d").arg(
            handle.user.username.as_str(),
        ).arg("-t").arg("user").arg("admin");
        assert(r@.args =~= seq![
            "-o"@,
            "edit"@,
            "-d"@,
            handle.user.username@,
            "-t"@,
            "user"@,
            "admin"@,
        ]);
        r
    }
}

impl Default for MacAdminManager {
    fn default() -> (r: Self)
        ensures
            r.ledger() == "/Library/Application Support/sn360/jit-admin-grants.json"@,
    {
        MacAdminManager::new()
    }
}

// ---------------------------------------------------------------------
// Windows
// ---------------------------------------------------------------------

/// The account that a line of the member list names. A name with a domain
/// before its first backslash is a domain account, unless the domain is
/// empty or a dot.
pub open spec fn windows_account(name: Seq<char>) -> AccountView {
    let domain = match cut(name, '\\') {
        Some((d, _)) => d.len() > 0 && d != "."@,
        None => false,
    };
    AccountView {
        username: name,
        source: if domain {
            "domain"@
        } else {
            "local"@
        },
        since: None,
        group: Some("Administrators"@),
    }
}

/// The accounts that the lines from the `i`-th on list: those after a line
/// of dashes, up to the closing message.
pub open spec fn localgroup_from(l: Seq<Seq<char>>, i: int, in_members: bool) -> Seq<AccountView>
    decreases l.len() - i,
{
    if i < 0 || i >= l.len() {
        Seq::empty()
    } else {
        let t = trimmed(l[i]);
        if t.len() == 0 {
            localgroup_from(l, i + 1, in_members)
        } else if "---"@.is_prefix_of(t) {
            localgroup_from(l, i + 1, true)
        } else if !in_members {
            localgroup_from(l, i + 1, in_members)
        } else if "the command completed"@.is_prefix_of(ascii_lower(t)) {
            Seq::empty()
        } else {
            seq![windows_account(t)] + localgroup_from(l, i + 1, in_members)
        }
    }
}

/// The administrators of a Windows host, and where its grants are kept.
#[derive(Debug)]
pub struct WindowsAdminManager {
    state_file: String,
}

impl WindowsAdminManager {
    /// Where the ledger stands.
    pub closed spec fn ledger(&self) -> Seq<char> {
        self.state_file@
    }

    /// The manager of this host.
    pub fn new() -> (r: WindowsAdminManager)
        ensures
            r.ledger() == "C:\\ProgramData\\sn360\\jit-admin-grants.json"@,
    {
        WindowsAdminManager::with_components(
            "C:\\ProgramData\\sn360\\jit-admin-grants.json".to_owned(),
        )
    }

    /// A manager with its ledger elsewhere.
    pub fn with_components(state_file: String) -> (r: WindowsAdminManager)
        ensures
            r.ledger() == state_file@,
    {
        WindowsAdminManager { state_file }
    }

    /// Where the ledger stands.
    pub fn state_file(&self) -> (r: &str)
        ensures
            r@ == self.ledger(),
    {
        self.state_file.as_str()
    }

    /// The accounts that `net localgroup` lists.
    pub fn parse_net_localgroup(out: &str) -> (r: Vec<AdminAccount>)
        ensures
            account_views(r@) == localgroup_from(lines_of(out@), 0, false),
    {
        let chars = chars_of(out);
        let all = lines(chars.as_slice());
        let ghost l = texts(all@);
        let mut admins: Vec<AdminAccount> = Vec::new();
        let mut in_members = false;
        let mut i: usize = 0;
        assert(account_views(admins@) + localgroup_from(l, 0, false) =~= localgroup_from(l, 0, false));
        while i < all.len()
            invariant
                i <= all@.len(),
                l == texts(all@),
                l == lines_of(out@),
                account_views(admins@) + localgroup_from(l, i as int, in_members) == localgroup_from(
                    l,
                    0,
                    false,
                ),
            decreases all@.len() - i,
        {
            assert(l[i as int] == all@[i as int]@);
            let t = trim(all[i]);
            let ghost before = admins@;
            let ghost was = in_members;
            if t.len() == 0 {
            } else if starts_with(t, "---") {
                in_members = true;
            } else if in_members {
                let low = to_ascii_lower(t);
                if starts_with(low.as_slice(), "the command completed") {
                    assert(account_views(admins@) + Seq::<AccountView>::empty() =~= account_views(
                        admins@,
                    ));
                    return admins;
                }
                let source = match split_once(t, '\\') {
                    Some((d, _)) => if d.len() == 0 || is_text(d, ".") {
                        "local"
                    } else {
                        "domain"
                    },
                    None => "local",
                };
                let a = AdminAccount {
                    username: string_of(t),
                    source: source.to_owned(),
                    since: None,
                    group: Some("Administrators".to_owned()),
                };
                assert(a@ == windows_account(t@));
                admins.push(a);
                proof {
                    lemma_accounts_push(before, a);
                    assert(account_views(admins@) + localgroup_from(l, i + 1, in_members)
                        =~= account_views(before) + localgroup_from(l, i as int, was));
                }
            }
            i += 1;
        }
        assert(account_views(admins@) + localgroup_from(l, i as int, in_members) =~= account_views(
            admins@,
        ));
        admins
    }

    /// The command line that lists the administrator group.
    pub fn list_command(&self) -> (r: CommandLine)
        ensures
            r@ == command("net"@, seq!["localgroup"@, "Administrators"@]),
    {
        let r = CommandLine::new("net").arg("localgroup").arg("Administrators");
        assert(r@.args =~= seq!["localgroup"@, "Administrators"@]);
        r
    }

    /// Reads the output of that program once it has ended.
    pub fn list_admins(output: CommandOutput) -> (r: Result<Vec<AdminAccount>, AdminError>)
        ensures
            match r {
                Ok(v) => output.status == 0 && account_views(v@) == localgroup_from(
                    lines_of(lossy_utf8(output.stdout@)),
                    0,
                    false,
                ),
                Err(e) => output.status != 0 && e is Command && e->Command_0@ == program_fault(
                    "net localgroup"@,
                    output,
                ),
            },
    {
        match output.require_success("net localgroup") {
            Ok(o) => {
                let text = lossy_text(o.stdout.as_slice());
                Ok(WindowsAdminManager::parse_net_localgroup(text.as_str()))
            },
            Err(e) => Err(e),
        }
    }

    /// The command line that makes `user` an administrator.
    pub fn grant_command(&self, user: &UserRef) -> (r: CommandLine)
        ensures
            r@ == command(
                "net"@,
                seq!["localgroup"@, "Administrators"@, user.username@, "/add"@],
            ),
    {
        let r = CommandLine::new("net").arg("localgroup").arg("Administrators").arg(
            user.username.as_str(),
        ).arg("/add");
        assert(r@.args =~= seq!["localgroup"@, "Administrators"@, user.username@, "/add"@]);
        r
    }

    /// The command line that takes the rights of a grant away.
    pub fn revoke_command(&self, handle: &GrantHandle) -> (r: CommandLine)
        ensures
            r@ == command(
                "net"@,
                seq!["localgroup"@, "Administrators"@, handle.user.username@, "/delete"@],
            ),
    {
        let r = CommandLine::new("net").arg("localgroup").arg("Administrators").arg(
            handle.user.username.as_str(),
        ).arg("/delete");
        assert(r@.args =~= seq!["localgroup"@, "Administrators"@, handle.user.username@, "/delete"@]);
        r
    }
}

impl Default for WindowsAdminManager {
    fn default() -> (r: Self)
        ensures
            r.ledger() == "C:\\ProgramData\\sn360\\jit-admin-grants.json"@,
    {
        WindowsAdminManager::new()
    }
}

} // verus!
