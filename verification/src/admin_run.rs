//! Grants and revocations of administrator rights, step by step. A run says
//! what is to be done next and takes what came of it.

use crate::admin_manager::{
    below, candidate_path, drop_grant, drop_in_path, grants_of_others, grants_without, program_fault,
    read_grants, record_grant, render_sudoers, sudoers_text, username_fault, validate_username,
    visudo_command,
    visudo_refusal, AdminError, CommandOutput, GrantHandle, GrantPhase, LedgerFile, LinuxAdminManager,
    MacAdminManager, UserRef, WindowsAdminManager, SUDOERS_MODE,
};
use crate::clock::Timestamp;
use crate::command::{command, CommandLine, CommandView};
use crate::text::{lossy_utf8, trimmed};
use vstd::prelude::*;
use vstd::string::*;

verus! {

/// One thing to be done.
#[derive(Debug, PartialEq, Eq)]
pub enum AdminStep {
    /// Make a directory and those above it.
    MakeDir(String),
    /// Write a file.
    WriteFile { path: String, body: String },
    /// Set the permissions of a file.
    Restrict { path: String, mode: u32 },
    /// Run a program.
    Run(CommandLine),
    /// Remove a file.
    Remove(String),
    /// Remove a file, if it is there.
    RemoveIfThere(String),
    /// Move a file.
    Rename { from: String, to: String },
    /// Read the ledger.
    ReadLedger,
    /// Write the ledger.
    WriteLedger(Vec<GrantHandle>),
}

/// The contents of an [`AdminStep`].
#[verifier::ext_equal]
pub enum StepView {
    MakeDir(Seq<char>),
    WriteFile { path: Seq<char>, body: Seq<char> },
    Restrict { path: Seq<char>, mode: u32 },
    Run(CommandView),
    Remove(Seq<char>),
    RemoveIfThere(Seq<char>),
    Rename { from: Seq<char>, to: Seq<char> },
    ReadLedger,
    WriteLedger(Seq<GrantHandle>),
}

impl View for AdminStep {
    type V = StepView;

    open spec fn view(&self) -> StepView {
        match self {
            AdminStep::MakeDir(p) => StepView::MakeDir(p@),
            AdminStep::WriteFile { path, body } => StepView::WriteFile { path: path@, body: body@ },
            AdminStep::Restrict { path, mode } => StepView::Restrict { path: path@, mode: *mode },
            AdminStep::Run(c) => StepView::Run(c@),
            AdminStep::Remove(p) => StepView::Remove(p@),
            AdminStep::RemoveIfThere(p) => StepView::RemoveIfThere(p@),
            AdminStep::Rename { from, to } => StepView::Rename { from: from@, to: to@ },
            AdminStep::ReadLedger => StepView::ReadLedger,
            AdminStep::WriteLedger(g) => StepView::WriteLedger(g@),
        }
    }
}

/// What came of a step.
#[derive(Debug, PartialEq, Eq)]
pub enum AdminReply {
    /// It was done.
    Done,
    /// It could not be done.
    Failed(AdminError),
    /// The program has ended.
    Ran(CommandOutput),
    /// What the ledger's file holds.
    Ledger(LedgerFile),
}

/// The reply is one to the step: a program that could be run leaves its
/// output, and the ledger what its file holds.
pub open spec fn answers(step: StepView, reply: AdminReply) -> bool {
    match step {
        StepView::Run(_) => reply is Ran || reply is Failed,
        StepView::ReadLedger => reply is Ledger,
        _ => reply is Done || reply is Failed,
    }
}

/// The step went well: a program ended well, and a ledger can be read.
pub open spec fn went_well(reply: AdminReply) -> bool {
    match reply {
        AdminReply::Done => true,
        AdminReply::Failed(_) => false,
        AdminReply::Ran(o) => o.status == 0,
        AdminReply::Ledger(f) => f !is Unreadable && f !is Corrupt,
    }
}

/// The grants of a ledger that can be read.
pub open spec fn grants_in(file: LedgerFile) -> Seq<GrantHandle> {
    match file {
        LedgerFile::State(s) => s.grants@,
        _ => Seq::empty(),
    }
}

/// The ledger's complaint.
pub open spec fn ledger_fault(file: LedgerFile, e: AdminError) -> bool {
    match file {
        LedgerFile::Unreadable(m) => e == AdminError::Io(m),
        LedgerFile::Corrupt(m) => e == AdminError::StateCorrupt(m),
        _ => false,
    }
}

// ---------------------------------------------------------------------
// A grant on Linux
// ---------------------------------------------------------------------

/// A grant on a Linux host that is under way.
#[derive(Debug)]
pub struct GrantRun {
    handle: GrantHandle,
    sudoers_dir: String,
    phase: GrantPhase,
    records: Vec<GrantHandle>,
    failure: Option<AdminError>,
}

/// Why a step of a grant to `username` went wrong.
pub open spec fn grant_fault(username: Seq<char>, reply: AdminReply, e: AdminError) -> bool {
    match reply {
        AdminReply::Done => false,
        AdminReply::Failed(x) => e == x,
        AdminReply::Ran(o) => e is Command && e->Command_0@ == "visudo rejected drop-in for "@
            + username + ": "@ + trimmed(lossy_utf8(o.stderr@)),
        AdminReply::Ledger(f) => ledger_fault(f, e),
    }
}

impl GrantRun {
    /// The grant that is to be made.
    pub closed spec fn granting(&self) -> GrantHandle {
        self.handle
    }

    /// Where the sudoers files stand.
    pub closed spec fn dir(&self) -> Seq<char> {
        self.sudoers_dir@
    }

    /// How far it has come.
    pub closed spec fn at(&self) -> GrantPhase {
        self.phase
    }

    /// What the ledger is to hold.
    pub closed spec fn entries(&self) -> Seq<GrantHandle> {
        self.records@
    }

    /// Why it has failed.
    pub closed spec fn fault(&self) -> Option<AdminError> {
        self.failure
    }

    /// The user name is accepted, the time exists, and there is a reason
    /// exactly where the grant has failed.
    pub closed spec fn wf(&self) -> bool {
        &&& username_fault(self.handle.user.username@) is None
        &&& self.handle.until.valid()
        &&& self.failure is Some <==> (self.phase is DiscardCandidate || self.phase is Refused)
    }

    /// What is to be done next.
    pub open spec fn step(&self) -> Option<StepView> {
        let user = self.granting().user.username@;
        let candidate = below(self.dir(), "sda-jit-"@ + user + ".tmp"@);
        match self.at() {
            GrantPhase::Prepare => Some(StepView::MakeDir(self.dir())),
            GrantPhase::WriteCandidate => Some(
                StepView::WriteFile {
                    path: candidate,
                    body: sudoers_text(user, self.granting().id@, self.granting().until),
                },
            ),
            GrantPhase::RestrictCandidate => Some(
                StepView::Restrict { path: candidate, mode: SUDOERS_MODE },
            ),
            GrantPhase::ValidateCandidate => Some(
                StepView::Run(command("visudo"@, seq!["-c"@, "-f"@, candidate])),
            ),
            GrantPhase::DiscardCandidate => Some(StepView::Remove(candidate)),
            GrantPhase::Install => Some(
                StepView::Rename { from: candidate, to: below(self.dir(), "sda-jit-"@ + user) },
            ),
            GrantPhase::LoadLedger => Some(StepView::ReadLedger),
            GrantPhase::StoreLedger => Some(StepView::WriteLedger(self.entries())),
            GrantPhase::Granted => None,
            GrantPhase::Refused => None,
        }
    }

    /// What is to be done next, while there is anything.
    pub fn next(&self) -> (r: Option<AdminStep>)
        requires
            self.wf(),
        ensures
            match r {
                Some(s) => self.step() == Some(s@),
                None => self.step() is None,
            },
    {
        let user = self.handle.user.username.as_str();
        let dir = self.sudoers_dir.as_str();
        match self.phase {
            GrantPhase::Prepare => Some(AdminStep::MakeDir(self.sudoers_dir.clone())),
            GrantPhase::WriteCandidate => Some(
                AdminStep::WriteFile {
                    path: candidate_path(dir, user),
                    body: render_sudoers(user, self.handle.id.as_str(), &self.handle.until),
                },
            ),
            GrantPhase::RestrictCandidate => Some(
                AdminStep::Restrict { path: candidate_path(dir, user), mode: SUDOERS_MODE },
            ),
            GrantPhase::ValidateCandidate => {
                let path = candidate_path(dir, user);
                Some(AdminStep::Run(visudo_command(path.as_str())))
            },
            GrantPhase::DiscardCandidate => Some(AdminStep::Remove(candidate_path(dir, user))),
            GrantPhase::Install => Some(
                AdminStep::Rename { from: candidate_path(dir, user), to: drop_in_path(dir, user) },
            ),
            GrantPhase::LoadLedger => Some(AdminStep::ReadLedger),
            GrantPhase::StoreLedger => Some(AdminStep::WriteLedger(copy_grants(&self.records))),
            GrantPhase::Granted => None,
            GrantPhase::Refused => None,
        }
    }

    /// Takes what came of that step.
    pub fn report(&mut self, reply: AdminReply)
        requires
            old(self).wf(),
            old(self).step() is Some,
            answers(old(self).step()->0, reply),
        ensures
            final(self).wf(),
            final(self).granting() == old(self).granting(),
            final(self).dir() == old(self).dir(),
            final(self).at() == old(self).at().after(went_well(reply)),
            final(self).entries() == if old(self).at() is LoadLedger && went_well(reply) {
                grants_of_others(
                    grants_in(reply->Ledger_0),
                    old(self).granting().user.username@,
                ).push(old(self).granting())
            } else {
                old(self).entries()
            },
            if old(self).fault() is Some {
                final(self).fault() == old(self).fault()
            } else if went_well(reply) {
                final(self).fault() is None
            } else {
                final(self).fault() is Some && grant_fault(
                    old(self).granting().user.username@,
                    reply,
                    final(self).fault()->0,
                )
            },
    {
        let phase = self.phase;
        let trouble: Option<AdminError> = match reply {
            AdminReply::Done => None,
            AdminReply::Failed(e) => Some(e),
            AdminReply::Ran(o) => if o.is_success() {
                None
            } else {
                Some(visudo_refusal(self.handle.user.username.as_str(), &o))
            },
            AdminReply::Ledger(f) => match read_grants(f) {
                Ok(g) => {
                    self.records = record_grant(&g, &self.handle);
                    None
                },
                Err(e) => Some(e),
            },
        };
        self.phase = phase.next(trouble.is_none());
        if self.failure.is_none() {
            self.failure = trouble;
        }
    }

    /// What has become of the grant, once it is over.
    pub fn outcome(&self) -> (r: Option<Result<GrantHandle, AdminError>>)
        requires
            self.wf(),
        ensures
            match r {
                None => self.step() is Some,
                Some(Ok(h)) => self.at() is Granted && h == self.granting(),
                Some(Err(e)) => self.at() is Refused && self.fault() == Some(e),
            },
    {
        match self.phase {
            GrantPhase::Granted => Some(Ok(self.handle.clone())),
            GrantPhase::Refused => match &self.failure {
                Some(e) => Some(Err(copy_error(e))),
                None => None,
            },
            _ => None,
        }
    }
}

fn copy_grants(v: &Vec<GrantHandle>) -> (r: Vec<GrantHandle>)
    ensures
        r@ == v@,
{
    let mut out: Vec<GrantHandle> = Vec::new();
    let mut i: usize = 0;
    while i < v.len()
        invariant
            i <= v@.len(),
            out@ == v@.take(i as int),
        decreases v@.len() - i,
    {
        out.push(v[i].clone());
        assert(out@ =~= v@.take(i + 1));
        i += 1;
    }
    assert(v@.take(i as int) =~= v@);
    out
}

fn copy_error(e: &AdminError) -> (r: AdminError)
    ensures
        r == *e,
{
    match e {
        AdminError::Command(m) => AdminError::Command(m.clone()),
        AdminError::Io(m) => AdminError::Io(m.clone()),
        AdminError::NotImplemented => AdminError::NotImplemented,
        AdminError::InvalidInput(m) => AdminError::InvalidInput(m.clone()),
        AdminError::StateCorrupt(m) => AdminError::StateCorrupt(m.clone()),
    }
}

impl LinuxAdminManager {
    /// Begins the grant of administrator rights to `user`. A user name that
    /// is not accepted is refused before anything is done.
    pub fn grant_admin(&self, user: &UserRef, until: Timestamp, id: String) -> (r: Result<
        GrantRun,
        AdminError,
    >)
        requires
            until.valid(),
        ensures
            match r {
                Ok(run) => {
                    &&& username_fault(user.username@) is None
                    &&& run.wf()
                    &&& run.granting() == (GrantHandle { id, user: *user, until })
                    &&& run.dir() == self.sudoers()
                    &&& run.at() is Prepare
                    &&& run.fault() is None
                },
                Err(e) => e is InvalidInput && username_fault(user.username@) == Some(
                    e->InvalidInput_0@,
                ),
            },
    {
        match validate_username(user.username.as_str()) {
            Err(e) => Err(e),
            Ok(_) => Ok(
                GrantRun {
                    handle: GrantHandle { id, user: user.clone(), until },
                    sudoers_dir: self.sudoers_dir().to_owned(),
                    phase: GrantPhase::Prepare,
                    records: Vec::new(),
                    failure: None,
                },
            ),
        }
    }

    /// Begins the end of a grant: its sudoers file goes, then its entry in
    /// the ledger.
    pub fn revoke_admin(&self, handle: &GrantHandle) -> (r: ChangeRun)
        ensures
            r.wf(),
            r.at() is First,
            r.fault() is None,
            r.first_step() == StepView::RemoveIfThere(
                below(self.sudoers(), "sda-jit-"@ + handle.user.username@),
            ),
            r.changing() == LedgerChange::Drop(*handle),
    {
        ChangeRun {
            first: FirstStep::RemoveIfThere(
                drop_in_path(self.sudoers_dir(), handle.user.username.as_str()),
            ),
            change: LedgerChange::Drop(handle.clone()),
            phase: ChangePhase::First,
            records: Vec::new(),
            failure: None,
        }
    }
}

// ---------------------------------------------------------------------
// One step, then the ledger
// ---------------------------------------------------------------------

/// What is done before the ledger is changed.
#[derive(Debug)]
enum FirstStep {
    /// Run a program; `label` names it where it fails.
    Program { line: CommandLine, label: &'static str },
    /// Remove a file, if it is there.
    RemoveIfThere(String),
}

/// What is done to the ledger.
#[derive(Debug, PartialEq, Eq)]
pub enum LedgerChange {
    /// Put a grant on record.
    Record(GrantHandle),
    /// Take a grant off the record.
    Drop(GrantHandle),
}

/// The ledger's entries after a change.
pub open spec fn changed(grants: Seq<GrantHandle>, change: LedgerChange) -> Seq<GrantHandle> {
    match change {
        LedgerChange::Record(h) => grants_of_others(grants, h.user.username@).push(h),
        LedgerChange::Drop(h) => grants_without(grants, h.id@),
    }
}

/// How far a change has come.
#[derive(Debug, Clone, Copy, PartialEq, Eq, Structural)]
pub enum ChangePhase {
    First,
    LoadLedger,
    StoreLedger,
    Finished,
    Refused,
}

impl ChangePhase {
    /// The phase after this one has succeeded or failed.
    pub open spec fn after(self, ok: bool) -> ChangePhase {
        match self {
            ChangePhase::First => if ok {
                ChangePhase::LoadLedger
            } else {
                ChangePhase::Refused
            },
            ChangePhase::LoadLedger => if ok {
                ChangePhase::StoreLedger
            } else {
                ChangePhase::Refused
            },
            ChangePhase::StoreLedger => if ok {
                ChangePhase::Finished
            } else {
                ChangePhase::Refused
            },
            ChangePhase::Finished => ChangePhase::Finished,
            ChangePhase::Refused => ChangePhase::Refused,
        }
    }
}

/// A change that is under way: a step on the host, then one in the ledger.
#[derive(Debug)]
pub struct ChangeRun {
    first: FirstStep,
    change: LedgerChange,
    phase: ChangePhase,
    records: Vec<GrantHandle>,
    failure: Option<AdminError>,
}

/// Why a step of a change went wrong; `label` names its program.
pub open spec fn change_fault(label: Seq<char>, reply: AdminReply, e: AdminError) -> bool {
    match reply {
        AdminReply::Done => false,
        AdminReply::Failed(x) => e == x,
        AdminReply::Ran(o) => e is Command && e->Command_0@ == program_fault(label, o),
        AdminReply::Ledger(f) => ledger_fault(f, e),
    }
}

impl ChangeRun {
    /// What is done before the ledger is changed.
    pub closed spec fn first_step(&self) -> StepView {
        match self.first {
            FirstStep::Program { line, label } => StepView::Run(line@),
            FirstStep::RemoveIfThere(p) => StepView::RemoveIfThere(p@),
        }
    }

    /// The name of the program, where one is run.
    pub closed spec fn label(&self) -> Seq<char> {
        match self.first {
            FirstStep::Program { line, label } => label@,
            FirstStep::RemoveIfThere(p) => Seq::empty(),
        }
    }

    /// What is done to the ledger.
    pub closed spec fn changing(&self) -> LedgerChange {
        self.change
    }

    /// How far it has come.
    pub closed spec fn at(&self) -> ChangePhase {
        self.phase
    }

    /// What the ledger is to hold.
    pub closed spec fn entries(&self) -> Seq<GrantHandle> {
        self.records@
    }

    /// Why it has failed.
    pub closed spec fn fault(&self) -> Option<AdminError> {
        self.failure
    }

    /// There is a reason exactly where the change has failed.
    pub closed spec fn wf(&self) -> bool {
        self.failure is Some <==> self.phase is Refused
    }

    /// What is to be done next.
    pub open spec fn step(&self) -> Option<StepView> {
        match self.at() {
            ChangePhase::First => Some(self.first_step()),
            ChangePhase::LoadLedger => Some(StepView::ReadLedger),
            ChangePhase::StoreLedger => Some(StepView::WriteLedger(self.entries())),
            ChangePhase::Finished => None,
            ChangePhase::Refused => None,
        }
    }

    /// What is to be done next, while there is anything.
    pub fn next(&self) -> (r: Option<AdminStep>)
        requires
            self.wf(),
        ensures
            match r {
                Some(s) => self.step() == Some(s@),
                None => self.step() is None,
            },
    {
        match self.phase {
            ChangePhase::First => match &self.first {
                FirstStep::Program { line, label } => Some(AdminStep::Run(copy_line(line))),
                FirstStep::RemoveIfThere(p) => Some(AdminStep::RemoveIfThere(p.clone())),
            },
            ChangePhase::LoadLedger => Some(AdminStep::ReadLedger),
            ChangePhase::StoreLedger => Some(AdminStep::WriteLedger(copy_grants(&self.records))),
            ChangePhase::Finished => None,
            ChangePhase::Refused => None,
        }
    }

    /// Takes what came of that step.
    pub fn report(&mut self, reply: AdminReply)
        requires
            old(self).wf(),
            old(self).step() is Some,
            answers(old(self).step()->0, reply),
        ensures
            final(self).wf(),
            final(self).first_step() == old(self).first_step(),
            final(self).label() == old(self).label(),
            final(self).changing() == old(self).changing(),
            final(self).at() == old(self).at().after(went_well(reply)),
            final(self).entries() == if old(self).at() is LoadLedger && went_well(reply) {
                changed(grants_in(reply->Ledger_0), old(self).changing())
            } else {
                old(self).entries()
            },
            if went_well(reply) {
                final(self).fault() is None
            } else {
                final(self).fault() is Some && change_fault(
                    old(self).label(),
                    reply,
                    final(self).fault()->0,
                )
            },
    {
        let trouble: Option<AdminError> = match reply {
            AdminReply::Done => None,
            AdminReply::Failed(e) => Some(e),
            AdminReply::Ran(o) => {
                let label = match &self.first {
                    FirstStep::Program { line, label } => *label,
                    FirstStep::RemoveIfThere(p) => "",
                };
                match o.require_success(label) {
                    Ok(_) => None,
                    Err(e) => Some(e),
                }
            },
            AdminReply::Ledger(f) => match read_grants(f) {
                Ok(g) => {
                    self.records = match &self.change {
                        LedgerChange::Record(h) => record_grant(&g, h),
                        LedgerChange::Drop(h) => drop_grant(&g, h),
                    };
                    None
                },
                Err(e) => Some(e),
            },
        };
        self.phase = if trouble.is_some() {
            ChangePhase::Refused
        } else {
            match self.phase {
                ChangePhase::First => ChangePhase::LoadLedger,
                ChangePhase::LoadLedger => ChangePhase::StoreLedger,
                _ => ChangePhase::Finished,
            }
        };
        self.failure = trouble;
    }

    /// What has become of the change, once it is over.
    pub fn outcome(&self) -> (r: Option<Result<(), AdminError>>)
        requires
            self.wf(),
        ensures
            match r {
                None => self.step() is Some,
                Some(Ok(_)) => self.at() is Finished,
                Some(Err(e)) => self.at() is Refused && self.fault() == Some(e),
            },
    {
        match self.phase {
            ChangePhase::Finished => Some(Ok(())),
            ChangePhase::Refused => match &self.failure {
                Some(e) => Some(Err(copy_error(e))),
                None => None,
            },
            _ => None,
        }
    }

    /// The grant that is on record, once a grant has gone through.
    pub fn granted(&self) -> (r: Option<GrantHandle>)
        ensures
            match r {
                Some(h) => self.at() is Finished && self.changing() == LedgerChange::Record(h),
                None => self.at() !is Finished || self.changing() is Drop,
            },
    {
        match self.phase {
            ChangePhase::Finished => match &self.change {
                LedgerChange::Record(h) => Some(h.clone()),
                LedgerChange::Drop(_) => None,
            },
            _ => None,
        }
    }
}

fn copy_line(c: &CommandLine) -> (r: CommandLine)
    ensures
        r@ == c@,
{
    let args = c.args.clone();
    assert(crate::text::views(args@) =~= crate::text::views(c.args@));
    CommandLine { program: c.program.clone(), args }
}

impl MacAdminManager {
    /// Begins the grant of administrator rights to `user`. A user name that
    /// is not accepted is refused before anything is done.
    pub fn grant_admin(&self, user: &UserRef, until: Timestamp, id: String) -> (r: Result<
        ChangeRun,
        AdminError,
    >)
        ensures
            match r {
                Ok(run) => {
                    &&& username_fault(user.username@) is None
                    &&& run.wf()
                    &&& run.at() is First
                    &&& run.fault() is None
                    &&& run.first_step() == StepView::Run(
                        command(
                            "dseditgroup"@,
                            seq!["-o"@, "edit"@, "-a"@, user.username@, "-t"@, "user"@, "admin"@],
                        ),
                    )
                    &&& run.label() == "dseditgroup add"@
                    &&& run.changing() == LedgerChange::Record(GrantHandle { id, user: *user, until })
                },
                Err(e) => e is InvalidInput && username_fault(user.username@) == Some(
                    e->InvalidInput_0@,
                ),
            },
    {
        match validate_username(user.username.as_str()) {
            Err(e) => Err(e),
            Ok(_) => Ok(
                ChangeRun {
                    first: FirstStep::Program {
                        line: self.grant_command(user),
                        label: "dseditgroup add",
                    },
                    change: LedgerChange::Record(GrantHandle { id, user: user.clone(), until }),
                    phase: ChangePhase::First,
                    records: Vec::new(),
                    failure: None,
                },
            ),
        }
    }

    /// Begins the end of a grant.
    pub fn revoke_admin(&self, handle: &GrantHandle) -> (r: ChangeRun)
        ensures
            r.wf(),
            r.at() is First,
            r.fault() is None,
            r.first_step() == StepView::Run(
                command(
                    "dseditgroup"@,
                    seq!["-o"@, "edit"@, "-d"@, handle.user.username@, "-t"@, "user"@, "admin"@],
                ),
            ),
            r.label() == "dseditgroup remove"@,
            r.changing() == LedgerChange::Drop(*handle),
    {
        ChangeRun {
            first: FirstStep::Program {
                line: self.revoke_command(handle),
                label: "dseditgroup remove",
            },
            change: LedgerChange::Drop(handle.clone()),
            phase: ChangePhase::First,
            records: Vec::new(),
            failure: None,
        }
    }
}

impl WindowsAdminManager {
    /// Begins the grant of administrator rights to `user`. A user name that
    /// is not accepted is refused before anything is done.
    pub fn grant_admin(&self, user: &UserRef, until: Timestamp, id: String) -> (r: Result<
        ChangeRun,
        AdminError,
    >)
        ensures
            match r {
                Ok(run) => {
                    &&& username_fault(user.username@) is None
                    &&& run.wf()
                    &&& run.at() is First
                    &&& run.fault() is None
                    &&& run.first_step() == StepView::Run(
                        command(
                            "net"@,
                            seq!["localgroup"@, "Administrators"@, user.username@, "/add"@],
                        ),
                    )
                    &&& run.label() == "net localgroup add"@
                    &&& run.changing() == LedgerChange::Record(GrantHandle { id, user: *user, until })
                },
                Err(e) => e is InvalidInput && username_fault(user.username@) == Some(
                    e->InvalidInput_0@,
                ),
            },
    {
        match validate_username(user.username.as_str()) {
            Err(e) => Err(e),
            Ok(_) => Ok(
                ChangeRun {
                    first: FirstStep::Program {
                        line: self.grant_command(user),
                        label: "net localgroup add",
                    },
                    change: LedgerChange::Record(GrantHandle { id, user: user.clone(), until }),
                    phase: ChangePhase::First,
                    records: Vec::new(),
                    failure: None,
                },
            ),
        }
    }

    /// Begins the end of a grant.
    pub fn revoke_admin(&self, handle: &GrantHandle) -> (r: ChangeRun)
        ensures
            r.wf(),
            r.at() is First,
            r.fault() is None,
            r.first_step() == StepView::Run(
                command(
                    "net"@,
                    seq!["localgroup"@, "Administrators"@, handle.user.username@, "/delete"@],
                ),
            ),
            r.label() == "net localgroup delete"@,
            r.changing() == LedgerChange::Drop(*handle),
    {
        ChangeRun {
            first: FirstStep::Program {
                line: self.revoke_command(handle),
                label: "net localgroup delete",
            },
            change: LedgerChange::Drop(handle.clone()),
            phase: ChangePhase::First,
            records: Vec::new(),
            failure: None,
        }
    }
}

} // verus!
