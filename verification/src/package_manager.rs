//! Package management: the command lines that list, install, update and
//! remove packages, and what their output says.

use crate::command::{command, CommandLine, CommandView};
use crate::json::{json_document, parse_json, Json, JsonView};
use crate::text::{
    byte_len, char_at, char_index, chars_of, cut, drop_back, find, find_text, gather,
    lemma_gather_step, lemma_views_push, lines, lines_of, list_has, lossy_text, lossy_utf8, numeral,
    octet_pieces, octet_pieces_of, octet_views, opt_view, push_number, same_str, space, split_once, starts_with,
    string_of, texts, trim, trim_end, trimmed, utf8_len, utf8_text, views, words, words_of,
};
use vstd::prelude::*;
use vstd::slice::slice_subrange;
use vstd::string::*;

verus! {

/// What can go wrong in a package manager.
#[derive(Debug, PartialEq, Eq)]
pub enum PackageError {
    /// The program could not be run.
    Io(String),
    /// The program failed or said something that cannot be read.
    Command(String),
    /// The host has no supported package manager.
    Unsupported,
    /// Not available on this platform yet.
    NotImplemented,
}

impl PackageError {
    /// The text that describes the error.
    pub open spec fn text(self) -> Seq<char> {
        match self {
            PackageError::Io(e) => "package manager IO error: "@ + e@,
            PackageError::Command(e) => "package manager command failed: "@ + e@,
            PackageError::Unsupported => "no supported package manager detected on this host"@,
            PackageError::NotImplemented => "not implemented"@,
        }
    }

    /// Describes the error.
    pub fn message(&self) -> (r: String)
        ensures
            r@ == self.text(),
    {
        match self {
            PackageError::Io(e) => "package manager IO error: ".to_owned().concat(e.as_str()),
            PackageError::Command(e) => "package manager command failed: ".to_owned().concat(
                e.as_str(),
            ),
            PackageError::Unsupported => "no supported package manager detected on this host".to_owned(),
            PackageError::NotImplemented => "not implemented".to_owned(),
        }
    }
}

/// A package that is installed.
#[derive(Debug, Clone, PartialEq, Eq)]
pub struct InstalledPackage {
    pub id: String,
    pub name: Option<String>,
    pub version: String,
    pub source: String,
}

/// The contents of an [`InstalledPackage`].
#[verifier::ext_equal]
pub struct PackageView {
    pub id: Seq<char>,
    pub name: Option<Seq<char>>,
    pub version: Seq<char>,
    pub source: Seq<char>,
}

impl View for InstalledPackage {
    type V = PackageView;

    open spec fn view(&self) -> PackageView {
        PackageView {
            id: self.id@,
            name: opt_view(self.name),
            version: self.version@,
            source: self.source@,
        }
    }
}

/// The contents of a list of packages.
pub open spec fn package_views(v: Seq<InstalledPackage>) -> Seq<PackageView> {
    v.map_values(|p: InstalledPackage| p@)
}

/// A package to install, update or remove.
#[derive(Debug, Clone, PartialEq, Eq)]
pub struct PackageRef {
    pub id: String,
    pub version: Option<String>,
}

/// Options of an installation.
#[derive(Debug, Clone, PartialEq, Eq)]
pub struct InstallOpts {
    pub expected_sha256: Option<String>,
    pub source_url: Option<String>,
    pub force: bool,
}

impl Default for InstallOpts {
    fn default() -> (r: Self)
        ensures
            r.expected_sha256 is None,
            r.source_url is None,
            !r.force,
    {
        InstallOpts { expected_sha256: None, source_url: None, force: false }
    }
}

/// Package management on a host.
pub trait PackageManager {
    /// The packages that are installed.
    fn list_installed(&self) -> Result<Vec<InstalledPackage>, PackageError>;

    /// Installs a package, or installs it anew where the options force that.
    fn install(&self, package: &PackageRef, opts: &InstallOpts) -> Result<(), PackageError>;

    /// Updates a package to its version, or to the latest.
    fn update(&self, package: &PackageRef) -> Result<(), PackageError>;

    /// Removes a package. That it is not there is no error.
    fn uninstall(&self, package: &PackageRef) -> Result<(), PackageError>;
}

// ---------------------------------------------------------------------
// Linux
// ---------------------------------------------------------------------

/// The package managers of Linux distributions.
#[derive(Debug, Clone, Copy, PartialEq, Eq, Structural)]
pub enum LinuxFlavour {
    Apt,
    Dnf,
    Yum,
    Zypper,
}

/// What is to be done with a package.
#[derive(Debug, Clone, Copy, PartialEq, Eq, Structural)]
pub enum PackageOp {
    Install,
    Update,
    Uninstall,
}

impl LinuxFlavour {
    /// The name of the flavour.
    pub open spec fn label(self) -> Seq<char> {
        match self {
            LinuxFlavour::Apt => "Apt"@,
            LinuxFlavour::Dnf => "Dnf"@,
            LinuxFlavour::Yum => "Yum"@,
            LinuxFlavour::Zypper => "Zypper"@,
        }
    }

    /// The program that changes packages.
    pub open spec fn program(self) -> Seq<char> {
        match self {
            LinuxFlavour::Apt => "apt-get"@,
            LinuxFlavour::Dnf => "dnf"@,
            LinuxFlavour::Yum => "yum"@,
            LinuxFlavour::Zypper => "zypper"@,
        }
    }

    /// The argument that suppresses questions.
    pub open spec fn quiet(self) -> Seq<char> {
        match self {
            LinuxFlavour::Zypper => "--non-interactive"@,
            _ => "-y"@,
        }
    }

    /// The verb for an operation.
    pub open spec fn verb(self, op: PackageOp) -> Seq<char> {
        match op {
            PackageOp::Install => "install"@,
            PackageOp::Uninstall => "remove"@,
            PackageOp::Update => match self {
                LinuxFlavour::Apt => "install"@,
                LinuxFlavour::Dnf => "upgrade"@,
                LinuxFlavour::Yum => "update"@,
                LinuxFlavour::Zypper => "update"@,
            },
        }
    }

    /// How a package is named on the command line: an installation or an
    /// update may ask for a version, which is joined to the name in the
    /// flavour's way.
    pub open spec fn target(self, op: PackageOp, package: PackageRef) -> Seq<char> {
        if op == PackageOp::Uninstall || package.version is None {
            package.id@
        } else if self == LinuxFlavour::Apt {
            package.id@ + "="@ + package.version->0@
        } else {
            package.id@ + "-"@ + package.version->0@
        }
    }
}

/// The word for an operation.
pub open spec fn op_word(op: PackageOp) -> Seq<char> {
    match op {
        PackageOp::Install => "install"@,
        PackageOp::Update => "update"@,
        PackageOp::Uninstall => "uninstall"@,
    }
}

/// The command line that does `op` to `package`.
pub open spec fn action_command(flavour: LinuxFlavour, op: PackageOp, package: PackageRef) -> CommandView {
    command(
        flavour.program(),
        seq![flavour.quiet(), flavour.verb(op), flavour.target(op, package)],
    )
}

/// How a package is named on the command line.
fn target_of(flavour: LinuxFlavour, op: PackageOp, package: &PackageRef) -> (r: String)
    ensures
        r@ == flavour.target(op, *package),
{
    match (op, &package.version) {
        (PackageOp::Uninstall, _) => package.id.clone(),
        (_, None) => package.id.clone(),
        (_, Some(v)) => match flavour {
            LinuxFlavour::Apt => package.id.clone().concat("=").concat(v.as_str()),
            _ => package.id.clone().concat("-").concat(v.as_str()),
        },
    }
}

/// The command line that does `op` to `package`.
pub fn run_action(flavour: LinuxFlavour, op: PackageOp, package: &PackageRef) -> (r: CommandLine)
    ensures
        r@ == action_command(flavour, op, *package),
{
    let target = target_of(flavour, op, package);
    let program = match flavour {
        LinuxFlavour::Apt => "apt-get",
        LinuxFlavour::Dnf => "dnf",
        LinuxFlavour::Yum => "yum",
        LinuxFlavour::Zypper => "zypper",
    };
    let quiet = match flavour {
        LinuxFlavour::Zypper => "--non-interactive",
        _ => "-y",
    };
    let verb = match op {
        PackageOp::Install => "install",
        PackageOp::Uninstall => "remove",
        PackageOp::Update => match flavour {
            LinuxFlavour::Apt => "install",
            LinuxFlavour::Dnf => "upgrade",
            LinuxFlavour::Yum => "update",
            LinuxFlavour::Zypper => "update",
        },
    };
    let r = CommandLine::new(program).arg(quiet).arg(verb).arg(target.as_str());
    assert(r@.args =~= action_command(flavour, op, *package).args);
    r
}

/// The command lines that install `package`, each of which has to go well. A
/// forced installation replaces a package that is there already: `apt-get` and
/// `zypper` do so when told to, `dnf` and `yum` have a verb of its own for a
/// package that is there, which the first command sees to.
pub open spec fn install_commands(flavour: LinuxFlavour, package: PackageRef, force: bool) -> Seq<
    CommandView,
> {
    let plain = action_command(flavour, PackageOp::Install, package);
    let target = flavour.target(PackageOp::Install, package);
    if !force {
        seq![plain]
    } else {
        match flavour {
            LinuxFlavour::Apt => seq![
                command("apt-get"@, seq!["-y"@, "install"@, "--reinstall"@, target]),
            ],
            LinuxFlavour::Zypper => seq![
                command("zypper"@, seq!["--non-interactive"@, "install"@, "--force"@, target]),
            ],
            _ => seq![plain, command(flavour.program(), seq!["-y"@, "reinstall"@, target])],
        }
    }
}

/// The contents of a list of command lines.
pub open spec fn line_views(v: Seq<CommandLine>) -> Seq<CommandView> {
    v.map_values(|c: CommandLine| c@)
}

/// Whether a package with the identifier is in the list.
pub open spec fn lists(v: Seq<InstalledPackage>, id: Seq<char>) -> bool {
    exists|i: int| 0 <= i < v.len() && (#[trigger] v[i]).id@ == id
}

fn has_package(v: &Vec<InstalledPackage>, id: &str) -> (r: bool)
    ensures
        r == lists(v@, id@),
{
    let mut i: usize = 0;
    while i < v.len()
        invariant
            i <= v@.len(),
            forall|k: int| 0 <= k < i ==> (#[trigger] v@[k]).id@ != id@,
        decreases v@.len() - i,
    {
        if same_str(v[i].id.as_str(), id) {
            return true;
        }
        i += 1;
    }
    false
}

/// What an operation returns once its program has ended.
pub fn action_result(flavour: LinuxFlavour, op: PackageOp, success: bool) -> (r: Result<(), PackageError>)
    ensures
        r is Ok <==> success,
        r matches Err(e) ==> e is Command && e->Command_0@ == flavour.label() + " "@ + op_word(op)
            + " exited non-zero"@,
{
    if success {
        return Ok(());
    }
    let label = match flavour {
        LinuxFlavour::Apt => "Apt",
        LinuxFlavour::Dnf => "Dnf",
        LinuxFlavour::Yum => "Yum",
        LinuxFlavour::Zypper => "Zypper",
    };
    let word = match op {
        PackageOp::Install => "install",
        PackageOp::Update => "update",
        PackageOp::Uninstall => "uninstall",
    };
    Err(
        PackageError::Command(
            label.to_owned().concat(" ").concat(word).concat(" exited non-zero"),
        ),
    )
}

/// The package manager of a Linux host.
#[derive(Debug, Clone, Copy, PartialEq, Eq, Structural)]
pub struct LinuxPackageManager {
    flavour: LinuxFlavour,
}

impl LinuxPackageManager {
    /// The flavour of the host.
    pub closed spec fn kind(self) -> LinuxFlavour {
        self.flavour
    }

    /// Picks the flavour from which of the programs are on the search path:
    /// the first of `apt-get`, `dnf`, `yum` and `zypper`.
    pub fn detect(apt_get: bool, dnf: bool, yum: bool, zypper: bool) -> (r: Result<
        LinuxPackageManager,
        PackageError,
    >)
        ensures
            match r {
                Ok(m) => match m.kind() {
                    LinuxFlavour::Apt => apt_get,
                    LinuxFlavour::Dnf => !apt_get && dnf,
                    LinuxFlavour::Yum => !apt_get && !dnf && yum,
                    LinuxFlavour::Zypper => !apt_get && !dnf && !yum && zypper,
                },
                Err(e) => e is Unsupported && !apt_get && !dnf && !yum && !zypper,
            },
    {
        if apt_get {
            Ok(LinuxPackageManager { flavour: LinuxFlavour::Apt })
        } else if dnf {
            Ok(LinuxPackageManager { flavour: LinuxFlavour::Dnf })
        } else if yum {
            Ok(LinuxPackageManager { flavour: LinuxFlavour::Yum })
        } else if zypper {
            Ok(LinuxPackageManager { flavour: LinuxFlavour::Zypper })
        } else {
            Err(PackageError::Unsupported)
        }
    }

    /// A manager of the given flavour.
    pub fn with_flavour(flavour: LinuxFlavour) -> (r: LinuxPackageManager)
        ensures
            r.kind() == flavour,
    {
        LinuxPackageManager { flavour }
    }

    /// The flavour of the host.
    pub fn flavour(&self) -> (r: LinuxFlavour)
        ensures
            r == self.kind(),
    {
        self.flavour
    }

    /// The command lines that install `package`, to be run in order until one
    /// fails.
    pub fn install_commands(&self, package: &PackageRef, opts: &InstallOpts) -> (r: Vec<CommandLine>)
        ensures
            line_views(r@) == install_commands(self.kind(), *package, opts.force),
    {
        let plain = run_action(self.flavour, PackageOp::Install, package);
        let ghost want = install_commands(self.kind(), *package, opts.force);
        let mut out: Vec<CommandLine> = Vec::new();
        if !opts.force {
            out.push(plain);
            assert(line_views(out@) =~= want);
            return out;
        }
        let target = target_of(self.flavour, PackageOp::Install, package);
        match self.flavour {
            LinuxFlavour::Apt => {
                let c = CommandLine::new("apt-get").arg("-y").arg("install").arg("--reinstall").arg(
                    target.as_str(),
                );
                assert(c@.args =~= want[0].args);
                out.push(c);
            },
            LinuxFlavour::Zypper => {
                let c = CommandLine::new("zypper").arg("--non-interactive").arg("install").arg(
                    "--force",
                ).arg(target.as_str());
                assert(c@.args =~= want[0].args);
                out.push(c);
            },
            _ => {
                let program = match self.flavour {
                    LinuxFlavour::Yum => "yum",
                    _ => "dnf",
                };
                let c = CommandLine::new(program).arg("-y").arg("reinstall").arg(target.as_str());
                assert(c@.args =~= want[1].args);
                out.push(plain);
                out.push(c);
            },
        }
        assert(line_views(out@) =~= want);
        out
    }

    /// What a removal returns once its program has ended. Where that failed,
    /// `left` lists the packages that are installed, if that could be told:
    /// one that is not among them is removed.
    pub fn removal_result(
        &self,
        package: &PackageRef,
        success: bool,
        left: Option<&Vec<InstalledPackage>>,
    ) -> (r: Result<(), PackageError>)
        ensures
            r is Ok <==> success || (left is Some && !lists(left->0@, package.id@)),
            r matches Err(e) ==> e is Command && e->Command_0@ == self.kind().label()
                + " uninstall exited non-zero"@,
    {
        if !success {
            match left {
                Some(v) => {
                    if !has_package(v, package.id.as_str()) {
                        return Ok(());
                    }
                },
                None => {},
            }
        }
        proof {
            reveal_strlit(" ");
            reveal_strlit("uninstall");
            reveal_strlit(" exited non-zero");
            reveal_strlit(" uninstall exited non-zero");
            assert(self.kind().label() + " "@ + op_word(PackageOp::Uninstall) + " exited non-zero"@
                =~= self.kind().label() + " uninstall exited non-zero"@);
        }
        action_result(self.flavour, PackageOp::Uninstall, success)
    }

    /// The command line that lists the installed packages.
    pub fn list_command(&self) -> (r: CommandLine)
        ensures
            r@ == if self.kind() == LinuxFlavour::Apt {
                command("dpkg-query"@, seq!["-W"@, "-f=${Package}\t${Version}\n"@])
            } else {
                command("rpm"@, seq!["-qa"@, "--qf"@, "%{NAME}\t%{VERSION}-%{RELEASE}\n"@])
            },
    {
        match self.flavour {
            LinuxFlavour::Apt => {
                let r = CommandLine::new("dpkg-query").arg("-W").arg("-f=${Package}\t${Version}\n");
                assert(r@.args =~= seq!["-W"@, "-f=${Package}\t${Version}\n"@]);
                r
            },
            _ => {
                let r = CommandLine::new("rpm").arg("-qa").arg("--qf").arg(
                    "%{NAME}\t%{VERSION}-%{RELEASE}\n",
                );
                assert(r@.args =~= seq!["-qa"@, "--qf"@, "%{NAME}\t%{VERSION}-%{RELEASE}\n"@]);
                r
            },
        }
    }

    /// Reads the output of the listing program once it has ended.
    pub fn list_installed(&self, success: bool, stdout: &[u8]) -> (r: Result<
        Vec<InstalledPackage>,
        PackageError,
    >)
        ensures
            r is Ok <==> success,
            r matches Ok(v) ==> package_views(v@) == two_column_packages(
                lossy_utf8(stdout@),
                match self.kind() {
                    LinuxFlavour::Apt => "apt-get"@,
                    LinuxFlavour::Dnf => "dnf"@,
                    LinuxFlavour::Yum => "yum"@,
                    LinuxFlavour::Zypper => "zypper"@,
                },
            ),
            r matches Err(e) ==> e is Command && e->Command_0@ == if self.kind() == LinuxFlavour::Apt {
                "dpkg-query exited non-zero"@
            } else {
                "rpm -qa exited non-zero"@
            },
    {
        if !success {
            let what = match self.flavour {
                LinuxFlavour::Apt => "dpkg-query exited non-zero",
                _ => "rpm -qa exited non-zero",
            };
            return Err(PackageError::Command(what.to_owned()));
        }
        let text = lossy_text(stdout);
        match self.flavour {
            LinuxFlavour::Apt => Ok(parse_dpkg_query(text.as_str())),
            LinuxFlavour::Dnf => Ok(parse_rpm_qa(text.as_str(), "dnf")),
            LinuxFlavour::Yum => Ok(parse_rpm_qa(text.as_str(), "yum")),
            LinuxFlavour::Zypper => Ok(parse_rpm_qa(text.as_str(), "zypper")),
        }
    }
}

/// The package that a line names: its identifier, a tab and its version,
/// neither empty.
pub open spec fn two_column_package(line: Seq<char>, source: Seq<char>) -> Option<PackageView> {
    match cut(line, '\t') {
        Some((a, b)) => if trimmed(a).len() == 0 || trimmed(b).len() == 0 {
            None
        } else {
            Some(PackageView { id: trimmed(a), name: None, version: trimmed(b), source })
        },
        None => None,
    }
}

/// Reads a line, for use with `gather`.
pub open spec fn two_column_reader(source: Seq<char>) -> spec_fn(Seq<char>) -> Option<PackageView> {
    |line: Seq<char>| two_column_package(line, source)
}

/// The packages that the lines of a listing name.
pub open spec fn two_column_packages(output: Seq<char>, source: Seq<char>) -> Seq<PackageView> {
    gather(lines_of(output), two_column_reader(source))
}

fn read_two_columns(line: &[char], source: &str) -> (r: Option<InstalledPackage>)
    ensures
        match r {
            Some(p) => two_column_package(line@, source@) == Some(p@),
            None => two_column_package(line@, source@) is None,
        },
{
    match split_once(line, '\t') {
        None => None,
        Some((a, b)) => {
            let id = trim(a);
            let version = trim(b);
            if id.len() == 0 || version.len() == 0 {
                return None;
            }
            Some(
                InstalledPackage {
                    id: string_of(id),
                    name: None,
                    version: string_of(version),
                    source: source.to_owned(),
                },
            )
        },
    }
}

proof fn lemma_packages_push(v: Seq<InstalledPackage>, p: InstalledPackage)
    ensures
        package_views(v.push(p)) == package_views(v).push(p@),
{
    assert(package_views(v.push(p)) =~= package_views(v).push(p@));
}

/// Reads the output of `rpm -qa` with tab-separated columns.
pub fn parse_rpm_qa(output: &str, source: &str) -> (r: Vec<InstalledPackage>)
    ensures
        package_views(r@) == two_column_packages(output@, source@),
{
    let chars = chars_of(output);
    let all = lines(chars.as_slice());
    let ghost reader = two_column_reader(source@);
    let ghost want = texts(all@);
    let mut out: Vec<InstalledPackage> = Vec::new();
    let mut i: usize = 0;
    assert(want.take(0) =~= Seq::empty());
    assert(package_views(out@) =~= gather(want.take(0), reader));
    while i < all.len()
        invariant
            i <= all@.len(),
            want == texts(all@),
            reader == two_column_reader(source@),
            package_views(out@) == gather(want.take(i as int), reader),
        decreases all@.len() - i,
    {
        let ghost before = out@;
        proof {
            lemma_gather_step(want, reader, i as int);
            assert(want[i as int] == all@[i as int]@);
        }
        match read_two_columns(all[i], source) {
            Some(p) => {
                out.push(p);
                proof {
                    lemma_packages_push(before, p);
                }
            },
            None => {},
        }
        i += 1;
    }
    assert(want.take(i as int) =~= want);
    out
}

/// Reads the output of `dpkg-query` with tab-separated columns.
pub fn parse_dpkg_query(output: &str) -> (r: Vec<InstalledPackage>)
    ensures
        package_views(r@) == two_column_packages(output@, "apt-get"@),
{
    parse_rpm_qa(output, "apt-get")
}

// ---------------------------------------------------------------------
// macOS
// ---------------------------------------------------------------------

/// The package manager of a macOS host.
#[derive(Debug, Clone, Copy, PartialEq, Eq, Structural)]
pub struct MacosPackageManager {}

/// `s` without any copies of `p` at its start.
pub open spec fn drop_prefixes(s: Seq<char>, p: Seq<char>) -> Seq<char>
    decreases s.len(),
{
    if p.len() > 0 && p.is_prefix_of(s) {
        drop_prefixes(s.skip(p.len() as int), p)
    } else {
        s
    }
}

fn strip_file_scheme(s: &[char]) -> (r: &[char])
    ensures
        r@ == drop_prefixes(s@, "file://"@),
    decreases s@.len(),
{
    proof {
        reveal_strlit("file://");
    }
    if starts_with(s, "file://") {
        assert(s@.skip(7) =~= s@.subrange(7, s@.len() as int));
        strip_file_scheme(slice_subrange(s, 7, s.len()))
    } else {
        s
    }
}

/// The identifiers in the output of `pkgutil --pkgs`: the lines that are
/// valid UTF-8, without white space around them, where anything is left.
pub open spec fn receipt_id(line: Seq<u8>) -> Option<Seq<char>> {
    if vstd::utf8::valid_utf8(line) && trimmed(vstd::utf8::decode_utf8(line)).len() > 0 {
        Some(trimmed(vstd::utf8::decode_utf8(line)))
    } else {
        None
    }
}

/// What came of describing a receipt.
#[derive(Debug)]
pub struct ReceiptInfo {
    pub id: String,
    pub success: bool,
    pub stdout: Vec<u8>,
}

/// The package that a receipt stands for, where it could be described and
/// its version is known.
pub open spec fn receipt_package(info: ReceiptInfo) -> Option<PackageView> {
    let l = lines_of(lossy_utf8(info.stdout@));
    match receipt_version(l, l.len() as int) {
        Some(version) => if info.success {
            Some(PackageView { id: info.id@, name: None, version, source: "pkgutil"@ })
        } else {
            None
        },
        None => None,
    }
}

/// Reads what is known of a receipt, for use with `gather`.
pub open spec fn info_reader() -> spec_fn(ReceiptInfo) -> Option<PackageView> {
    |info: ReceiptInfo| receipt_package(info)
}

impl MacosPackageManager {
    pub fn new() -> (r: MacosPackageManager)
        ensures
            r == (MacosPackageManager {  }),
    {
        MacosPackageManager {  }
    }

    /// The command line that lists the receipts.
    pub fn list_command(&self) -> (r: CommandLine)
        ensures
            r@ == command("pkgutil"@, seq!["--pkgs"@]),
    {
        let r = CommandLine::new("pkgutil").arg("--pkgs");
        assert(r@.args =~= seq!["--pkgs"@]);
        r
    }

    /// Reads the output of that program once it has ended.
    pub fn receipts(&self, success: bool, stdout: &[u8]) -> (r: Result<Vec<String>, PackageError>)
        ensures
            r is Ok <==> success,
            r matches Ok(ids) ==> views(ids@) == gather(
                octet_pieces_of(stdout@, 10),
                receipt_reader(),
            ),
            r matches Err(e) ==> e is Command && e->Command_0@ == "pkgutil --pkgs exited non-zero"@,
    {
        if success {
            Ok(parse_receipt_ids(stdout))
        } else {
            Err(PackageError::Command("pkgutil --pkgs exited non-zero".to_owned()))
        }
    }

    /// The command line that describes a receipt.
    pub fn info_command(&self, id: &str) -> (r: CommandLine)
        ensures
            r@ == command("pkgutil"@, seq!["--pkg-info"@, id@]),
    {
        let r = CommandLine::new("pkgutil").arg("--pkg-info").arg(id);
        assert(r@.args =~= seq!["--pkg-info"@, id@]);
        r
    }

    /// The packages that the receipts stand for, given what came of
    /// describing each.
    pub fn list_installed(&self, infos: &Vec<ReceiptInfo>) -> (r: Vec<InstalledPackage>)
        ensures
            package_views(r@) == gather(infos@, info_reader()),
    {
        let ghost reader = info_reader();
        let mut out: Vec<InstalledPackage> = Vec::new();
        let mut i: usize = 0;
        assert(infos@.take(0) =~= Seq::empty());
        assert(package_views(out@) =~= gather(infos@.take(0), reader));
        while i < infos.len()
            invariant
                i <= infos@.len(),
                reader == info_reader(),
                package_views(out@) == gather(infos@.take(i as int), reader),
            decreases infos@.len() - i,
        {
            let ghost before = out@;
            proof {
                lemma_gather_step(infos@, reader, i as int);
            }
            let info = &infos[i];
            if info.success {
                let text = lossy_text(info.stdout.as_slice());
                match parse_pkgutil_pkg_info(info.id.as_str(), text.as_str()) {
                    Some(p) => {
                        out.push(p);
                        proof {
                            lemma_packages_push(before, p);
                        }
                    },
                    None => {},
                }
            }
            i += 1;
        }
        assert(infos@.take(i as int) =~= infos@);
        out
    }

    /// The local file that an installation takes its package from: the
    /// source address must be a file address.
    pub fn local_package(&self, opts: &InstallOpts) -> (r: Result<String, PackageError>)
        ensures
            match r {
                Ok(p) => opts.source_url is Some && "file://"@.is_prefix_of(opts.source_url->0@) && p@
                    == drop_prefixes(opts.source_url->0@, "file://"@),
                Err(e) => e is Unsupported && !(opts.source_url is Some && "file://"@.is_prefix_of(
                    opts.source_url->0@,
                )),
            },
    {
        match &opts.source_url {
            Some(u) => {
                let v = chars_of(u.as_str());
                if starts_with(v.as_slice(), "file://") {
                    Ok(string_of(strip_file_scheme(v.as_slice())))
                } else {
                    Err(PackageError::Unsupported)
                }
            },
            None => Err(PackageError::Unsupported),
        }
    }

    /// The command line that installs a local package.
    pub fn install_command(&self, local: &str) -> (r: CommandLine)
        ensures
            r@ == command("installer"@, seq!["-pkg"@, local@, "-target"@, "/"@]),
    {
        let r = CommandLine::new("installer").arg("-pkg").arg(local).arg("-target").arg("/");
        assert(r@.args =~= seq!["-pkg"@, local@, "-target"@, "/"@]);
        r
    }

    /// What an installation returns once its program has ended.
    pub fn install_result(&self, package: &PackageRef, success: bool) -> (r: Result<(), PackageError>)
        ensures
            r is Ok <==> success,
            r matches Err(e) ==> e is Command && e->Command_0@ == "installer -pkg "@ + package.id@
                + " -target / exited non-zero"@,
    {
        if success {
            Ok(())
        } else {
            Err(
                PackageError::Command(
                    "installer -pkg ".to_owned().concat(package.id.as_str()).concat(
                        " -target / exited non-zero",
                    ),
                ),
            )
        }
    }

    /// The command line that lists the files of a package.
    pub fn uninstall_command(&self, package: &PackageRef) -> (r: CommandLine)
        ensures
            r@ == command("pkgutil"@, seq!["--files"@, package.id@]),
    {
        let r = CommandLine::new("pkgutil").arg("--files").arg(package.id.as_str());
        assert(r@.args =~= seq!["--files"@, package.id@]);
        r
    }

    /// What a removal returns once its program has ended. Where that failed,
    /// `left` holds the receipts that are there, if that could be told: a
    /// package without one is removed.
    pub fn uninstall_result(
        &self,
        package: &PackageRef,
        success: bool,
        left: Option<&Vec<String>>,
    ) -> (r: Result<(), PackageError>)
        ensures
            r is Ok <==> success || (left is Some && !views(left->0@).contains(package.id@)),
            r matches Err(e) ==> e is Command && e->Command_0@ == "pkgutil --files "@ + package.id@
                + " exited non-zero"@,
    {
        let gone = match left {
            Some(ids) => !list_has(ids, package.id.as_str()),
            None => false,
        };
        if success || gone {
            Ok(())
        } else {
            Err(
                PackageError::Command(
                    "pkgutil --files ".to_owned().concat(package.id.as_str()).concat(
                        " exited non-zero",
                    ),
                ),
            )
        }
    }
}

impl Default for MacosPackageManager {
    fn default() -> (r: Self)
        ensures
            r == (MacosPackageManager {  }),
    {
        MacosPackageManager::new()
    }
}

/// Reads an identifier, for use with `gather`.
pub open spec fn receipt_reader() -> spec_fn(Seq<u8>) -> Option<Seq<char>> {
    |line: Seq<u8>| receipt_id(line)
}

/// The identifiers in the output of `pkgutil --pkgs`.
pub fn parse_receipt_ids(stdout: &[u8]) -> (r: Vec<String>)
    ensures
        views(r@) == gather(octet_pieces_of(stdout@, 10), receipt_reader()),
{
    let all = octet_pieces(stdout, 10);
    let ghost want = octet_views(all@);
    let ghost reader = receipt_reader();
    let mut out: Vec<String> = Vec::new();
    let mut i: usize = 0;
    assert(want.take(0) =~= Seq::empty());
    assert(views(out@) =~= gather(want.take(0), reader));
    while i < all.len()
        invariant
            i <= all@.len(),
            want == octet_views(all@),
            reader == receipt_reader(),
            views(out@) == gather(want.take(i as int), reader),
        decreases all@.len() - i,
    {
        let ghost before = out@;
        proof {
            lemma_gather_step(want, reader, i as int);
            assert(want[i as int] == all@[i as int]@);
        }
        match utf8_text(all[i]) {
            Some(t) => {
                let v = chars_of(t);
                let id = trim(v.as_slice());
                if id.len() > 0 {
                    let s = string_of(id);
                    out.push(s);
                    proof {
                        lemma_views_push(before, s);
                    }
                }
            },
            None => {},
        }
        i += 1;
    }
    assert(want.take(i as int) =~= want);
    out
}

/// The version that the lines before the `n`-th give: the last of them that
/// begins with `version: `.
pub open spec fn receipt_version(l: Seq<Seq<char>>, n: int) -> Option<Seq<char>>
    decreases n,
{
    if n <= 0 {
        None
    } else if "version: "@.is_prefix_of(l[n - 1]) {
        Some(trimmed(l[n - 1].skip("version: "@.len() as int)))
    } else {
        receipt_version(l, n - 1)
    }
}

/// Reads the output of `pkgutil --pkg-info`.
pub fn parse_pkgutil_pkg_info(id: &str, output: &str) -> (r: Option<InstalledPackage>)
    ensures
        ({
            let l = lines_of(output@);
            match (r, receipt_version(l, l.len() as int)) {
                (Some(p), Some(v)) => p@ == (PackageView {
                    id: id@,
                    name: None,
                    version: v,
                    source: "pkgutil"@,
                }),
                (None, None) => true,
                _ => false,
            }
        }),
{
    let chars = chars_of(output);
    let all = lines(chars.as_slice());
    let ghost want = texts(all@);
    let mut version: Option<String> = None;
    let mut i: usize = 0;
    while i < all.len()
        invariant
            i <= all@.len(),
            want == texts(all@),
            opt_view(version) == receipt_version(want, i as int),
        decreases all@.len() - i,
    {
        assert(want[i as int] == all@[i as int]@);
        let line = all[i];
        proof {
            reveal_strlit("version: ");
        }
        if starts_with(line, "version: ") {
            let rest = slice_subrange(line, 9, line.len());
            assert(line@.skip(9) =~= rest@);
            version = Some(string_of(trim(rest)));
        }
        i += 1;
    }
    assert(want.len() == all@.len());
    match version {
        Some(v) => Some(
            InstalledPackage {
                id: id.to_owned(),
                name: None,
                version: v,
                source: "pkgutil".to_owned(),
            },
        ),
        None => None,
    }
}

/// The package that an application entry names: it has a name and a version
/// that is not empty.
pub open spec fn application(app: JsonView) -> Option<PackageView> {
    match (app.text_of("_name"@), app.text_of("version"@)) {
        (Some(n), Some(v)) => if v.len() == 0 {
            None
        } else {
            Some(PackageView { id: n, name: Some(n), version: v, source: "system_profiler"@ })
        },
        _ => None,
    }
}

/// Reads an application entry, for use with `gather`.
pub open spec fn application_reader() -> spec_fn(JsonView) -> Option<PackageView> {
    |app: JsonView| application(app)
}

/// The applications that a report lists.
pub open spec fn applications(report: JsonView) -> Seq<PackageView> {
    match report.items_of("SPApplicationsDataType"@) {
        Some(apps) => gather(apps, application_reader()),
        None => Seq::empty(),
    }
}

fn read_application(app: &Json) -> (r: Option<InstalledPackage>)
    ensures
        match r {
            Some(p) => application(app@) == Some(p@),
            None => application(app@) is None,
        },
{
    match (app.text_of("_name"), app.text_of("version")) {
        (Some(n), Some(v)) => {
            if v.as_str().is_empty() {
                None
            } else {
                Some(
                    InstalledPackage {
                        id: n.clone(),
                        name: Some(n.clone()),
                        version: v.clone(),
                        source: "system_profiler".to_owned(),
                    },
                )
            }
        },
        _ => None,
    }
}

/// The applications that a report lists.
pub fn applications_of(report: &Json) -> (r: Vec<InstalledPackage>)
    ensures
        package_views(r@) == applications(report@),
{
    let mut out: Vec<InstalledPackage> = Vec::new();
    match report.items_of("SPApplicationsDataType") {
        None => {
            assert(package_views(out@) =~= Seq::empty());
            out
        },
        Some(apps) => {
            let ghost want = report@.items_of("SPApplicationsDataType"@)->0;
            let ghost reader = application_reader();
            let mut i: usize = 0;
            assert(want.take(0) =~= Seq::empty());
            assert(package_views(out@) =~= gather(want.take(0), reader));
            while i < apps.len()
                invariant
                    i <= apps@.len(),
                    want.len() == apps@.len(),
                    forall|k: int| 0 <= k < apps@.len() ==> #[trigger] want[k] == apps@[k]@,
                    reader == application_reader(),
                    package_views(out@) == gather(want.take(i as int), reader),
                decreases apps@.len() - i,
            {
                let ghost before = out@;
                proof {
                    lemma_gather_step(want, reader, i as int);
                    assert(want[i as int] == apps@[i as int]@);
                }
                match read_application(&apps[i]) {
                    Some(p) => {
                        out.push(p);
                        proof {
                            lemma_packages_push(before, p);
                        }
                    },
                    None => {},
                }
                i += 1;
            }
            assert(want.take(i as int) =~= want);
            out
        },
    }
}

/// Reads the output of `system_profiler` in JSON form; what is no JSON
/// lists nothing.
pub fn parse_system_profiler_applications(json: &str) -> (r: Vec<InstalledPackage>)
    ensures
        package_views(r@) == (match json_document(json@) {
            Some(report) => applications(report),
            None => Seq::empty(),
        }),
{
    match parse_json(json) {
        Some(report) => applications_of(&report),
        None => {
            let out: Vec<InstalledPackage> = Vec::new();
            assert(package_views(out@) =~= Seq::empty());
            out
        },
    }
}

// ---------------------------------------------------------------------
// Windows
// ---------------------------------------------------------------------

/// The package manager of a Windows host.
#[derive(Debug, Clone, Copy, PartialEq, Eq, Structural)]
pub struct WindowsPackageManager {}

/// The arguments that ask for a version, if one is given.
pub open spec fn version_args(version: Option<String>) -> Seq<Seq<char>> {
    match version {
        Some(v) => seq!["--version"@, v@],
        None => Seq::empty(),
    }
}

/// The argument that forces an installation, if one is asked for.
pub open spec fn force_args(force: bool) -> Seq<Seq<char>> {
    if force {
        seq!["--force"@]
    } else {
        Seq::empty()
    }
}

/// The bits of an exit code, read as an unsigned number.
pub open spec fn exit_bits(code: int) -> nat {
    if code < 0 {
        (code + 0x1_0000_0000) as nat
    } else {
        code as nat
    }
}

/// The exit code by which WinGet says that there is nothing to upgrade.
pub const NO_APPLICABLE_UPDATE: u32 = 0x8A15_0011;

impl WindowsPackageManager {
    pub fn new() -> (r: WindowsPackageManager)
        ensures
            r == (WindowsPackageManager {  }),
    {
        WindowsPackageManager {  }
    }

    /// The command line that lists the installed packages.
    pub fn list_command(&self) -> (r: CommandLine)
        ensures
            r@ == command("winget"@, seq!["list"@, "--source"@, "winget"@]),
    {
        let r = CommandLine::new("winget").arg("list").arg("--source").arg("winget");
        assert(r@.args =~= seq!["list"@, "--source"@, "winget"@]);
        r
    }

    /// The command line that installs a package, over one that is there
    /// already where the options force that.
    pub fn install_command(&self, package: &PackageRef, opts: &InstallOpts) -> (r: CommandLine)
        ensures
            r@ == command(
                "winget"@,
                seq![
                    "install"@,
                    "--id"@,
                    package.id@,
                    "--accept-package-agreements"@,
                    "--accept-source-agreements"@,
                ] + version_args(package.version) + force_args(opts.force),
            ),
    {
        let r = CommandLine::new("winget").arg("install").arg("--id").arg(package.id.as_str()).arg(
            "--accept-package-agreements",
        ).arg("--accept-source-agreements");
        let ghost fixed = seq![
            "install"@,
            "--id"@,
            package.id@,
            "--accept-package-agreements"@,
            "--accept-source-agreements"@,
        ];
        assert(r@.args =~= fixed);
        let ghost versioned = fixed + version_args(package.version);
        let r = match &package.version {
            Some(v) => r.arg("--version").arg(v.as_str()),
            None => r,
        };
        assert(r@.args =~= versioned);
        let r = if opts.force {
            r.arg("--force")
        } else {
            r
        };
        assert(r@.args =~= versioned + force_args(opts.force));
        r
    }

    /// The command line that updates a package.
    pub fn update_command(&self, package: &PackageRef) -> (r: CommandLine)
        ensures
            r@ == command(
                "winget"@,
                seq!["upgrade"@, "--id"@, package.id@] + version_args(package.version),
            ),
    {
        let r = CommandLine::new("winget").arg("upgrade").arg("--id").arg(package.id.as_str());
        let ghost fixed = seq!["upgrade"@, "--id"@, package.id@];
        assert(r@.args =~= fixed);
        match &package.version {
            Some(v) => {
                let r2 = r.arg("--version").arg(v.as_str());
                assert(r2@.args =~= fixed + version_args(package.version));
                r2
            },
            None => {
                assert(fixed + version_args(package.version) =~= fixed);
                r
            },
        }
    }

    /// The command line that removes a package.
    pub fn uninstall_command(&self, package: &PackageRef) -> (r: CommandLine)
        ensures
            r@ == command("winget"@, seq!["uninstall"@, "--id"@, package.id@]),
    {
        let r = CommandLine::new("winget").arg("uninstall").arg("--id").arg(package.id.as_str());
        assert(r@.args =~= seq!["uninstall"@, "--id"@, package.id@]);
        r
    }

    /// Reads the output of the listing program once it has ended. `code` is
    /// its exit code, if it has one.
    pub fn list_installed(&self, success: bool, code: Option<i32>, stdout: &[u8]) -> (r: Result<
        Vec<InstalledPackage>,
        PackageError,
    >)
        ensures
            r is Ok <==> success,
            r matches Ok(v) ==> package_views(v@) == winget_packages(lossy_utf8(stdout@)),
            r matches Err(e) ==> e is Command && e->Command_0@ == "winget list exited with code "@ + (
            match code {
                Some(c) => "Some("@ + crate::text::signed_numeral(c as int) + ")"@,
                None => "None"@,
            }),
    {
        if success {
            let text = lossy_text(stdout);
            return Ok(parse_winget_list(text.as_str()));
        }
        let what = match code {
            Some(c) => "Some(".to_owned().concat(crate::text::signed_decimal(c as i64).as_str()).concat(
                ")",
            ),
            None => "None".to_owned(),
        };
        Err(
            PackageError::Command(
                "winget list exited with code ".to_owned().concat(what.as_str()),
            ),
        )
    }
}

impl Default for WindowsPackageManager {
    fn default() -> (r: Self)
        ensures
            r == (WindowsPackageManager {  }),
    {
        WindowsPackageManager::new()
    }
}

/// What an operation returns for WinGet's exit code; a program that was
/// killed counts as -1. To have nothing to upgrade is no failure of an
/// upgrade.
pub fn interpret_winget_exit(code: Option<i32>, op: &str) -> (r: Result<(), PackageError>)
    ensures
        ({
            let c = match code {
                Some(c) => c as int,
                None => -1,
            };
            &&& r is Ok <==> (c == 0 || (op@ == "upgrade"@ && exit_bits(c) == NO_APPLICABLE_UPDATE))
            &&& r matches Err(e) ==> e is Command && e->Command_0@ == "winget "@ + op@
                + " exited with code 0x"@ + numeral(exit_bits(c), 16)
        }),
{
    let c: i32 = match code {
        Some(c) => c,
        None => -1,
    };
    let bits: i64 = if c < 0 {
        c as i64 + 0x1_0000_0000
    } else {
        c as i64
    };
    let is_upgrade = crate::text::same_str(op, "upgrade");
    if c == 0 || (is_upgrade && bits == NO_APPLICABLE_UPDATE as i64) {
        return Ok(());
    }
    let mut text = "winget ".to_owned().concat(op).concat(" exited with code 0x");
    push_number(&mut text, bits as u128, 16);
    Err(PackageError::Command(text))
}

/// Octets before the first `label` in a heading.
pub open spec fn column(heading: Seq<char>, label: Seq<char>) -> Option<nat> {
    match find_text(heading, label) {
        Some(k) => Some(utf8_len(heading.take(k))),
        None => None,
    }
}

/// A line without white space at its end.
pub open spec fn ended(line: Seq<char>) -> Seq<char> {
    drop_back(line, space())
}

/// Whether a line is the heading of a table: it has both labels.
pub open spec fn is_heading(line: Seq<char>) -> bool {
    column(ended(line), "Id"@) is Some && column(ended(line), "Version"@) is Some
}

/// Index of the first heading among the lines from the `i`-th on.
pub open spec fn heading_from(l: Seq<Seq<char>>, i: int) -> Option<int>
    decreases l.len() - i,
{
    if i < 0 || i >= l.len() {
        None
    } else if is_heading(l[i]) {
        Some(i)
    } else {
        heading_from(l, i + 1)
    }
}

/// The package that a row names. The name, the identifier and the version
/// stand at the columns of the heading; the version ends at white space. A
/// row whose columns do not begin at a character, or that ends before its
/// version, names none.
pub open spec fn winget_row(line: Seq<char>, id_col: nat, version_col: nat) -> Option<PackageView> {
    let row = ended(line);
    match (char_at(row, id_col), char_at(row, version_col)) {
        (Some(a), Some(b)) => {
            let name = trimmed(row.take(a));
            let id = trimmed(row.subrange(a, b));
            let rest = words_of(row.skip(b));
            if row.len() == 0 || "---"@.is_prefix_of(row) || version_col <= id_col || utf8_len(row)
                <= id_col || id.len() == 0 || rest.len() == 0 {
                None
            } else {
                Some(
                    PackageView {
                        id,
                        name: if name.len() == 0 {
                            None
                        } else {
                            Some(name)
                        },
                        version: rest[0],
                        source: "winget"@,
                    },
                )
            }
        },
        _ => None,
    }
}

/// Reads a row, for use with `gather`.
pub open spec fn winget_reader(id_col: nat, version_col: nat) -> spec_fn(Seq<char>) -> Option<
    PackageView,
> {
    |line: Seq<char>| winget_row(line, id_col, version_col)
}

/// The packages that the rows after the heading name.
pub open spec fn winget_packages(output: Seq<char>) -> Seq<PackageView> {
    let l = lines_of(output);
    match heading_from(l, 0) {
        Some(h) => gather(
            l.skip(h + 1),
            winget_reader(column(ended(l[h]), "Id"@)->0, column(ended(l[h]), "Version"@)->0),
        ),
        None => Seq::empty(),
    }
}

fn find_column(heading: &[char], label: &str) -> (r: Option<u128>)
    ensures
        match r {
            Some(c) => column(heading@, label@) == Some(c as nat),
            None => column(heading@, label@) is None,
        },
{
    match find(heading, label) {
        Some(k) => {
            assert(heading@.take(k as int) =~= heading@.subrange(0, k as int));
            Some(byte_len(slice_subrange(heading, 0, k)))
        },
        None => None,
    }
}

proof fn lemma_utf8_len_mono(s: Seq<char>, i: int, j: int)
    requires
        0 <= i <= j <= s.len(),
    ensures
        utf8_len(s.take(i)) <= utf8_len(s.take(j)),
    decreases j - i,
{
    if i < j {
        lemma_utf8_len_mono(s, i, j - 1);
        assert(s.take(j).drop_last() =~= s.take(j - 1));
    }
}

proof fn lemma_char_at_from(s: Seq<char>, col: nat, i: int)
    requires
        0 <= i <= s.len(),
    ensures
        char_at_from_ok(s, col, i),
    decreases s.len() - i,
{
    if utf8_len(s.take(i)) < col && i < s.len() {
        lemma_char_at_from(s, col, i + 1);
    }
}

spec fn char_at_from_ok(s: Seq<char>, col: nat, i: int) -> bool {
    crate::text::char_at_from(s, col, i) matches Some(k) ==> i <= k <= s.len() && utf8_len(s.take(k))
        == col
}

proof fn lemma_columns_in_order(s: Seq<char>, a: nat, b: nat)
    requires
        a < b,
        char_at(s, a) is Some,
        char_at(s, b) is Some,
    ensures
        0 <= char_at(s, a)->0 <= char_at(s, b)->0 <= s.len(),
{
    lemma_char_at_from(s, a, 0);
    lemma_char_at_from(s, b, 0);
    let i = char_at(s, a)->0;
    let j = char_at(s, b)->0;
    if j < i {
        lemma_utf8_len_mono(s, j, i);
    }
}

fn read_winget_row(line: &[char], id_col: u128, version_col: u128) -> (r: Option<InstalledPackage>)
    ensures
        match r {
            Some(p) => winget_row(line@, id_col as nat, version_col as nat) == Some(p@),
            None => winget_row(line@, id_col as nat, version_col as nat) is None,
        },
{
    let row = trim_end(line);
    if row.len() == 0 || starts_with(row, "---") || version_col <= id_col || byte_len(row) <= id_col {
        return None;
    }
    match (char_index(row, id_col), char_index(row, version_col)) {
        (Some(a), Some(b)) => {
            proof {
                lemma_columns_in_order(row@, id_col as nat, version_col as nat);
                assert(row@.take(a as int) =~= row@.subrange(0, a as int));
                assert(row@.skip(b as int) =~= row@.subrange(b as int, row@.len() as int));
            }
            let name = trim(slice_subrange(row, 0, a));
            let id = trim(slice_subrange(row, a, b));
            let rest = words(slice_subrange(row, b, row.len()));
            assert(rest@.len() == texts(rest@).len());
            if id.len() == 0 || rest.len() == 0 {
                return None;
            }
            assert(texts(rest@)[0] == rest@[0]@);
            Some(
                InstalledPackage {
                    id: string_of(id),
                    name: if name.len() == 0 {
                        None
                    } else {
                        Some(string_of(name))
                    },
                    version: string_of(rest[0]),
                    source: "winget".to_owned(),
                },
            )
        },
        _ => None,
    }
}

/// Reads the table that `winget list` prints.
pub fn parse_winget_list(output: &str) -> (r: Vec<InstalledPackage>)
    ensures
        package_views(r@) == winget_packages(output@),
{
    let chars = chars_of(output);
    let all = lines(chars.as_slice());
    let ghost l = texts(all@);
    let mut out: Vec<InstalledPackage> = Vec::new();
    assert(package_views(out@) =~= Seq::empty());
    let mut h: usize = 0;
    while h < all.len()
        invariant
            h <= all@.len(),
            l == texts(all@),
            l == lines_of(output@),
            heading_from(l, 0) == heading_from(l, h as int),
            package_views(out@) == Seq::<PackageView>::empty(),
            out@.len() == 0,
        decreases all@.len() - h,
    {
        let heading = trim_end(all[h]);
        assert(l[h as int] == all@[h as int]@);
        match (find_column(heading, "Id"), find_column(heading, "Version")) {
            (Some(id_col), Some(version_col)) => {
                let ghost rows = l.skip(h + 1);
                let ghost reader = winget_reader(id_col as nat, version_col as nat);
                let mut i: usize = h + 1;
                assert(rows.take(0) =~= Seq::empty());
                assert(package_views(out@) =~= gather(rows.take(0), reader));
                while i < all.len()
                    invariant
                        h < i <= all@.len(),
                        l == texts(all@),
                        rows == l.skip(h + 1),
                        reader == winget_reader(id_col as nat, version_col as nat),
                        package_views(out@) == gather(rows.take(i - h - 1), reader),
                    decreases all@.len() - i,
                {
                    let ghost before = out@;
                    proof {
                        lemma_gather_step(rows, reader, i - h - 1);
                        assert(rows[i - h - 1] == all@[i as int]@);
                    }
                    match read_winget_row(all[i], id_col, version_col) {
                        Some(p) => {
                            out.push(p);
                            proof {
                                lemma_packages_push(before, p);
                            }
                        },
                        None => {},
                    }
                    i += 1;
                }
                assert(rows.take(i - h - 1) =~= rows);
                return out;
            },
            _ => {},
        }
        h += 1;
    }
    out
}

} // verus!
