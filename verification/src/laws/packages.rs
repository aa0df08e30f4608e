//! Packages: what is asked for is what the command line says, and what a
//! program lists is what is read.

use crate::command::CommandLine;
use crate::json::JsonView;
use crate::laws::text::{law_cut_undoes_joining, law_gathering, law_gathered_items};
use crate::package_manager::{
    action_result, application, applications, column, drop_prefixes, ended, heading_from,
    install_commands, interpret_winget_exit, is_heading, line_views, parse_dpkg_query,
    parse_pkgutil_pkg_info, parse_receipt_ids, parse_rpm_qa, receipt_id, receipt_package,
    receipt_reader, receipt_version, run_action, two_column_package, two_column_packages,
    winget_packages, winget_row, InstallOpts, InstalledPackage, LinuxFlavour,
    LinuxPackageManager, MacosPackageManager, PackageError, PackageOp, PackageRef, PackageView,
    ReceiptInfo, WindowsPackageManager,
};
use crate::text::{gather, lines_of, lossy_utf8, numeral, octet_pieces_of, trimmed, views};
use vstd::prelude::*;

verus! {

// ---------------------------------------------------------------------
// Linux
// ---------------------------------------------------------------------

/// For every flavour a removal says `remove`, and never what an installation
/// or an update of the same package says.
pub proof fn law_removals_remove(
    flavour: LinuxFlavour,
    package: PackageRef,
    removal: CommandLine,
    installation: CommandLine,
    update: CommandLine,
)
    requires
        call_ensures(run_action, (flavour, PackageOp::Uninstall, &package), removal),
        call_ensures(run_action, (flavour, PackageOp::Install, &package), installation),
        call_ensures(run_action, (flavour, PackageOp::Update, &package), update),
    ensures
        removal@.args.len() == 3,
        removal@.args[1] == "remove"@,
        removal@.args[2] == package.id@,
        removal@ != installation@,
        removal@ != update@,
{
    lemma_verbs_differ();
    assert(removal@.args[1] != installation@.args[1]);
    assert(removal@.args[1] != update@.args[1]);
}

proof fn lemma_verbs_differ()
    ensures
        "remove"@ != "install"@,
        "remove"@ != "upgrade"@,
        "remove"@ != "update"@,
        "install"@ != "update"@,
        "install"@ != "upgrade"@,
{
    reveal_strlit("remove");
    reveal_strlit("install");
    reveal_strlit("upgrade");
    reveal_strlit("update");
    assert("remove"@[0] == 'r');
    assert("install"@[0] == 'i');
    assert("upgrade"@[0] == 'u');
    assert("update"@[0] == 'u');
}

/// An installation says `install`. An update says the flavour's own word for
/// it; `apt-get` updates by installing.
pub proof fn law_verbs(flavour: LinuxFlavour, package: PackageRef, i: CommandLine, u: CommandLine)
    requires
        call_ensures(run_action, (flavour, PackageOp::Install, &package), i),
        call_ensures(run_action, (flavour, PackageOp::Update, &package), u),
    ensures
        i@.args[1] == "install"@,
        flavour == LinuxFlavour::Apt ==> u@ == i@,
        flavour == LinuxFlavour::Dnf ==> u@ == (crate::command::CommandView {
            program: i@.program,
            args: i@.args.update(1, "upgrade"@),
        }),
        flavour == LinuxFlavour::Yum || flavour == LinuxFlavour::Zypper ==> u@ == (
        crate::command::CommandView { program: i@.program, args: i@.args.update(1, "update"@) }),
{
    if flavour != LinuxFlavour::Apt {
        assert(u@.args =~= i@.args.update(1, u@.args[1]));
    } else {
        assert(u@.args =~= i@.args);
    }
}

/// Every operation runs the flavour's own program, and tells it first not to
/// ask questions.
pub proof fn law_programs_ask_nothing(
    flavour: LinuxFlavour,
    op: PackageOp,
    package: PackageRef,
    r: CommandLine,
)
    requires
        call_ensures(run_action, (flavour, op, &package), r),
    ensures
        r@.args.len() == 3,
        match flavour {
            LinuxFlavour::Apt => r@.program == "apt-get"@ && r@.args[0] == "-y"@,
            LinuxFlavour::Dnf => r@.program == "dnf"@ && r@.args[0] == "-y"@,
            LinuxFlavour::Yum => r@.program == "yum"@ && r@.args[0] == "-y"@,
            LinuxFlavour::Zypper => r@.program == "zypper"@ && r@.args[0] == "--non-interactive"@,
        },
{
}

/// A version that is asked for stands behind the name, after `=` for
/// `apt-get` and `-` for the others; without one the name stands alone, and a
/// removal never names a version.
pub proof fn law_versions_that_are_asked_for(
    flavour: LinuxFlavour,
    op: PackageOp,
    package: PackageRef,
    r: CommandLine,
)
    requires
        call_ensures(run_action, (flavour, op, &package), r),
    ensures
        package.version is None || op == PackageOp::Uninstall ==> r@.args[2] == package.id@,
        package.version is Some && op != PackageOp::Uninstall ==> r@.args[2] == package.id@ + seq![
            if flavour == LinuxFlavour::Apt {
                '='
            } else {
                '-'
            },
        ] + package.version->0@,
{
    reveal_strlit("=");
    reveal_strlit("-");
    assert("="@ =~= seq!['=']);
    assert("-"@ =~= seq!['-']);
}

/// A forced installation is the plain one with one word more, or the plain
/// one followed by a reinstallation; one that is not forced is the plain one.
pub proof fn law_forced_installations(
    m: LinuxPackageManager,
    package: PackageRef,
    opts: InstallOpts,
    plain: CommandLine,
    r: Vec<CommandLine>,
)
    requires
        call_ensures(run_action, (m.kind(), PackageOp::Install, &package), plain),
        call_ensures(LinuxPackageManager::install_commands, (&m, &package, &opts), r),
    ensures
        !opts.force ==> r@.len() == 1 && r@[0]@ == plain@,
        opts.force && m.kind() == LinuxFlavour::Apt ==> {
            &&& r@.len() == 1
            &&& r@[0]@.program == plain@.program
            &&& r@[0]@.args == plain@.args.insert(2, "--reinstall"@)
        },
        opts.force && m.kind() == LinuxFlavour::Zypper ==> {
            &&& r@.len() == 1
            &&& r@[0]@.program == plain@.program
            &&& r@[0]@.args == plain@.args.insert(2, "--force"@)
        },
        opts.force && (m.kind() == LinuxFlavour::Dnf || m.kind() == LinuxFlavour::Yum) ==> {
            &&& r@.len() == 2
            &&& r@[0]@ == plain@
            &&& r@[1]@.program == plain@.program
            &&& r@[1]@.args == plain@.args.update(1, "reinstall"@)
        },
{
    let v = line_views(r@);
    assert(v.len() == r@.len());
    assert(v[0] == r@[0]@);
    if r@.len() == 2 {
        assert(v[1] == r@[1]@);
        assert(v[1].args =~= plain@.args.update(1, "reinstall"@));
    } else if opts.force && m.kind() == LinuxFlavour::Apt {
        assert(v[0].args =~= plain@.args.insert(2, "--reinstall"@));
    } else if opts.force && m.kind() == LinuxFlavour::Zypper {
        assert(v[0].args =~= plain@.args.insert(2, "--force"@));
    }
}

/// The flavour is that of the first program that the host has, in the order
/// `apt-get`, `dnf`, `yum`, `zypper`.
pub proof fn law_the_first_program_decides(
    apt_get: bool,
    dnf: bool,
    yum: bool,
    zypper: bool,
    r: Result<LinuxPackageManager, PackageError>,
)
    requires
        call_ensures(LinuxPackageManager::detect, (apt_get, dnf, yum, zypper), r),
    ensures
        r is Ok <==> apt_get || dnf || yum || zypper,
        apt_get ==> r->Ok_0.kind() == LinuxFlavour::Apt,
        !apt_get && dnf ==> r->Ok_0.kind() == LinuxFlavour::Dnf,
        !apt_get && !dnf && yum ==> r->Ok_0.kind() == LinuxFlavour::Yum,
        !apt_get && !dnf && !yum && zypper ==> r->Ok_0.kind() == LinuxFlavour::Zypper,
        r is Err ==> r->Err_0 is Unsupported,
{
}

/// An operation fails with its program, and says of which flavour and what it
/// was.
pub proof fn law_failed_operations(
    flavour: LinuxFlavour,
    op: PackageOp,
    success: bool,
    r: Result<(), PackageError>,
)
    requires
        call_ensures(action_result, (flavour, op, success), r),
    ensures
        r is Ok <==> success,
        r is Err ==> r->Err_0 is Command && r->Err_0->Command_0@ == (match flavour {
            LinuxFlavour::Apt => "Apt"@,
            LinuxFlavour::Dnf => "Dnf"@,
            LinuxFlavour::Yum => "Yum"@,
            LinuxFlavour::Zypper => "Zypper"@,
        }) + " "@ + (match op {
            PackageOp::Install => "install"@,
            PackageOp::Update => "update"@,
            PackageOp::Uninstall => "uninstall"@,
        }) + " exited non-zero"@,
{
}

/// A removal has gone well where its program did, or where the package is
/// known not to be there; otherwise the error names the package manager.
pub proof fn law_what_is_not_there_is_removed(
    m: LinuxPackageManager,
    package: PackageRef,
    left: Vec<InstalledPackage>,
    success: bool,
    known: Result<(), PackageError>,
    unknown: Result<(), PackageError>,
)
    requires
        call_ensures(LinuxPackageManager::removal_result, (&m, &package, success, Some(&left)), known),
        call_ensures(
            LinuxPackageManager::removal_result,
            (&m, &package, success, None::<&Vec<InstalledPackage>>),
            unknown,
        ),
    ensures
        success ==> known is Ok && unknown is Ok,
        !success ==> unknown is Err,
        !success ==> (known is Err <==> exists|i: int|
            0 <= i < left@.len() && (#[trigger] left@[i]).id@ == package.id@),
        unknown is Err ==> unknown->Err_0 is Command && unknown->Err_0->Command_0@ == (
        match m.kind() {
            LinuxFlavour::Apt => "Apt"@,
            LinuxFlavour::Dnf => "Dnf"@,
            LinuxFlavour::Yum => "Yum"@,
            LinuxFlavour::Zypper => "Zypper"@,
        }) + " uninstall exited non-zero"@,
        known is Err ==> known->Err_0 is Command && unknown is Err && known->Err_0->Command_0@
            == unknown->Err_0->Command_0@,
{
}

/// A line with a name, a tab and a version is one package, with what stands
/// around them taken off.
pub proof fn law_listed_packages_are_read_back(id: Seq<char>, version: Seq<char>, source: Seq<char>)
    requires
        !id.contains('\t'),
    ensures
        ({
            let p = two_column_package(id + seq!['\t'] + version, source);
            &&& p is Some <==> trimmed(id).len() > 0 && trimmed(version).len() > 0
            &&& p is Some ==> p->0.id == trimmed(id) && p->0.version == trimmed(version) && p->0.source
                == source && p->0.name is None
        }),
        two_column_package(id, source) is None,
{
    law_cut_undoes_joining(id, '\t', version);
}

/// Each line of a listing adds its package, if it names one, and nothing
/// else.
pub proof fn law_each_line_is_read(line: Seq<char>, rest: Seq<char>, source: Seq<char>)
    requires
        !line.contains('\n'),
        line.len() > 0 ==> line.last() != '\r',
    ensures
        two_column_packages(line + seq!['\n'] + rest, source) == (match two_column_package(
            line,
            source,
        ) {
            Some(p) => seq![p],
            None => Seq::empty(),
        }) + two_column_packages(rest, source),
{
    let f = crate::package_manager::two_column_reader(source);
    crate::laws::text::law_lines_come_apart(line, rest);
    let none: Seq<Seq<char>> = Seq::empty();
    law_gathering(none, line, lines_of(rest), f);
    assert(none + seq![line] + lines_of(rest) =~= seq![line] + lines_of(rest));
    assert(gather(none, f) =~= Seq::empty());
    assert(two_column_packages(line + seq!['\n'] + rest, source) =~= (match two_column_package(
        line,
        source,
    ) {
        Some(p) => seq![p],
        None => Seq::empty(),
    }) + two_column_packages(rest, source));
}

/// A listing names its packages after the flavour's program, and asks for
/// them in the columns that are read.
pub proof fn law_listings_name_their_source(
    m: LinuxPackageManager,
    c: CommandLine,
    success: bool,
    stdout: &[u8],
    r: Result<Vec<InstalledPackage>, PackageError>,
    i: int,
)
    requires
        call_ensures(LinuxPackageManager::list_command, (&m,), c),
        call_ensures(LinuxPackageManager::list_installed, (&m, success, stdout), r),
    ensures
        m.kind() == LinuxFlavour::Apt ==> c@.program == "dpkg-query"@ && c@.args == seq![
            "-W"@,
            "-f=${Package}\t${Version}\n"@,
        ],
        m.kind() != LinuxFlavour::Apt ==> c@.program == "rpm"@ && c@.args == seq![
            "-qa"@,
            "--qf"@,
            "%{NAME}\t%{VERSION}-%{RELEASE}\n"@,
        ],
        r is Ok <==> success,
        r is Ok && 0 <= i < r->Ok_0@.len() ==> r->Ok_0@[i].source@ == (match m.kind() {
            LinuxFlavour::Apt => "apt-get"@,
            LinuxFlavour::Dnf => "dnf"@,
            LinuxFlavour::Yum => "yum"@,
            LinuxFlavour::Zypper => "zypper"@,
        }) && exists|k: int|
            0 <= k < lines_of(lossy_utf8(stdout@)).len() && two_column_package(
                #[trigger] lines_of(lossy_utf8(stdout@))[k],
                r->Ok_0@[i].source@,
            ) == Some(r->Ok_0@[i]@),
{
    if r is Ok && 0 <= i < r->Ok_0@.len() {
        let source = match m.kind() {
            LinuxFlavour::Apt => "apt-get"@,
            LinuxFlavour::Dnf => "dnf"@,
            LinuxFlavour::Yum => "yum"@,
            LinuxFlavour::Zypper => "zypper"@,
        };
        let l = lines_of(lossy_utf8(stdout@));
        let v = crate::package_manager::package_views(r->Ok_0@);
        assert(v[i] == r->Ok_0@[i]@);
        assert(v.contains(v[i]));
        let f = crate::package_manager::two_column_reader(source);
        law_gathered_items(l, f, v[i]);
        let k = choose|k: int| 0 <= k < l.len() && f(#[trigger] l[k]) == Some(v[i]);
        assert(two_column_package(l[k], source) == Some(v[i]));
    }
}

// ---------------------------------------------------------------------
// macOS
// ---------------------------------------------------------------------

/// The version of a receipt is that of the last line that gives one.
pub proof fn law_the_last_version_counts(id: &str, output: &str, r: Option<InstalledPackage>, k: int)
    requires
        call_ensures(parse_pkgutil_pkg_info, (id, output), r),
        0 <= k < lines_of(output@).len(),
        "version: "@.is_prefix_of(lines_of(output@)[k]),
        forall|j: int|
            k < j < lines_of(output@).len() ==> !"version: "@.is_prefix_of(
                #[trigger] lines_of(output@)[j],
            ),
    ensures
        r is Some,
        r->0.id@ == id@,
        r->0.version@ == trimmed(lines_of(output@)[k].skip("version: "@.len() as int)),
        r->0.source@ == "pkgutil"@,
{
    let l = lines_of(output@);
    lemma_version(l, k, l.len() as int);
}

proof fn lemma_version(l: Seq<Seq<char>>, k: int, n: int)
    requires
        0 <= k < n <= l.len(),
        "version: "@.is_prefix_of(l[k]),
        forall|j: int| k < j < l.len() ==> !"version: "@.is_prefix_of(#[trigger] l[j]),
    ensures
        receipt_version(l, n) == Some(trimmed(l[k].skip("version: "@.len() as int))),
    decreases n,
{
    if n - 1 > k {
        assert(!"version: "@.is_prefix_of(l[n - 1]));
        lemma_version(l, k, n - 1);
    }
}

/// A receipt without a version is no package.
pub proof fn law_receipts_without_a_version(id: &str, output: &str, r: Option<InstalledPackage>)
    requires
        call_ensures(parse_pkgutil_pkg_info, (id, output), r),
        forall|j: int|
            0 <= j < lines_of(output@).len() ==> !"version: "@.is_prefix_of(
                #[trigger] lines_of(output@)[j],
            ),
    ensures
        r is None,
{
    let l = lines_of(output@);
    lemma_no_version(l, l.len() as int);
}

proof fn lemma_no_version(l: Seq<Seq<char>>, n: int)
    requires
        0 <= n <= l.len(),
        forall|j: int| 0 <= j < l.len() ==> !"version: "@.is_prefix_of(#[trigger] l[j]),
    ensures
        receipt_version(l, n) is None,
    decreases n,
{
    if n > 0 {
        assert(!"version: "@.is_prefix_of(l[n - 1]));
        lemma_no_version(l, n - 1);
    }
}

/// A receipt that could not be described is no package.
pub proof fn law_undescribed_receipts(info: ReceiptInfo)
    ensures
        !info.success ==> receipt_package(info) is None,
        receipt_package(info) matches Some(p) ==> p.id == info.id@ && p.source == "pkgutil"@,
{
}

/// A package comes from a local file, whose path is what follows `file://`.
pub proof fn law_local_packages(
    m: MacosPackageManager,
    opts: InstallOpts,
    path: Seq<char>,
    r: Result<String, PackageError>,
)
    requires
        call_ensures(MacosPackageManager::local_package, (&m, &opts), r),
        opts.source_url is Some,
        opts.source_url->0@ == "file://"@ + path,
        !"file://"@.is_prefix_of(path),
    ensures
        r is Ok,
        r->Ok_0@ == path,
{
    reveal_strlit("file://");
    let s = "file://"@ + path;
    assert("file://"@.is_prefix_of(s));
    assert(s.skip("file://"@.len() as int) =~= path);
    assert(drop_prefixes(path, "file://"@) == path);
    assert(drop_prefixes(s, "file://"@) == drop_prefixes(path, "file://"@));
}

/// A source that is no local file is not supported, and neither is none.
pub proof fn law_remote_packages_are_not_supported(
    m: MacosPackageManager,
    opts: InstallOpts,
    r: Result<String, PackageError>,
)
    requires
        call_ensures(MacosPackageManager::local_package, (&m, &opts), r),
        opts.source_url is None || !"file://"@.is_prefix_of(opts.source_url->0@),
    ensures
        r is Err,
        r->Err_0 is Unsupported,
{
}

/// The commands of macOS name what they are about.
pub proof fn law_commands_of_macos(
    m: MacosPackageManager,
    package: PackageRef,
    id: &str,
    local: &str,
    list: CommandLine,
    info: CommandLine,
    install: CommandLine,
    uninstall: CommandLine,
)
    requires
        call_ensures(MacosPackageManager::list_command, (&m,), list),
        call_ensures(MacosPackageManager::info_command, (&m, id), info),
        call_ensures(MacosPackageManager::install_command, (&m, local), install),
        call_ensures(MacosPackageManager::uninstall_command, (&m, &package), uninstall),
    ensures
        list@.program == "pkgutil"@ && list@.args == seq!["--pkgs"@],
        info@.program == "pkgutil"@ && info@.args == seq!["--pkg-info"@, id@],
        install@.program == "installer"@ && install@.args == seq![
            "-pkg"@,
            local@,
            "-target"@,
            "/"@,
        ],
        uninstall@.program == "pkgutil"@ && uninstall@.args == seq!["--files"@, package.id@],
{
}

/// A removal has gone well where its program did, or where no receipt of the
/// package is left.
pub proof fn law_packages_without_receipt_are_removed(
    m: MacosPackageManager,
    package: PackageRef,
    left: Vec<String>,
    success: bool,
    r: Result<(), PackageError>,
    unknown: Result<(), PackageError>,
)
    requires
        call_ensures(MacosPackageManager::uninstall_result, (&m, &package, success, Some(&left)), r),
        call_ensures(
            MacosPackageManager::uninstall_result,
            (&m, &package, success, None::<&Vec<String>>),
            unknown,
        ),
    ensures
        unknown is Ok <==> success,
        r is Ok <==> success || forall|i: int| 0 <= i < left@.len() ==> (#[trigger] left@[i])@ != package.id@,
{
    let v = views(left@);
    assert(v.len() == left@.len());
    assert forall|i: int| 0 <= i < left@.len() implies v[i] == (#[trigger] left@[i])@ by {}
    if v.contains(package.id@) {
        let i = choose|i: int| 0 <= i < v.len() && v[i] == package.id@;
        assert(left@[i]@ == package.id@);
    } else {
        assert forall|i: int| 0 <= i < left@.len() implies (#[trigger] left@[i])@ != package.id@ by {
            assert(v[i] != package.id@);
        }
    }
}

/// An application is one with a name and a version that is not empty, and it
/// is known by its name.
pub proof fn law_applications(app: JsonView)
    ensures
        application(app) is Some <==> app.text_of("_name"@) is Some && app.text_of("version"@) is Some
            && app.text_of("version"@)->0.len() > 0,
        application(app) matches Some(p) ==> {
            &&& Some(p.id) == app.text_of("_name"@)
            &&& p.name == app.text_of("_name"@)
            &&& Some(p.version) == app.text_of("version"@)
            &&& p.source == "system_profiler"@
        },
{
}

/// A report lists exactly its applications.
pub proof fn law_reports_list_their_applications(report: JsonView, p: PackageView)
    ensures
        report.items_of("SPApplicationsDataType"@) is None ==> applications(report).len() == 0,
        report.items_of("SPApplicationsDataType"@) matches Some(a) ==> (applications(report).contains(
            p,
        ) <==> exists|i: int| 0 <= i < a.len() && application(#[trigger] a[i]) == Some(p)),
{
    match report.items_of("SPApplicationsDataType"@) {
        Some(a) => {
            let f = crate::package_manager::application_reader();
            law_gathered_items(a, f, p);
            assert forall|i: int| 0 <= i < a.len() implies f(#[trigger] a[i]) == application(a[i]) by {}
            if exists|i: int| 0 <= i < a.len() && application(#[trigger] a[i]) == Some(p) {
                let i = choose|i: int| 0 <= i < a.len() && application(#[trigger] a[i]) == Some(p);
                assert(f(a[i]) == Some(p));
            }
        },
        None => {},
    }
}

// ---------------------------------------------------------------------
// Windows
// ---------------------------------------------------------------------

/// The commands of WinGet name the package by its identifier, and each its
/// own verb; a removal never names a version.
pub proof fn law_commands_of_winget(
    m: WindowsPackageManager,
    package: PackageRef,
    opts: InstallOpts,
    list: CommandLine,
    install: CommandLine,
    update: CommandLine,
    uninstall: CommandLine,
)
    requires
        call_ensures(WindowsPackageManager::list_command, (&m,), list),
        call_ensures(WindowsPackageManager::install_command, (&m, &package, &opts), install),
        call_ensures(WindowsPackageManager::update_command, (&m, &package), update),
        call_ensures(WindowsPackageManager::uninstall_command, (&m, &package), uninstall),
    ensures
        list@.program == "winget"@ && list@.args == seq!["list"@, "--source"@, "winget"@],
        install@.program == "winget"@ && update@.program == "winget"@ && uninstall@.program == "winget"@,
        install@.args.take(5) == seq![
            "install"@,
            "--id"@,
            package.id@,
            "--accept-package-agreements"@,
            "--accept-source-agreements"@,
        ],
        update@.args.take(3) == seq!["upgrade"@, "--id"@, package.id@],
        uninstall@.args == seq!["uninstall"@, "--id"@, package.id@],
        package.version is None ==> update@.args.len() == 3,
        package.version is Some ==> update@.args.skip(3) == seq!["--version"@, package.version->0@],
        package.version is Some ==> install@.args.subrange(5, 7) == seq![
            "--version"@,
            package.version->0@,
        ],
        install@.args.len() == 5 + (if package.version is Some {
            2int
        } else {
            0
        }) + (if opts.force {
            1int
        } else {
            0
        }),
        opts.force ==> install@.args.last() == "--force"@,
{
    assert(install@.args.take(5) =~= seq![
        "install"@,
        "--id"@,
        package.id@,
        "--accept-package-agreements"@,
        "--accept-source-agreements"@,
    ]);
    assert(update@.args.take(3) =~= seq!["upgrade"@, "--id"@, package.id@]);
    if package.version is Some {
        assert(update@.args.skip(3) =~= seq!["--version"@, package.version->0@]);
        assert(install@.args.subrange(5, 7) =~= seq!["--version"@, package.version->0@]);
    }
}

/// WinGet has done its work with exit code zero; to have nothing to upgrade,
/// which is exit code 0x8A150011, is no failure of an upgrade alone.
pub proof fn law_exit_codes(code: i32, op: &str, r: Result<(), PackageError>, killed: Result<(), PackageError>)
    requires
        call_ensures(interpret_winget_exit, (Some(code), op), r),
        call_ensures(interpret_winget_exit, (None::<i32>, op), killed),
    ensures
        code == 0 ==> r is Ok,
        code == -1978335215 ==> (r is Ok <==> op@ == "upgrade"@),
        code != 0 && code != -1978335215 ==> r is Err,
        killed is Err,
        r is Err && code > 0 ==> r->Err_0 is Command && r->Err_0->Command_0@ == "winget "@ + op@
            + " exited with code 0x"@ + numeral(code as nat, 16),
        r is Err && code < 0 ==> r->Err_0 is Command && r->Err_0->Command_0@ == "winget "@ + op@
            + " exited with code 0x"@ + numeral((code + 0x1_0000_0000) as nat, 16),
{
}

/// A row's name, identifier and version stand at the columns of the heading.
pub proof fn law_rows_stand_in_columns(name: Seq<char>, id: Seq<char>, version: Seq<char>)
    requires
        forall|i: int| 0 <= i < name.len() ==> (#[trigger] name[i] as u32) < 128,
        forall|i: int| 0 <= i < id.len() ==> (#[trigger] id[i] as u32) < 128,
        forall|i: int| 0 <= i < version.len() ==> (#[trigger] version[i] as u32) < 128,
        version.len() > 0,
        forall|i: int| 0 <= i < version.len() ==> !crate::text::is_space(#[trigger] version[i]),
        trimmed(id).len() > 0,
        !"---"@.is_prefix_of(name + id + version),
    ensures
        winget_row(name + id + version, name.len(), (name.len() + id.len()) as nat) == Some(
            PackageView {
                id: trimmed(id),
                name: if trimmed(name).len() == 0 {
                    None
                } else {
                    Some(trimmed(name))
                },
                version,
                source: "winget"@,
            },
        ),
{
    let row = name + id + version;
    let a = name.len() as int;
    let b = (name.len() + id.len()) as int;
    assert forall|i: int| 0 <= i < row.len() implies (#[trigger] row[i] as u32) < 128 by {
        if i < a {
            assert(row[i] == name[i]);
        } else if i < b {
            assert(row[i] == id[i - a]);
        } else {
            assert(row[i] == version[i - b]);
        }
    }
    assert(row.last() == version.last());
    assert(!crate::text::is_space(version[version.len() - 1]));
    assert(ended(row) == row);
    crate::laws::text::law_octets_of_ascii(row, a);
    crate::laws::text::law_octets_of_ascii(row, b);
    if id.len() == 0 {
        assert(trimmed(id).len() == 0);
    }
    assert(row.take(a) =~= name);
    assert(row.subrange(a, b) =~= id);
    assert(row.skip(b) =~= version);
    crate::laws::text::law_words_come_apart(version, seq![' '], Seq::empty());
}

/// The columns are those of the first line that has both labels; what stands
/// before it, and the line itself, names no package.
pub proof fn law_the_heading_gives_the_columns(output: Seq<char>, h: int, p: PackageView)
    requires
        0 <= h < lines_of(output).len(),
        is_heading(lines_of(output)[h]),
        forall|k: int| 0 <= k < h ==> !is_heading(#[trigger] lines_of(output)[k]),
    ensures
        winget_packages(output).contains(p) <==> exists|k: int|
            h < k < lines_of(output).len() && winget_row(
                #[trigger] lines_of(output)[k],
                column(ended(lines_of(output)[h]), "Id"@)->0,
                column(ended(lines_of(output)[h]), "Version"@)->0,
            ) == Some(p),
{
    let l = lines_of(output);
    lemma_heading(l, 0, h);
    let i = column(ended(l[h]), "Id"@)->0;
    let v = column(ended(l[h]), "Version"@)->0;
    let f = crate::package_manager::winget_reader(i, v);
    let t = l.skip(h + 1);
    law_gathered_items(t, f, p);
    if exists|k: int| 0 <= k < t.len() && f(#[trigger] t[k]) == Some(p) {
        let k = choose|k: int| 0 <= k < t.len() && f(#[trigger] t[k]) == Some(p);
        assert(winget_row(l[h + 1 + k], i, v) == Some(p));
    }
    if exists|k: int| h < k < l.len() && winget_row(#[trigger] l[k], i, v) == Some(p) {
        let k = choose|k: int| h < k < l.len() && winget_row(#[trigger] l[k], i, v) == Some(p);
        assert(f(t[k - h - 1]) == Some(p));
    }
}

proof fn lemma_heading(l: Seq<Seq<char>>, i: int, h: int)
    requires
        0 <= i <= h < l.len(),
        is_heading(l[h]),
        forall|k: int| 0 <= k < h ==> !is_heading(#[trigger] l[k]),
    ensures
        heading_from(l, i) == Some(h),
    decreases h - i,
{
    if i < h {
        assert(!is_heading(l[i]));
        lemma_heading(l, i + 1, h);
    }
}

/// A heading has the labels `Id` and `Version`, and a column is what stands
/// before the label.
pub proof fn law_headings(before: Seq<char>, label: Seq<char>, after: Seq<char>)
    requires
        forall|i: int| 0 <= i < before.len() ==> (#[trigger] before[i] as u32) < 128,
        forall|j: int| 0 <= j < before.len() ==> !#[trigger] crate::text::occurs_at(
            before + label + after,
            label,
            j,
        ),
    ensures
        column(before + label + after, label) == Some(before.len()),
{
    let s = before + label + after;
    crate::laws::text::law_search_finds_the_first(s, label);
    assert(crate::text::occurs_at(s, label, before.len() as int)) by {
        assert(s.subrange(before.len() as int, (before.len() + label.len()) as int) =~= label);
    }
    let i = crate::text::find_text(s, label)->0;
    assert(s.subrange(i, i + label.len()) =~= label);
    assert(crate::text::occurs_at(s, label, i));
    assert(i == before.len());
    assert(s.take(before.len() as int) =~= before);
    crate::laws::text::law_octets_of_ascii(before, 0);
}

/// Each line of the list of receipts is one, without the space around it;
/// blank lines and lines that are no text are none.
pub proof fn law_receipts(line: Seq<u8>, rest: Seq<u8>)
    requires
        !line.contains(10),
    ensures
        gather(octet_pieces_of(line + seq![10u8] + rest, 10), receipt_reader()) == (match receipt_id(line) {
            Some(t) => seq![t],
            None => Seq::empty(),
        }) + gather(octet_pieces_of(rest, 10), receipt_reader()),
        receipt_id(line) is Some <==> vstd::utf8::valid_utf8(line) && trimmed(
            vstd::utf8::decode_utf8(line),
        ).len() > 0,
        receipt_id(line) matches Some(t) ==> t == trimmed(vstd::utf8::decode_utf8(line)),
{
    let f = receipt_reader();
    crate::laws::text::law_octets_come_apart(line, 10, rest);
    let none: Seq<Seq<u8>> = Seq::empty();
    let others = octet_pieces_of(rest, 10);
    law_gathering(none, line, others, f);
    assert(none + seq![line] + others =~= seq![line] + others);
    assert(gather(none, f) =~= Seq::empty());
    let head = match receipt_id(line) {
        Some(t) => seq![t],
        None => Seq::empty(),
    };
    assert(gather(seq![line] + others, f) =~= head + gather(others, f));
}

/// The receipts of a listing that went well are read, and one that did not is
/// an error.
pub proof fn law_listings_of_receipts(
    m: MacosPackageManager,
    success: bool,
    stdout: &[u8],
    r: Result<Vec<String>, PackageError>,
    ids: Vec<String>,
)
    requires
        call_ensures(MacosPackageManager::receipts, (&m, success, stdout), r),
        call_ensures(parse_receipt_ids, (stdout,), ids),
    ensures
        r is Ok <==> success,
        r is Ok ==> views(r->Ok_0@) == views(ids@),
        r is Err ==> r->Err_0 is Command && r->Err_0->Command_0@ == "pkgutil --pkgs exited non-zero"@,
        views(ids@) == gather(octet_pieces_of(stdout@, 10), receipt_reader()),
{
}

/// The two readers of tabulated listings differ in the source alone.
pub proof fn law_readers_of_listings(
    output: &str,
    source: &str,
    a: Vec<InstalledPackage>,
    b: Vec<InstalledPackage>,
)
    requires
        call_ensures(parse_rpm_qa, (output, source), a),
        call_ensures(parse_dpkg_query, (output,), b),
        source@ == "apt-get"@,
    ensures
        a@.len() == b@.len(),
        forall|i: int| 0 <= i < a@.len() ==> (#[trigger] a@[i])@ == b@[i]@,
{
    let x = crate::package_manager::package_views(a@);
    let y = crate::package_manager::package_views(b@);
    assert(x.len() == a@.len() && y.len() == b@.len());
    assert forall|i: int| 0 <= i < a@.len() implies (#[trigger] a@[i])@ == b@[i]@ by {
        assert(x[i] == a@[i]@ && y[i] == b@[i]@);
    }
}

/// The listing of WinGet that went well is read, and one that did not is an
/// error that tells the code.
pub proof fn law_listings_of_winget(
    m: WindowsPackageManager,
    success: bool,
    code: i32,
    stdout: &[u8],
    r: Result<Vec<InstalledPackage>, PackageError>,
    killed: Result<Vec<InstalledPackage>, PackageError>,
)
    requires
        call_ensures(WindowsPackageManager::list_installed, (&m, success, Some(code), stdout), r),
        call_ensures(WindowsPackageManager::list_installed, (&m, success, None::<i32>, stdout), killed),
    ensures
        r is Ok <==> success,
        r is Ok ==> crate::package_manager::package_views(r->Ok_0@) == winget_packages(
            lossy_utf8(stdout@),
        ),
        r is Err ==> r->Err_0 is Command && r->Err_0->Command_0@ == "winget list exited with code "@ + (
        "Some("@ + crate::text::signed_numeral(code as int) + ")"@),
        killed is Err ==> killed->Err_0 is Command && killed->Err_0->Command_0@
            == "winget list exited with code "@ + "None"@,
{
}

/// An installation of macOS fails with its program, and names the package.
pub proof fn law_installations_of_macos(
    m: MacosPackageManager,
    package: PackageRef,
    success: bool,
    r: Result<(), PackageError>,
    opts: InstallOpts,
)
    requires
        call_ensures(MacosPackageManager::install_result, (&m, &package, success), r),
        call_ensures(InstallOpts::default, (), opts),
    ensures
        r is Ok <==> success,
        r is Err ==> r->Err_0 is Command && r->Err_0->Command_0@ == "installer -pkg "@ + package.id@
            + " -target / exited non-zero"@,
        opts.expected_sha256 is None && opts.source_url is None && !opts.force,
{
}

/// A heading has both labels, and a line that has both is one.
pub proof fn law_headings_have_both_labels(line: Seq<char>)
    ensures
        is_heading(line) <==> crate::text::has_text(ended(line), "Id"@) && crate::text::has_text(
            ended(line),
            "Version"@,
        ),
{
    crate::laws::text::law_search_finds_the_first(ended(line), "Id"@);
    crate::laws::text::law_search_finds_the_first(ended(line), "Version"@);
}

/// A row that names a package has an identifier and a version, reaches past
/// its identifier and is no rule of dashes.
pub proof fn law_rows_that_name_packages(line: Seq<char>, id_col: nat, version_col: nat)
    requires
        winget_row(line, id_col, version_col) is Some,
    ensures
        winget_row(line, id_col, version_col)->0.id.len() > 0,
        winget_row(line, id_col, version_col)->0.version.len() > 0,
        winget_row(line, id_col, version_col)->0.source == "winget"@,
        id_col < version_col,
        id_col < crate::text::utf8_len(ended(line)),
        ended(line).len() > 0,
        !"---"@.is_prefix_of(ended(line)),
{
    let row = ended(line);
    let b = crate::text::char_at(row, version_col)->0;
    crate::laws::text::law_words_hold_no_white_space(row.skip(b), 0);
}

} // verus!
