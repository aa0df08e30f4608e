//! Administrators: who is listed and why, and what a grant does to the host.

use crate::admin_manager::{
    account_views, alias_reader, bad_char_from, below, candidate_path, drop_grant, drop_in_path, grant_after,
    group_line, group_members, group_reader, has_account, linux_admins, local_account,
    localgroup_from, member_name, member_reader, membership_from, membership_line, new_grant_id,
    read_grants, record_grant, sudoers_text, username_fault, visudo_command, windows_account,
    with_account, with_aliases, with_members, AccountView, AdminAccount, AdminError,
    CommandOutput, GrantHandle, GrantPhase, LedgerFile, LinuxAdminManager, MacAdminManager,
    UserRef, WindowsAdminManager,
};
use crate::admin_run::{
    answers, changed, went_well, AdminReply, AdminStep, ChangePhase, ChangeRun, GrantRun,
    LedgerChange, StepView,
};
use crate::clock::{rfc3339_text, Timestamp};
use crate::command::{CommandLine, CommandView};
use crate::laws::text::{
    law_gathered_items, law_lines_come_apart, law_only_digits_are_read,
    law_written_numbers_are_read,
};
use crate::network_module::octets;
use crate::text::{
    ascii_lower, gather, lines_of, lossy_utf8, numeral, pieces_of, signed_numeral, spread,
    trimmed, views, words_of,
};
use std::hash::DefaultHasher;
use vstd::prelude::*;
use vstd::std_specs::hash::DefaultHasherAdditionalSpecFns;

verus! {

// ---------------------------------------------------------------------
// Linux
// ---------------------------------------------------------------------

/// Whether line `k` of a group file makes `name` a member of `group`: the
/// group is its first field and the name one of those in its fourth.
pub open spec fn member_by_line(etc_group: Seq<char>, k: int, group: Seq<char>, name: Seq<char>) -> bool {
    let l = lines_of(etc_group);
    &&& 0 <= k < l.len()
    &&& l[k].len() > 0
    &&& l[k][0] != '#'
    &&& pieces_of(l[k], ':').len() >= 4
    &&& pieces_of(l[k], ':')[0] == group
    &&& name.len() > 0
    &&& exists|j: int|
        0 <= j < pieces_of(pieces_of(l[k], ':')[3], ',').len() && trimmed(
            #[trigger] pieces_of(pieces_of(l[k], ':')[3], ',')[j],
        ) == name
}

/// Whether line `k` of a password file gives `name` the user number zero.
pub open spec fn zero_by_line(etc_passwd: Seq<char>, k: int, name: Seq<char>) -> bool {
    let l = lines_of(etc_passwd);
    &&& 0 <= k < l.len()
    &&& l[k].len() > 0
    &&& l[k][0] != '#'
    &&& pieces_of(l[k], ':').len() >= 3
    &&& pieces_of(l[k], ':')[0] == name
    &&& pieces_of(l[k], ':')[2] == "0"@
}

/// Every member of `wheel`, `sudo` and `admin` is listed.
pub proof fn law_members_are_administrators(
    etc_group: &str,
    etc_passwd: &str,
    r: Vec<AdminAccount>,
    k: int,
    group: Seq<char>,
    name: Seq<char>,
)
    requires
        call_ensures(LinuxAdminManager::list_admins, (etc_group, etc_passwd), r),
        group == "wheel"@ || group == "sudo"@ || group == "admin"@,
        member_by_line(etc_group@, k, group, name),
    ensures
        exists|i: int| 0 <= i < r@.len() && (#[trigger] r@[i]).username@ == name,
{
    let groups = crate::admin_manager::admin_groups();
    assert(groups[0] == "wheel"@ && groups[1] == "sudo"@ && groups[2] == "admin"@);
    assert(groups.contains(group));
    let members = group_members(etc_group@, groups);
    lemma_member_found(etc_group@, groups, k, group, name);
    let root = seq![local_account("root"@, "root"@)];
    lemma_members(root, members, members.len() as int);
    let v = with_members(root, members, members.len() as int);
    assert(has_account(v, name));
    let aliases = gather(lines_of(etc_passwd@), alias_reader());
    lemma_aliases(v, aliases, aliases.len() as int);
    lemma_listed(r@, name);
}

/// Every login with user number zero is listed.
pub proof fn law_other_roots_are_administrators(
    etc_group: &str,
    etc_passwd: &str,
    r: Vec<AdminAccount>,
    k: int,
    name: Seq<char>,
)
    requires
        call_ensures(LinuxAdminManager::list_admins, (etc_group, etc_passwd), r),
        zero_by_line(etc_passwd@, k, name),
    ensures
        exists|i: int| 0 <= i < r@.len() && (#[trigger] r@[i]).username@ == name,
{
    let members = group_members(etc_group@, crate::admin_manager::admin_groups());
    let root = seq![local_account("root"@, "root"@)];
    lemma_members(root, members, members.len() as int);
    let v = with_members(root, members, members.len() as int);
    let l = lines_of(etc_passwd@);
    let aliases = gather(l, alias_reader());
    lemma_aliases(v, aliases, aliases.len() as int);
    if name == "root"@ {
        assert(root[0].username == name);
    } else {
        law_gathered_items(l, alias_reader(), name);
        assert(alias_reader()(l[k]) == Some(name));
    }
    lemma_listed(r@, name);
}

/// Nobody is listed without a reason: an account is root, or a member of one
/// of the three groups, or a login with user number zero; and its group says
/// which.
pub proof fn law_every_administrator_has_a_reason(
    etc_group: &str,
    etc_passwd: &str,
    r: Vec<AdminAccount>,
    i: int,
)
    requires
        call_ensures(LinuxAdminManager::list_admins, (etc_group, etc_passwd), r),
        0 <= i < r@.len(),
    ensures
        r@[i].source@ == "local"@,
        r@[i].since is None,
        r@[i].group is Some,
        ({
            let name = r@[i].username@;
            let group = r@[i].group->0@;
            ||| name == "root"@ && group == "root"@
            ||| (group == "wheel"@ || group == "sudo"@ || group == "admin"@) && exists|k: int|
                #[trigger] member_by_line(etc_group@, k, group, name)
            ||| group == "uid0"@ && name != "root"@ && exists|k: int| #[trigger]
                zero_by_line(etc_passwd@, k, name)
        }),
{
    let groups = crate::admin_manager::admin_groups();
    let members = group_members(etc_group@, groups);
    let root = seq![local_account("root"@, "root"@)];
    let v = with_members(root, members, members.len() as int);
    let l = lines_of(etc_passwd@);
    let aliases = gather(l, alias_reader());
    lemma_members(root, members, members.len() as int);
    lemma_aliases(v, aliases, aliases.len() as int);
    let e = account_views(r@)[i];
    assert(e == r@[i]@);
    assert(linux_admins(etc_group@, etc_passwd@).contains(e));
    if exists|j: int|
        0 <= j < aliases.len() && e == local_account(#[trigger] aliases[j], "uid0"@) {
        let j = choose|j: int|
            0 <= j < aliases.len() && e == local_account(#[trigger] aliases[j], "uid0"@);
        law_gathered_items(l, alias_reader(), aliases[j]);
        assert(aliases.contains(aliases[j]));
        let k = choose|k: int| 0 <= k < l.len() && alias_reader()(#[trigger] l[k]) == Some(aliases[j]);
        assert(zero_by_line(etc_passwd@, k, aliases[j]));
    } else {
        assert(v.contains(e));
        if exists|j: int|
            0 <= j < members.len() && e == local_account(
                (#[trigger] members[j]).0,
                members[j].1,
            ) {
            let j = choose|j: int|
                0 <= j < members.len() && e == local_account((#[trigger] members[j]).0, members[j].1);
            lemma_member_reason(etc_group@, groups, members[j]);
            let k = choose|k: int| #[trigger]
                member_by_line(etc_group@, k, members[j].1, members[j].0);
            assert(groups =~= seq!["wheel"@, "sudo"@, "admin"@]);
            assert(groups.contains(members[j].1));
        } else {
            assert(root.contains(e));
        }
    }
}

proof fn lemma_listed(v: Seq<AdminAccount>, name: Seq<char>)
    requires
        has_account(account_views(v), name),
    ensures
        exists|i: int| 0 <= i < v.len() && (#[trigger] v[i]).username@ == name,
{
    let a = account_views(v);
    let i = choose|i: int| 0 <= i < a.len() && (#[trigger] a[i]).username == name;
    assert(a[i] == v[i]@);
}

proof fn lemma_spread_item<A, B>(s: Seq<A>, f: spec_fn(A) -> Seq<B>, y: B)
    ensures
        spread(s, f).contains(y) <==> exists|i: int| 0 <= i < s.len() && f(#[trigger] s[i]).contains(y),
    decreases s.len(),
{
    if s.len() > 0 {
        let front = s.drop_last();
        lemma_spread_item(front, f, y);
        let a = spread(front, f);
        let b = f(s.last());
        let all = a + b;
        assert(spread(s, f) == all);
        if all.contains(y) {
            let k = choose|k: int| 0 <= k < all.len() && all[k] == y;
            if k < a.len() {
                assert(a[k] == y);
                assert(a.contains(y));
                let i = choose|i: int| 0 <= i < front.len() && f(#[trigger] front[i]).contains(y);
                assert(s[i] == front[i]);
            } else {
                assert(b[k - a.len()] == y);
                assert(f(s[s.len() - 1]).contains(y));
            }
        }
        if exists|i: int| 0 <= i < s.len() && f(#[trigger] s[i]).contains(y) {
            let i = choose|i: int| 0 <= i < s.len() && f(#[trigger] s[i]).contains(y);
            if i < front.len() {
                assert(front[i] == s[i]);
                let k = choose|k: int| 0 <= k < a.len() && a[k] == y;
                assert(all[k] == y);
            } else {
                let k = choose|k: int| 0 <= k < b.len() && b[k] == y;
                assert(all[a.len() + k] == y);
            }
        }
    }
}

proof fn lemma_member_found(
    etc_group: Seq<char>,
    groups: Seq<Seq<char>>,
    k: int,
    group: Seq<char>,
    name: Seq<char>,
)
    requires
        groups.contains(group),
        member_by_line(etc_group, k, group, name),
    ensures
        group_members(etc_group, groups).contains((name, group)),
{
    let l = lines_of(etc_group);
    lemma_spread_item(l, group_reader(groups), (name, group));
    let f = pieces_of(l[k], ':');
    let p = pieces_of(f[3], ',');
    law_gathered_items(p, member_reader(f[0]), (name, group));
    let j = choose|j: int| 0 <= j < p.len() && trimmed(#[trigger] p[j]) == name;
    assert(member_name(p[j]) == Some(name));
    assert(member_reader(f[0])(p[j]) == Some((name, group)));
    assert(group_line(l[k], groups).contains((name, group)));
    assert(group_reader(groups)(l[k]).contains((name, group)));
}

proof fn lemma_member_reason(
    etc_group: Seq<char>,
    groups: Seq<Seq<char>>,
    m: (Seq<char>, Seq<char>),
)
    requires
        group_members(etc_group, groups).contains(m),
    ensures
        groups.contains(m.1),
        exists|k: int| #[trigger] member_by_line(etc_group, k, m.1, m.0),
{
    let l = lines_of(etc_group);
    lemma_spread_item(l, group_reader(groups), m);
    let k = choose|k: int| 0 <= k < l.len() && group_reader(groups)(#[trigger] l[k]).contains(m);
    let f = pieces_of(l[k], ':');
    let p = pieces_of(f[3], ',');
    assert(group_line(l[k], groups).contains(m));
    law_gathered_items(p, member_reader(f[0]), m);
    let j = choose|j: int| 0 <= j < p.len() && member_reader(f[0])(#[trigger] p[j]) == Some(m);
    assert(trimmed(p[j]) == m.0);
    assert(member_by_line(etc_group, k, m.1, m.0));
}

proof fn lemma_with(v: Seq<AccountView>, name: Seq<char>, group: Seq<char>)
    ensures
        has_account(with_account(v, name, group), name),
        forall|n: Seq<char>| has_account(v, n) ==> #[trigger] has_account(with_account(v, name, group), n),
        forall|e: AccountView| #[trigger]
            with_account(v, name, group).contains(e) ==> v.contains(e) || e == local_account(name, group),
{
    let w = with_account(v, name, group);
    if !has_account(v, name) {
        assert(w.last().username == name);
        assert forall|n: Seq<char>| has_account(v, n) implies #[trigger] has_account(w, n) by {
            let i = choose|i: int| 0 <= i < v.len() && (#[trigger] v[i]).username == n;
            assert(w[i].username == n);
        }
        assert forall|e: AccountView| #[trigger] w.contains(e) implies v.contains(e) || e
            == local_account(name, group) by {
            let i = choose|i: int| 0 <= i < w.len() && w[i] == e;
            if i < v.len() {
                assert(v[i] == e);
            }
        }
    }
}

proof fn lemma_members(v: Seq<AccountView>, m: Seq<(Seq<char>, Seq<char>)>, n: int)
    requires
        0 <= n <= m.len(),
    ensures
        forall|name: Seq<char>|
            has_account(v, name) ==> #[trigger] has_account(with_members(v, m, n), name),
        forall|j: int| 0 <= j < n ==> has_account(with_members(v, m, n), (#[trigger] m[j]).0),
        forall|e: AccountView| #[trigger]
            with_members(v, m, n).contains(e) ==> v.contains(e) || exists|j: int|
                0 <= j < n && e == local_account((#[trigger] m[j]).0, m[j].1),
    decreases n,
{
    if n > 0 {
        lemma_members(v, m, n - 1);
        lemma_with(with_members(v, m, n - 1), m[n - 1].0, m[n - 1].1);
    }
}

proof fn lemma_aliases(v: Seq<AccountView>, m: Seq<Seq<char>>, n: int)
    requires
        0 <= n <= m.len(),
    ensures
        forall|name: Seq<char>|
            has_account(v, name) ==> #[trigger] has_account(with_aliases(v, m, n), name),
        forall|j: int| 0 <= j < n ==> has_account(with_aliases(v, m, n), #[trigger] m[j]),
        forall|e: AccountView| #[trigger]
            with_aliases(v, m, n).contains(e) ==> v.contains(e) || exists|j: int|
                0 <= j < n && e == local_account(#[trigger] m[j], "uid0"@),
    decreases n,
{
    if n > 0 {
        lemma_aliases(v, m, n - 1);
        lemma_with(with_aliases(v, m, n - 1), m[n - 1], "uid0"@);
    }
}

// ---------------------------------------------------------------------
// macOS and Windows
// ---------------------------------------------------------------------

/// The members of the group are the words of the first line that speaks of
/// them; without such a line there are none.
pub proof fn law_members_that_dscl_lists(out: &str, r: Vec<String>, i: int)
    requires
        call_ensures(MacAdminManager::parse_dscl_membership, (out,), r),
        0 <= i <= lines_of(out@).len(),
        forall|k: int|
            0 <= k < i ==> !"GroupMembership:"@.is_prefix_of(trimmed(#[trigger] lines_of(out@)[k]))
                && !"GroupMembership :"@.is_prefix_of(trimmed(lines_of(out@)[k])),
    ensures
        i == lines_of(out@).len() ==> r@.len() == 0,
        i < lines_of(out@).len() && "GroupMembership:"@.is_prefix_of(trimmed(lines_of(out@)[i]))
            ==> views(r@) == words_of(
            trimmed(lines_of(out@)[i]).skip("GroupMembership:"@.len() as int),
        ),
{
    let l = lines_of(out@);
    lemma_membership(l, 0, i);
    assert(views(r@).len() == r@.len());
}

proof fn lemma_membership(l: Seq<Seq<char>>, from: int, i: int)
    requires
        0 <= from <= i <= l.len(),
        forall|k: int|
            0 <= k < i ==> !"GroupMembership:"@.is_prefix_of(trimmed(#[trigger] l[k]))
                && !"GroupMembership :"@.is_prefix_of(trimmed(l[k])),
    ensures
        membership_from(l, from) == membership_from(l, i),
    decreases i - from,
{
    if from < i {
        assert(membership_line(l[from]) is None);
        lemma_membership(l, from + 1, i);
    }
}

/// Each member that `dscl` lists is a local account of the group `admin`.
pub proof fn law_accounts_of_macos(
    output: CommandOutput,
    r: Result<Vec<AdminAccount>, AdminError>,
    i: int,
)
    requires
        call_ensures(MacAdminManager::list_admins, (output,), r),
    ensures
        r is Ok <==> output.status == 0,
        r is Ok && 0 <= i < r->Ok_0@.len() ==> {
            let m = membership_from(lines_of(lossy_utf8(output.stdout@)), 0);
            &&& r->Ok_0@.len() == m.len()
            &&& r->Ok_0@[i].username@ == m[i]
            &&& r->Ok_0@[i].source@ == "local"@
            &&& r->Ok_0@[i].group is Some
            &&& r->Ok_0@[i].group->0@ == "admin"@
            &&& r->Ok_0@[i].since is None
        },
{
    if r is Ok && 0 <= i < r->Ok_0@.len() {
        let v = account_views(r->Ok_0@);
        assert(v.len() == r->Ok_0@.len());
        assert(v[i] == r->Ok_0@[i]@);
    }
}

/// What stands before the line of dashes is no account, and neither is the
/// closing message nor anything after it; each line between is one.
pub proof fn law_accounts_stand_between_the_dashes_and_the_closing(
    head: Seq<Seq<char>>,
    dashes: Seq<char>,
    names: Seq<Seq<char>>,
    closing: Seq<char>,
    tail: Seq<Seq<char>>,
)
    requires
        forall|k: int| 0 <= k < head.len() ==> !"---"@.is_prefix_of(trimmed(#[trigger] head[k])),
        "---"@.is_prefix_of(trimmed(dashes)),
        forall|k: int|
            0 <= k < names.len() ==> {
                let t = trimmed(#[trigger] names[k]);
                &&& t.len() > 0
                &&& !"---"@.is_prefix_of(t)
                &&& !"the command completed"@.is_prefix_of(ascii_lower(t))
            },
        "the command completed"@.is_prefix_of(ascii_lower(trimmed(closing))),
        !"---"@.is_prefix_of(trimmed(closing)),
    ensures
        localgroup_from(head + seq![dashes] + names + seq![closing] + tail, 0, false)
            == names.map_values(|n: Seq<char>| windows_account(trimmed(n))),
{
    let l = head + seq![dashes] + names + seq![closing] + tail;
    reveal_strlit("---");
    reveal_strlit("the command completed");
    lemma_heading(l, 0, head.len() as int);
    let n0 = (head.len() + 1) as int;
    assert(l[head.len() as int] == dashes);
    assert forall|k: int| 0 <= k < names.len() implies l[n0 + k] == #[trigger] names[k] by {}
    assert(l[n0 + names.len()] == closing);
    assert(ascii_lower(trimmed(closing)).len() == trimmed(closing).len());
    lemma_names(l, n0, names, 0);
    assert(names.skip(0) =~= names);
}

proof fn lemma_heading(l: Seq<Seq<char>>, i: int, n: int)
    requires
        0 <= i <= n <= l.len(),
        forall|k: int| 0 <= k < n ==> !"---"@.is_prefix_of(trimmed(#[trigger] l[k])),
    ensures
        localgroup_from(l, i, false) == localgroup_from(l, n, false),
    decreases n - i,
{
    if i < n {
        assert(!"---"@.is_prefix_of(trimmed(l[i])));
        lemma_heading(l, i + 1, n);
    }
}

proof fn lemma_names(l: Seq<Seq<char>>, n0: int, names: Seq<Seq<char>>, k: int)
    requires
        0 <= k <= names.len(),
        0 <= n0,
        n0 + names.len() < l.len(),
        forall|j: int|
            0 <= j < names.len() ==> {
                let t = trimmed(#[trigger] names[j]);
                &&& l[n0 + j] == names[j]
                &&& t.len() > 0
                &&& !"---"@.is_prefix_of(t)
                &&& !"the command completed"@.is_prefix_of(ascii_lower(t))
            },
        trimmed(l[n0 + names.len()]).len() > 0,
        !"---"@.is_prefix_of(trimmed(l[n0 + names.len()])),
        "the command completed"@.is_prefix_of(ascii_lower(trimmed(l[n0 + names.len()]))),
    ensures
        localgroup_from(l, n0 + k, true) == names.skip(k).map_values(
            |n: Seq<char>| windows_account(trimmed(n)),
        ),
    decreases names.len() - k,
{
    let f = |n: Seq<char>| windows_account(trimmed(n));
    if k < names.len() {
        assert(l[n0 + k] == names[k]);
        lemma_names(l, n0, names, k + 1);
        assert(names.skip(k).map_values(f) =~= seq![windows_account(trimmed(names[k]))]
            + names.skip(k + 1).map_values(f));
    } else {
        assert(names.skip(k).map_values(f) =~= Seq::empty());
    }
}

/// An account with a domain before a backslash is a domain account, unless
/// the domain is empty or a dot.
pub proof fn law_domain_accounts(domain: Seq<char>, user: Seq<char>)
    requires
        !domain.contains('\\'),
    ensures
        ({
            let a = windows_account(domain + seq!['\\'] + user);
            &&& a.username == domain + seq!['\\'] + user
            &&& a.source == if domain.len() == 0 || domain == "."@ {
                "local"@
            } else {
                "domain"@
            }
            &&& a.group == Some("Administrators"@)
            &&& a.since is None
        }),
        windows_account(domain).username == domain,
        windows_account(domain).source == "local"@,
{
    crate::laws::text::law_cut_undoes_joining(domain, '\\', user);
    crate::text::lemma_scan(domain, crate::text::just('\\'), 0);
}

/// A grant and its revocation run one program on one user, and differ in one
/// word alone: the grant adds what the revocation takes away.
pub proof fn law_revocation_mirrors_the_grant(
    mac: MacAdminManager,
    windows: WindowsAdminManager,
    h: GrantHandle,
    mg: CommandLine,
    mr: CommandLine,
    wg: CommandLine,
    wr: CommandLine,
)
    requires
        call_ensures(MacAdminManager::grant_command, (&mac, &h.user), mg),
        call_ensures(MacAdminManager::revoke_command, (&mac, &h), mr),
        call_ensures(WindowsAdminManager::grant_command, (&windows, &h.user), wg),
        call_ensures(WindowsAdminManager::revoke_command, (&windows, &h), wr),
    ensures
        mg@.program == "dseditgroup"@,
        mg@.args.len() == 7,
        mg@.args[0] == "-o"@ && mg@.args[1] == "edit"@ && mg@.args[2] == "-a"@,
        mg@.args[3] == h.user.username@,
        mg@.args[4] == "-t"@ && mg@.args[5] == "user"@ && mg@.args[6] == "admin"@,
        mr@.program == mg@.program,
        mr@.args == mg@.args.update(2, "-d"@),
        wg@.program == "net"@,
        wg@.args == seq!["localgroup"@, "Administrators"@, h.user.username@, "/add"@],
        wr@.program == wg@.program,
        wr@.args == wg@.args.update(3, "/delete"@),
{
}

/// The administrators are those of the group that grants change.
pub proof fn law_listings_ask_for_the_group_of_the_grants(
    mac: MacAdminManager,
    windows: WindowsAdminManager,
    user: UserRef,
    ml: CommandLine,
    mg: CommandLine,
    wl: CommandLine,
    wg: CommandLine,
)
    requires
        call_ensures(MacAdminManager::list_command, (&mac,), ml),
        call_ensures(MacAdminManager::grant_command, (&mac, &user), mg),
        call_ensures(WindowsAdminManager::list_command, (&windows,), wl),
        call_ensures(WindowsAdminManager::grant_command, (&windows, &user), wg),
    ensures
        ml@.program == "dscl"@,
        ml@.args.len() == 4,
        ml@.args[0] == "."@ && ml@.args[1] == "-read"@ && ml@.args[3] == "GroupMembership"@,
        ml@.args[2] == "/Groups/"@ + mg@.args.last(),
        wl@.program == wg@.program,
        wl@.args == wg@.args.take(2),
{
    reveal_strlit("/Groups/admin");
    reveal_strlit("/Groups/");
    reveal_strlit("admin");
    assert("/Groups/admin"@ =~= "/Groups/"@ + "admin"@);
    assert(wl@.args =~= wg@.args.take(2));
}

// ---------------------------------------------------------------------
// User names
// ---------------------------------------------------------------------

/// An accepted user name holds ASCII letters, digits, dots, dashes,
/// underscores and backslashes only, and so nothing that ends a word, a line
/// or a field, opens a path or means something to a shell.
pub proof fn law_accepted_names_are_harmless(u: Seq<char>, i: int)
    requires
        username_fault(u) is None,
        0 <= i < u.len(),
    ensures
        u[0] != '-',
        ({
            let c = u[i] as u32;
            48 <= c <= 57 || 65 <= c <= 90 || 97 <= c <= 122 || c == 46 || c == 45 || c == 95 || c == 92
        }),
        u[i] != ' ' && u[i] != '\n' && u[i] != '\t' && u[i] != '/' && u[i] != ':' && u[i] != ',',
        u[i] != '*' && u[i] != '=' && u[i] != '%' && u[i] != '#' && u[i] != ';' && u[i] != '$',
{
    crate::admin_manager::law_accepted_usernames(u);
}

/// A refused name is answered with what is wrong with it.
pub proof fn law_refused_names(username: &str, r: Result<(), AdminError>)
    requires
        call_ensures(crate::admin_manager::validate_username, (username,), r),
    ensures
        username@.len() == 0 ==> r is Err && r->Err_0 is InvalidInput && r->Err_0->InvalidInput_0@
            == "empty username"@,
        username@.len() > 0 && crate::text::utf8_len(username@) > 256 ==> r is Err && r->Err_0 is InvalidInput
            && r->Err_0->InvalidInput_0@ == "username too long"@,
        username@.len() > 0 && crate::text::utf8_len(username@) <= 256 && username@[0] == '-' ==> r is Err
            && r->Err_0 is InvalidInput && r->Err_0->InvalidInput_0@
            == "username may not start with '-': "@ + username@,
        r is Ok && username@.len() > 0 ==> username@[0] != '-',
{
}

// ---------------------------------------------------------------------
// Grants
// ---------------------------------------------------------------------

/// The sudoers file is three lines of remarks and one rule, which gives the
/// user everything without a password.
pub proof fn law_sudoers_file(user: Seq<char>, id: Seq<char>, until: Timestamp)
    requires
        !user.contains('\n'),
        !id.contains('\n'),
        !rfc3339_text(until.secs as int, until.nanos as int).contains('\n'),
        id.len() > 0 ==> id.last() != '\r',
        rfc3339_text(until.secs as int, until.nanos as int).len() > 0,
        rfc3339_text(until.secs as int, until.nanos as int).last() != '\r',
    ensures
        lines_of(sudoers_text(user, id, until)) == seq![
            "# sn360 JIT admin grant"@,
            "# grant_id: "@ + id,
            "# until:    "@ + rfc3339_text(until.secs as int, until.nanos as int),
            user + " ALL=(ALL) NOPASSWD:ALL"@,
        ],
{
    let t = rfc3339_text(until.secs as int, until.nanos as int);
    reveal_strlit("# sn360 JIT admin grant\n# grant_id: ");
    reveal_strlit("# sn360 JIT admin grant");
    reveal_strlit("# grant_id: ");
    reveal_strlit("\n# until:    ");
    reveal_strlit("# until:    ");
    reveal_strlit("\n");
    reveal_strlit(" ALL=(ALL) NOPASSWD:ALL\n");
    reveal_strlit(" ALL=(ALL) NOPASSWD:ALL");
    let nl = seq!['\n'];
    let l1 = "# sn360 JIT admin grant"@;
    let l2 = "# grant_id: "@ + id;
    let l3 = "# until:    "@ + t;
    let l4 = user + " ALL=(ALL) NOPASSWD:ALL"@;
    let none: Seq<char> = Seq::empty();
    let r4 = l4 + nl + none;
    let r3 = l3 + nl + r4;
    let r2 = l2 + nl + r3;
    let r1 = l1 + nl + r2;
    assert(sudoers_text(user, id, until) =~= r1);
    assert(!l1.contains('\n'));
    lemma_no_break("# grant_id: "@, id);
    lemma_no_break("# until:    "@, t);
    lemma_no_break(user, " ALL=(ALL) NOPASSWD:ALL"@);
    law_lines_come_apart(l4, none);
    law_lines_come_apart(l3, r4);
    law_lines_come_apart(l2, r3);
    law_lines_come_apart(l1, r2);
    assert(lines_of(none) =~= Seq::empty());
    assert(lines_of(r1) =~= seq![l1, l2, l3, l4]);
}

proof fn lemma_no_break(a: Seq<char>, b: Seq<char>)
    requires
        !a.contains('\n'),
        !b.contains('\n'),
    ensures
        !(a + b).contains('\n'),
{
    let s = a + b;
    if s.contains('\n') {
        let i = choose|i: int| 0 <= i < s.len() && s[i] == '\n';
        if i < a.len() {
            assert(a[i] == '\n');
        } else {
            assert(b[i - a.len()] == '\n');
        }
    }
}

/// The file that is written is the one that is restricted, checked and put in
/// force; it may be read by root and its group and written by nobody, and it
/// comes to stand where the revocation will remove it.
pub proof fn law_one_file_from_the_grant_to_its_revocation(
    m: LinuxAdminManager,
    written: GrantRun,
    restricted: GrantRun,
    checked: GrantRun,
    installed: GrantRun,
    revocation: ChangeRun,
)
    requires
        written.at() is WriteCandidate,
        restricted.at() is RestrictCandidate,
        checked.at() is ValidateCandidate,
        installed.at() is Install,
        written.dir() == m.sudoers(),
        restricted.dir() == m.sudoers(),
        checked.dir() == m.sudoers(),
        installed.dir() == m.sudoers(),
        restricted.granting() == written.granting(),
        checked.granting() == written.granting(),
        installed.granting() == written.granting(),
        call_ensures(LinuxAdminManager::revoke_admin, (&m, &written.granting()), revocation),
    ensures
        written.step() matches Some(StepView::WriteFile { path, body }) && {
            &&& body == sudoers_text(
                written.granting().user.username@,
                written.granting().id@,
                written.granting().until,
            )
            &&& restricted.step() == Some(StepView::Restrict { path, mode: 288 })
            &&& checked.step() matches Some(StepView::Run(c))
            &&& c.program == "visudo"@
            &&& c.args == seq!["-c"@, "-f"@, path]
            &&& installed.step() matches Some(StepView::Rename { from, to })
            &&& from == path
            &&& path == to + ".tmp"@
            &&& revocation.first_step() == StepView::RemoveIfThere(to)
            &&& revocation.changing() == LedgerChange::Drop(written.granting())
        },
{
    let user = written.granting().user.username@;
    lemma_below(m.sudoers(), "sda-jit-"@ + user, ".tmp"@);
}

proof fn lemma_below(dir: Seq<char>, name: Seq<char>, end: Seq<char>)
    ensures
        below(dir, name + end) == below(dir, name) + end,
{
    assert(dir + (name + end) =~= dir + name + end);
    assert(dir + "/"@ + (name + end) =~= dir + "/"@ + name + end);
}

/// A file below a directory is the directory, one slash and the name.
pub proof fn law_below(dir: Seq<char>, name: Seq<char>)
    requires
        dir.len() > 0,
        dir.last() != '/',
    ensures
        below(dir, name) == dir + seq!['/'] + name,
        below(dir + seq!['/'], name) == dir + seq!['/'] + name,
        below(Seq::empty(), name) == name,
{
    reveal_strlit("/");
    assert("/"@ =~= seq!['/']);
}

/// The sudoers files of different users never meet.
pub proof fn law_users_have_files_of_their_own(dir: Seq<char>, a: Seq<char>, b: Seq<char>)
    requires
        below(dir, "sda-jit-"@ + a) == below(dir, "sda-jit-"@ + b),
    ensures
        a == b,
{
    let s = below(dir, "sda-jit-"@ + a);
    let n = s.len() - a.len();
    assert(s.skip(n as int) =~= a);
    assert(below(dir, "sda-jit-"@ + b).skip(n as int) =~= b);
}

/// Where every step succeeds, a grant goes through all of them in order.
pub proof fn law_steps_of_a_grant(n: nat)
    ensures
        grant_after(Seq::new(0, |i: int| true)) == GrantPhase::Prepare,
        grant_after(Seq::new(1, |i: int| true)) == GrantPhase::WriteCandidate,
        grant_after(Seq::new(2, |i: int| true)) == GrantPhase::RestrictCandidate,
        grant_after(Seq::new(3, |i: int| true)) == GrantPhase::ValidateCandidate,
        grant_after(Seq::new(4, |i: int| true)) == GrantPhase::Install,
        grant_after(Seq::new(5, |i: int| true)) == GrantPhase::LoadLedger,
        grant_after(Seq::new(6, |i: int| true)) == GrantPhase::StoreLedger,
        n >= 7 ==> grant_after(Seq::new(n, |i: int| true)) == GrantPhase::Granted,
    decreases n,
{
    let f = |i: int| true;
    assert(Seq::new(1, f).drop_last() =~= Seq::new(0, f));
    assert(Seq::new(2, f).drop_last() =~= Seq::new(1, f));
    assert(Seq::new(3, f).drop_last() =~= Seq::new(2, f));
    assert(Seq::new(4, f).drop_last() =~= Seq::new(3, f));
    assert(Seq::new(5, f).drop_last() =~= Seq::new(4, f));
    assert(Seq::new(6, f).drop_last() =~= Seq::new(5, f));
    assert(Seq::new(7, f).drop_last() =~= Seq::new(6, f));
    if n > 7 {
        law_steps_of_a_grant((n - 1) as nat);
        assert(Seq::new(n, f).drop_last() =~= Seq::new((n - 1) as nat, f));
    }
}

/// A grant in which anything failed is never granted.
pub proof fn law_no_grant_after_a_failure(outcomes: Seq<bool>, k: int)
    requires
        0 <= k < 7,
        k < outcomes.len(),
        !outcomes[k],
    ensures
        grant_after(outcomes) != GrantPhase::Granted,
{
    lemma_granted(outcomes);
}

spec fn rank(p: GrantPhase) -> int {
    match p {
        GrantPhase::Prepare => 0,
        GrantPhase::WriteCandidate => 1,
        GrantPhase::RestrictCandidate => 2,
        GrantPhase::ValidateCandidate => 3,
        GrantPhase::Install => 4,
        GrantPhase::LoadLedger => 5,
        GrantPhase::StoreLedger => 6,
        GrantPhase::Granted => 7,
        _ => -1,
    }
}

proof fn lemma_granted(o: Seq<bool>)
    ensures
        rank(grant_after(o)) >= 0 ==> {
            &&& rank(grant_after(o)) <= o.len()
            &&& rank(grant_after(o)) < 7 ==> rank(grant_after(o)) == o.len()
            &&& forall|k: int| 0 <= k < rank(grant_after(o)) ==> #[trigger] o[k]
        },
    decreases o.len(),
{
    if o.len() > 0 {
        lemma_granted(o.drop_last());
        assert forall|k: int|
            0 <= k < rank(grant_after(o)) && rank(grant_after(o)) >= 0 implies #[trigger] o[k] by {
            if k < o.len() - 1 {
                assert(o.drop_last()[k] == o[k]);
            }
        }
    }
}

/// A change to the ledger is made once the host has been changed, and a
/// change that failed anywhere is not finished.
pub proof fn law_steps_of_a_change(a: bool, b: bool, c: bool)
    ensures
        ChangePhase::First.after(a).after(b).after(c) == ChangePhase::Finished <==> a && b && c,
        !a ==> ChangePhase::First.after(a).after(b) == ChangePhase::Refused,
        ChangePhase::First.after(true) == ChangePhase::LoadLedger,
        ChangePhase::LoadLedger.after(true) == ChangePhase::StoreLedger,
{
}

/// A step of a grant that went well leads on, and one that went wrong is the
/// grant's fault: what the ledger is to hold is settled where it is read.
pub proof fn law_reports_to_a_grant(run: &mut GrantRun, reply: AdminReply)
    requires
        old(run).wf(),
        old(run).step() is Some,
        crate::admin_run::answers(old(run).step()->0, reply),
        call_ensures(GrantRun::report, (run, reply), ()),
    ensures
        final(run).granting() == old(run).granting() && final(run).dir() == old(run).dir(),
        final(run).at() == old(run).at().after(went_well(reply)),
        went_well(reply) && old(run).fault() is None ==> final(run).fault() is None,
        !went_well(reply) ==> final(run).fault() is Some,
        reply is Failed && old(run).fault() is None ==> final(run).fault() == Some(reply->Failed_0),
        reply is Ran && reply->Ran_0.status != 0 && old(run).fault() is None ==> {
            let e = final(run).fault()->0;
            &&& e is Command
            &&& e->Command_0@ == "visudo rejected drop-in for "@ + old(run).granting().user.username@
                + ": "@ + trimmed(lossy_utf8(reply->Ran_0.stderr@))
        },
        old(run).at() is LoadLedger && reply is Ledger && reply->Ledger_0 is State
            ==> final(run).entries() == changed(
            reply->Ledger_0->State_0.grants@,
            LedgerChange::Record(old(run).granting()),
        ),
        old(run).at() is LoadLedger && reply is Ledger && reply->Ledger_0 is Missing
            ==> final(run).entries() == seq![old(run).granting()],
        !(old(run).at() is LoadLedger) ==> final(run).entries() == old(run).entries(),
{
    let none: Seq<GrantHandle> = Seq::empty();
    let f = crate::admin_manager::of_another(old(run).granting().user.username@);
    reveal(Seq::filter);
    assert(none.filter(f) =~= none);
    assert(none.push(old(run).granting()) =~= seq![old(run).granting()]);
}

/// The same of a change: the ledger is to hold what the change makes of what
/// it held.
pub proof fn law_reports_to_a_change(run: &mut ChangeRun, reply: AdminReply)
    requires
        old(run).wf(),
        old(run).step() is Some,
        crate::admin_run::answers(old(run).step()->0, reply),
        call_ensures(ChangeRun::report, (run, reply), ()),
    ensures
        final(run).changing() == old(run).changing(),
        final(run).at() == old(run).at().after(went_well(reply)),
        final(run).fault() is None <==> went_well(reply),
        reply is Failed ==> final(run).fault() == Some(reply->Failed_0),
        reply is Ran && reply->Ran_0.status != 0 ==> final(run).fault()->0 is Command
            && final(run).fault()->0->Command_0@ == old(run).label() + " exited with status "@
            + signed_numeral(reply->Ran_0.status as int) + " stderr="@ + trimmed(
            lossy_utf8(reply->Ran_0.stderr@),
        ),
        old(run).at() is LoadLedger && reply is Ledger && reply->Ledger_0 is State
            ==> final(run).entries() == changed(
            reply->Ledger_0->State_0.grants@,
            old(run).changing(),
        ),
        !(old(run).at() is LoadLedger) ==> final(run).entries() == old(run).entries(),
{
}

/// A grant is made only where the ledger holds it, and a refused one gives
/// the fault that was met.
pub proof fn law_outcomes_of_grants(run: GrantRun, r: Option<Result<GrantHandle, AdminError>>, s: Option<AdminStep>)
    requires
        run.wf(),
        call_ensures(GrantRun::outcome, (&run,), r),
        call_ensures(GrantRun::next, (&run,), s),
    ensures
        r is Some <==> run.at() is Granted || run.at() is Refused,
        r matches Some(Ok(h)) ==> run.at() is Granted && h == run.granting(),
        r matches Some(Err(e)) ==> run.at() is Refused && run.fault() == Some(e),
        s is None <==> r is Some,
        run.at() is StoreLedger ==> s is Some && s->0@ == StepView::WriteLedger(run.entries()),
        run.at() is LoadLedger ==> s is Some && s->0@ is ReadLedger,
        run.at() is Prepare ==> s is Some && s->0@ == StepView::MakeDir(run.dir()),
        run.at() is DiscardCandidate ==> s is Some && s->0@ == StepView::Remove(
            below(run.dir(), "sda-jit-"@ + run.granting().user.username@ + ".tmp"@),
        ),
{
}

/// The same of a change: it is over where the ledger was written, or where a
/// step failed.
pub proof fn law_outcomes_of_changes(
    run: ChangeRun,
    r: Option<Result<(), AdminError>>,
    g: Option<GrantHandle>,
    s: Option<AdminStep>,
)
    requires
        run.wf(),
        call_ensures(ChangeRun::outcome, (&run,), r),
        call_ensures(ChangeRun::granted, (&run,), g),
        call_ensures(ChangeRun::next, (&run,), s),
    ensures
        r is Some <==> run.at() is Finished || run.at() is Refused,
        r is Some && run.at() is Finished ==> r->0 is Ok,
        r is Some && run.at() is Refused ==> r->0 is Err && run.fault() == Some(r->0->Err_0),
        g is Some <==> run.at() is Finished && run.changing() is Record,
        g is Some ==> run.changing() == LedgerChange::Record(g->0),
        s is None <==> r is Some,
        run.at() is First ==> s is Some && s->0@ == run.first_step(),
        run.at() is LoadLedger ==> s is Some && s->0@ is ReadLedger,
        run.at() is StoreLedger ==> s is Some && s->0@ == StepView::WriteLedger(run.entries()),
{
}

/// A grant begins only for an accepted name, and grants what was asked.
pub proof fn law_grants_begin(
    l: LinuxAdminManager,
    m: MacAdminManager,
    w: WindowsAdminManager,
    user: UserRef,
    until: Timestamp,
    id: String,
    a: Result<GrantRun, AdminError>,
    b: Result<ChangeRun, AdminError>,
    c: Result<ChangeRun, AdminError>,
    mg: CommandLine,
    wg: CommandLine,
)
    requires
        until.valid(),
        call_ensures(LinuxAdminManager::grant_admin, (&l, &user, until, id), a),
        call_ensures(MacAdminManager::grant_admin, (&m, &user, until, id), b),
        call_ensures(WindowsAdminManager::grant_admin, (&w, &user, until, id), c),
        call_ensures(MacAdminManager::grant_command, (&m, &user), mg),
        call_ensures(WindowsAdminManager::grant_command, (&w, &user), wg),
    ensures
        a is Ok <==> username_fault(user.username@) is None,
        b is Ok <==> username_fault(user.username@) is None,
        c is Ok <==> username_fault(user.username@) is None,
        a is Ok ==> a->Ok_0.granting() == (GrantHandle { id, user, until }) && a->Ok_0.dir() == l.sudoers()
            && a->Ok_0.at() is Prepare,
        b is Ok ==> b->Ok_0.first_step() == StepView::Run(mg@) && b->Ok_0.changing()
            == LedgerChange::Record(GrantHandle { id, user, until }),
        c is Ok ==> c->Ok_0.first_step() == StepView::Run(wg@) && c->Ok_0.changing()
            == LedgerChange::Record(GrantHandle { id, user, until }),
{
}

/// A revocation undoes the rights first and then takes the grant off the
/// record.
pub proof fn law_revocations_begin(
    m: MacAdminManager,
    w: WindowsAdminManager,
    h: GrantHandle,
    b: ChangeRun,
    c: ChangeRun,
    mr: CommandLine,
    wr: CommandLine,
)
    requires
        call_ensures(MacAdminManager::revoke_admin, (&m, &h), b),
        call_ensures(WindowsAdminManager::revoke_admin, (&w, &h), c),
        call_ensures(MacAdminManager::revoke_command, (&m, &h), mr),
        call_ensures(WindowsAdminManager::revoke_command, (&w, &h), wr),
    ensures
        b.at() is First && b.first_step() == StepView::Run(mr@) && b.changing() == LedgerChange::Drop(h),
        c.at() is First && c.first_step() == StepView::Run(wr@) && c.changing() == LedgerChange::Drop(h),
        b.label() == "dseditgroup remove"@ && c.label() == "net localgroup delete"@,
{
}

/// Where the managers keep their files.
pub proof fn law_files_of_the_managers(
    l: LinuxAdminManager,
    m: MacAdminManager,
    w: WindowsAdminManager,
    user: &str,
    dir: &str,
    d: String,
    c: String,
    v: CommandLine,
)
    requires
        call_ensures(LinuxAdminManager::new, (), l),
        call_ensures(MacAdminManager::new, (), m),
        call_ensures(WindowsAdminManager::new, (), w),
        call_ensures(drop_in_path, (dir, user), d),
        call_ensures(candidate_path, (dir, user), c),
        call_ensures(visudo_command, (dir,), v),
    ensures
        l.ledger() == "/var/lib/sn360/jit-admin-grants.json"@,
        l.sudoers() == "/etc/sudoers.d"@,
        m.ledger() == "/Library/Application Support/sn360/jit-admin-grants.json"@,
        w.ledger() == "C:\\ProgramData\\sn360\\jit-admin-grants.json"@,
        c@ == d@ + ".tmp"@,
        d@ == below(dir@, "sda-jit-"@ + user@),
        v@.program == "visudo"@ && v@.args == seq!["-c"@, "-f"@, dir@],
{
    lemma_below(dir@, "sda-jit-"@ + user@, ".tmp"@);
}

/// The members of some groups are those that a line of the group file gives
/// them, each with its group.
pub proof fn law_members_of_groups(
    etc_group: &str,
    groups: &[&str],
    r: Vec<(String, String)>,
    k: int,
    i: int,
    group: Seq<char>,
    name: Seq<char>,
)
    requires
        call_ensures(LinuxAdminManager::parse_group_members, (etc_group, groups), r),
    ensures
        0 <= i < groups@.len() && groups@[i]@ == group && member_by_line(etc_group@, k, group, name)
            ==> exists|j: int|
            0 <= j < r@.len() && (#[trigger] r@[j]).0@ == name && r@[j].1@ == group,
        0 <= i < r@.len() ==> (exists|n: int| #[trigger]
            member_by_line(etc_group@, n, r@[i].1@, r@[i].0@)) && exists|g: int|
            0 <= g < groups@.len() && (#[trigger] groups@[g])@ == r@[i].1@,
{
    let gs = crate::text::strs(groups@);
    let v = crate::admin_manager::pair_views(r@);
    assert(v.len() == r@.len() && gs.len() == groups@.len());
    if 0 <= i < groups@.len() && groups@[i]@ == group && member_by_line(etc_group@, k, group, name) {
        assert(gs[i] == group);
        assert(gs.contains(group));
        lemma_member_found(etc_group@, gs, k, group, name);
        let j = choose|j: int| 0 <= j < v.len() && v[j] == (name, group);
        assert(r@[j].0@ == name && r@[j].1@ == group);
    }
    if 0 <= i < r@.len() {
        assert(v[i] == (r@[i].0@, r@[i].1@));
        assert(v.contains(v[i]));
        lemma_member_reason(etc_group@, gs, v[i]);
        let g = choose|g: int| 0 <= g < gs.len() && gs[g] == r@[i].1@;
        assert(groups@[g]@ == r@[i].1@);
    }
}

/// The ledger after a record or a removal, entry by entry.
pub proof fn law_ledger_changes(
    grants: Vec<GrantHandle>,
    handle: GrantHandle,
    recorded: Vec<GrantHandle>,
    dropped: Vec<GrantHandle>,
    h: GrantHandle,
)
    requires
        call_ensures(record_grant, (&grants, &handle), recorded),
        call_ensures(drop_grant, (&grants, &handle), dropped),
    ensures
        recorded@.last() == handle,
        recorded@.contains(h) <==> h == handle || (grants@.contains(h) && h.user.username@
            != handle.user.username@),
        dropped@.contains(h) <==> grants@.contains(h) && h.id@ != handle.id@,
        recorded@ == changed(grants@, LedgerChange::Record(handle)),
        dropped@ == changed(grants@, LedgerChange::Drop(handle)),
{
    crate::admin_manager::law_one_grant_per_user(grants@, handle);
    crate::admin_manager::law_revocation(grants@, handle.id@);
    if recorded@.contains(h) && h.user.username@ == handle.user.username@ {
        let i = choose|i: int| 0 <= i < recorded@.len() && recorded@[i] == h;
        assert(i == recorded@.len() - 1);
    }
}

/// A ledger that is missing or empty holds no grants, one that holds a state
/// holds its grants, and a ledger that cannot be read is an error and never
/// an empty ledger.
pub proof fn law_unreadable_ledgers_are_errors(
    file: LedgerFile,
    r: Result<Vec<GrantHandle>, AdminError>,
)
    requires
        call_ensures(read_grants, (file,), r),
    ensures
        r is Err <==> file is Unreadable || file is Corrupt,
        r is Ok ==> (if file is State {
            r->Ok_0@ == file->State_0.grants@
        } else {
            r->Ok_0@.len() == 0
        }),
        file is Unreadable ==> r->Err_0 is Io,
        file is Corrupt ==> r->Err_0 is StateCorrupt,
        went_well(AdminReply::Ledger(file)) <==> r is Ok,
{
}

/// A program succeeds with status zero alone, and its failure tells the
/// status and what it complained of.
pub proof fn law_failed_programs(o: CommandOutput, label: &str, r: Result<CommandOutput, AdminError>)
    requires
        call_ensures(CommandOutput::require_success, (o, label), r),
    ensures
        r is Ok <==> o.status == 0,
        r is Ok ==> r->Ok_0 == o,
        r is Err ==> r->Err_0 is Command && r->Err_0->Command_0@ == label@ + " exited with status "@
            + signed_numeral(o.status as int) + " stderr="@ + trimmed(lossy_utf8(o.stderr@)),
        went_well(AdminReply::Ran(o)) <==> o.status == 0,
{
}

/// Grants that are made at different times have different identifiers.
pub proof fn law_identifiers_of_grants(m: u128, n: u128, s: &str, t: &str, a: String, b: String)
    requires
        call_ensures(new_grant_id, (m, s), a),
        call_ensures(new_grant_id, (n, t), b),
        a@ == b@,
    ensures
        m == n,
        "sda-jit-"@ + numeral(m as nat, 16) + "-"@ == a@.take(
            ("sda-jit-"@.len() + numeral(m as nat, 16).len() + 1) as int,
        ),
{
    reveal_strlit("-");
    assert("-"@ =~= seq!['-']);
    let h = "sda-jit-"@;
    lemma_stamp(a@, m as nat);
    lemma_stamp(b@, n as nat);
    let x = a@.skip(h.len() as int);
    assert(crate::text::cut(x, '-') == crate::text::cut(b@.skip(h.len() as int), '-'));
    law_written_numbers_are_read(m as nat, 16, m as nat + n as nat);
    law_written_numbers_are_read(n as nat, 16, m as nat + n as nat);
    assert(a@.take((h.len() + numeral(m as nat, 16).len() + 1) as int) =~= h + numeral(m as nat, 16)
        + "-"@);
}

proof fn lemma_stamp(s: Seq<char>, n: nat)
    requires
        exists|rest: Seq<char>| s == #[trigger] ("sda-jit-"@ + numeral(n, 16) + "-"@ + rest),
    ensures
        crate::text::cut(s.skip("sda-jit-"@.len() as int), '-') is Some,
        crate::text::cut(s.skip("sda-jit-"@.len() as int), '-')->0 .0 == numeral(n, 16),
{
    reveal_strlit("-");
    assert("-"@ =~= seq!['-']);
    let rest = choose|rest: Seq<char>| s == #[trigger] ("sda-jit-"@ + numeral(n, 16) + "-"@ + rest);
    let d = numeral(n, 16);
    law_written_numbers_are_read(n, 16, n);
    if d.contains('-') {
        let i = choose|i: int| 0 <= i < d.len() && d[i] == '-';
        law_only_digits_are_read(d, 16, n, i);
    }
    assert(s.skip("sda-jit-"@.len() as int) =~= d + seq!['-'] + rest);
    crate::laws::text::law_cut_undoes_joining(d, '-', rest);
}

/// A character that no name may hold is told together with the name, and so
/// is a second backslash.
pub proof fn law_characters_that_are_refused(u: Seq<char>, i: int)
    requires
        0 < u.len(),
        crate::text::utf8_len(u) <= 256,
        u[0] != '-',
        0 <= i < u.len(),
        !crate::admin_manager::name_char(u[i]),
        forall|k: int| 0 <= k < i ==> crate::admin_manager::name_char(#[trigger] u[k]),
    ensures
        u[i] != '\\' ==> username_fault(u) == Some(
            "username has disallowed character "@ + crate::text::quoted_char(u[i]) + ": "@ + u,
        ),
        u[i] == '\\' && (exists|j: int|
            i < j < u.len() && #[trigger] u[j] == '\\' && forall|k: int|
                i < k < j ==> crate::admin_manager::name_char(#[trigger] u[k])) ==> username_fault(u) == Some(
            "username has multiple backslashes: "@ + u,
        ),
{
    lemma_good_chars(u, 0, i, false);
    if u[i] == '\\' && (exists|j: int|
        i < j < u.len() && #[trigger] u[j] == '\\' && forall|k: int|
            i < k < j ==> crate::admin_manager::name_char(#[trigger] u[k])) {
        let j = choose|j: int|
            i < j < u.len() && #[trigger] u[j] == '\\' && forall|k: int|
                i < k < j ==> crate::admin_manager::name_char(#[trigger] u[k]);
        lemma_good_chars(u, i + 1, j, true);
    }
}

proof fn lemma_good_chars(u: Seq<char>, from: int, i: int, seen: bool)
    requires
        0 <= from <= i < u.len(),
        forall|k: int| from <= k < i ==> crate::admin_manager::name_char(#[trigger] u[k]),
    ensures
        bad_char_from(u, from, seen) == bad_char_from(
            u,
            i,
            seen,
        ),
    decreases i - from,
{
    if from < i {
        lemma_good_chars(u, from + 1, i, seen);
    }
}

/// With a blank before its colon the line of members is read alike.
pub proof fn law_members_behind_a_blank(line: Seq<char>)
    requires
        "GroupMembership :"@.is_prefix_of(trimmed(line)),
    ensures
        membership_line(line) == Some(
            words_of(trimmed(line).skip("GroupMembership :"@.len() as int)),
        ),
{
    reveal_strlit("GroupMembership:");
    reveal_strlit("GroupMembership :");
    let t = trimmed(line);
    let a = "GroupMembership :"@;
    let b = "GroupMembership:"@;
    assert(t.subrange(0, a.len() as int)[15] == t[15]);
    assert(a[15] == ' ' && b[15] == ':');
    if b.is_prefix_of(t) {
        assert(t.subrange(0, b.len() as int)[15] == t[15]);
    }
}

/// The listings of macOS and Windows that failed are errors that name the
/// program.
pub proof fn law_failed_listings(
    o: CommandOutput,
    a: Result<Vec<AdminAccount>, AdminError>,
    b: Result<Vec<AdminAccount>, AdminError>,
)
    requires
        call_ensures(MacAdminManager::list_admins, (o,), a),
        call_ensures(WindowsAdminManager::list_admins, (o,), b),
        o.status != 0,
    ensures
        a is Err && a->Err_0 is Command && a->Err_0->Command_0@ == "dscl"@ + " exited with status "@
            + signed_numeral(o.status as int) + " stderr="@ + trimmed(lossy_utf8(o.stderr@)),
        b is Err && b->Err_0 is Command && b->Err_0->Command_0@ == "net localgroup"@
            + " exited with status "@ + signed_numeral(o.status as int) + " stderr="@ + trimmed(
            lossy_utf8(o.stderr@),
        ),
{
}

/// The listing of Windows that went well is read.
pub proof fn law_accounts_of_windows(o: CommandOutput, r: Result<Vec<AdminAccount>, AdminError>, p: Vec<AdminAccount>, out: &str)
    requires
        call_ensures(WindowsAdminManager::list_admins, (o,), r),
        call_ensures(WindowsAdminManager::parse_net_localgroup, (out,), p),
        out@ == lossy_utf8(o.stdout@),
        o.status == 0,
    ensures
        r is Ok,
        account_views(r->Ok_0@) == account_views(p@),
        account_views(p@) == localgroup_from(lines_of(out@), 0, false),
{
}

/// Every name of letters, digits, dots, dashes and underscores that does not
/// begin with a dash is accepted, and so is one backslash among them.
pub proof fn law_ordinary_names_are_accepted(username: &str, r: Result<(), AdminError>, k: int)
    requires
        call_ensures(crate::admin_manager::validate_username, (username,), r),
        0 < username@.len(),
        crate::text::utf8_len(username@) <= 256,
        username@[0] != '-',
        forall|i: int|
            0 <= i < username@.len() && i != k ==> ({
                let c = #[trigger] username@[i] as u32;
                48 <= c <= 57 || 65 <= c <= 90 || 97 <= c <= 122 || c == 46 || c == 45 || c == 95
            }),
        0 <= k < username@.len() ==> username@[k] == '\\',
    ensures
        r is Ok,
{
    let u = username@;
    if 0 <= k < u.len() {
        assert forall|i: int| 0 <= i < u.len() && i != k implies crate::admin_manager::name_char(
            #[trigger] u[i],
        ) by {
            lemma_name_char(u[i]);
        }
        lemma_good_chars(u, 0, k, false);
        assert(!crate::admin_manager::name_char('\\'));
        assert(bad_char_from(u, k, false) == bad_char_from(u, k + 1, true));
        if k + 1 < u.len() {
            lemma_good_chars(u, k + 1, u.len() - 1, true);
            assert(bad_char_from(u, u.len() - 1, true) == bad_char_from(u, u.len() as int, true));
        }
        assert(bad_char_from(u, u.len() as int, true) is None);
    } else {
        assert forall|i: int| 0 <= i < u.len() implies crate::admin_manager::name_char(
            #[trigger] u[i],
        ) by {
            lemma_name_char(u[i]);
        }
        lemma_good_chars(u, 0, u.len() - 1, false);
        assert(bad_char_from(u, u.len() - 1, false) == bad_char_from(u, u.len() as int, false));
        assert(bad_char_from(u, u.len() as int, false) is None);
    }
}

proof fn lemma_name_char(c: char)
    requires
        ({
            let u = c as u32;
            48 <= u <= 57 || 65 <= u <= 90 || 97 <= u <= 122 || u == 46 || u == 45 || u == 95
        }),
    ensures
        crate::admin_manager::name_char(c),
{
}

/// A program that was to run may leave its output or not have run at all,
/// the ledger answers with its file, and any other step is done or failed.
pub proof fn law_replies_to_steps(c: CommandView, step: StepView, reply: AdminReply)
    ensures
        answers(StepView::Run(c), reply) <==> reply is Ran || reply is Failed,
        answers(StepView::ReadLedger, reply) <==> reply is Ledger,
        !(step is Run) && !(step is ReadLedger) ==> (answers(step, reply) <==> reply is Done
            || reply is Failed),
{
}

/// What was done went well, and what failed did not.
pub proof fn law_what_went_well(reason: AdminReply)
    ensures
        went_well(AdminReply::Done),
        reason is Failed ==> !went_well(reason),
        reason is Ran ==> (went_well(reason) <==> reason->Ran_0.status == 0),
{
}

/// The identifier of a grant is made of the time and of a hash of the time
/// and the thread, in hexadecimal.
pub proof fn law_text_of_identifiers(n: u128, thread: &str, r: String)
    requires
        call_ensures(new_grant_id, (n, thread), r),
    ensures
        r@ == "sda-jit-"@ + numeral(n as nat, 16) + "-"@ + numeral(
            DefaultHasher::spec_finish(
                seq![octets(n as int, 16) + vstd::utf8::encode_utf8(thread@)],
            ) as nat,
            16,
        ),
{
}

} // verus!
