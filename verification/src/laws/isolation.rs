//! Isolation: every network of the list gets a rule each way, everything else
//! is dropped, and the host itself is never cut off.

use crate::command::{CommandLine, CommandView};
use crate::host_isolation::{
    flush_command, isolate_command, net_precedes, nft_outcome, normalize_allow_ips, normalized,
    phase_after, phase_after_all, precedes, preparing, rule_command, HostIsolationError, IpNet,
    IsolatePhase, IsolateRun, IsolationState, LinuxHostIsolation, MacosHostIsolation,
    MockHostIsolation, WindowsHostIsolation,
};
use crate::net::IpAddr;
use crate::text::{lossy_utf8, numeral};
use vstd::prelude::*;

verus! {

/// Every rule accepts, whatever the network: the last word of the command is
/// `accept`. Outward it matches the destination in the output chain, inward
/// the source in the input chain, and it names the network, in the family of
/// its address.
pub proof fn law_rules_accept(nft: Seq<char>, net: IpNet, outward: bool)
    ensures
        ({
            let c = rule_command(nft, net, outward);
            &&& c.program == nft
            &&& c.args.len() == 9
            &&& c.args.last() == "accept"@
            &&& c.args[0] == "add"@ && c.args[1] == "rule"@
            &&& c.args[2] == "inet"@ && c.args[3] == "sn360_isolation"@
            &&& c.args[4] == "output"@ <==> outward
            &&& c.args[4] == "input"@ <==> !outward
            &&& c.args[5] == "ip6"@ <==> net.addr is V6
            &&& c.args[5] == "ip"@ <==> net.addr is V4
            &&& c.args[6] == "daddr"@ <==> outward
            &&& c.args[6] == "saddr"@ <==> !outward
            &&& c.args[7] == net.addr.text() + seq!['/'] + numeral(net.prefix_len as nat, 10)
        }),
{
    reveal_strlit("output");
    reveal_strlit("input");
    reveal_strlit("ip6");
    reveal_strlit("ip");
    reveal_strlit("daddr");
    reveal_strlit("saddr");
    reveal_strlit("/");
    assert("/"@ =~= seq!['/']);
    assert("output"@[0] != "input"@[0]);
    assert("daddr"@[0] != "saddr"@[0]);
    assert("ip6"@.len() != "ip"@.len());
    let c = rule_command(nft, net, outward);
    assert(c.args.last() == c.args[8]);
    assert(net.text() =~= net.addr.text() + seq!['/'] + numeral(net.prefix_len as nat, 10));
}

/// The command that a run issues after `n` commands that all went well.
pub open spec fn issued(nft: Seq<char>, nets: Seq<IpNet>, n: nat) -> Option<CommandView> {
    isolate_command(nft, nets, phase_after_all(Seq::new(n, |i: int| true), nets.len(), n))
}

proof fn lemma_phases(nets: nat, n: nat)
    requires
        nets <= usize::MAX,
    ensures
        ({
            let p = phase_after_all(Seq::new(n, |i: int| true), nets, n);
            &&& n == 0 ==> p == IsolatePhase::Prepare(0)
            &&& n == 1 ==> p == IsolatePhase::Prepare(1)
            &&& n == 2 ==> p == IsolatePhase::Prepare(2)
            &&& n == 3 ==> p == IsolatePhase::Flush
            &&& n >= 4 && (n - 4) / 2 < nets && n % 2 == 0 ==> p == IsolatePhase::Outward(
                ((n - 4) / 2) as usize,
            )
            &&& n >= 4 && (n - 4) / 2 < nets && n % 2 == 1 ==> p == IsolatePhase::Inward(
                ((n - 4) / 2) as usize,
            )
            &&& n >= 4 && (n - 4) / 2 >= nets ==> p == IsolatePhase::Applied
        }),
    decreases n,
{
    if n > 0 {
        let m = (n - 1) as nat;
        lemma_phases(nets, m);
        lemma_prefix(Seq::new(n, |i: int| true), Seq::new(m, |i: int| true), nets, m);
    }
}

proof fn lemma_prefix(a: Seq<bool>, b: Seq<bool>, nets: nat, m: nat)
    requires
        forall|i: int| 0 <= i < m ==> #[trigger] a[i] == b[i],
    ensures
        phase_after_all(a, nets, m) == phase_after_all(b, nets, m),
    decreases m,
{
    if m > 0 {
        lemma_prefix(a, b, nets, (m - 1) as nat);
        assert(a[m - 1] == b[m - 1]);
    }
}

/// A run issues exactly one rule outward and one inward for each network of
/// its list, in the list's order, and nothing else after the table has been
/// prepared and flushed.
pub proof fn law_one_rule_each_way_for_each_network(nft: Seq<char>, nets: Seq<IpNet>, k: int)
    requires
        nets.len() <= usize::MAX,
    ensures
        0 <= k < nets.len() ==> {
            &&& issued(nft, nets, (4 + 2 * k) as nat) matches Some(c)
            &&& c.program == nft
            &&& c.args.len() == 9
            &&& c.args[0] == "add"@ && c.args[1] == "rule"@
            &&& c.args[4] == "output"@
            &&& c.args[6] == "daddr"@
            &&& c.args[7] == nets[k].text()
            &&& c.args[8] == "accept"@
        },
        0 <= k < nets.len() ==> {
            &&& issued(nft, nets, (5 + 2 * k) as nat) matches Some(c)
            &&& c.program == nft
            &&& c.args.len() == 9
            &&& c.args[0] == "add"@ && c.args[1] == "rule"@
            &&& c.args[4] == "input"@
            &&& c.args[6] == "saddr"@
            &&& c.args[7] == nets[k].text()
            &&& c.args[8] == "accept"@
        },
        k >= 4 + 2 * nets.len() ==> issued(nft, nets, k as nat) is None,
{
    if 0 <= k < nets.len() {
        lemma_phases(nets.len(), (4 + 2 * k) as nat);
        lemma_phases(nets.len(), (5 + 2 * k) as nat);
    } else if k >= 4 + 2 * nets.len() {
        lemma_phases(nets.len(), k as nat);
    }
}

/// Before any rule stands, the table is there, both of its chains drop what
/// no rule accepts, and what was accepted before is gone.
pub proof fn law_everything_else_is_dropped(nft: Seq<char>, nets: Seq<IpNet>)
    requires
        nets.len() <= usize::MAX,
    ensures
        issued(nft, nets, 0) matches Some(c) && c.program == nft && c.args == seq![
            "add"@,
            "table"@,
            "inet"@,
            "sn360_isolation"@,
        ],
        issued(nft, nets, 1) matches Some(c) && c.program == nft && c.args == seq![
            "add"@,
            "chain"@,
            "inet"@,
            "sn360_isolation"@,
            "input"@,
            "{ type filter hook input priority 0 ; policy drop ; }"@,
        ],
        issued(nft, nets, 2) matches Some(c) && c.program == nft && c.args == seq![
            "add"@,
            "chain"@,
            "inet"@,
            "sn360_isolation"@,
            "output"@,
            "{ type filter hook output priority 0 ; policy drop ; }"@,
        ],
        issued(nft, nets, 3) matches Some(c) && c.program == nft && c.args == seq![
            "flush"@,
            "table"@,
            "inet"@,
            "sn360_isolation"@,
        ],
{
    lemma_phases(nets.len(), 0);
    lemma_phases(nets.len(), 1);
    lemma_phases(nets.len(), 2);
    lemma_phases(nets.len(), 3);
}

/// A preparing command that fails changes nothing of the way: the table may
/// be there already.
pub proof fn law_preparing_may_fail(i: usize, nets: nat, ok: bool)
    requires
        i < 3,
    ensures
        phase_after(IsolatePhase::Prepare(i), nets, ok) == phase_after(
            IsolatePhase::Prepare(i),
            nets,
            !ok,
        ),
{
}

/// What a run says is to be run next is the command of its phase.
pub proof fn law_runs_issue_their_commands(run: IsolateRun, nft: &str, r: Option<CommandLine>, k: usize)
    requires
        run.wf(),
        call_ensures(IsolateRun::next, (&run, nft), r),
        k < run.nets().len(),
    ensures
        run.at() == IsolatePhase::Outward(k) ==> r is Some && r->0@.program == nft@ && r->0@.args
            == seq![
            "add"@,
            "rule"@,
            "inet"@,
            "sn360_isolation"@,
            "output"@,
            if run.nets()[k as int].addr is V6 {
                "ip6"@
            } else {
                "ip"@
            },
            "daddr"@,
            run.nets()[k as int].text(),
            "accept"@,
        ],
        run.at() == IsolatePhase::Inward(k) ==> r is Some && r->0@.program == nft@ && r->0@.args
            == seq![
            "add"@,
            "rule"@,
            "inet"@,
            "sn360_isolation"@,
            "input"@,
            if run.nets()[k as int].addr is V6 {
                "ip6"@
            } else {
                "ip"@
            },
            "saddr"@,
            run.nets()[k as int].text(),
            "accept"@,
        ],
        run.at() is RollBack ==> r is Some && r->0@.program == nft@ && r->0@.args == seq![
            "delete"@,
            "table"@,
            "inet"@,
            "sn360_isolation"@,
        ],
        run.at() is Applied || run.at() is RolledBack || run.at() is Stranded ==> r is None,
{
}

/// Isolation is ended by taking away the very table that it was made of, and
/// that table is the one that is asked for.
pub proof fn law_the_table_that_was_made_is_taken_away(
    iso: LinuxHostIsolation,
    d: CommandLine,
    l: CommandLine,
)
    requires
        call_ensures(LinuxHostIsolation::unisolate_command, (&iso,), d),
        call_ensures(LinuxHostIsolation::list_command, (&iso,), l),
    ensures
        d@.program == iso.nft() && l@.program == iso.nft(),
        d@.args == preparing(iso.nft())[0].args.update(0, "delete"@),
        l@.args == preparing(iso.nft())[0].args.update(0, "list"@),
        flush_command(iso.nft()).args == preparing(iso.nft())[0].args.update(0, "flush"@),
        preparing(iso.nft())[0].args[0] == "add"@,
        preparing(iso.nft())[0].args.last() == "sn360_isolation"@,
{
    let a = preparing(iso.nft())[0].args;
    assert(a =~= seq!["add"@, "table"@, "inet"@, "sn360_isolation"@]);
    assert(d@.args =~= a.update(0, "delete"@));
    assert(l@.args =~= a.update(0, "list"@));
    assert(flush_command(iso.nft()).args =~= a.update(0, "flush"@));
}

/// A command of the packet filter that fails is told by what it complained
/// of.
pub proof fn law_outcomes_of_commands(success: bool, stderr: &[u8], r: Result<(), HostIsolationError>)
    requires
        call_ensures(nft_outcome, (success, stderr), r),
    ensures
        r is Ok <==> success,
        r is Err ==> r->Err_0 is Command && r->Err_0->Command_0@ == lossy_utf8(stderr@),
{
}

// ---------------------------------------------------------------------
// The list
// ---------------------------------------------------------------------

/// Whether a network is that of the host itself: `127.0.0.0/8` or `::1/128`.
pub open spec fn of_the_host(n: IpNet) -> bool {
    ||| n == (IpNet { addr: IpAddr::V4(127, 0, 0, 0), prefix_len: 8 })
    ||| n == (IpNet { addr: IpAddr::V6(0, 0, 0, 0, 0, 0, 0, 1), prefix_len: 128 })
}

/// The list holds what was allowed and the networks of the host itself, each
/// once, and nothing else.
pub proof fn law_the_list_holds_what_was_allowed(allow: Vec<IpNet>, r: Vec<IpNet>, n: IpNet)
    requires
        call_ensures(normalize_allow_ips, (&allow,), r),
    ensures
        r@.contains(n) <==> allow@.contains(n) || of_the_host(n),
        r@.no_duplicates(),
{
}

/// In the list IPv4 stands before IPv6, and within a family the texts of the
/// networks ascend.
pub proof fn law_the_list_is_in_order(allow: Vec<IpNet>, r: Vec<IpNet>, i: int, j: int)
    requires
        call_ensures(normalize_allow_ips, (&allow,), r),
        0 <= i < j < r@.len(),
    ensures
        r@[i].addr is V6 ==> r@[j].addr is V6,
        (r@[i].addr is V6) == (r@[j].addr is V6) ==> precedes(r@[i].text(), r@[j].text()),
{
    assert(net_precedes(r@[i], r@[j]));
}

/// The list does not depend on the order or on repetitions of what was
/// allowed, where the texts of the networks differ.
pub proof fn law_the_order_of_the_request_does_not_matter(a: Seq<IpNet>, b: Seq<IpNet>)
    requires
        forall|n: IpNet| a.contains(n) <==> #[trigger] b.contains(n),
    ensures
        forall|n: IpNet| normalized(a).contains(n) <==> #[trigger] normalized(b).contains(n),
{
    crate::host_isolation::law_normalized_is_normal(a);
    crate::host_isolation::law_normalized_is_normal(b);
    assert forall|n: IpNet| normalized(a).contains(n) <==> #[trigger] normalized(b).contains(n) by {
        assert(a.contains(n) <==> b.contains(n));
        assert(normalized(a).contains(n) <==> a.contains(n) || of_the_host(n));
        assert(normalized(b).contains(n) <==> b.contains(n) || of_the_host(n));
    }
}

/// Texts are ordered by their first difference; a beginning stands first.
pub proof fn law_order_of_texts(p: Seq<char>, c: char, x: Seq<char>, d: char, y: Seq<char>)
    ensures
        c != d ==> (precedes(p + seq![c] + x, p + seq![d] + y) <==> (c as u32) < (d as u32)),
        precedes(p, p + y),
        !precedes(p + seq![c] + x, p),
    decreases p.len(),
{
    let a = p + seq![c] + x;
    let b = p + seq![d] + y;
    if p.len() > 0 {
        let q = p.skip(1);
        law_order_of_texts(q, c, x, d, y);
        assert(a.skip(1) =~= q + seq![c] + x);
        assert(b.skip(1) =~= q + seq![d] + y);
        assert((p + y).skip(1) =~= q + y);
        assert(a[0] == p[0] && b[0] == p[0] && (p + y)[0] == p[0]);
    } else {
        assert(a[0] == c && b[0] == d);
    }
}

/// A prefix is at most as long as the address.
pub proof fn law_lengths_of_prefixes(addr: IpAddr, prefix_len: u8, r: Option<IpNet>)
    requires
        call_ensures(IpNet::new, (addr, prefix_len), r),
    ensures
        r is Some <==> prefix_len <= 32 || (addr is V6 && prefix_len <= 128),
        r is Some ==> r->0.addr == addr && r->0.prefix_len == prefix_len,
{
}

/// A request for what stands already is no work, and any other one is.
pub proof fn law_isolation_begins_where_it_must(
    iso: LinuxHostIsolation,
    allow: Vec<IpNet>,
    r: Option<IsolateRun>,
)
    requires
        call_ensures(LinuxHostIsolation::isolate, (&iso, &allow), r),
    ensures
        r is None <==> iso.applied() == Some(normalized(allow@)),
        r is Some ==> r->0.at() == IsolatePhase::Prepare(0) && r->0.nets() == normalized(allow@),
{
}

/// The packet filter itself says whether the host is cut off; where it cannot
/// be asked that is an error, not an answer.
pub proof fn law_the_packet_filter_is_believed(
    iso: LinuxHostIsolation,
    listing: Result<bool, String>,
    r: Result<bool, HostIsolationError>,
)
    requires
        call_ensures(LinuxHostIsolation::is_isolated, (&iso, listing), r),
    ensures
        listing is Ok <==> r is Ok,
        listing is Ok ==> r->Ok_0 == listing->Ok_0,
        listing is Err ==> r->Err_0 == HostIsolationError::Io(listing->Err_0),
{
}

/// A host that was opened is not cut off and allows no list, whatever it was
/// before.
pub proof fn law_opened_hosts_keep_no_list(s: &mut IsolationState)
    requires
        call_ensures(IsolationState::set_open, (s,), ()),
    ensures
        !final(s).isolated,
        final(s).allow_ips@.len() == 0,
{
}

/// A run that applied all its rules leaves the host cut off from all but its
/// list; any other leaves it open, and gives the refusal that it met.
pub proof fn law_ends_of_runs(
    iso: &mut LinuxHostIsolation,
    run: IsolateRun,
    r: Result<(), HostIsolationError>,
    back: &mut LinuxHostIsolation,
    u: Result<(), HostIsolationError>,
)
    requires
        run.wf(),
        run.at() is Applied || run.at() is RolledBack || run.at() is Stranded,
        call_ensures(LinuxHostIsolation::finish_isolate, (iso, run), r),
        call_ensures(LinuxHostIsolation::unisolate, (back,), u),
    ensures
        r is Ok <==> run.at() is Applied,
        r is Ok ==> final(iso).applied() == Some(run.nets()),
        r is Err ==> final(iso).applied() is None && run.refused() == Some(r->Err_0),
        final(iso).nft() == old(iso).nft(),
        u is Ok && final(back).applied() is None && final(back).nft() == old(back).nft(),
{
}

/// A command that was refused turns the run back, with that refusal; nothing
/// else does.
pub proof fn law_refusals(run: &mut IsolateRun, outcome: Result<(), HostIsolationError>)
    requires
        old(run).wf(),
        call_ensures(IsolateRun::report, (run, outcome), ()),
    ensures
        final(run).nets() == old(run).nets(),
        old(run).at() is Prepare ==> final(run).refused() == old(run).refused(),
        (old(run).at() is Flush || old(run).at() is Outward || old(run).at() is Inward) && outcome is Err
            ==> final(run).at() is RollBack && final(run).refused() == Some(outcome->Err_0),
        (old(run).at() is Flush || old(run).at() is Outward || old(run).at() is Inward) && outcome is Ok
            ==> !(final(run).at() is RollBack) && final(run).refused() == old(run).refused(),
        old(run).at() is RollBack ==> final(run).refused() == old(run).refused() && (if outcome is Ok {
            final(run).at() is RolledBack
        } else {
            final(run).at() is Stranded
        }),
        old(run).at() is Applied ==> final(run).at() is Applied,
{
}

/// The networks that are allowed are those of the list in force, and none
/// where the host is not cut off.
pub proof fn law_allowed_networks(
    iso: LinuxHostIsolation,
    r: Result<Vec<IpNet>, HostIsolationError>,
    fresh: LinuxHostIsolation,
)
    requires
        iso.wf(),
        call_ensures(LinuxHostIsolation::current_allowed_ips, (&iso,), r),
        call_ensures(LinuxHostIsolation::new, (), fresh),
    ensures
        r is Ok,
        iso.applied() matches Some(v) ==> r->Ok_0@ == v,
        iso.applied() is None ==> r->Ok_0@.len() == 0,
        fresh.applied() is None && fresh.nft() == "nft"@,
{
}

/// The providers that only keep their state keep it: cut off from all but the
/// list after an isolation, and open after its end.
pub proof fn law_providers_that_keep_state(
    w: &mut WindowsHostIsolation,
    m: &mut MacosHostIsolation,
    k: &mut MockHostIsolation,
    allow: Vec<IpNet>,
    a: Result<(), HostIsolationError>,
    b: Result<(), HostIsolationError>,
    c: Result<(), HostIsolationError>,
)
    requires
        crate::host_isolation::all_valid(allow@),
        old(k).wf(),
        call_ensures(WindowsHostIsolation::isolate, (w, &allow), a),
        call_ensures(MacosHostIsolation::isolate, (m, &allow), b),
        call_ensures(MockHostIsolation::isolate, (k, &allow), c),
    ensures
        a is Ok && final(w).applied() == Some(normalized(allow@)),
        b is Ok && final(m).applied() == Some(normalized(allow@)),
        c is Err <==> old(k).planned() is Some,
        c is Ok ==> final(k).applied() == Some(normalized(allow@)),
        c is Err ==> final(k).applied() == old(k).applied() && old(k).planned() == Some(c->Err_0),
        final(k).planned() is None,
{
}

/// What such a provider says of itself is what it keeps.
pub proof fn law_what_providers_say(
    w: WindowsHostIsolation,
    m: MacosHostIsolation,
    k: MockHostIsolation,
    a: Result<bool, HostIsolationError>,
    b: Result<bool, HostIsolationError>,
    c: Result<bool, HostIsolationError>,
    nets: Result<Vec<IpNet>, HostIsolationError>,
)
    requires
        w.wf(),
        call_ensures(WindowsHostIsolation::is_isolated, (&w,), a),
        call_ensures(MacosHostIsolation::is_isolated, (&m,), b),
        call_ensures(MockHostIsolation::is_isolated, (&k,), c),
        call_ensures(WindowsHostIsolation::current_allowed_ips, (&w,), nets),
    ensures
        a == Ok::<bool, HostIsolationError>(w.applied() is Some),
        b == Ok::<bool, HostIsolationError>(m.applied() is Some),
        c == Ok::<bool, HostIsolationError>(k.applied() is Some),
        nets is Ok,
        w.applied() matches Some(v) ==> nets->Ok_0@ == v,
        w.applied() is None ==> nets->Ok_0@.len() == 0,
{
}

} // verus!
