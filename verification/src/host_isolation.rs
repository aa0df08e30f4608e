//! Host isolation: the networks that stay reachable, and the firewall
//! commands that cut off all others.

use crate::command::{command, CommandLine, CommandView};
use crate::net::IpAddr;
use crate::text::{chars_of, lossy_text, lossy_utf8, numeral};
use vstd::prelude::*;
use vstd::string::*;

verus! {

/// What can go wrong in host isolation.
#[derive(Debug, PartialEq, Eq)]
pub enum HostIsolationError {
    Io(String),
    Command(String),
    Unsupported(String),
    SafetyViolation(String),
}

impl HostIsolationError {
    /// The text that describes the error.
    pub open spec fn text(self) -> Seq<char> {
        match self {
            HostIsolationError::Io(e) => "host isolation IO error: "@ + e@,
            HostIsolationError::Command(e) => "host isolation command failed: "@ + e@,
            HostIsolationError::Unsupported(e) => "host isolation unsupported: "@ + e@,
            HostIsolationError::SafetyViolation(e) =>
                "host isolation safety invariant violated: "@ + e@,
        }
    }

    /// Describes the error.
    pub fn message(&self) -> (r: String)
        ensures
            r@ == self.text(),
    {
        match self {
            HostIsolationError::Io(e) => "host isolation IO error: ".to_owned().concat(e.as_str()),
            HostIsolationError::Command(e) => "host isolation command failed: ".to_owned().concat(
                e.as_str(),
            ),
            HostIsolationError::Unsupported(e) => "host isolation unsupported: ".to_owned().concat(
                e.as_str(),
            ),
            HostIsolationError::SafetyViolation(e) =>
                "host isolation safety invariant violated: ".to_owned().concat(e.as_str()),
        }
    }
}

// ---------------------------------------------------------------------
// Networks
// ---------------------------------------------------------------------

/// A network: an address and the length of its prefix.
#[derive(Debug, Clone, Copy, PartialEq, Eq, Structural)]
pub struct IpNet {
    pub addr: IpAddr,
    pub prefix_len: u8,
}

impl IpNet {
    /// The prefix is no longer than the address.
    pub open spec fn valid(self) -> bool {
        self.prefix_len <= if self.addr is V6 {
            128int
        } else {
            32int
        }
    }

    /// The network as text.
    pub open spec fn text(self) -> Seq<char> {
        self.addr.text() + "/"@ + numeral(self.prefix_len as nat, 10)
    }

    /// A network, if the prefix is no longer than the address.
    pub fn new(addr: IpAddr, prefix_len: u8) -> (r: Option<IpNet>)
        ensures
            match r {
                Some(n) => n == (IpNet { addr, prefix_len }) && n.valid(),
                None => !(IpNet { addr, prefix_len }).valid(),
            },
    {
        let limit: u8 = if addr.is_ipv6() {
            128
        } else {
            32
        };
        if prefix_len <= limit {
            Some(IpNet { addr, prefix_len })
        } else {
            None
        }
    }

    /// The network as text.
    pub fn to_text(&self) -> (r: String)
        requires
            self.valid(),
        ensures
            r@ == self.text(),
    {
        cidr_display(self)
    }
}

/// `ipnet::IpNet` as `Display` writes it: the address, a slash and the
/// length of the prefix in decimal. `IpNet::new_assert` panics on a prefix
/// that is too long, which is left out.
#[verifier::external_body]
fn cidr_display(net: &IpNet) -> (r: String)
    requires
        net.valid(),
    ensures
        r@ == net.text(),
{
    ipnet::IpNet::new_assert(
        match net.addr {
            IpAddr::V4(a, b, c, d) => [a, b, c, d].into(),
            IpAddr::V6(a, b, c, d, e, f, g, h) => [a, b, c, d, e, f, g, h].into(),
        },
        net.prefix_len,
    ).to_string()
}

/// All networks of a list are valid.
pub open spec fn all_valid(v: Seq<IpNet>) -> bool {
    forall|i: int| 0 <= i < v.len() ==> (#[trigger] v[i]).valid()
}

/// `127.0.0.0/8`.
pub open spec fn loopback_v4() -> IpNet {
    IpNet { addr: IpAddr::V4(127, 0, 0, 0), prefix_len: 8 }
}

/// `::1/128`.
pub open spec fn loopback_v6() -> IpNet {
    IpNet { addr: IpAddr::V6(0, 0, 0, 0, 0, 0, 0, 1), prefix_len: 128 }
}

/// The networks of the host itself, which are never cut off.
pub fn loopback_cidrs() -> (r: Vec<IpNet>)
    ensures
        r@ == seq![loopback_v4(), loopback_v6()],
        all_valid(r@),
{
    let v4 = IpNet { addr: IpAddr::V4(127, 0, 0, 0), prefix_len: 8 };
    let v6 = IpNet { addr: IpAddr::V6(0, 0, 0, 0, 0, 0, 0, 1), prefix_len: 128 };
    let r = vec![v4, v6];
    assert(r@ =~= seq![loopback_v4(), loopback_v6()]);
    r
}

// ---------------------------------------------------------------------
// Order
// ---------------------------------------------------------------------

/// Whether text `a` comes before text `b` or is the same.
pub open spec fn precedes(a: Seq<char>, b: Seq<char>) -> bool
    decreases a.len(),
{
    if a.len() == 0 {
        true
    } else if b.len() == 0 {
        false
    } else if a[0] != b[0] {
        (a[0] as int) < (b[0] as int)
    } else {
        precedes(a.skip(1), b.skip(1))
    }
}

/// Of two texts one precedes the other.
pub proof fn lemma_precedes_total(a: Seq<char>, b: Seq<char>)
    ensures
        precedes(a, b) || precedes(b, a),
    decreases a.len(),
{
    if a.len() > 0 && b.len() > 0 && a[0] == b[0] {
        lemma_precedes_total(a.skip(1), b.skip(1));
    }
}

/// What precedes a text that precedes a third also precedes that one.
pub proof fn lemma_precedes_chain(a: Seq<char>, b: Seq<char>, c: Seq<char>)
    requires
        precedes(a, b),
        precedes(b, c),
    ensures
        precedes(a, c),
    decreases a.len(),
{
    if a.len() > 0 && b.len() > 0 && c.len() > 0 && a[0] == b[0] && b[0] == c[0] {
        lemma_precedes_chain(a.skip(1), b.skip(1), c.skip(1));
    }
}

fn text_precedes(a: &str, b: &str) -> (r: bool)
    ensures
        r == precedes(a@, b@),
{
    let va = chars_of(a);
    let vb = chars_of(b);
    let mut i: usize = 0;
    assert(a@.skip(0) =~= a@ && b@.skip(0) =~= b@);
    while i < va.len() && i < vb.len()
        invariant
            va@ == a@,
            vb@ == b@,
            i <= va@.len(),
            i <= vb@.len(),
            precedes(a@, b@) == precedes(a@.skip(i as int), b@.skip(i as int)),
        decreases va@.len() - i,
    {
        let x = va[i];
        let y = vb[i];
        assert(a@.skip(i as int)[0] == x && b@.skip(i as int)[0] == y);
        if x != y {
            return x < y;
        }
        assert(a@.skip(i as int).skip(1) =~= a@.skip(i + 1));
        assert(b@.skip(i as int).skip(1) =~= b@.skip(i + 1));
        i += 1;
    }
    assert(a@.skip(i as int).len() == a@.len() - i);
    i == va.len()
}

/// Whether network `a` stands before network `b` or at the same place: IPv4
/// before IPv6, and then by their texts.
pub open spec fn net_precedes(a: IpNet, b: IpNet) -> bool {
    if a.addr is V6 != b.addr is V6 {
        b.addr is V6
    } else {
        precedes(a.text(), b.text())
    }
}

fn stands_before(a: &IpNet, b: &IpNet) -> (r: bool)
    requires
        a.valid(),
        b.valid(),
    ensures
        r == net_precedes(*a, *b),
{
    if a.addr.is_ipv6() != b.addr.is_ipv6() {
        b.addr.is_ipv6()
    } else {
        text_precedes(a.to_text().as_str(), b.to_text().as_str())
    }
}

/// Each network stands before those that follow it.
pub open spec fn in_order(v: Seq<IpNet>) -> bool {
    forall|i: int, j: int| 0 <= i < j < v.len() ==> net_precedes(#[trigger] v[i], #[trigger] v[j])
}

/// `out` is the normal form of `allow`: the same networks and those of the
/// host itself, each once, in order.
pub open spec fn normal_form(allow: Seq<IpNet>, out: Seq<IpNet>) -> bool {
    &&& in_order(out)
    &&& out.no_duplicates()
    &&& forall|n: IpNet| #[trigger]
        out.contains(n) <==> allow.contains(n) || n == loopback_v4() || n == loopback_v6()
}

/// Networks are ordered: one of two stands before the other, and order
/// carries over.
pub proof fn lemma_net_precedes(a: IpNet, b: IpNet, c: IpNet)
    ensures
        net_precedes(a, b) || net_precedes(b, a),
        net_precedes(a, b) && net_precedes(b, c) ==> net_precedes(a, c),
{
    lemma_precedes_total(a.text(), b.text());
    if precedes(a.text(), b.text()) && precedes(b.text(), c.text()) {
        lemma_precedes_chain(a.text(), b.text(), c.text());
    }
}

/// Where a network belongs in an ordered list, from index `from` on: behind
/// those that stand before it.
pub open spec fn place(v: Seq<IpNet>, net: IpNet, from: int) -> int
    decreases v.len() - from,
{
    if from >= v.len() {
        v.len() as int
    } else if net_precedes(v[from], net) {
        place(v, net, from + 1)
    } else {
        from
    }
}

/// An ordered list with one more network, unless that is there.
pub open spec fn placed(v: Seq<IpNet>, net: IpNet) -> Seq<IpNet> {
    if v.contains(net) {
        v
    } else {
        v.insert(place(v, net, 0), net)
    }
}

/// The first `n` networks of a list, each put in its place.
pub open spec fn placed_first(allow: Seq<IpNet>, n: int) -> Seq<IpNet>
    decreases n,
{
    if n <= 0 {
        Seq::empty()
    } else {
        placed(placed_first(allow, n - 1), allow[n - 1])
    }
}

/// A list with the networks of the host itself, each network in its place.
pub open spec fn normalized(allow: Seq<IpNet>) -> Seq<IpNet> {
    placed(placed(placed_first(allow, allow.len() as int), loopback_v4()), loopback_v6())
}

proof fn lemma_place(v: Seq<IpNet>, net: IpNet, from: int)
    requires
        0 <= from <= v.len(),
    ensures
        from <= place(v, net, from) <= v.len(),
        forall|k: int| from <= k < place(v, net, from) ==> net_precedes(#[trigger] v[k], net),
        place(v, net, from) < v.len() ==> !net_precedes(v[place(v, net, from)], net),
    decreases v.len() - from,
{
    if from < v.len() && net_precedes(v[from], net) {
        lemma_place(v, net, from + 1);
    }
}

/// Putting a network in its place keeps the order and lets no network stand
/// twice.
proof fn lemma_placed(before: Seq<IpNet>, net: IpNet)
    requires
        in_order(before),
        before.no_duplicates(),
    ensures
        in_order(placed(before, net)),
        placed(before, net).no_duplicates(),
        forall|n: IpNet| #[trigger]
            placed(before, net).contains(n) <==> before.contains(n) || n == net,
{
    if !before.contains(net) {
        let at = place(before, net, 0);
        let v = placed(before, net);
        lemma_place(before, net, 0);
        assert forall|i: int, j: int| 0 <= i < j < v.len() implies net_precedes(
            #[trigger] v[i],
            #[trigger] v[j],
        ) by {
            if i == at {
                let x = before[j - 1];
                lemma_net_precedes(net, before[at], x);
                if j - 1 > at {
                    assert(net_precedes(before[at], x));
                }
            } else if i < at && j > at {
                assert(v[j] == before[j - 1]);
            } else if i > at {
                assert(v[i] == before[i - 1] && v[j] == before[j - 1]);
            }
        }
        assert forall|n: IpNet| #[trigger] v.contains(n) <==> before.contains(n) || n == net by {
            if before.contains(n) {
                let k = choose|k: int| 0 <= k < before.len() && before[k] == n;
                if k < at {
                    assert(v[k] == n);
                } else {
                    assert(v[k + 1] == n);
                }
            }
            if n == net {
                assert(v[at] == n);
            }
            if v.contains(n) && n != net {
                let k = choose|k: int| 0 <= k < v.len() && v[k] == n;
                if k < at {
                    assert(before[k] == n);
                } else {
                    assert(before[k - 1] == n);
                }
            }
        }
        assert forall|i: int, j: int| 0 <= i < v.len() && 0 <= j < v.len() && i != j implies v[i]
            != v[j] by {
            let bi = if i < at { i } else { i - 1 };
            let bj = if j < at { j } else { j - 1 };
            if i == at {
                assert(v[j] == before[bj]);
            } else if j == at {
                assert(v[i] == before[bi]);
            } else {
                assert(v[i] == before[bi] && v[j] == before[bj]);
            }
        }
    }
}

proof fn lemma_placed_first(allow: Seq<IpNet>, n: int)
    requires
        0 <= n <= allow.len(),
    ensures
        in_order(placed_first(allow, n)),
        placed_first(allow, n).no_duplicates(),
        forall|x: IpNet| #[trigger]
            placed_first(allow, n).contains(x) <==> allow.take(n).contains(x),
    decreases n,
{
    if n > 0 {
        lemma_placed_first(allow, n - 1);
        let before = placed_first(allow, n - 1);
        lemma_placed(before, allow[n - 1]);
        let longer = allow.take(n);
        let shorter = allow.take(n - 1);
        assert forall|x: IpNet| #[trigger]
            placed_first(allow, n).contains(x) <==> longer.contains(x) by {
            assert(before.contains(x) <==> shorter.contains(x));
            if shorter.contains(x) {
                let k = choose|k: int| 0 <= k < shorter.len() && shorter[k] == x;
                assert(longer[k] == x);
            }
            if x == allow[n - 1] {
                assert(longer[n - 1] == x);
            }
            if longer.contains(x) {
                let k = choose|k: int| 0 <= k < longer.len() && longer[k] == x;
                if k < n - 1 {
                    assert(shorter[k] == x);
                }
            }
        }
    }
}

/// Normalising brings every list into its normal form.
pub proof fn law_normalized_is_normal(allow: Seq<IpNet>)
    ensures
        normal_form(allow, normalized(allow)),
{
    let n = allow.len() as int;
    lemma_placed_first(allow, n);
    assert(allow.take(n) =~= allow);
    lemma_placed(placed_first(allow, n), loopback_v4());
    lemma_placed(placed(placed_first(allow, n), loopback_v4()), loopback_v6());
}

/// Puts a network into an ordered list, unless it is there.
fn insert_net(v: &mut Vec<IpNet>, net: IpNet)
    requires
        all_valid(old(v)@),
        net.valid(),
    ensures
        all_valid(final(v)@),
        final(v)@ == placed(old(v)@, net),
{
    let mut i: usize = 0;
    while i < v.len()
        invariant
            i <= v@.len(),
            v@ == old(v)@,
            all_valid(v@),
            forall|k: int| 0 <= k < i ==> v@[k] != net,
        decreases v@.len() - i,
    {
        if v[i] == net {
            assert(v@.contains(net));
            return ;
        }
        i += 1;
    }
    assert(!v@.contains(net));
    let mut at: usize = 0;
    while at < v.len() && stands_before(&v[at], &net)
        invariant
            at <= v@.len(),
            v@ == old(v)@,
            all_valid(v@),
            net.valid(),
            place(v@, net, 0) == place(v@, net, at as int),
        decreases v@.len() - at,
    {
        at += 1;
    }
    v.insert(at, net);
}

/// Brings a list of networks into its normal form.
pub fn normalize_allow_ips(allow_ips: &Vec<IpNet>) -> (r: Vec<IpNet>)
    requires
        all_valid(allow_ips@),
    ensures
        all_valid(r@),
        r@ == normalized(allow_ips@),
        normal_form(allow_ips@, r@),
{
    let mut out: Vec<IpNet> = Vec::new();
    let mut i: usize = 0;
    while i < allow_ips.len()
        invariant
            i <= allow_ips@.len(),
            all_valid(allow_ips@),
            all_valid(out@),
            out@ == placed_first(allow_ips@, i as int),
        decreases allow_ips@.len() - i,
    {
        insert_net(&mut out, allow_ips[i]);
        i += 1;
    }
    let lb = loopback_cidrs();
    insert_net(&mut out, lb[0]);
    insert_net(&mut out, lb[1]);
    proof {
        law_normalized_is_normal(allow_ips@);
    }
    out
}

/// Whatever the caller allows, the host itself stays reachable.
pub proof fn law_loopback_is_always_allowed(allow: Seq<IpNet>, out: Seq<IpNet>)
    requires
        normal_form(allow, out),
    ensures
        out.contains(loopback_v4()),
        out.contains(loopback_v6()),
{
}

/// Nothing but what the caller allows, and the host itself, is reachable.
pub proof fn law_nothing_else_is_allowed(allow: Seq<IpNet>, out: Seq<IpNet>, n: IpNet)
    requires
        normal_form(allow, out),
        !allow.contains(n),
        n != loopback_v4(),
        n != loopback_v6(),
    ensures
        !out.contains(n),
{
}

/// A normal form is its own normal form.
pub proof fn law_normal_form_is_stable(allow: Seq<IpNet>, out: Seq<IpNet>)
    requires
        normal_form(allow, out),
    ensures
        normal_form(out, out),
{
    assert(out.contains(loopback_v4()));
    assert(out.contains(loopback_v6()));
}

// ---------------------------------------------------------------------
// State
// ---------------------------------------------------------------------

/// What was last applied.
#[derive(Debug)]
pub struct IsolationState {
    pub isolated: bool,
    pub allow_ips: Vec<IpNet>,
}

impl Default for IsolationState {
    fn default() -> (r: Self)
        ensures
            !r.isolated,
            r.allow_ips@ == Seq::<IpNet>::empty(),
    {
        IsolationState { isolated: false, allow_ips: Vec::new() }
    }
}

impl IsolationState {
    /// Records that the host is cut off from all but `allow`.
    pub fn set_isolated(&mut self, allow: Vec<IpNet>)
        ensures
            final(self).isolated,
            final(self).allow_ips == allow,
    {
        self.isolated = true;
        self.allow_ips = allow;
    }

    /// Records that the host is not cut off.
    pub fn set_open(&mut self)
        ensures
            !final(self).isolated,
            final(self).allow_ips@ == Seq::<IpNet>::empty(),
    {
        self.isolated = false;
        self.allow_ips = Vec::new();
    }
}

fn same_nets(a: &Vec<IpNet>, b: &Vec<IpNet>) -> (r: bool)
    ensures
        r == (a@ == b@),
{
    if a.len() != b.len() {
        return false;
    }
    let mut i: usize = 0;
    while i < a.len()
        invariant
            i <= a@.len(),
            a@.len() == b@.len(),
            forall|k: int| 0 <= k < i ==> a@[k] == b@[k],
        decreases a@.len() - i,
    {
        if a[i] != b[i] {
            assert(a@[i as int] != b@[i as int]);
            return false;
        }
        i += 1;
    }
    assert(a@ =~= b@);
    true
}

// ---------------------------------------------------------------------
// Linux
// ---------------------------------------------------------------------

/// Number of commands that prepare the table. That the table or its chains
/// are there already makes them fail, which does no harm.
pub const PREPARING: usize = 3;

/// The commands that prepare the table, which drops all traffic.
pub open spec fn preparing(nft: Seq<char>) -> Seq<CommandView> {
    seq![
        command(nft, seq!["add"@, "table"@, "inet"@, "sn360_isolation"@]),
        command(
            nft,
            seq![
                "add"@,
                "chain"@,
                "inet"@,
                "sn360_isolation"@,
                "input"@,
                "{ type filter hook input priority 0 ; policy drop ; }"@,
            ],
        ),
        command(
            nft,
            seq![
                "add"@,
                "chain"@,
                "inet"@,
                "sn360_isolation"@,
                "output"@,
                "{ type filter hook output priority 0 ; policy drop ; }"@,
            ],
        ),
    ]
}

/// The command that leaves no rule in the table that accepts any traffic.
pub open spec fn flush_command(nft: Seq<char>) -> CommandView {
    command(nft, seq!["flush"@, "table"@, "inet"@, "sn360_isolation"@])
}

/// The rule that accepts traffic to or from a network.
pub open spec fn rule_command(nft: Seq<char>, net: IpNet, outward: bool) -> CommandView {
    command(
        nft,
        seq![
            "add"@,
            "rule"@,
            "inet"@,
            "sn360_isolation"@,
            if outward {
                "output"@
            } else {
                "input"@
            },
            if net.addr is V6 {
                "ip6"@
            } else {
                "ip"@
            },
            if outward {
                "daddr"@
            } else {
                "saddr"@
            },
            net.text(),
            "accept"@,
        ],
    )
}

/// The command that takes the table away.
pub open spec fn delete_command(nft: Seq<char>) -> CommandView {
    command(nft, seq!["delete"@, "table"@, "inet"@, "sn360_isolation"@])
}

/// How far the way to isolation has come.
#[derive(Debug, Clone, Copy, PartialEq, Eq, Structural)]
pub enum IsolatePhase {
    /// The preparing command with this index is to be run.
    Prepare(usize),
    /// Rules that are left from before are to be taken away.
    Flush,
    /// The network with this index is to be accepted outward.
    Outward(usize),
    /// The network with this index is to be accepted inward.
    Inward(usize),
    /// A change of the rules was refused: the table is to be taken away.
    RollBack,
    /// All rules stand, and no others.
    Applied,
    /// A change was refused, and the table was taken away.
    RolledBack,
    /// A change was refused, and so was taking the table away.
    Stranded,
}

/// The command to run in a phase.
pub open spec fn isolate_command(nft: Seq<char>, allow: Seq<IpNet>, phase: IsolatePhase) -> Option<
    CommandView,
> {
    match phase {
        IsolatePhase::Prepare(i) => Some(preparing(nft)[i as int]),
        IsolatePhase::Flush => Some(flush_command(nft)),
        IsolatePhase::Outward(k) => Some(rule_command(nft, allow[k as int], true)),
        IsolatePhase::Inward(k) => Some(rule_command(nft, allow[k as int], false)),
        IsolatePhase::RollBack => Some(delete_command(nft)),
        _ => None,
    }
}

/// The phase after a command was run. The table is prepared, whatever comes
/// of those commands; then it is flushed and each network is accepted outward
/// and inward, and the first refusal turns back.
pub open spec fn phase_after(phase: IsolatePhase, nets: nat, ok: bool) -> IsolatePhase {
    match phase {
        IsolatePhase::Prepare(i) => if i + 1 < PREPARING {
            IsolatePhase::Prepare((i + 1) as usize)
        } else {
            IsolatePhase::Flush
        },
        IsolatePhase::Flush => if !ok {
            IsolatePhase::RollBack
        } else if nets == 0 {
            IsolatePhase::Applied
        } else {
            IsolatePhase::Outward(0)
        },
        IsolatePhase::Outward(k) => if ok {
            IsolatePhase::Inward(k)
        } else {
            IsolatePhase::RollBack
        },
        IsolatePhase::Inward(k) => if !ok {
            IsolatePhase::RollBack
        } else if k + 1 < nets {
            IsolatePhase::Outward((k + 1) as usize)
        } else {
            IsolatePhase::Applied
        },
        IsolatePhase::RollBack => if ok {
            IsolatePhase::RolledBack
        } else {
            IsolatePhase::Stranded
        },
        other => other,
    }
}

/// A way to isolation that is being gone.
#[derive(Debug)]
pub struct IsolateRun {
    allow: Vec<IpNet>,
    phase: IsolatePhase,
    refusal: Option<HostIsolationError>,
}

impl IsolateRun {
    /// The networks that stay reachable.
    pub closed spec fn nets(&self) -> Seq<IpNet> {
        self.allow@
    }

    /// How far it has come.
    pub closed spec fn at(&self) -> IsolatePhase {
        self.phase
    }

    /// Why a change was refused.
    pub closed spec fn refused(&self) -> Option<HostIsolationError> {
        self.refusal
    }

    /// The networks are valid, the next command exists, and a change was
    /// refused exactly where the table is to go, has gone or would not go.
    pub closed spec fn wf(&self) -> bool {
        &&& all_valid(self.allow@)
        &&& match self.phase {
            IsolatePhase::Prepare(i) => i < PREPARING && self.refusal is None,
            IsolatePhase::Flush => self.refusal is None,
            IsolatePhase::Outward(k) => k < self.allow@.len() && self.refusal is None,
            IsolatePhase::Inward(k) => k < self.allow@.len() && self.refusal is None,
            IsolatePhase::Applied => self.refusal is None,
            _ => self.refusal is Some,
        }
    }

    fn start(allow: Vec<IpNet>) -> (r: IsolateRun)
        requires
            all_valid(allow@),
        ensures
            r.wf(),
            r.nets() == allow@,
            r.at() == IsolatePhase::Prepare(0),
            r.refused() is None,
    {
        IsolateRun { allow, phase: IsolatePhase::Prepare(0), refusal: None }
    }

    /// The command to run next, while there is one.
    pub fn next(&self, nft: &str) -> (r: Option<CommandLine>)
        requires
            self.wf(),
        ensures
            match r {
                Some(c) => isolate_command(nft@, self.nets(), self.at()) == Some(c@),
                None => isolate_command(nft@, self.nets(), self.at()) is None,
            },
    {
        match self.phase {
            IsolatePhase::Prepare(i) => {
                let c = CommandLine::new(nft);
                if i == 0 {
                    let c = c.arg("add").arg("table").arg("inet").arg("sn360_isolation");
                    assert(c@ =~~= preparing(nft@)[0]);
                    Some(c)
                } else if i == 1 {
                    let c = c.arg("add").arg("chain").arg("inet").arg("sn360_isolation").arg(
                        "input",
                    ).arg("{ type filter hook input priority 0 ; policy drop ; }");
                    assert(c@ =~~= preparing(nft@)[1]);
                    Some(c)
                } else {
                    let c = c.arg("add").arg("chain").arg("inet").arg("sn360_isolation").arg(
                        "output",
                    ).arg("{ type filter hook output priority 0 ; policy drop ; }");
                    assert(c@ =~~= preparing(nft@)[2]);
                    Some(c)
                }
            },
            IsolatePhase::Flush => {
                let c = CommandLine::new(nft).arg("flush").arg("table").arg("inet").arg(
                    "sn360_isolation",
                );
                assert(c@ =~~= flush_command(nft@));
                Some(c)
            },
            IsolatePhase::Outward(k) => Some(rule_line(nft, &self.allow[k], true)),
            IsolatePhase::Inward(k) => Some(rule_line(nft, &self.allow[k], false)),
            IsolatePhase::RollBack => Some(delete_line(nft)),
            _ => None,
        }
    }

    /// Takes the outcome of that command.
    pub fn report(&mut self, outcome: Result<(), HostIsolationError>)
        requires
            old(self).wf(),
        ensures
            final(self).wf(),
            final(self).nets() == old(self).nets(),
            final(self).at() == phase_after(old(self).at(), old(self).nets().len(), outcome is Ok),
            final(self).refused() == if old(self).at() !is RollBack && final(self).at() is RollBack {
                Some(outcome->Err_0)
            } else {
                old(self).refused()
            },
    {
        match self.phase {
            IsolatePhase::Prepare(i) => {
                if i + 1 < PREPARING {
                    self.phase = IsolatePhase::Prepare(i + 1);
                } else {
                    self.phase = IsolatePhase::Flush;
                }
            },
            IsolatePhase::Flush => match outcome {
                Ok(_) => {
                    if self.allow.len() == 0 {
                        self.phase = IsolatePhase::Applied;
                    } else {
                        self.phase = IsolatePhase::Outward(0);
                    }
                },
                Err(e) => {
                    self.phase = IsolatePhase::RollBack;
                    self.refusal = Some(e);
                },
            },
            IsolatePhase::Outward(k) => match outcome {
                Ok(_) => {
                    self.phase = IsolatePhase::Inward(k);
                },
                Err(e) => {
                    self.phase = IsolatePhase::RollBack;
                    self.refusal = Some(e);
                },
            },
            IsolatePhase::Inward(k) => match outcome {
                Ok(_) => {
                    let nets: usize = self.allow.len();
                    if k + 1 < nets {
                        self.phase = IsolatePhase::Outward(k + 1);
                    } else {
                        self.phase = IsolatePhase::Applied;
                    }
                },
                Err(e) => {
                    self.phase = IsolatePhase::RollBack;
                    self.refusal = Some(e);
                },
            },
            IsolatePhase::RollBack => {
                self.phase = if outcome.is_ok() {
                    IsolatePhase::RolledBack
                } else {
                    IsolatePhase::Stranded
                };
            },
            _ => {},
        }
    }
}

fn rule_line(nft: &str, net: &IpNet, outward: bool) -> (r: CommandLine)
    requires
        net.valid(),
    ensures
        r@ == rule_command(nft@, *net, outward),
{
    let chain = if outward {
        "output"
    } else {
        "input"
    };
    let family = if net.addr.is_ipv6() {
        "ip6"
    } else {
        "ip"
    };
    let side = if outward {
        "daddr"
    } else {
        "saddr"
    };
    let cidr = net.to_text();
    let c = CommandLine::new(nft).arg("add").arg("rule").arg("inet").arg("sn360_isolation").arg(
        chain,
    ).arg(family).arg(side).arg(cidr.as_str()).arg("accept");
    assert(c@ =~~= rule_command(nft@, *net, outward));
    c
}

fn delete_line(nft: &str) -> (r: CommandLine)
    ensures
        r@ == delete_command(nft@),
{
    let c = CommandLine::new(nft).arg("delete").arg("table").arg("inet").arg("sn360_isolation");
    assert(c@ =~~= delete_command(nft@));
    c
}

/// What a command of the packet filter returns once its program has ended:
/// one that fails is told by what it complained of.
pub fn nft_outcome(success: bool, stderr: &[u8]) -> (r: Result<(), HostIsolationError>)
    ensures
        r is Ok <==> success,
        r matches Err(e) ==> e is Command && e->Command_0@ == lossy_utf8(stderr@),
{
    if success {
        Ok(())
    } else {
        Err(HostIsolationError::Command(lossy_text(stderr)))
    }
}

/// Isolation by a table of the Linux packet filter.
#[derive(Debug)]
pub struct LinuxHostIsolation {
    state: IsolationState,
    nft_path: String,
}

impl LinuxHostIsolation {
    /// The program that changes the packet filter.
    pub closed spec fn nft(&self) -> Seq<char> {
        self.nft_path@
    }

    /// What was last applied: `None` where the host is not cut off.
    pub closed spec fn applied(&self) -> Option<Seq<IpNet>> {
        if self.state.isolated {
            Some(self.state.allow_ips@)
        } else {
            None
        }
    }

    /// A host that is not cut off allows no list.
    pub closed spec fn wf(&self) -> bool {
        !self.state.isolated ==> self.state.allow_ips@.len() == 0
    }

    pub fn new() -> (r: LinuxHostIsolation)
        ensures
            r.wf(),
            r.nft() == "nft"@,
            r.applied() is None,
    {
        LinuxHostIsolation { state: IsolationState::default(), nft_path: "nft".to_owned() }
    }

    pub fn with_nft_path(nft_path: String) -> (r: LinuxHostIsolation)
        ensures
            r.wf(),
            r.nft() == nft_path@,
            r.applied() is None,
    {
        LinuxHostIsolation { state: IsolationState::default(), nft_path }
    }

    /// The program that changes the packet filter.
    pub fn nft_path(&self) -> (r: &str)
        ensures
            r@ == self.nft(),
    {
        self.nft_path.as_str()
    }

    /// Begins to cut the host off from all but `allow_ips`. Where that is
    /// the case already, and only there, nothing is to be done.
    pub fn isolate(&self, allow_ips: &Vec<IpNet>) -> (r: Option<IsolateRun>)
        requires
            all_valid(allow_ips@),
        ensures
            match r {
                Some(run) => {
                    &&& run.wf()
                    &&& run.nets() == normalized(allow_ips@)
                    &&& normal_form(allow_ips@, run.nets())
                    &&& run.at() == IsolatePhase::Prepare(0)
                    &&& self.applied() != Some(normalized(allow_ips@))
                },
                None => self.applied() == Some(normalized(allow_ips@)),
            },
    {
        let allow = normalize_allow_ips(allow_ips);
        if self.state.isolated && same_nets(&self.state.allow_ips, &allow) {
            return None;
        }
        Some(IsolateRun::start(allow))
    }

    /// Records how the way to isolation ended: cut off where all rules
    /// stand, and else not, so that the next isolation begins anew. Where the
    /// table would not go, the packet filter still tells that it is there.
    pub fn finish_isolate(&mut self, run: IsolateRun) -> (r: Result<(), HostIsolationError>)
        requires
            run.wf(),
            run.at() is Applied || run.at() is RolledBack || run.at() is Stranded,
        ensures
            final(self).wf(),
            final(self).nft() == old(self).nft(),
            match r {
                Ok(_) => run.at() is Applied && final(self).applied() == Some(run.nets()),
                Err(e) => run.at() !is Applied && final(self).applied() is None && run.refused()
                    == Some(e),
            },
    {
        match run.refusal {
            Some(e) => {
                self.state.set_open();
                Err(e)
            },
            None => {
                self.state.set_isolated(run.allow);
                Ok(())
            },
        }
    }

    /// The command that ends isolation. That there is no table makes it
    /// fail, which does no harm.
    pub fn unisolate_command(&self) -> (r: CommandLine)
        ensures
            r@ == delete_command(self.nft()),
    {
        delete_line(self.nft_path.as_str())
    }

    /// Records that isolation has ended.
    pub fn unisolate(&mut self) -> (r: Result<(), HostIsolationError>)
        ensures
            r is Ok,
            final(self).wf(),
            final(self).nft() == old(self).nft(),
            final(self).applied() is None,
    {
        self.state.set_open();
        Ok(())
    }

    /// The command whose success tells that the table is there.
    pub fn list_command(&self) -> (r: CommandLine)
        ensures
            r@ == command(self.nft(), seq!["list"@, "table"@, "inet"@, "sn360_isolation"@]),
    {
        let c = CommandLine::new(self.nft_path.as_str()).arg("list").arg("table").arg("inet").arg(
            "sn360_isolation",
        );
        assert(c@ =~~= command(self.nft(), seq!["list"@, "table"@, "inet"@, "sn360_isolation"@]));
        c
    }

    /// Whether the host is cut off, as the packet filter itself tells:
    /// `listing` tells whether the list command went well, or why it could
    /// not be run.
    pub fn is_isolated(&self, listing: Result<bool, String>) -> (r: Result<bool, HostIsolationError>)
        ensures
            r == (match listing {
                Ok(b) => Ok(b),
                Err(e) => Err(HostIsolationError::Io(e)),
            }),
    {
        match listing {
            Ok(b) => Ok(b),
            Err(e) => Err(HostIsolationError::Io(e)),
        }
    }

    /// The networks that were last allowed.
    pub fn current_allowed_ips(&self) -> (r: Result<Vec<IpNet>, HostIsolationError>)
        requires
            self.wf(),
        ensures
            r is Ok,
            r->Ok_0@ == (match self.applied() {
                Some(v) => v,
                None => Seq::empty(),
            }),
    {
        let v = self.state.allow_ips.clone();
        assert(v@ =~= self.state.allow_ips@);
        Ok(v)
    }
}

impl Default for LinuxHostIsolation {
    fn default() -> (r: Self)
        ensures
            r.wf(),
            r.nft() == "nft"@,
            r.applied() is None,
    {
        LinuxHostIsolation::new()
    }
}

/// A refused change never leaves a part of the rules to be built upon: the
/// next command takes the table away, and after it the way ends. It ends with
/// the table gone exactly where that command went well.
pub proof fn law_refused_changes_are_rolled_back(k: usize, nets: nat, ok: bool)
    ensures
        phase_after(IsolatePhase::Flush, nets, false) is RollBack,
        phase_after(IsolatePhase::Outward(k), nets, false) is RollBack,
        phase_after(IsolatePhase::Inward(k), nets, false) is RollBack,
        phase_after(IsolatePhase::RollBack, nets, ok) is RolledBack <==> ok,
        phase_after(IsolatePhase::RollBack, nets, ok) is Stranded <==> !ok,
{
}

/// The phase after the first `n` of the outcomes.
pub open spec fn phase_after_all(outcomes: Seq<bool>, nets: nat, n: nat) -> IsolatePhase
    decreases n,
{
    if n == 0 {
        IsolatePhase::Prepare(0)
    } else {
        phase_after(
            phase_after_all(outcomes, nets, (n - 1) as nat),
            nets,
            outcomes[n - 1],
        )
    }
}

/// The host counts as cut off only after the table was flushed and every rule
/// was accepted.
pub proof fn law_isolation_needs_every_rule(outcomes: Seq<bool>, nets: nat, n: nat)
    requires
        n <= outcomes.len(),
        nets <= usize::MAX,
        phase_after_all(outcomes, nets, n) is Applied,
    ensures
        PREPARING + 1 + 2 * nets <= n,
        forall|k: int| PREPARING <= k < PREPARING + 1 + 2 * nets ==> #[trigger] outcomes[k],
{
    lemma_phase(outcomes, nets, n);
}

/// The table counts as gone only after a command to take it away went well.
pub proof fn law_table_goes_only_by_its_command(outcomes: Seq<bool>, nets: nat, n: nat)
    requires
        n <= outcomes.len(),
        nets <= usize::MAX,
        phase_after_all(outcomes, nets, n) is RolledBack,
    ensures
        exists|k: nat|
            k < n && outcomes[k as int] && #[trigger] phase_after_all(outcomes, nets, k) is RollBack,
    decreases n,
{
    if n > 0 {
        let last = (n - 1) as nat;
        if phase_after_all(outcomes, nets, last) is RolledBack {
            law_table_goes_only_by_its_command(outcomes, nets, last);
        } else {
            assert(phase_after_all(outcomes, nets, last) is RollBack);
        }
    }
}

/// Every way ends, whatever comes of its commands: with all rules in place,
/// with the table gone, or where the table would not go.
pub proof fn law_every_way_ends(outcomes: Seq<bool>, nets: nat, n: nat)
    requires
        n <= outcomes.len(),
        nets <= usize::MAX,
        PREPARING + 2 + 2 * nets <= n,
    ensures
        phase_after_all(outcomes, nets, n) is Applied || phase_after_all(outcomes, nets, n)
            is RolledBack || phase_after_all(outcomes, nets, n) is Stranded,
{
    lemma_phase(outcomes, nets, n);
}

proof fn lemma_phase(outcomes: Seq<bool>, nets: nat, n: nat)
    requires
        n <= outcomes.len(),
        nets <= usize::MAX,
    ensures
        match phase_after_all(outcomes, nets, n) {
            IsolatePhase::Prepare(i) => i == n && i < PREPARING,
            IsolatePhase::Flush => n == PREPARING,
            IsolatePhase::Outward(k) => n == PREPARING + 1 + 2 * k && k < nets && forall|j: int|
                PREPARING <= j < n ==> #[trigger] outcomes[j],
            IsolatePhase::Inward(k) => n == PREPARING + 2 + 2 * k && k < nets && forall|j: int|
                PREPARING <= j < n ==> #[trigger] outcomes[j],
            IsolatePhase::RollBack => n <= PREPARING + 1 + 2 * nets,
            IsolatePhase::Applied => PREPARING + 1 + 2 * nets <= n && forall|k: int|
                PREPARING <= k < PREPARING + 1 + 2 * nets ==> #[trigger] outcomes[k],
            _ => true,
        },
    decreases n,
{
    if n > 0 {
        lemma_phase(outcomes, nets, (n - 1) as nat);
    }
}

// ---------------------------------------------------------------------
// Other providers
// ---------------------------------------------------------------------

/// Isolation on Windows hosts, which only keeps its state.
#[derive(Debug)]
pub struct WindowsHostIsolation {
    state: IsolationState,
}

impl WindowsHostIsolation {
    /// What was last applied: `None` where the host is not cut off.
    pub closed spec fn applied(&self) -> Option<Seq<IpNet>> {
        if self.state.isolated {
            Some(self.state.allow_ips@)
        } else {
            None
        }
    }

    /// A host that is not cut off allows no list.
    pub closed spec fn wf(&self) -> bool {
        !self.state.isolated ==> self.state.allow_ips@.len() == 0
    }

    pub fn new() -> (r: WindowsHostIsolation)
        ensures
            r.wf(),
            r.applied() is None,
    {
        WindowsHostIsolation { state: IsolationState::default() }
    }

    pub fn isolate(&mut self, allow_ips: &Vec<IpNet>) -> (r: Result<(), HostIsolationError>)
        requires
            all_valid(allow_ips@),
        ensures
            r is Ok,
            final(self).wf(),
            final(self).applied() == Some(normalized(allow_ips@)),
            normal_form(allow_ips@, final(self).applied()->0),
    {
        self.state.set_isolated(normalize_allow_ips(allow_ips));
        Ok(())
    }

    pub fn unisolate(&mut self) -> (r: Result<(), HostIsolationError>)
        ensures
            r is Ok,
            final(self).wf(),
            final(self).applied() is None,
    {
        self.state.set_open();
        Ok(())
    }

    pub fn is_isolated(&self) -> (r: Result<bool, HostIsolationError>)
        ensures
            r == Ok::<bool, HostIsolationError>(self.applied() is Some),
    {
        Ok(self.state.isolated)
    }

    pub fn current_allowed_ips(&self) -> (r: Result<Vec<IpNet>, HostIsolationError>)
        requires
            self.wf(),
        ensures
            r is Ok,
            r->Ok_0@ == (match self.applied() {
                Some(v) => v,
                None => Seq::empty(),
            }),
    {
        let v = self.state.allow_ips.clone();
        assert(v@ =~= self.state.allow_ips@);
        Ok(v)
    }
}

impl Default for WindowsHostIsolation {
    fn default() -> (r: Self)
        ensures
            r.wf(),
            r.applied() is None,
    {
        WindowsHostIsolation::new()
    }
}

/// Isolation on macOS hosts, which only keeps its state.
#[derive(Debug)]
pub struct MacosHostIsolation {
    state: IsolationState,
}

impl MacosHostIsolation {
    /// What was last applied: `None` where the host is not cut off.
    pub closed spec fn applied(&self) -> Option<Seq<IpNet>> {
        if self.state.isolated {
            Some(self.state.allow_ips@)
        } else {
            None
        }
    }

    /// A host that is not cut off allows no list.
    pub closed spec fn wf(&self) -> bool {
        !self.state.isolated ==> self.state.allow_ips@.len() == 0
    }

    pub fn new() -> (r: MacosHostIsolation)
        ensures
            r.wf(),
            r.applied() is None,
    {
        MacosHostIsolation { state: IsolationState::default() }
    }

    pub fn isolate(&mut self, allow_ips: &Vec<IpNet>) -> (r: Result<(), HostIsolationError>)
        requires
            all_valid(allow_ips@),
        ensures
            r is Ok,
            final(self).wf(),
            final(self).applied() == Some(normalized(allow_ips@)),
            normal_form(allow_ips@, final(self).applied()->0),
    {
        self.state.set_isolated(normalize_allow_ips(allow_ips));
        Ok(())
    }

    pub fn unisolate(&mut self) -> (r: Result<(), HostIsolationError>)
        ensures
            r is Ok,
            final(self).wf(),
            final(self).applied() is None,
    {
        self.state.set_open();
        Ok(())
    }

    pub fn is_isolated(&self) -> (r: Result<bool, HostIsolationError>)
        ensures
            r == Ok::<bool, HostIsolationError>(self.applied() is Some),
    {
        Ok(self.state.isolated)
    }

    pub fn current_allowed_ips(&self) -> (r: Result<Vec<IpNet>, HostIsolationError>)
        requires
            self.wf(),
        ensures
            r is Ok,
            r->Ok_0@ == (match self.applied() {
                Some(v) => v,
                None => Seq::empty(),
            }),
    {
        let v = self.state.allow_ips.clone();
        assert(v@ =~= self.state.allow_ips@);
        Ok(v)
    }
}

impl Default for MacosHostIsolation {
    fn default() -> (r: Self)
        ensures
            r.wf(),
            r.applied() is None,
    {
        MacosHostIsolation::new()
    }
}

/// Isolation that touches no firewall, for tests.
#[derive(Debug)]
pub struct MockHostIsolation {
    state: IsolationState,
    isolate_error: Option<HostIsolationError>,
}

impl MockHostIsolation {
    /// What was last applied: `None` where the host is not cut off.
    pub closed spec fn applied(&self) -> Option<Seq<IpNet>> {
        if self.state.isolated {
            Some(self.state.allow_ips@)
        } else {
            None
        }
    }

    /// The error that the next isolation meets.
    pub closed spec fn planned(&self) -> Option<HostIsolationError> {
        self.isolate_error
    }

    /// A host that is not cut off allows no list.
    pub closed spec fn wf(&self) -> bool {
        !self.state.isolated ==> self.state.allow_ips@.len() == 0
    }

    pub fn new() -> (r: MockHostIsolation)
        ensures
            r.wf(),
            r.applied() is None,
            r.planned() is None,
    {
        MockHostIsolation { state: IsolationState::default(), isolate_error: None }
    }

    /// Has the next isolation fail.
    pub fn fail_next_isolate_with(&mut self, e: HostIsolationError)
        ensures
            final(self).applied() == old(self).applied(),
            final(self).wf() == old(self).wf(),
            final(self).planned() == Some(e),
    {
        self.isolate_error = Some(e);
    }

    /// Cuts the host off, unless an error is planned: that comes once and
    /// changes nothing.
    pub fn isolate(&mut self, allow_ips: &Vec<IpNet>) -> (r: Result<(), HostIsolationError>)
        requires
            all_valid(allow_ips@),
            old(self).wf(),
        ensures
            final(self).wf(),
            final(self).planned() is None,
            match r {
                Ok(_) => {
                    &&& old(self).planned() is None
                    &&& final(self).applied() == Some(normalized(allow_ips@))
                    &&& normal_form(allow_ips@, final(self).applied()->0)
                },
                Err(e) => old(self).planned() == Some(e) && final(self).applied() == old(self).applied(),
            },
    {
        let planned = self.isolate_error.take();
        match planned {
            Some(e) => Err(e),
            None => {
                self.state.set_isolated(normalize_allow_ips(allow_ips));
                Ok(())
            },
        }
    }

    pub fn unisolate(&mut self) -> (r: Result<(), HostIsolationError>)
        ensures
            r is Ok,
            final(self).wf(),
            final(self).applied() is None,
            final(self).planned() == old(self).planned(),
    {
        self.state.set_open();
        Ok(())
    }

    pub fn is_isolated(&self) -> (r: Result<bool, HostIsolationError>)
        ensures
            r == Ok::<bool, HostIsolationError>(self.applied() is Some),
    {
        Ok(self.state.isolated)
    }

    pub fn current_allowed_ips(&self) -> (r: Result<Vec<IpNet>, HostIsolationError>)
        requires
            self.wf(),
        ensures
            r is Ok,
            r->Ok_0@ == (match self.applied() {
                Some(v) => v,
                None => Seq::empty(),
            }),
    {
        let v = self.state.allow_ips.clone();
        assert(v@ =~= self.state.allow_ips@);
        Ok(v)
    }
}

impl Default for MockHostIsolation {
    fn default() -> (r: Self)
        ensures
            r.wf(),
            r.applied() is None,
            r.planned() is None,
    {
        MockHostIsolation::new()
    }
}

} // verus!
