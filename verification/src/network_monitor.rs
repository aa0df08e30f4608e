//! Connection telemetry: the kernel's connection tables, the changes between
//! two readings of them, and the events that report those changes.

use crate::clock::Timestamp;
use crate::net::IpAddr;
use crate::text::{
    chars_of, cut, gather, is_text, lemma_gather_step, lines, lines_of, number, parse_number,
    split_once, string_of, texts, words,
    words_of,
};
use crate::stream::EventStream;
use vstd::prelude::*;
use vstd::slice::slice_subrange;
use vstd::string::*;

verus! {

/// What can go wrong in a network monitor.
#[derive(Debug, Clone, PartialEq, Eq)]
pub enum NetworkMonitorError {
    /// A table could not be read.
    Io(String),
    /// The operation is not available on this host.
    Unsupported(String),
    /// The provider has been subscribed to before.
    AlreadySubscribed,
    /// A platform helper failed.
    Command(String),
}

impl NetworkMonitorError {
    /// The text that describes the error.
    pub open spec fn text(self) -> Seq<char> {
        match self {
            NetworkMonitorError::Io(e) => "network monitor IO error: "@ + e@,
            NetworkMonitorError::Unsupported(e) => "network monitor unsupported: "@ + e@,
            NetworkMonitorError::AlreadySubscribed => "network monitor already subscribed"@,
            NetworkMonitorError::Command(e) => "network monitor command failed: "@ + e@,
        }
    }

    /// Describes the error.
    pub fn message(&self) -> (r: String)
        ensures
            r@ == self.text(),
    {
        match self {
            NetworkMonitorError::Io(e) => "network monitor IO error: ".to_owned().concat(e.as_str()),
            NetworkMonitorError::Unsupported(e) => "network monitor unsupported: ".to_owned().concat(
                e.as_str(),
            ),
            NetworkMonitorError::AlreadySubscribed => "network monitor already subscribed".to_owned(),
            NetworkMonitorError::Command(e) => "network monitor command failed: ".to_owned().concat(
                e.as_str(),
            ),
        }
    }
}

/// Transport protocol of a connection.
#[derive(Debug, Clone, Copy, PartialEq, Eq, Hash, Structural)]
pub enum TransportProtocol {
    Tcp,
    Udp,
}

/// Direction of a connection as the local host sees it.
#[derive(Debug, Clone, Copy, PartialEq, Eq, Hash, Structural)]
pub enum ConnectionDirection {
    Inbound,
    Outbound,
}

/// Options of a subscription.
#[derive(Debug, Clone, Copy, PartialEq, Eq, Structural)]
pub struct NetworkMonitorOpts {
    /// Report outbound connections.
    pub outbound: bool,
    /// Report inbound connections.
    pub inbound: bool,
    /// Sample high-rate UDP flows.
    pub sample_high_rate_udp: bool,
    /// Room in the event channel.
    pub channel_buffer: usize,
    /// Time between two readings of the tables, in milliseconds.
    pub poll_interval_ms: u64,
}

impl Default for NetworkMonitorOpts {
    fn default() -> (r: Self)
        ensures
            r == (NetworkMonitorOpts {
                outbound: true,
                inbound: true,
                sample_high_rate_udp: true,
                channel_buffer: 8192,
                poll_interval_ms: 1000,
            }),
    {
        NetworkMonitorOpts {
            outbound: true,
            inbound: true,
            sample_high_rate_udp: true,
            channel_buffer: 8192,
            poll_interval_ms: 1000,
        }
    }
}

impl NetworkMonitorOpts {
    /// Time between two readings, in milliseconds: never below 100.
    pub fn effective_poll_ms(&self) -> (r: u64)
        ensures
            r == if self.poll_interval_ms < 100 {
                100
            } else {
                self.poll_interval_ms
            },
    {
        if self.poll_interval_ms < 100 {
            100
        } else {
            self.poll_interval_ms
        }
    }

    /// Whether connections in direction `dir` are reported.
    pub open spec fn reports(self, dir: ConnectionDirection) -> bool {
        match dir {
            ConnectionDirection::Inbound => self.inbound,
            ConnectionDirection::Outbound => self.outbound,
        }
    }
}

/// Events on their way from a monitor to its subscriber.
pub type NetworkEventStream = EventStream<NetworkEvent>;

/// One network telemetry event.
#[derive(Debug, Clone, PartialEq, Eq)]
pub enum NetworkEvent {
    /// A new connection was seen.
    Connect {
        observed_at: Timestamp,
        direction: ConnectionDirection,
        protocol: TransportProtocol,
        local_addr: IpAddr,
        local_port: u16,
        remote_addr: IpAddr,
        remote_port: u16,
        pid: Option<u32>,
        process_name: Option<String>,
    },
    /// A known connection is gone.
    Disconnect {
        observed_at: Timestamp,
        protocol: TransportProtocol,
        local_addr: IpAddr,
        local_port: u16,
        remote_addr: IpAddr,
        remote_port: u16,
        pid: Option<u32>,
    },
}

impl NetworkEvent {
    /// What identifies the connection that the event is about.
    pub open spec fn key(self) -> ConnKey {
        match self {
            NetworkEvent::Connect {
                protocol,
                local_addr,
                local_port,
                remote_addr,
                remote_port,
                ..
            } => ConnKey { protocol, local_addr, local_port, remote_addr, remote_port },
            NetworkEvent::Disconnect {
                protocol,
                local_addr,
                local_port,
                remote_addr,
                remote_port,
                ..
            } => ConnKey { protocol, local_addr, local_port, remote_addr, remote_port },
        }
    }

    /// When the event was seen.
    pub open spec fn at(self) -> Timestamp {
        match self {
            NetworkEvent::Connect { observed_at, .. } => observed_at,
            NetworkEvent::Disconnect { observed_at, .. } => observed_at,
        }
    }

    /// The local port, whichever kind of event it is.
    pub fn local_port(&self) -> (r: u16)
        ensures
            r == self.key().local_port,
    {
        match self {
            NetworkEvent::Connect { local_port, .. } => *local_port,
            NetworkEvent::Disconnect { local_port, .. } => *local_port,
        }
    }
}

/// One row of a connection table.
#[derive(Debug, PartialEq, Eq)]
pub struct ConnectionSnapshot {
    pub protocol: TransportProtocol,
    pub local_addr: IpAddr,
    pub local_port: u16,
    pub remote_addr: IpAddr,
    pub remote_port: u16,
    pub pid: Option<u32>,
    pub process_name: Option<String>,
    pub state: Option<String>,
}

impl Clone for ConnectionSnapshot {
    fn clone(&self) -> (r: Self)
        ensures
            r == *self,
    {
        ConnectionSnapshot {
            protocol: self.protocol,
            local_addr: self.local_addr,
            local_port: self.local_port,
            remote_addr: self.remote_addr,
            remote_port: self.remote_port,
            pid: self.pid,
            process_name: self.process_name.clone(),
            state: self.state.clone(),
        }
    }
}

/// What tells one connection from another.
#[derive(Debug, Clone, Copy, PartialEq, Eq, Hash, Structural)]
pub struct ConnKey {
    pub protocol: TransportProtocol,
    pub local_addr: IpAddr,
    pub local_port: u16,
    pub remote_addr: IpAddr,
    pub remote_port: u16,
}

impl ConnectionSnapshot {
    /// What identifies the connection of the row.
    pub open spec fn key(self) -> ConnKey {
        ConnKey {
            protocol: self.protocol,
            local_addr: self.local_addr,
            local_port: self.local_port,
            remote_addr: self.remote_addr,
            remote_port: self.remote_port,
        }
    }

    /// A socket in state `0A` (listening) is inbound, any other outbound.
    pub open spec fn direction(self) -> ConnectionDirection {
        match self.state {
            Some(s) => if s@ == "0A"@ {
                ConnectionDirection::Inbound
            } else {
                ConnectionDirection::Outbound
            },
            None => ConnectionDirection::Outbound,
        }
    }
}

/// What identifies the connection of a row.
pub fn key_of(c: &ConnectionSnapshot) -> (r: ConnKey)
    ensures
        r == c.key(),
{
    ConnKey {
        protocol: c.protocol,
        local_addr: c.local_addr,
        local_port: c.local_port,
        remote_addr: c.remote_addr,
        remote_port: c.remote_port,
    }
}

/// Guesses the direction of a connection from its socket state.
pub fn direction_for(snap: &ConnectionSnapshot) -> (r: ConnectionDirection)
    ensures
        r == snap.direction(),
{
    match &snap.state {
        Some(s) => {
            let v = chars_of(s.as_str());
            if is_text(v.as_slice(), "0A") {
                ConnectionDirection::Inbound
            } else {
                ConnectionDirection::Outbound
            }
        },
        None => ConnectionDirection::Outbound,
    }
}

// ---------------------------------------------------------------------
// The kernel's tables
// ---------------------------------------------------------------------

/// Order of the octets of a word in memory.
#[derive(Debug, Clone, Copy, PartialEq, Eq, Structural)]
pub enum ByteOrder {
    Little,
    Big,
}

/// The octets of a 32-bit word in memory order.
pub open spec fn word_octets(w: nat, order: ByteOrder) -> (u8, u8, u8, u8) {
    let a = ((w / 0x100_0000) % 256) as u8;
    let b = ((w / 0x1_0000) % 256) as u8;
    let c = ((w / 0x100) % 256) as u8;
    let d = (w % 256) as u8;
    match order {
        ByteOrder::Big => (a, b, c, d),
        ByteOrder::Little => (d, c, b, a),
    }
}

/// `u32::to_ne_bytes` gives the octets of a word in the machine's own
/// order, which is one of the two.
#[verifier::external_body]
fn native_octets(x: u32) -> (r: [u8; 4])
    ensures
        (r[0], r[1], r[2], r[3]) == word_octets(x as nat, ByteOrder::Little) || (r[0], r[1], r[2], r[3])
            == word_octets(x as nat, ByteOrder::Big),
{
    x.to_ne_bytes()
}

/// Whether `octets` are those of the word 1 in the order.
pub open spec fn shows_order(octets: [u8; 4], order: ByteOrder) -> bool {
    (octets[0], octets[1], octets[2], octets[3]) == word_octets(1, order)
}

/// Whether this machine has shown the order: it lays out the word 1 in it.
pub closed spec fn seen_order(order: ByteOrder) -> bool {
    exists|octets: [u8; 4]| #[trigger]
        call_ensures(native_octets, (1u32,), octets) && shows_order(octets, order)
}

/// The octets of the word 1 show no more than one order.
pub proof fn law_octets_show_one_order(octets: [u8; 4], a: ByteOrder, b: ByteOrder)
    requires
        shows_order(octets, a),
        shows_order(octets, b),
    ensures
        a == b,
{
}

/// The order that the octets of the word 1 show: little where the 1 comes
/// first.
pub fn order_of(octets: [u8; 4]) -> (r: ByteOrder)
    ensures
        r == if octets[0] == 1 {
            ByteOrder::Little
        } else {
            ByteOrder::Big
        },
        forall|order: ByteOrder| shows_order(octets, order) ==> r == order,
{
    if octets[0] == 1 {
        ByteOrder::Little
    } else {
        ByteOrder::Big
    }
}

/// The machine's own byte order, as it lays out the word 1.
fn native_order() -> (r: ByteOrder)
    ensures
        seen_order(r),
{
    let octets = native_octets(1);
    assert(call_ensures(native_octets, (1u32,), octets));
    order_of(octets)
}

fn split_word(w: u64, order: ByteOrder) -> (r: (u8, u8, u8, u8))
    requires
        w <= 0xffff_ffff,
    ensures
        r == word_octets(w as nat, order),
{
    let a: u8 = ((w / 0x100_0000) % 256) as u8;
    let b: u8 = ((w / 0x1_0000) % 256) as u8;
    let c: u8 = ((w / 0x100) % 256) as u8;
    let d: u8 = (w % 256) as u8;
    match order {
        ByteOrder::Big => (a, b, c, d),
        ByteOrder::Little => (d, c, b, a),
    }
}

/// The number in the `k`-th group of eight hexadecimal digits.
pub open spec fn hex_word(s: Seq<char>, k: int) -> Option<nat> {
    number(s.subrange(8 * k, 8 * k + 8), 16, 0xffff_ffff)
}

/// Two octets as a 16-bit segment.
pub open spec fn segment(hi: u8, lo: u8) -> u16 {
    (hi * 256 + lo) as u16
}

/// The address that a table writes as groups of eight hexadecimal digits,
/// each the memory of four octets read as one word.
pub open spec fn table_addr(s: Seq<char>, is_v6: bool, order: ByteOrder) -> Option<IpAddr> {
    if is_v6 {
        if s.len() == 32 && hex_word(s, 0) is Some && hex_word(s, 1) is Some && hex_word(s, 2) is Some
            && hex_word(s, 3) is Some {
            let p = word_octets(hex_word(s, 0)->0, order);
            let q = word_octets(hex_word(s, 1)->0, order);
            let t = word_octets(hex_word(s, 2)->0, order);
            let u = word_octets(hex_word(s, 3)->0, order);
            Some(
                IpAddr::V6(
                    segment(p.0, p.1),
                    segment(p.2, p.3),
                    segment(q.0, q.1),
                    segment(q.2, q.3),
                    segment(t.0, t.1),
                    segment(t.2, t.3),
                    segment(u.0, u.1),
                    segment(u.2, u.3),
                ),
            )
        } else {
            None
        }
    } else {
        if s.len() == 8 && hex_word(s, 0) is Some {
            let p = word_octets(hex_word(s, 0)->0, order);
            Some(IpAddr::V4(p.0, p.1, p.2, p.3))
        } else {
            None
        }
    }
}

/// The address and port that a table column writes, with a colon between.
pub open spec fn table_addr_port(s: Seq<char>, is_v6: bool, order: ByteOrder) -> Option<(IpAddr, u16)> {
    match cut(s, ':') {
        Some((addr, port)) => match (table_addr(addr, is_v6, order), number(port, 16, 0xffff)) {
            (Some(a), Some(p)) => Some((a, p as u16)),
            _ => None,
        },
        None => None,
    }
}

/// What a table row says: its connection and its socket state.
pub open spec fn table_row(
    line: Seq<char>,
    protocol: TransportProtocol,
    is_v6: bool,
    order: ByteOrder,
) -> Option<(ConnKey, Seq<char>)> {
    let f = words_of(line);
    if f.len() < 4 {
        None
    } else {
        match (table_addr_port(f[1], is_v6, order), table_addr_port(f[2], is_v6, order)) {
            (Some((la, lp)), Some((ra, rp))) => Some(
                (
                    ConnKey {
                        protocol,
                        local_addr: la,
                        local_port: lp,
                        remote_addr: ra,
                        remote_port: rp,
                    },
                    f[3],
                ),
            ),
            _ => None,
        }
    }
}

fn read_hex_word(s: &[char], k: usize) -> (r: Option<u64>)
    requires
        k <= 3,
        8 * k + 8 <= s@.len(),
    ensures
        match r {
            Some(w) => hex_word(s@, k as int) == Some(w as nat) && w <= 0xffff_ffff,
            None => hex_word(s@, k as int) is None,
        },
{
    parse_number(slice_subrange(s, 8 * k, 8 * k + 8), 16, 0xffff_ffff)
}

fn join_segment(hi: u8, lo: u8) -> (r: u16)
    ensures
        r == segment(hi, lo),
{
    (hi as u16) * 256 + lo as u16
}

/// Reads an address column.
pub fn parse_addr(s: &[char], is_v6: bool, order: ByteOrder) -> (r: Option<IpAddr>)
    ensures
        r == table_addr(s@, is_v6, order),
{
    if is_v6 {
        if s.len() != 32 {
            return None;
        }
        match (read_hex_word(s, 0), read_hex_word(s, 1), read_hex_word(s, 2), read_hex_word(s, 3)) {
            (Some(w0), Some(w1), Some(w2), Some(w3)) => {
                let p = split_word(w0, order);
                let q = split_word(w1, order);
                let t = split_word(w2, order);
                let u = split_word(w3, order);
                Some(
                    IpAddr::V6(
                        join_segment(p.0, p.1),
                        join_segment(p.2, p.3),
                        join_segment(q.0, q.1),
                        join_segment(q.2, q.3),
                        join_segment(t.0, t.1),
                        join_segment(t.2, t.3),
                        join_segment(u.0, u.1),
                        join_segment(u.2, u.3),
                    ),
                )
            },
            _ => None,
        }
    } else {
        if s.len() != 8 {
            return None;
        }
        match read_hex_word(s, 0) {
            Some(w) => {
                let p = split_word(w, order);
                Some(IpAddr::V4(p.0, p.1, p.2, p.3))
            },
            None => None,
        }
    }
}

/// Reads an address-and-port column.
pub fn parse_addr_port(s: &[char], is_v6: bool, order: ByteOrder) -> (r: Option<(IpAddr, u16)>)
    ensures
        r == table_addr_port(s@, is_v6, order),
{
    match split_once(s, ':') {
        None => None,
        Some((addr, port)) => match (parse_addr(addr, is_v6, order), parse_number(port, 16, 0xffff)) {
            (Some(a), Some(p)) => Some((a, p as u16)),
            _ => None,
        },
    }
}

/// Whether a parsed row is what the table says.
pub open spec fn row_matches(r: ConnectionSnapshot, row: (ConnKey, Seq<char>)) -> bool {
    &&& r.key() == row.0
    &&& r.pid is None
    &&& r.process_name is None
    &&& r.state is Some
    &&& r.state->0@ == row.1
}

/// Reads one row of a table whose words stand in the given byte order.
pub fn parse_proc_net_row(
    line: &[char],
    protocol: TransportProtocol,
    is_v6: bool,
    order: ByteOrder,
) -> (r: Option<ConnectionSnapshot>)
    ensures
        match r {
            Some(s) => table_row(line@, protocol, is_v6, order) is Some && row_matches(
                s,
                table_row(line@, protocol, is_v6, order)->0,
            ),
            None => table_row(line@, protocol, is_v6, order) is None,
        },
{
    let fields = words(line);
    assert(fields@.len() == texts(fields@).len());
    if fields.len() < 4 {
        return None;
    }
    assert(texts(fields@)[1] == fields@[1]@);
    assert(texts(fields@)[2] == fields@[2]@);
    assert(texts(fields@)[3] == fields@[3]@);
    match (parse_addr_port(fields[1], is_v6, order), parse_addr_port(fields[2], is_v6, order)) {
        (Some((la, lp)), Some((ra, rp))) => Some(
            ConnectionSnapshot {
                protocol,
                local_addr: la,
                local_port: lp,
                remote_addr: ra,
                remote_port: rp,
                pid: None,
                process_name: None,
                state: Some(string_of(fields[3])),
            },
        ),
        _ => None,
    }
}

/// Reads one row of this machine's tables, whose words are in its own byte
/// order.
pub fn parse_proc_net_line(line: &str, protocol: TransportProtocol, is_v6: bool) -> (r: Option<
    ConnectionSnapshot,
>)
    ensures
        exists|order: ByteOrder| #[trigger]
            seen_order(order) && match r {
                Some(s) => table_row(line@, protocol, is_v6, order) is Some && row_matches(
                    s,
                    table_row(line@, protocol, is_v6, order)->0,
                ),
                None => table_row(line@, protocol, is_v6, order) is None,
            },
{
    let v = chars_of(line);
    let order = native_order();
    parse_proc_net_row(v.as_slice(), protocol, is_v6, order)
}

/// Reads a row, for use with `gather`.
pub open spec fn row_reader(
    protocol: TransportProtocol,
    is_v6: bool,
    order: ByteOrder,
) -> spec_fn(Seq<char>) -> Option<(ConnKey, Seq<char>)> {
    |line: Seq<char>| table_row(line, protocol, is_v6, order)
}

/// The rows of a table: every readable line after the heading.
pub open spec fn table_rows(
    content: Seq<char>,
    protocol: TransportProtocol,
    is_v6: bool,
    order: ByteOrder,
) -> Seq<(ConnKey, Seq<char>)> {
    let all = lines_of(content);
    if all.len() == 0 {
        Seq::empty()
    } else {
        gather(all.drop_first(), row_reader(protocol, is_v6, order))
    }
}

/// Whether parsed rows are what the table says, row by row.
pub open spec fn rows_match(v: Seq<ConnectionSnapshot>, rows: Seq<(ConnKey, Seq<char>)>) -> bool {
    &&& v.len() == rows.len()
    &&& forall|i: int| 0 <= i < v.len() ==> row_matches(#[trigger] v[i], rows[i])
}

/// Appends the rows of one table to `out`.
fn parse_table(
    content: &str,
    protocol: TransportProtocol,
    is_v6: bool,
    order: ByteOrder,
    out: &mut Vec<ConnectionSnapshot>,
    Ghost(before): Ghost<Seq<(ConnKey, Seq<char>)>>,
)
    requires
        rows_match(old(out)@, before),
    ensures
        rows_match(final(out)@, before + table_rows(content@, protocol, is_v6, order)),
{
    let chars = chars_of(content);
    let all = lines(chars.as_slice());
    if all.len() == 0 {
        assert(texts(all@).len() == 0);
        assert(before + table_rows(content@, protocol, is_v6, order) =~= before);
        return;
    }
    let ghost rest = texts(all@).drop_first();
    let ghost reader = row_reader(protocol, is_v6, order);
    let mut i: usize = 1;
    assert(rest.take(0) =~= Seq::empty());
    assert(before + gather(rest.take(0), reader) =~= before);
    while i < all.len()
        invariant
            1 <= i <= all@.len(),
            rest == texts(all@).drop_first(),
            reader == row_reader(protocol, is_v6, order),
            rows_match(out@, before + gather(rest.take(i - 1), reader)),
        decreases all@.len() - i,
    {
        let ghost prev = out@;
        proof {
            lemma_gather_step(rest, reader, i - 1);
            assert(rest[i - 1] == all@[i as int]@);
        }
        match parse_proc_net_row(all[i], protocol, is_v6, order) {
            Some(row) => {
                out.push(row);
                proof {
                    assert(before + gather(rest.take(i as int), reader) =~= (before + gather(
                        rest.take(i - 1),
                        reader,
                    )).push(table_row(rest[i - 1], protocol, is_v6, order)->0));
                }
            },
            None => {},
        }
        i += 1;
    }
    assert(rest.take(i - 1) =~= rest);
}

/// What came of reading one table.
#[derive(Debug, Clone, PartialEq, Eq)]
pub enum TableRead {
    /// The table's text.
    Text(String),
    /// There is no such table.
    Missing,
    /// The table could not be read.
    Failed(String),
}

/// The tables below `net/`, in the order in which they are read: the name,
/// the protocol, and whether the addresses are IPv6 addresses.
pub fn proc_net_tables() -> (r: [(&'static str, TransportProtocol, bool); 4])
    ensures
        r[0].0@ == "tcp"@ && r[0].1 == TransportProtocol::Tcp && !r[0].2,
        r[1].0@ == "tcp6"@ && r[1].1 == TransportProtocol::Tcp && r[1].2,
        r[2].0@ == "udp"@ && r[2].1 == TransportProtocol::Udp && !r[2].2,
        r[3].0@ == "udp6"@ && r[3].1 == TransportProtocol::Udp && r[3].2,
{
    [
        ("tcp", TransportProtocol::Tcp, false),
        ("tcp6", TransportProtocol::Tcp, true),
        ("udp", TransportProtocol::Udp, false),
        ("udp6", TransportProtocol::Udp, true),
    ]
}

/// Protocol of the `i`-th table.
pub open spec fn table_protocol(i: int) -> TransportProtocol {
    if i < 2 {
        TransportProtocol::Tcp
    } else {
        TransportProtocol::Udp
    }
}

/// Whether the `i`-th table holds IPv6 addresses.
pub open spec fn table_is_v6(i: int) -> bool {
    i == 1 || i == 3
}

/// The rows of the first `n` tables, one after another.
pub open spec fn rows_of_tables(reads: Seq<TableRead>, n: int, order: ByteOrder) -> Seq<
    (ConnKey, Seq<char>),
>
    decreases n,
{
    if n <= 0 {
        Seq::empty()
    } else {
        let front = rows_of_tables(reads, n - 1, order);
        match reads[n - 1] {
            TableRead::Text(t) => front + table_rows(
                t@,
                table_protocol(n - 1),
                table_is_v6(n - 1),
                order,
            ),
            _ => front,
        }
    }
}

/// The tables before the `n`-th could be read or are not there.
pub open spec fn readable_before(reads: Seq<TableRead>, n: int) -> bool {
    forall|k: int| 0 <= k < n ==> !(#[trigger] reads[k] is Failed)
}

/// Puts the tables of a reading together, given the byte order of their
/// words. Missing tables are passed over; the first table that could not be
/// read fails the whole.
pub fn scan_tables(reads: &Vec<TableRead>, order: ByteOrder) -> (r: Result<
    Vec<ConnectionSnapshot>,
    NetworkMonitorError,
>)
    requires
        reads@.len() <= 4,
    ensures
        match r {
            Ok(v) => readable_before(reads@, reads@.len() as int) && rows_match(
                v@,
                rows_of_tables(reads@, reads@.len() as int, order),
            ),
            Err(e) => exists|k: int|
                0 <= k < reads@.len() && readable_before(reads@, k) && #[trigger] reads@[k] is Failed
                    && e is Io && e->Io_0@ == reads@[k]->Failed_0@,
        },
{
    let mut out: Vec<ConnectionSnapshot> = Vec::new();
    let mut i: usize = 0;
    while i < reads.len()
        invariant
            i <= reads@.len() <= 4,
            readable_before(reads@, i as int),
            rows_match(out@, rows_of_tables(reads@, i as int, order)),
        decreases reads@.len() - i,
    {
        match &reads[i] {
            TableRead::Text(t) => {
                let protocol = if i < 2 {
                    TransportProtocol::Tcp
                } else {
                    TransportProtocol::Udp
                };
                let is_v6 = i == 1 || i == 3;
                parse_table(
                    t.as_str(),
                    protocol,
                    is_v6,
                    order,
                    &mut out,
                    Ghost(rows_of_tables(reads@, i as int, order)),
                );
            },
            TableRead::Missing => {},
            TableRead::Failed(e) => {
                return Err(NetworkMonitorError::Io(e.clone()));
            },
        }
        i += 1;
    }
    Ok(out)
}

/// Puts the tables of a reading of this machine together, whose words are in
/// its own byte order.
pub fn scan_all(reads: &Vec<TableRead>) -> (r: Result<Vec<ConnectionSnapshot>, NetworkMonitorError>)
    requires
        reads@.len() <= 4,
    ensures
        match r {
            Ok(v) => readable_before(reads@, reads@.len() as int) && exists|order: ByteOrder| #[trigger]
                seen_order(order) && rows_match(
                    v@,
                    rows_of_tables(reads@, reads@.len() as int, order),
                ),
            Err(e) => exists|k: int|
                0 <= k < reads@.len() && readable_before(reads@, k) && #[trigger] reads@[k] is Failed
                    && e is Io && e->Io_0@ == reads@[k]->Failed_0@,
        },
{
    let order = native_order();
    scan_tables(reads, order)
}

// ---------------------------------------------------------------------
// Changes between two readings
// ---------------------------------------------------------------------

/// A change between two readings of the tables.
#[derive(Debug, Clone, Copy, PartialEq, Eq, Structural)]
pub enum ConnChange {
    /// The connection of row `index` was not there before.
    Opened { index: usize, direction: ConnectionDirection },
    /// The connection is no longer there.
    Closed { key: ConnKey },
}

/// The keys of the rows of a reading, in order.
pub open spec fn keys_of_rows(rows: Seq<ConnectionSnapshot>) -> Seq<ConnKey> {
    rows.map_values(|r: ConnectionSnapshot| r.key())
}

/// `s` without repetitions: the first of each stays.
pub open spec fn distinct(s: Seq<ConnKey>) -> Seq<ConnKey>
    decreases s.len(),
{
    if s.len() == 0 {
        Seq::empty()
    } else {
        let front = distinct(s.drop_last());
        if front.contains(s.last()) {
            front
        } else {
            front.push(s.last())
        }
    }
}

/// Dropping repetitions keeps what is there and leaves nothing twice.
pub proof fn lemma_distinct(s: Seq<ConnKey>)
    ensures
        distinct(s).no_duplicates(),
        forall|k: ConnKey| #[trigger] distinct(s).contains(k) <==> s.contains(k),
    decreases s.len(),
{
    if s.len() > 0 {
        lemma_distinct(s.drop_last());
        let front = distinct(s.drop_last());
        assert forall|k: ConnKey| #[trigger] distinct(s).contains(k) <==> s.contains(k) by {
            if s.contains(k) {
                let i = choose|i: int| 0 <= i < s.len() && s[i] == k;
                if i < s.len() - 1 {
                    assert(s.drop_last()[i] == k);
                    assert(front.contains(k));
                    let j = choose|j: int| 0 <= j < front.len() && front[j] == k;
                    assert(distinct(s)[j] == k);
                } else if !front.contains(k) {
                    assert(distinct(s).last() == k);
                }
            }
            if distinct(s).contains(k) {
                let j = choose|j: int| 0 <= j < distinct(s).len() && distinct(s)[j] == k;
                if front.contains(k) {
                    assert(s.drop_last().contains(k));
                    let i = choose|i: int| 0 <= i < s.drop_last().len() && s.drop_last()[i] == k;
                    assert(s[i] == k);
                } else {
                    if j < front.len() {
                        assert(front[j] == k);
                    }
                    assert(k == s.last());
                    assert(s[s.len() - 1] == k);
                }
            }
        }
    }
}

/// The rows before the `n`-th that are new and of a reported direction.
pub open spec fn opened(
    last: Seq<ConnKey>,
    rows: Seq<ConnectionSnapshot>,
    opts: NetworkMonitorOpts,
    n: int,
) -> Seq<ConnChange>
    decreases n,
{
    if n <= 0 {
        Seq::empty()
    } else {
        let front = opened(last, rows, opts, n - 1);
        let r = rows[n - 1];
        if !last.contains(r.key()) && opts.reports(r.direction()) {
            front.push(ConnChange::Opened { index: (n - 1) as usize, direction: r.direction() })
        } else {
            front
        }
    }
}

/// The first `n` known connections, less those that are still there.
pub open spec fn closed(last: Seq<ConnKey>, current: Seq<ConnKey>, n: int) -> Seq<ConnChange>
    decreases n,
{
    if n <= 0 {
        Seq::empty()
    } else {
        let front = closed(last, current, n - 1);
        if current.contains(last[n - 1]) {
            front
        } else {
            front.push(ConnChange::Closed { key: last[n - 1] })
        }
    }
}

/// All changes between what was known and a new reading: what is new, in
/// the order of the rows, then what is gone.
pub open spec fn changes(
    last: Seq<ConnKey>,
    rows: Seq<ConnectionSnapshot>,
    opts: NetworkMonitorOpts,
) -> Seq<ConnChange> {
    opened(last, rows, opts, rows.len() as int) + closed(
        last,
        distinct(keys_of_rows(rows)),
        last.len() as int,
    )
}

fn has_key(keys: &Vec<ConnKey>, k: ConnKey) -> (r: bool)
    ensures
        r == keys@.contains(k),
{
    let mut i: usize = 0;
    while i < keys.len()
        invariant
            i <= keys@.len(),
            forall|j: int| 0 <= j < i ==> keys@[j] != k,
        decreases keys@.len() - i,
    {
        if keys[i] == k {
            return true;
        }
        i += 1;
    }
    false
}

/// The connections of a reading, each once.
pub fn distinct_keys(rows: &Vec<ConnectionSnapshot>) -> (r: Vec<ConnKey>)
    ensures
        r@ == distinct(keys_of_rows(rows@)),
        r@.no_duplicates(),
{
    let mut out: Vec<ConnKey> = Vec::new();
    let mut i: usize = 0;
    let ghost keys = keys_of_rows(rows@);
    assert(keys.take(0) =~= Seq::empty());
    while i < rows.len()
        invariant
            i <= rows@.len(),
            keys == keys_of_rows(rows@),
            out@ == distinct(keys.take(i as int)),
        decreases rows@.len() - i,
    {
        let k = key_of(&rows[i]);
        assert(keys.take(i + 1).drop_last() =~= keys.take(i as int));
        assert(keys.take(i + 1).last() == k);
        if !has_key(&out, k) {
            out.push(k);
        }
        i += 1;
    }
    proof {
        assert(keys.take(i as int) =~= keys);
        lemma_distinct(keys);
    }
    out
}

/// Remembers the connections of the last reading of the tables.
#[derive(Debug)]
pub struct ConnPoller {
    known: Vec<ConnKey>,
}

impl View for ConnPoller {
    type V = Seq<ConnKey>;

    closed spec fn view(&self) -> Seq<ConnKey> {
        self.known@
    }
}

impl ConnPoller {
    /// No connection is remembered twice.
    pub open spec fn wf(&self) -> bool {
        self@.no_duplicates()
    }

    /// Starts from a first reading; where that failed, nothing is known.
    pub fn start(initial: &Result<Vec<ConnectionSnapshot>, NetworkMonitorError>) -> (r: ConnPoller)
        ensures
            r.wf(),
            match initial {
                Ok(rows) => r@ == distinct(keys_of_rows(rows@)),
                Err(_) => r@ == Seq::<ConnKey>::empty(),
            },
    {
        match initial {
            Ok(rows) => ConnPoller { known: distinct_keys(rows) },
            Err(_) => ConnPoller { known: Vec::new() },
        }
    }

    /// Takes a new reading and tells what has changed since the last.
    pub fn observe(&mut self, rows: &Vec<ConnectionSnapshot>, opts: &NetworkMonitorOpts) -> (r: Vec<
        ConnChange,
    >)
        requires
            old(self).wf(),
        ensures
            final(self).wf(),
            r@ == changes(old(self)@, rows@, *opts),
            final(self)@ == distinct(keys_of_rows(rows@)),
    {
        let current = distinct_keys(rows);
        let mut out: Vec<ConnChange> = Vec::new();
        let mut i: usize = 0;
        while i < rows.len()
            invariant
                i <= rows@.len(),
                out@ == opened(self@, rows@, *opts, i as int),
                *self == *old(self),
            decreases rows@.len() - i,
        {
            let k = key_of(&rows[i]);
            if !has_key(&self.known, k) {
                let direction = direction_for(&rows[i]);
                let allowed = match direction {
                    ConnectionDirection::Inbound => opts.inbound,
                    ConnectionDirection::Outbound => opts.outbound,
                };
                if allowed {
                    out.push(ConnChange::Opened { index: i, direction });
                }
            }
            i += 1;
        }
        let ghost news = out@;
        let mut j: usize = 0;
        assert(news + closed(self@, current@, 0) =~= news);
        while j < self.known.len()
            invariant
                j <= self.known@.len(),
                out@ == news + closed(self@, current@, j as int),
                *self == *old(self),
            decreases self.known@.len() - j,
        {
            let k = self.known[j];
            if !has_key(&current, k) {
                out.push(ConnChange::Closed { key: k });
            }
            assert(out@ =~= news + closed(self@, current@, j + 1));
            j += 1;
        }
        self.known = current;
        out
    }
}

/// Reports a connection that was not there before.
pub fn connect_event(
    snap: &ConnectionSnapshot,
    direction: ConnectionDirection,
    now: Timestamp,
) -> (r: NetworkEvent)
    ensures
        r is Connect,
        r.key() == snap.key(),
        r.at() == now,
        r->direction == direction,
        r->Connect_pid == snap.pid,
        r->process_name == snap.process_name,
{
    NetworkEvent::Connect {
        observed_at: now,
        direction,
        protocol: snap.protocol,
        local_addr: snap.local_addr,
        local_port: snap.local_port,
        remote_addr: snap.remote_addr,
        remote_port: snap.remote_port,
        pid: snap.pid,
        process_name: snap.process_name.clone(),
    }
}

/// Reports a connection that is gone. Its process is no longer known.
pub fn disconnect_event(key: &ConnKey, now: Timestamp) -> (r: NetworkEvent)
    ensures
        r is Disconnect,
        r.key() == *key,
        r.at() == now,
        r->Disconnect_pid is None,
{
    NetworkEvent::Disconnect {
        observed_at: now,
        protocol: key.protocol,
        local_addr: key.local_addr,
        local_port: key.local_port,
        remote_addr: key.remote_addr,
        remote_port: key.remote_port,
        pid: None,
    }
}

/// A reading that shows the same connections as the one before reports
/// nothing.
pub proof fn law_unchanged_table_is_quiet(
    rows: Seq<ConnectionSnapshot>,
    again: Seq<ConnectionSnapshot>,
    opts: NetworkMonitorOpts,
)
    requires
        keys_of_rows(rows).to_set() == keys_of_rows(again).to_set(),
    ensures
        changes(distinct(keys_of_rows(rows)), again, opts) == Seq::<ConnChange>::empty(),
{
    let last = distinct(keys_of_rows(rows));
    lemma_distinct(keys_of_rows(rows));
    lemma_distinct(keys_of_rows(again));
    assert forall|i: int| 0 <= i < again.len() implies last.contains(again[i].key()) by {
        assert(keys_of_rows(again)[i] == again[i].key());
        assert(keys_of_rows(again).to_set().contains(again[i].key()));
    }
    let current = distinct(keys_of_rows(again));
    assert forall|i: int| 0 <= i < last.len() implies current.contains(last[i]) by {
        assert(last.contains(last[i]));
        assert(keys_of_rows(rows).to_set().contains(last[i]));
    }
    lemma_nothing_opened(last, again, opts, again.len() as int);
    lemma_nothing_closed(last, current, last.len() as int);
    assert(changes(last, again, opts) =~= Seq::<ConnChange>::empty());
}

proof fn lemma_nothing_opened(
    last: Seq<ConnKey>,
    rows: Seq<ConnectionSnapshot>,
    opts: NetworkMonitorOpts,
    n: int,
)
    requires
        0 <= n <= rows.len(),
        forall|i: int| 0 <= i < rows.len() ==> last.contains((#[trigger] rows[i]).key()),
    ensures
        opened(last, rows, opts, n) == Seq::<ConnChange>::empty(),
    decreases n,
{
    if n > 0 {
        lemma_nothing_opened(last, rows, opts, n - 1);
        assert(last.contains(rows[n - 1].key()));
    }
}

proof fn lemma_nothing_closed(last: Seq<ConnKey>, current: Seq<ConnKey>, n: int)
    requires
        0 <= n <= last.len(),
        forall|i: int| 0 <= i < last.len() ==> current.contains(#[trigger] last[i]),
    ensures
        closed(last, current, n) == Seq::<ConnChange>::empty(),
    decreases n,
{
    if n > 0 {
        lemma_nothing_closed(last, current, n - 1);
        assert(current.contains(last[n - 1]));
    }
}

/// Every change is real: what is reported open was unknown and is of a
/// reported direction, what is reported closed was known and is gone, and
/// no known connection that is gone goes unreported.
pub proof fn law_changes_are_exact(
    last: Seq<ConnKey>,
    rows: Seq<ConnectionSnapshot>,
    opts: NetworkMonitorOpts,
)
    requires
        rows.len() <= usize::MAX,
    ensures
        forall|i: int, d: ConnectionDirection|
            0 <= i < rows.len() ==> (#[trigger] changes(last, rows, opts).contains(
                ConnChange::Opened { index: i as usize, direction: d },
            ) <==> !last.contains(rows[i].key()) && d == rows[i].direction() && opts.reports(d)),
        forall|k: ConnKey| #[trigger]
            changes(last, rows, opts).contains(ConnChange::Closed { key: k }) <==> last.contains(k)
                && !keys_of_rows(rows).contains(k),
{
    let o = opened(last, rows, opts, rows.len() as int);
    let current = distinct(keys_of_rows(rows));
    let c = closed(last, current, last.len() as int);
    lemma_opened_exact(last, rows, opts, rows.len() as int);
    lemma_closed_exact(last, current, last.len() as int);
    lemma_distinct(keys_of_rows(rows));
    assert forall|x: ConnChange| #[trigger] (o + c).contains(x) <==> o.contains(x) || c.contains(x) by {
        if o.contains(x) {
            let i = choose|i: int| 0 <= i < o.len() && o[i] == x;
            assert((o + c)[i] == x);
        }
        if c.contains(x) {
            let i = choose|i: int| 0 <= i < c.len() && c[i] == x;
            assert((o + c)[o.len() + i] == x);
        }
        if (o + c).contains(x) {
            let i = choose|i: int| 0 <= i < (o + c).len() && (o + c)[i] == x;
            if i < o.len() {
                assert(o[i] == x);
            } else {
                assert(c[i - o.len()] == x);
            }
        }
    }
    assert forall|k: ConnKey| #[trigger]
        changes(last, rows, opts).contains(ConnChange::Closed { key: k }) <==> last.contains(k)
            && !keys_of_rows(rows).contains(k) by {
        let x = ConnChange::Closed { key: k };
        assert((o + c).contains(x) <==> o.contains(x) || c.contains(x));
        assert(current.contains(k) <==> keys_of_rows(rows).contains(k));
    }
    assert forall|i: int, d: ConnectionDirection| 0 <= i < rows.len() implies (#[trigger] changes(
        last,
        rows,
        opts,
    ).contains(ConnChange::Opened { index: i as usize, direction: d }) <==> !last.contains(
        rows[i].key(),
    ) && d == rows[i].direction() && opts.reports(d)) by {
        let x = ConnChange::Opened { index: i as usize, direction: d };
        assert((o + c).contains(x) <==> o.contains(x) || c.contains(x));
    }
}

proof fn lemma_opened_exact(
    last: Seq<ConnKey>,
    rows: Seq<ConnectionSnapshot>,
    opts: NetworkMonitorOpts,
    n: int,
)
    requires
        0 <= n <= rows.len() <= usize::MAX,
    ensures
        forall|i: int, d: ConnectionDirection|
            0 <= i < rows.len() ==> (#[trigger] opened(last, rows, opts, n).contains(
                ConnChange::Opened { index: i as usize, direction: d },
            ) <==> i < n && !last.contains(rows[i].key()) && d == rows[i].direction()
                && opts.reports(d)),
        forall|k: int| 0 <= k < opened(last, rows, opts, n).len() ==> (#[trigger] opened(
            last,
            rows,
            opts,
            n,
        )[k]) is Opened,
    decreases n,
{
    if n > 0 {
        lemma_opened_exact(last, rows, opts, n - 1);
        let front = opened(last, rows, opts, n - 1);
        let all = opened(last, rows, opts, n);
        assert forall|i: int, d: ConnectionDirection| 0 <= i < rows.len() implies (#[trigger] all.contains(
            ConnChange::Opened { index: i as usize, direction: d },
        ) <==> i < n && !last.contains(rows[i].key()) && d == rows[i].direction() && opts.reports(d)) by {
            let x = ConnChange::Opened { index: i as usize, direction: d };
            if front.contains(x) {
                let j = choose|j: int| 0 <= j < front.len() && front[j] == x;
                assert(all[j] == x);
            }
            if all.contains(x) && !front.contains(x) {
                let j = choose|j: int| 0 <= j < all.len() && all[j] == x;
                if j < front.len() {
                    assert(front[j] == x);
                }
            }
            if i == n - 1 && !last.contains(rows[i].key()) && d == rows[i].direction()
                && opts.reports(d) {
                assert(all.last() == x);
            }
        }
    }
}

proof fn lemma_closed_exact(last: Seq<ConnKey>, current: Seq<ConnKey>, n: int)
    requires
        0 <= n <= last.len(),
    ensures
        forall|k: ConnKey| #[trigger]
            closed(last, current, n).contains(ConnChange::Closed { key: k }) <==> last.take(n).contains(
                k,
            ) && !current.contains(k),
        n == last.len() ==> forall|k: ConnKey| #[trigger]
            closed(last, current, n).contains(ConnChange::Closed { key: k }) <==> last.contains(k)
                && !current.contains(k),
        forall|k: int| 0 <= k < closed(last, current, n).len() ==> (#[trigger] closed(
            last,
            current,
            n,
        )[k]) is Closed,
    decreases n,
{
    if n > 0 {
        lemma_closed_exact(last, current, n - 1);
        let front = closed(last, current, n - 1);
        let all = closed(last, current, n);
        assert(last.take(n) =~= last.take(n - 1).push(last[n - 1]));
        assert forall|k: ConnKey| #[trigger] all.contains(ConnChange::Closed { key: k })
            <==> last.take(n).contains(k) && !current.contains(k) by {
            let x = ConnChange::Closed { key: k };
            let t = last.take(n - 1);
            let u = last.take(n);
            assert(u.contains(k) <==> t.contains(k) || k == last[n - 1]) by {
                if t.contains(k) {
                    let j = choose|j: int| 0 <= j < t.len() && t[j] == k;
                    assert(u[j] == k);
                }
                if k == last[n - 1] {
                    assert(u[n - 1] == k);
                }
                if u.contains(k) {
                    let j = choose|j: int| 0 <= j < u.len() && u[j] == k;
                    if j < n - 1 {
                        assert(t[j] == k);
                    }
                }
            }
            if front.contains(x) {
                let j = choose|j: int| 0 <= j < front.len() && front[j] == x;
                assert(all[j] == x);
            }
            if all.contains(x) && !front.contains(x) {
                let j = choose|j: int| 0 <= j < all.len() && all[j] == x;
                if j < front.len() {
                    assert(front[j] == x);
                }
            }
            if k == last[n - 1] && !current.contains(k) {
                assert(all.last() == x);
            }
        }
    }
    assert(last.take(last.len() as int) =~= last);
}

// ---------------------------------------------------------------------
// Providers
// ---------------------------------------------------------------------

/// Monitor that reads the connection tables of a Linux kernel.
#[derive(Debug)]
pub struct LinuxNetworkMonitor {
    proc_root: String,
}

impl LinuxNetworkMonitor {
    /// Directory that the tables are read from.
    pub closed spec fn root(&self) -> Seq<char> {
        self.proc_root@
    }

    /// A monitor of this host.
    pub fn new() -> (r: LinuxNetworkMonitor)
        ensures
            r.root() == "/proc"@,
    {
        LinuxNetworkMonitor { proc_root: "/proc".to_owned() }
    }

    /// A monitor of the tables below `proc_root`.
    pub fn with_proc_root(proc_root: String) -> (r: LinuxNetworkMonitor)
        ensures
            r.root() == proc_root@,
    {
        LinuxNetworkMonitor { proc_root }
    }

    /// Directory that the tables are read from.
    pub fn proc_root(&self) -> (r: &str)
        ensures
            r@ == self.root(),
    {
        self.proc_root.as_str()
    }
}

impl Default for LinuxNetworkMonitor {
    fn default() -> (r: Self)
        ensures
            r.root() == "/proc"@,
    {
        LinuxNetworkMonitor::new()
    }
}

/// Placeholder for the monitor of Windows hosts.
#[derive(Debug)]
pub struct WindowsNetworkMonitor {}

impl WindowsNetworkMonitor {
    pub fn new() -> (r: WindowsNetworkMonitor)
        ensures
            r == (WindowsNetworkMonitor {  }),
    {
        WindowsNetworkMonitor {  }
    }

    /// No events can be had on this build.
    pub fn subscribe(&self, opts: &NetworkMonitorOpts) -> (r: Result<(), NetworkMonitorError>)
        ensures
            r is Err,
            r->Err_0 is Unsupported,
            r->Err_0->Unsupported_0@
                == "ETW NetworkMonitor requires a signed-driver build; use MockNetworkMonitor in CI"@,
    {
        Err(
            NetworkMonitorError::Unsupported(
                "ETW NetworkMonitor requires a signed-driver build; use MockNetworkMonitor in CI".to_owned(),
            ),
        )
    }

    /// No connections are known.
    pub fn enumerate_established(&self) -> (r: Result<Vec<ConnectionSnapshot>, NetworkMonitorError>)
        ensures
            r is Ok,
            r->Ok_0@ == Seq::<ConnectionSnapshot>::empty(),
    {
        Ok(Vec::new())
    }
}

impl Default for WindowsNetworkMonitor {
    fn default() -> (r: Self)
        ensures
            r == (WindowsNetworkMonitor {  }),
    {
        WindowsNetworkMonitor::new()
    }
}

/// Placeholder for the monitor of macOS hosts.
#[derive(Debug)]
pub struct MacosNetworkMonitor {}

impl MacosNetworkMonitor {
    pub fn new() -> (r: MacosNetworkMonitor)
        ensures
            r == (MacosNetworkMonitor {  }),
    {
        MacosNetworkMonitor {  }
    }

    /// No events can be had on this build.
    pub fn subscribe(&self, opts: &NetworkMonitorOpts) -> (r: Result<(), NetworkMonitorError>)
        ensures
            r is Err,
            r->Err_0 is Unsupported,
            r->Err_0->Unsupported_0@
                == "NEFilterDataProvider NetworkMonitor requires Apple entitlement; use MockNetworkMonitor in CI"@,
    {
        Err(
            NetworkMonitorError::Unsupported(
                "NEFilterDataProvider NetworkMonitor requires Apple entitlement; use MockNetworkMonitor in CI".to_owned(),
            ),
        )
    }

    /// No connections are known.
    pub fn enumerate_established(&self) -> (r: Result<Vec<ConnectionSnapshot>, NetworkMonitorError>)
        ensures
            r is Ok,
            r->Ok_0@ == Seq::<ConnectionSnapshot>::empty(),
    {
        Ok(Vec::new())
    }
}

impl Default for MacosNetworkMonitor {
    fn default() -> (r: Self)
        ensures
            r == (MacosNetworkMonitor {  }),
    {
        MacosNetworkMonitor::new()
    }
}

/// Monitor with canned events and a canned connection table.
#[derive(Debug)]
pub struct MockNetworkMonitor {
    events: Vec<NetworkEvent>,
    established: Vec<ConnectionSnapshot>,
}

impl MockNetworkMonitor {
    /// The events in the order in which they are replayed.
    pub closed spec fn canned(&self) -> Seq<NetworkEvent> {
        self.events@
    }

    /// The canned table.
    pub closed spec fn table(&self) -> Seq<ConnectionSnapshot> {
        self.established@
    }

    pub fn new() -> (r: MockNetworkMonitor)
        ensures
            r.canned() == Seq::<NetworkEvent>::empty(),
            r.table() == Seq::<ConnectionSnapshot>::empty(),
    {
        MockNetworkMonitor { events: Vec::new(), established: Vec::new() }
    }

    pub fn with_events(events: Vec<NetworkEvent>) -> (r: MockNetworkMonitor)
        ensures
            r.canned() == events@,
            r.table() == Seq::<ConnectionSnapshot>::empty(),
    {
        MockNetworkMonitor { events, established: Vec::new() }
    }

    /// Adds an event to be replayed after the others.
    pub fn push_event(&mut self, ev: NetworkEvent)
        ensures
            final(self).canned() == old(self).canned().push(ev),
            final(self).table() == old(self).table(),
    {
        self.events.push(ev);
    }

    /// Replaces the canned table.
    pub fn set_established(&mut self, snaps: Vec<ConnectionSnapshot>)
        ensures
            final(self).table() == snaps@,
            final(self).canned() == old(self).canned(),
    {
        self.established = snaps;
    }

    /// The events, in the order in which they are replayed.
    pub fn events(&self) -> (r: &Vec<NetworkEvent>)
        ensures
            r@ == self.canned(),
    {
        &self.events
    }

    /// The canned table.
    pub fn enumerate_established(&self) -> (r: Result<Vec<ConnectionSnapshot>, NetworkMonitorError>)
        ensures
            r is Ok,
            r->Ok_0@ == self.table(),
    {
        let v = self.established.clone();
        assert(v@ =~= self.established@);
        Ok(v)
    }
}

impl Default for MockNetworkMonitor {
    fn default() -> (r: Self)
        ensures
            r.canned() == Seq::<NetworkEvent>::empty(),
            r.table() == Seq::<ConnectionSnapshot>::empty(),
    {
        MockNetworkMonitor::new()
    }
}

} // verus!
