//! Connections and queries: reading the kernel's tables undoes its writing,
//! and what is published says what was seen.

use crate::clock::Timestamp;
use crate::dns_monitor::{DnsEvent, DnsQueryType};
use crate::laws::text::{
    hex8, law_cut_undoes_joining, law_only_digits_are_read, law_pieces_come_apart,
    law_words_are_read_back, law_words_come_apart, law_written_numbers_are_read, put_together,
};
use crate::net::{best_zero, colon_hex, dotted, segments_of, v4_mapped, v6_text, zero_run, IpAddr};
use crate::network_module::{
    addr_octets, connection_identity, connection_key, dns_identity, emit_dns_event,
    emit_network_event, octets, published, sighting_octets, tenth, tenth_octets,
    DnsQueryPayload, NetworkConnectionPayload,
};
use crate::network_monitor::{
    changes, connect_event, direction_for, disconnect_event, distinct, hex_word, key_of,
    keys_of_rows, parse_addr, proc_net_tables, row_matches, rows_of_tables, scan_tables,
    shows_order, table_addr, table_addr_port, table_is_v6, table_protocol, table_row,
    table_rows, word_octets, ByteOrder, ConnChange, ConnKey, ConnPoller, ConnectionDirection,
    ConnectionSnapshot, NetworkEvent, NetworkMonitorError, NetworkMonitorOpts, TableRead,
    TransportProtocol,
};
use crate::text::{digit, is_space, lines_of, numeral, opt_view, pieces_of, views, words_of};
use crate::udp_sampler::{sample_step, UdpSampler};
use std::hash::DefaultHasher;
use vstd::prelude::*;
use vstd::std_specs::hash::DefaultHasherAdditionalSpecFns;

verus! {

// ---------------------------------------------------------------------
// The kernel's tables
// ---------------------------------------------------------------------

/// Four octets of memory, read as one word in the given order.
pub open spec fn word_of(a: u8, b: u8, c: u8, d: u8, order: ByteOrder) -> nat {
    match order {
        ByteOrder::Big => (a * 0x100_0000 + b * 0x1_0000 + c * 0x100 + d) as nat,
        ByteOrder::Little => (d * 0x100_0000 + c * 0x1_0000 + b * 0x100 + a) as nat,
    }
}

/// The octets of a word are those that it was read from.
pub proof fn law_octets_of_a_word(a: u8, b: u8, c: u8, d: u8, order: ByteOrder)
    ensures
        word_of(a, b, c, d, order) <= 0xffff_ffff,
        word_octets(word_of(a, b, c, d, order), order) == (a, b, c, d),
{
    match order {
        ByteOrder::Big => lemma_quarters(a as int, b as int, c as int, d as int),
        ByteOrder::Little => lemma_quarters(d as int, c as int, b as int, a as int),
    }
}

proof fn lemma_quarters(a: int, b: int, c: int, d: int)
    requires
        0 <= a < 256,
        0 <= b < 256,
        0 <= c < 256,
        0 <= d < 256,
    ensures
        ({
            let w = a * 0x100_0000 + b * 0x1_0000 + c * 0x100 + d;
            &&& 0 <= w <= 0xffff_ffff
            &&& (w / 0x100_0000) % 256 == a
            &&& (w / 0x1_0000) % 256 == b
            &&& (w / 0x100) % 256 == c
            &&& w % 256 == d
        }),
{
    let w = a * 0x100_0000 + b * 0x1_0000 + c * 0x100 + d;
    assert(w / 0x100_0000 == a);
    assert(w / 0x1_0000 == a * 0x100 + b);
    assert(w / 0x100 == a * 0x1_0000 + b * 0x100 + c);
}

/// The kernel's column for an IPv4 address is read back as the address,
/// octet for octet, in either byte order.
pub proof fn law_ipv4_columns_are_read_back(a: u8, b: u8, c: u8, d: u8, order: ByteOrder)
    ensures
        table_addr(hex8(word_of(a, b, c, d, order)), false, order) == Some(IpAddr::V4(a, b, c, d)),
{
    let s = hex8(word_of(a, b, c, d, order));
    law_octets_of_a_word(a, b, c, d, order);
    law_words_are_read_back(word_of(a, b, c, d, order));
    assert(s.subrange(0, 8) =~= s);
    assert(hex_word(s, 0) == Some(word_of(a, b, c, d, order)));
}

/// The kernel's column for an IPv6 address, four words of four octets each,
/// is read back as the address: its segments are the pairs of octets, in
/// their order, in either byte order of the words.
pub proof fn law_ipv6_columns_are_read_back(o: Seq<u8>, order: ByteOrder)
    requires
        o.len() == 16,
    ensures
        table_addr(
            hex8(word_of(o[0], o[1], o[2], o[3], order)) + hex8(
                word_of(o[4], o[5], o[6], o[7], order),
            ) + hex8(word_of(o[8], o[9], o[10], o[11], order)) + hex8(
                word_of(o[12], o[13], o[14], o[15], order),
            ),
            true,
            order,
        ) == Some(
            IpAddr::V6(
                (o[0] * 256 + o[1]) as u16,
                (o[2] * 256 + o[3]) as u16,
                (o[4] * 256 + o[5]) as u16,
                (o[6] * 256 + o[7]) as u16,
                (o[8] * 256 + o[9]) as u16,
                (o[10] * 256 + o[11]) as u16,
                (o[12] * 256 + o[13]) as u16,
                (o[14] * 256 + o[15]) as u16,
            ),
        ),
{
    law_octets_of_a_word(o[0], o[1], o[2], o[3], order);
    law_octets_of_a_word(o[4], o[5], o[6], o[7], order);
    law_octets_of_a_word(o[8], o[9], o[10], o[11], order);
    law_octets_of_a_word(o[12], o[13], o[14], o[15], order);
    lemma_four_words(
        word_of(o[0], o[1], o[2], o[3], order),
        word_of(o[4], o[5], o[6], o[7], order),
        word_of(o[8], o[9], o[10], o[11], order),
        word_of(o[12], o[13], o[14], o[15], order),
    );
}

proof fn lemma_four_words(p: nat, q: nat, t: nat, u: nat)
    requires
        p <= 0xffff_ffff,
        q <= 0xffff_ffff,
        t <= 0xffff_ffff,
        u <= 0xffff_ffff,
    ensures
        ({
            let s = hex8(p) + hex8(q) + hex8(t) + hex8(u);
            &&& s.len() == 32
            &&& hex_word(s, 0) == Some(p)
            &&& hex_word(s, 1) == Some(q)
            &&& hex_word(s, 2) == Some(t)
            &&& hex_word(s, 3) == Some(u)
        }),
{
    law_words_are_read_back(p);
    law_words_are_read_back(q);
    law_words_are_read_back(t);
    law_words_are_read_back(u);
    lemma_eights(hex8(p), hex8(q), hex8(t), hex8(u));
}

proof fn lemma_eights(p: Seq<char>, q: Seq<char>, t: Seq<char>, u: Seq<char>)
    requires
        p.len() == 8,
        q.len() == 8,
        t.len() == 8,
        u.len() == 8,
    ensures
        (p + q + t + u).len() == 32,
        (p + q + t + u).subrange(0, 8) == p,
        (p + q + t + u).subrange(8, 16) == q,
        (p + q + t + u).subrange(16, 24) == t,
        (p + q + t + u).subrange(24, 32) == u,
{
    let s = p + q + t + u;
    assert(s.subrange(0, 8) =~= p);
    assert(s.subrange(8, 16) =~= q);
    assert(s.subrange(16, 24) =~= t);
    assert(s.subrange(24, 32) =~= u);
}

/// So is what the reader of addresses hands out.
pub proof fn law_addresses_are_read_back(
    s: &[char],
    o: Seq<u8>,
    order: ByteOrder,
    r: Option<IpAddr>,
)
    requires
        o.len() == 16,
        s@ == hex8(word_of(o[0], o[1], o[2], o[3], order)) + hex8(
            word_of(o[4], o[5], o[6], o[7], order),
        ) + hex8(word_of(o[8], o[9], o[10], o[11], order)) + hex8(
            word_of(o[12], o[13], o[14], o[15], order),
        ),
        call_ensures(parse_addr, (s, true, order), r),
    ensures
        r matches Some(IpAddr::V6(a, b, c, d, e, f, g, h)) && {
            &&& a == o[0] * 256 + o[1] && b == o[2] * 256 + o[3]
            &&& c == o[4] * 256 + o[5] && d == o[6] * 256 + o[7]
            &&& e == o[8] * 256 + o[9] && f == o[10] * 256 + o[11]
            &&& g == o[12] * 256 + o[13] && h == o[14] * 256 + o[15]
        },
{
    law_ipv6_columns_are_read_back(o, order);
}

/// A column of another length is no address.
pub proof fn law_lengths_of_addresses(s: Seq<char>, order: ByteOrder)
    ensures
        s.len() != 32 ==> table_addr(s, true, order) is None,
        s.len() != 8 ==> table_addr(s, false, order) is None,
{
}

/// A column is an address, a colon and a port in hexadecimal.
pub proof fn law_columns_are_read_back(addr: Seq<char>, port: u16, is_v6: bool, order: ByteOrder)
    requires
        !addr.contains(':'),
    ensures
        table_addr_port(addr + seq![':'] + numeral(port as nat, 16), is_v6, order) == match table_addr(
            addr,
            is_v6,
            order,
        ) {
            Some(a) => Some((a, port)),
            None => None,
        },
{
    law_cut_undoes_joining(addr, ':', numeral(port as nat, 16));
    law_written_numbers_are_read(port as nat, 16, 0xffff);
}

/// Whether a text is one word: there is something, and no white space.
pub open spec fn one_word(s: Seq<char>) -> bool {
    s.len() > 0 && forall|i: int| 0 <= i < s.len() ==> !is_space(#[trigger] s[i])
}

/// A row gives its local column as the local end and its remote column as the
/// remote end, and the state after them; what follows does not matter.
pub proof fn law_rows_are_read_back(
    slot: Seq<char>,
    local: Seq<char>,
    remote: Seq<char>,
    state: Seq<char>,
    rest: Seq<char>,
    la: (IpAddr, u16),
    ra: (IpAddr, u16),
    protocol: TransportProtocol,
    is_v6: bool,
    order: ByteOrder,
)
    requires
        one_word(slot),
        one_word(local),
        one_word(remote),
        one_word(state),
        table_addr_port(local, is_v6, order) == Some(la),
        table_addr_port(remote, is_v6, order) == Some(ra),
    ensures
        ({
            let b = seq![' '];
            let line = b + (slot + b + (local + b + (remote + b + (state + b + rest))));
            &&& table_row(line, protocol, is_v6, order) matches Some((k, st))
            &&& k.protocol == protocol
            &&& (k.local_addr, k.local_port) == la
            &&& (k.remote_addr, k.remote_port) == ra
            &&& st == state
        }),
{
    let b = seq![' '];
    law_words_come_apart(state, b, rest);
    let t = state + b + rest;
    law_words_come_apart(remote, b, t);
    let u = remote + b + t;
    law_words_come_apart(local, b, u);
    let v = local + b + u;
    law_words_come_apart(slot, b, v);
    let w = slot + b + v;
    law_words_come_apart(slot, b, w);
    let f = words_of(b + w);
    assert(f =~= seq![slot, local, remote, state] + words_of(rest));
    assert(f[1] == local && f[2] == remote && f[3] == state);
}

/// A row is a connection of what it was read as, without a process.
pub proof fn law_rows_have_no_process(r: ConnectionSnapshot, row: (ConnKey, Seq<char>))
    requires
        row_matches(r, row),
    ensures
        r.protocol == row.0.protocol,
        r.local_addr == row.0.local_addr,
        r.local_port == row.0.local_port,
        r.remote_addr == row.0.remote_addr,
        r.remote_port == row.0.remote_port,
        r.pid is None,
        r.process_name is None,
        opt_view(r.state) == Some(row.1),
{
}

/// The first line of a table is its heading; of every other line that can be
/// read there is a row.
pub proof fn law_headings_are_no_rows(
    heading: Seq<char>,
    line: Seq<char>,
    rest: Seq<char>,
    protocol: TransportProtocol,
    is_v6: bool,
    order: ByteOrder,
)
    requires
        !heading.contains('\n'),
        !line.contains('\n'),
        line.len() > 0,
        line.last() != '\r',
    ensures
        table_rows(heading + seq!['\n'] + (line + seq!['\n'] + rest), protocol, is_v6, order) == (
        match table_row(line, protocol, is_v6, order) {
            Some(row) => seq![row],
            None => Seq::empty(),
        }) + table_rows(heading + seq!['\n'] + rest, protocol, is_v6, order),
        table_rows(heading + seq!['\n'], protocol, is_v6, order) == Seq::<(ConnKey, Seq<char>)>::empty(),
{
    let f = crate::network_monitor::row_reader(protocol, is_v6, order);
    let body = line + seq!['\n'] + rest;
    crate::laws::text::law_lines_come_apart(heading, body);
    crate::laws::text::law_lines_come_apart(line, rest);
    crate::laws::text::law_lines_come_apart(heading, rest);
    let none: Seq<char> = Seq::empty();
    crate::laws::text::law_lines_come_apart(heading, none);
    assert(heading + seq!['\n'] + none =~= heading + seq!['\n']);
    let all = lines_of(heading + seq!['\n'] + body);
    assert(all.drop_first() =~= seq![line] + lines_of(rest));
    let other = lines_of(heading + seq!['\n'] + rest);
    assert(other.drop_first() =~= lines_of(rest));
    let empty: Seq<Seq<char>> = Seq::empty();
    crate::laws::text::law_gathering(empty, line, lines_of(rest), f);
    assert(empty + seq![line] + lines_of(rest) =~= seq![line] + lines_of(rest));
    let bare = lines_of(heading + seq!['\n']);
    assert(bare.drop_first() =~= Seq::empty());
}

/// The rows of a reading are those of its tables, one table after the other,
/// each read as the table in its place; a table that is missing adds none.
pub proof fn law_readings_put_tables_together(
    a: TableRead,
    b: TableRead,
    c: TableRead,
    d: TableRead,
    order: ByteOrder,
)
    ensures
        ({
            let rows = |t: TableRead, p: TransportProtocol, v6: bool|
                match t {
                    TableRead::Text(x) => table_rows(x@, p, v6, order),
                    _ => Seq::empty(),
                };
            rows_of_tables(seq![a, b, c, d], 4, order) == rows(a, TransportProtocol::Tcp, false) + rows(
                b,
                TransportProtocol::Tcp,
                true,
            ) + rows(c, TransportProtocol::Udp, false) + rows(d, TransportProtocol::Udp, true)
        }),
{
    let s = seq![a, b, c, d];
    reveal_with_fuel(rows_of_tables, 5);
    let rows = |t: TableRead, p: TransportProtocol, v6: bool|
        match t {
            TableRead::Text(x) => table_rows(x@, p, v6, order),
            _ => Seq::empty(),
        };
    let r1 = rows(a, TransportProtocol::Tcp, false);
    let r2 = rows(b, TransportProtocol::Tcp, true);
    let r3 = rows(c, TransportProtocol::Udp, false);
    let r4 = rows(d, TransportProtocol::Udp, true);
    assert(rows_of_tables(s, 1, order) =~= r1);
    assert(rows_of_tables(s, 2, order) =~= r1 + r2);
    assert(rows_of_tables(s, 3, order) =~= r1 + r2 + r3);
    assert(rows_of_tables(s, 4, order) =~= r1 + r2 + r3 + r4);
}

/// One table that could not be read fails the reading, and the first such
/// table says why; otherwise there is a row for each row of the tables.
pub proof fn law_unreadable_tables_fail_the_reading(
    reads: Vec<TableRead>,
    order: ByteOrder,
    r: Result<Vec<ConnectionSnapshot>, NetworkMonitorError>,
    i: int,
)
    requires
        reads@.len() <= 4,
        call_ensures(scan_tables, (&reads, order), r),
    ensures
        r is Err <==> exists|k: int| 0 <= k < reads@.len() && #[trigger] reads@[k] is Failed,
        r is Err ==> r->Err_0 is Io,
        r is Err && 0 <= i < reads@.len() && reads@[i] is Failed && (forall|k: int|
            0 <= k < i ==> !(#[trigger] reads@[k] is Failed)) ==> r->Err_0->Io_0@
            == reads@[i]->Failed_0@,
        r is Ok ==> r->Ok_0@.len() == rows_of_tables(reads@, reads@.len() as int, order).len(),
        r is Ok && 0 <= i < r->Ok_0@.len() ==> {
            let row = rows_of_tables(reads@, reads@.len() as int, order)[i];
            &&& r->Ok_0@[i].key() == row.0
            &&& r->Ok_0@[i].state is Some && r->Ok_0@[i].state->0@ == row.1
            &&& r->Ok_0@[i].pid is None
        },
{
    if r is Err {
        let k = choose|k: int|
            0 <= k < reads@.len() && crate::network_monitor::readable_before(reads@, k)
                && #[trigger] reads@[k] is Failed && r->Err_0 is Io && r->Err_0->Io_0@
                == reads@[k]->Failed_0@;
        assert(reads@[k] is Failed);
    } else if 0 <= i < r->Ok_0@.len() {
        let rows = rows_of_tables(reads@, reads@.len() as int, order);
        assert(row_matches(r->Ok_0@[i], rows[i]));
    }
}

/// A machine keeps the first octet of a word last or first; the word 1 shows
/// which.
pub proof fn law_byte_orders(o: [u8; 4])
    ensures
        shows_order(o, ByteOrder::Little) <==> o@ == seq![1u8, 0, 0, 0],
        shows_order(o, ByteOrder::Big) <==> o@ == seq![0u8, 0, 0, 1],
{
    assert(o@.len() == 4);
    if shows_order(o, ByteOrder::Little) {
        assert(o@ =~= seq![1u8, 0, 0, 0]);
    }
    if shows_order(o, ByteOrder::Big) {
        assert(o@ =~= seq![0u8, 0, 0, 1]);
    }
}

/// A poller tells each connection that is new and each that is gone, and then
/// knows those of the new reading, each once.
pub proof fn law_pollers_tell_changes(
    p: &mut ConnPoller,
    rows: Vec<ConnectionSnapshot>,
    opts: NetworkMonitorOpts,
    r: Vec<ConnChange>,
    i: int,
    k: ConnKey,
)
    requires
        old(p).wf(),
        call_ensures(ConnPoller::observe, (p, &rows, &opts), r),
        0 <= i < rows@.len(),
        rows@.len() <= usize::MAX,
    ensures
        r@.contains(
            ConnChange::Opened { index: i as usize, direction: ConnectionDirection::Inbound },
        ) <==> !old(p)@.contains(rows@[i].key()) && opts.inbound && rows@[i].state is Some
            && rows@[i].state->0@ == "0A"@,
        r@.contains(
            ConnChange::Opened { index: i as usize, direction: ConnectionDirection::Outbound },
        ) <==> !old(p)@.contains(rows@[i].key()) && opts.outbound && !(rows@[i].state is Some
            && rows@[i].state->0@ == "0A"@),
        r@.contains(ConnChange::Closed { key: k }) <==> old(p)@.contains(k) && forall|j: int|
            0 <= j < rows@.len() ==> (#[trigger] rows@[j]).key() != k,
        final(p)@.contains(rows@[i].key()),
        final(p)@.no_duplicates(),
        final(p)@.contains(k) ==> exists|j: int| 0 <= j < rows@.len() && (#[trigger] rows@[j]).key() == k,
{
    crate::network_monitor::law_changes_are_exact(old(p)@, rows@, opts);
    let keys = keys_of_rows(rows@);
    assert forall|j: int| 0 <= j < rows@.len() implies keys[j] == (#[trigger] rows@[j]).key() by {}
    lemma_keys_stay(keys);
    assert(keys[i] == rows@[i].key());
    assert(keys.contains(rows@[i].key()));
    if keys.contains(k) {
        let j = choose|j: int| 0 <= j < keys.len() && keys[j] == k;
        assert(rows@[j].key() == k);
    } else {
        assert forall|j: int| 0 <= j < rows@.len() implies (#[trigger] rows@[j]).key() != k by {
            assert(keys[j] == rows@[j].key());
            assert(keys.contains(keys[j]));
        }
    }
}

proof fn lemma_keys_stay(s: Seq<ConnKey>)
    ensures
        forall|k: ConnKey| #[trigger] distinct(s).contains(k) <==> s.contains(k),
    decreases s.len(),
{
    if s.len() > 0 {
        let front = s.drop_last();
        lemma_keys_stay(front);
        let d = distinct(front);
        let all = distinct(s);
        assert forall|k: ConnKey| #[trigger] all.contains(k) <==> s.contains(k) by {
            if s.contains(k) {
                let i = choose|i: int| 0 <= i < s.len() && s[i] == k;
                if i < front.len() {
                    assert(front[i] == k);
                    assert(d.contains(k));
                    let j = choose|j: int| 0 <= j < d.len() && d[j] == k;
                    assert(all[j] == k);
                } else if !d.contains(k) {
                    assert(all.last() == k);
                }
            }
            if all.contains(k) {
                let j = choose|j: int| 0 <= j < all.len() && all[j] == k;
                if j < d.len() {
                    assert(d[j] == k);
                    assert(d.contains(k));
                    let i = choose|i: int| 0 <= i < front.len() && front[i] == k;
                    assert(s[i] == k);
                } else {
                    assert(s.last() == k);
                }
            }
        }
    }
}

/// A poller begins with what the first reading showed, or with nothing.
pub proof fn law_pollers_begin(
    rows: Vec<ConnectionSnapshot>,
    fault: NetworkMonitorError,
    a: ConnPoller,
    b: ConnPoller,
    i: int,
)
    requires
        call_ensures(
            ConnPoller::start,
            (&Ok::<Vec<ConnectionSnapshot>, NetworkMonitorError>(rows),),
            a,
        ),
        call_ensures(
            ConnPoller::start,
            (&Err::<Vec<ConnectionSnapshot>, NetworkMonitorError>(fault),),
            b,
        ),
        0 <= i < rows@.len(),
    ensures
        a@.contains(rows@[i].key()),
        a@.no_duplicates(),
        b@.len() == 0,
{
    let keys = keys_of_rows(rows@);
    lemma_keys_stay(keys);
    assert(keys[i] == rows@[i].key());
    assert(keys.contains(keys[i]));
}

/// The four tables are those of TCP and UDP, each for either family of
/// addresses, and each is read as what it is.
pub proof fn law_tables(r: [(&'static str, TransportProtocol, bool); 4], i: int)
    requires
        call_ensures(proc_net_tables, (), r),
        0 <= i < 4,
    ensures
        r[i].1 == table_protocol(i),
        r[i].2 == table_is_v6(i),
        r[0].0@ == "tcp"@ && r[1].0@ == "tcp6"@ && r[2].0@ == "udp"@ && r[3].0@ == "udp6"@,
        table_protocol(i) == TransportProtocol::Udp <==> i >= 2,
        table_is_v6(i) <==> i % 2 == 1,
{
}

/// Only a listening socket, in state `0A`, is inbound.
pub proof fn law_direction_of_a_row(c: ConnectionSnapshot, d: ConnectionDirection)
    requires
        call_ensures(direction_for, (&c,), d),
    ensures
        d == ConnectionDirection::Inbound <==> c.state is Some && c.state->0@ == "0A"@,
{
}

/// A connection that is told to be new has a direction that was asked for.
pub proof fn law_only_wanted_directions_are_told(
    last: Seq<ConnKey>,
    rows: Seq<ConnectionSnapshot>,
    opts: NetworkMonitorOpts,
    i: int,
    d: ConnectionDirection,
)
    requires
        rows.len() <= usize::MAX,
        0 <= i < rows.len(),
    ensures
        changes(last, rows, opts).contains(ConnChange::Opened { index: i as usize, direction: d })
            ==> (if d == ConnectionDirection::Inbound {
            opts.inbound
        } else {
            opts.outbound
        }),
        opts.inbound && opts.outbound && !last.contains(rows[i].key()) ==> changes(
            last,
            rows,
            opts,
        ).contains(ConnChange::Opened { index: i as usize, direction: rows[i].direction() }),
{
    crate::network_monitor::law_changes_are_exact(last, rows, opts);
}

/// An event of a new connection says of it what the row says.
pub proof fn law_new_connections_are_told_as_they_are(
    c: ConnectionSnapshot,
    d: ConnectionDirection,
    now: Timestamp,
    ev: NetworkEvent,
)
    requires
        call_ensures(connect_event, (&c, d, now), ev),
    ensures
        ev is Connect,
        ev->Connect_observed_at == now,
        ev->direction == d,
        ev->Connect_protocol == c.protocol,
        ev->Connect_local_addr == c.local_addr,
        ev->Connect_local_port == c.local_port,
        ev->Connect_remote_addr == c.remote_addr,
        ev->Connect_remote_port == c.remote_port,
        ev->Connect_pid == c.pid,
        ev->process_name == c.process_name,
{
}

/// An event of a connection that is gone says which one it was.
pub proof fn law_closed_connections_are_told_as_they_were(
    c: ConnectionSnapshot,
    k: ConnKey,
    now: Timestamp,
    ev: NetworkEvent,
)
    requires
        call_ensures(key_of, (&c,), k),
        call_ensures(disconnect_event, (&k, now), ev),
    ensures
        ev is Disconnect,
        ev->Disconnect_observed_at == now,
        ev->Disconnect_protocol == c.protocol,
        ev->Disconnect_local_addr == c.local_addr,
        ev->Disconnect_local_port == c.local_port,
        ev->Disconnect_remote_addr == c.remote_addr,
        ev->Disconnect_remote_port == c.remote_port,
        ev->Disconnect_pid is None,
{
}

// ---------------------------------------------------------------------
// Sampling
// ---------------------------------------------------------------------

/// The first four events of a UDP flow in a second are let through and the
/// fifth is not; other traffic always is.
pub proof fn law_four_events_a_second(
    pre: UdpSampler,
    ev: NetworkEvent,
    post: UdpSampler,
    passed: bool,
)
    requires
        sample_step(pre, ev, post, passed),
    ensures
        !(ev is Connect) || ev.key().protocol == TransportProtocol::Tcp ==> passed && post == pre,
        ev is Connect && ev.key().protocol == TransportProtocol::Udp ==> {
            &&& passed <==> pre.count(ev.key(), ev.at().secs) < 4
            &&& post.count(ev.key(), ev.at().secs) == pre.count(ev.key(), ev.at().secs) + 1
        },
{
}

/// An event of one flow, or of another second of the last five, leaves the
/// counts of the others alone.
pub proof fn law_flows_do_not_share_counts(
    pre: UdpSampler,
    ev: NetworkEvent,
    post: UdpSampler,
    passed: bool,
    flow: ConnKey,
    second: i64,
)
    requires
        sample_step(pre, ev, post, passed),
        flow != ev.key() || second != ev.at().secs,
        second >= ev.at().secs - 5,
    ensures
        post.count(flow, second) == pre.count(flow, second),
{
}

// ---------------------------------------------------------------------
// What is published
// ---------------------------------------------------------------------

/// A published connection says what was seen, under names that tell the
/// directions and the protocols apart.
pub proof fn law_published_connections(ev: NetworkEvent, r: Option<NetworkConnectionPayload>)
    requires
        ev.at().valid(),
        call_ensures(emit_network_event, (ev,), r),
    ensures
        r is Some <==> ev is Connect,
        r matches Some(p) ==> {
            &&& p.pid == ev->Connect_pid
            &&& opt_view(p.process_name) == opt_view(ev->process_name)
            &&& p.direction@ == "inbound"@ <==> ev->direction == ConnectionDirection::Inbound
            &&& p.direction@ == "outbound"@ <==> ev->direction == ConnectionDirection::Outbound
            &&& p.protocol@ == "tcp"@ <==> ev->Connect_protocol == TransportProtocol::Tcp
            &&& p.protocol@ == "udp"@ <==> ev->Connect_protocol == TransportProtocol::Udp
            &&& p.local_addr@ == ev->Connect_local_addr.text()
            &&& p.local_port == ev->Connect_local_port
            &&& p.remote_addr@ == ev->Connect_remote_addr.text()
            &&& p.remote_port == ev->Connect_remote_port
            &&& p.observed_at@ == crate::clock::rfc3339_text(
                ev->Connect_observed_at.secs as int,
                ev->Connect_observed_at.nanos as int,
            )
        },
{
    reveal_strlit("inbound");
    reveal_strlit("outbound");
    reveal_strlit("tcp");
    reveal_strlit("udp");
    match r {
        Some(p) => {
            assert(published(ev) == Some(p@));
            assert("tcp"@[0] != "udp"@[0]);
            assert("inbound"@[0] != "outbound"@[0]);
        },
        None => {},
    }
}

/// A published query says what was asked and answered.
pub proof fn law_published_queries(ev: DnsEvent, r: DnsQueryPayload, i: int)
    requires
        ev.observed_at.valid(),
        call_ensures(emit_dns_event, (ev,), r),
        0 <= i < ev.response_ips@.len(),
    ensures
        r.pid == ev.pid,
        opt_view(r.process_name) == opt_view(ev.process_name),
        r.query_name@ == ev.query_name@,
        r.query_type@ == ev.query_type.name(),
        r.response_ips@.len() == ev.response_ips@.len(),
        r.response_ips@[i]@ == ev.response_ips@[i].text(),
{
    assert(r@.response_ips == views(r.response_ips@));
    assert(views(r.response_ips@)[i] == r.response_ips@[i]@);
    assert(views(r.response_ips@).len() == r.response_ips@.len());
}

/// No two record types share a name or a number, and the names are those of
/// the records.
pub proof fn law_record_types_differ(a: DnsQueryType, b: DnsQueryType)
    ensures
        a.code_spec() == b.code_spec() <==> a == b,
        a.name() == b.name() <==> a == b,
        a.name() == "A"@ <==> a == DnsQueryType::A,
        a.name() == "AAAA"@ <==> a == DnsQueryType::Aaaa,
        a.name() == "CNAME"@ <==> a == DnsQueryType::Cname,
        a.name() == "MX"@ <==> a == DnsQueryType::Mx,
        a.name() == "TXT"@ <==> a == DnsQueryType::Txt,
        a.name() == "NS"@ <==> a == DnsQueryType::Ns,
        a.name() == "PTR"@ <==> a == DnsQueryType::Ptr,
        a.name() == "SRV"@ <==> a == DnsQueryType::Srv,
        a.name() == "SOA"@ <==> a == DnsQueryType::Soa,
        a.name() == "ANY"@ <==> a == DnsQueryType::Any,
        a.name() == "OTHER"@ <==> a == DnsQueryType::Other,
{
    lemma_record_names();
}

proof fn lemma_record_names()
    ensures
        "A"@.len() == 1 && "A"@[0] == 'A',
        "AAAA"@.len() == 4,
        "CNAME"@.len() == 5 && "CNAME"@[0] == 'C',
        "MX"@.len() == 2 && "MX"@[0] == 'M',
        "TXT"@.len() == 3 && "TXT"@[0] == 'T',
        "NS"@.len() == 2 && "NS"@[0] == 'N',
        "PTR"@.len() == 3 && "PTR"@[0] == 'P',
        "SRV"@.len() == 3 && "SRV"@[0] == 'S' && "SRV"@[1] == 'R',
        "SOA"@.len() == 3 && "SOA"@[0] == 'S' && "SOA"@[1] == 'O',
        "ANY"@.len() == 3 && "ANY"@[0] == 'A',
        "OTHER"@.len() == 5 && "OTHER"@[0] == 'O',
{
    reveal_strlit("A");
    reveal_strlit("AAAA");
    reveal_strlit("CNAME");
    reveal_strlit("MX");
    reveal_strlit("TXT");
    reveal_strlit("NS");
    reveal_strlit("PTR");
    reveal_strlit("SRV");
    reveal_strlit("SOA");
    reveal_strlit("ANY");
    reveal_strlit("OTHER");
}

// ---------------------------------------------------------------------
// Addresses as text
// ---------------------------------------------------------------------

proof fn lemma_plain_numeral(n: nat, radix: nat, c: char)
    requires
        2 <= radix <= 16,
        digit(c, radix) is None,
        c != '+',
    ensures
        !numeral(n, radix).contains(c),
{
    let s = numeral(n, radix);
    law_written_numbers_are_read(n, radix, n);
    if s.contains(c) {
        let i = choose|i: int| 0 <= i < s.len() && s[i] == c;
        law_only_digits_are_read(s, radix, n, i);
    }
}

/// An IPv4 address is its four octets in decimal, with dots between.
pub proof fn law_dotted_addresses(a: u8, b: u8, c: u8, d: u8)
    ensures
        pieces_of(IpAddr::V4(a, b, c, d).text(), '.') == seq![
            numeral(a as nat, 10),
            numeral(b as nat, 10),
            numeral(c as nat, 10),
            numeral(d as nat, 10),
        ],
{
    let v = seq![
        numeral(a as nat, 10),
        numeral(b as nat, 10),
        numeral(c as nat, 10),
        numeral(d as nat, 10),
    ];
    assert forall|i: int| 0 <= i < v.len() implies !(#[trigger] v[i]).contains('.') by {
        lemma_plain_numeral(a as nat, 10, '.');
        lemma_plain_numeral(b as nat, 10, '.');
        lemma_plain_numeral(c as nat, 10, '.');
        lemma_plain_numeral(d as nat, 10, '.');
    }
    law_pieces_come_apart(v, '.');
    let v1 = v.drop_first();
    let v2 = v1.drop_first();
    let v3 = v2.drop_first();
    assert(put_together(v3, '.') == v[3]);
    assert(put_together(v2, '.') =~= v[2] + seq!['.'] + v[3]);
    assert(put_together(v1, '.') =~= v[1] + seq!['.'] + (v[2] + seq!['.'] + v[3]));
    assert(put_together(v, '.') =~= dotted(a, b, c, d));
}

proof fn lemma_runs(s: Seq<u16>, i: int)
    requires
        0 <= i <= s.len(),
    ensures
        i + zero_run(s, i) <= s.len(),
        forall|k: int| i <= k < i + zero_run(s, i) ==> #[trigger] s[k] == 0,
        i + zero_run(s, i) < s.len() ==> s[i + zero_run(s, i)] != 0,
    decreases s.len() - i,
{
    if i < s.len() && s[i] == 0 {
        lemma_runs(s, i + 1);
    }
}

proof fn lemma_best(s: Seq<u16>, i: int)
    requires
        0 <= i < s.len(),
    ensures
        i <= best_zero(s, i) < s.len(),
        forall|k: int| i <= k < s.len() ==> #[trigger] zero_run(s, k) <= zero_run(s, best_zero(s, i)),
        forall|k: int|
            i <= k < best_zero(s, i) ==> #[trigger] zero_run(s, k) < zero_run(s, best_zero(s, i)),
    decreases s.len() - i,
{
    if i + 1 < s.len() {
        lemma_best(s, i + 1);
    }
}

/// An IPv6 address that is not IPv4-mapped is written with its segments in
/// hexadecimal; where two or more zeros follow one another, the first longest
/// run of them, and only that, becomes a double colon.
pub proof fn law_ipv6_text(s: Seq<u16>)
    requires
        s.len() == 8,
        !(s[0] == 0 && s[1] == 0 && s[2] == 0 && s[3] == 0 && s[4] == 0 && s[5] == 0xffff),
    ensures
        (forall|k: int| 0 <= k < 7 ==> !(#[trigger] s[k] == 0 && s[k + 1] == 0)) ==> v6_text(s)
            == colon_hex(s),
        (exists|k: int| 0 <= k < 7 && #[trigger] s[k] == 0 && s[k + 1] == 0) ==> exists|z: int, n: int|
            {
                &&& 0 <= z
                &&& n >= 2
                &&& z + n <= 8
                &&& (forall|k: int| z <= k < z + n ==> #[trigger] s[k] == 0)
                &&& (z + n < 8 ==> s[z + n] != 0)
                &&& (forall|k: int| 0 <= k < 8 ==> #[trigger] zero_run(s, k) <= n)
                &&& (forall|k: int| 0 <= k < z ==> #[trigger] zero_run(s, k) < n)
                &&& v6_text(s) == #[trigger] colon_hex(s.take(z)) + "::"@ + #[trigger] colon_hex(
                    s.skip(z + n),
                )
            },
{
    lemma_best(s, 0);
    let z = best_zero(s, 0);
    let n = zero_run(s, z) as int;
    lemma_runs(s, z);
    reveal_with_fuel(zero_run, 3);
    if forall|k: int| 0 <= k < 7 ==> !(#[trigger] s[k] == 0 && s[k + 1] == 0) {
        if n > 1 {
            assert(s[z] == 0 && s[z + 1] == 0);
        }
    }
    if exists|k: int| 0 <= k < 7 && #[trigger] s[k] == 0 && s[k + 1] == 0 {
        let k = choose|k: int| 0 <= k < 7 && #[trigger] s[k] == 0 && s[k + 1] == 0;
        assert(zero_run(s, k) >= 2);
        assert(v6_text(s) == colon_hex(s.take(z)) + "::"@ + colon_hex(s.skip(z + n)));
    }
}

/// An IPv4-mapped address ends in the dotted form of its last four octets.
pub proof fn law_mapped_addresses(a: u8, b: u8, c: u8, d: u8)
    ensures
        IpAddr::V6(0, 0, 0, 0, 0, 0xffff, (a * 256 + b) as u16, (c * 256 + d) as u16).text()
            == "::ffff:"@ + IpAddr::V4(a, b, c, d).text(),
{
    let x = IpAddr::V6(0, 0, 0, 0, 0, 0xffff, (a * 256 + b) as u16, (c * 256 + d) as u16);
    assert(v4_mapped(segments_of(x)));
}

/// Segments with colons between them come apart again.
pub proof fn law_segments_come_apart(s: Seq<u16>)
    requires
        s.len() > 0,
    ensures
        pieces_of(colon_hex(s), ':') == s.map_values(|x: u16| numeral(x as nat, 16)),
{
    let v = s.map_values(|x: u16| numeral(x as nat, 16));
    assert forall|i: int| 0 <= i < v.len() implies !(#[trigger] v[i]).contains(':') by {
        lemma_plain_numeral(s[i] as nat, 16, ':');
    }
    law_pieces_come_apart(v, ':');
    lemma_colon_hex(s);
}

proof fn lemma_colon_hex(s: Seq<u16>)
    requires
        s.len() > 0,
    ensures
        colon_hex(s) == put_together(s.map_values(|x: u16| numeral(x as nat, 16)), ':'),
    decreases s.len(),
{
    let v = s.map_values(|x: u16| numeral(x as nat, 16));
    if s.len() == 1 {
        assert(v[0] == numeral(s[0] as nat, 16));
    } else {
        lemma_colon_hex(s.drop_last());
        let w = s.drop_last().map_values(|x: u16| numeral(x as nat, 16));
        assert(w =~= v.drop_last());
        lemma_put_last(v, ':');
    }
}

proof fn lemma_put_last(v: Seq<Seq<char>>, c: char)
    requires
        v.len() >= 2,
    ensures
        put_together(v, c) == put_together(v.drop_last(), c) + seq![c] + v.last(),
    decreases v.len(),
{
    if v.len() == 2 {
        assert(put_together(v.drop_first(), c) == v[1]);
        assert(put_together(v.drop_last(), c) == v[0]);
    } else {
        lemma_put_last(v.drop_first(), c);
        assert(v.drop_first().drop_last() =~= v.drop_last().drop_first());
        assert(put_together(v, c) =~= put_together(v.drop_last(), c) + seq![c] + v.last());
    }
}

// ---------------------------------------------------------------------
// Keys of events
// ---------------------------------------------------------------------

spec fn pow256(len: nat) -> int
    decreases len,
{
    if len == 0 {
        1
    } else {
        256 * pow256((len - 1) as nat)
    }
}

proof fn lemma_octets_differ(n: int, m: int, len: nat)
    requires
        0 <= n < pow256(len),
        0 <= m < pow256(len),
        octets(n, len) == octets(m, len),
    ensures
        n == m,
    decreases len,
{
    if len > 0 {
        let k = (len - 1) as nat;
        let p = octets(n, len);
        let q = octets(m, len);
        assert(p[0] == (n % 256) as u8 && q[0] == (m % 256) as u8);
        assert(p.drop_first() =~= octets(n / 256, k));
        assert(q.drop_first() =~= octets(m / 256, k));
        lemma_octets_differ(n / 256, m / 256, k);
    }
}

pub(crate) proof fn lemma_octets_len(n: int, len: nat)
    ensures
        octets(n, len).len() == len,
    decreases len,
{
    if len > 0 {
        lemma_octets_len(n / 256, (len - 1) as nat);
    }
}

pub(crate) proof fn lemma_split<A>(a: Seq<A>, b: Seq<A>, c: Seq<A>, d: Seq<A>)
    requires
        a + b == c + d,
        a.len() == c.len(),
    ensures
        a == c,
        b == d,
{
    let s = a + b;
    assert(a =~= s.take(a.len() as int));
    assert(c =~= (c + d).take(c.len() as int));
    assert(b =~= s.skip(a.len() as int));
    assert(d =~= (c + d).skip(c.len() as int));
}

pub(crate) proof fn lemma_process_octets(p: u32, q: u32)
    requires
        octets(p as int, 4) == octets(q as int, 4),
    ensures
        p == q,
{
    reveal_with_fuel(pow256, 5);
    lemma_octets_differ(p as int, q as int, 4);
}

proof fn lemma_port(p: u16, q: u16)
    requires
        octets(p as int, 2) == octets(q as int, 2),
    ensures
        p == q,
{
    reveal_with_fuel(pow256, 3);
    lemma_octets_differ(p as int, q as int, 2);
}

spec fn eight(a: u16, b: u16, c: u16, d: u16, e: u16, f: u16, g: u16, h: u16) -> Seq<u8> {
    seq![6u8] + octets(a as int, 2) + octets(b as int, 2) + octets(c as int, 2) + octets(d as int, 2)
        + octets(e as int, 2) + octets(f as int, 2) + octets(g as int, 2) + octets(h as int, 2)
}

proof fn lemma_addr(a: IpAddr, x: Seq<u8>, b: IpAddr, y: Seq<u8>)
    requires
        addr_octets(a) + x == addr_octets(b) + y,
    ensures
        a == b,
        x == y,
{
    let s = addr_octets(a) + x;
    let t = addr_octets(b) + y;
    assert forall|n: int| #[trigger] octets(n, 2).len() == 2 by {
        lemma_octets_len(n, 2);
    }
    match (a, b) {
        (IpAddr::V4(a1, a2, a3, a4), IpAddr::V4(b1, b2, b3, b4)) => {
            lemma_split(addr_octets(a), x, addr_octets(b), y);
            let p = addr_octets(a);
            assert(p[1] == a1 && p[2] == a2 && p[3] == a3 && p[4] == a4);
            let q = addr_octets(b);
            assert(q[1] == b1 && q[2] == b2 && q[3] == b3 && q[4] == b4);
        },
        (IpAddr::V6(a1, a2, a3, a4, a5, a6, a7, a8), IpAddr::V6(b1, b2, b3, b4, b5, b6, b7, b8)) => {
            lemma_split(addr_octets(a), x, addr_octets(b), y);
            let p = addr_octets(a);
            let q = addr_octets(b);
            assert(p.subrange(1, 3) =~= octets(a1 as int, 2));
            assert(p.subrange(3, 5) =~= octets(a2 as int, 2));
            assert(p.subrange(5, 7) =~= octets(a3 as int, 2));
            assert(p.subrange(7, 9) =~= octets(a4 as int, 2));
            assert(p.subrange(9, 11) =~= octets(a5 as int, 2));
            assert(p.subrange(11, 13) =~= octets(a6 as int, 2));
            assert(p.subrange(13, 15) =~= octets(a7 as int, 2));
            assert(p.subrange(15, 17) =~= octets(a8 as int, 2));
            assert(q.subrange(1, 3) =~= octets(b1 as int, 2));
            assert(q.subrange(3, 5) =~= octets(b2 as int, 2));
            assert(q.subrange(5, 7) =~= octets(b3 as int, 2));
            assert(q.subrange(7, 9) =~= octets(b4 as int, 2));
            assert(q.subrange(9, 11) =~= octets(b5 as int, 2));
            assert(q.subrange(11, 13) =~= octets(b6 as int, 2));
            assert(q.subrange(13, 15) =~= octets(b7 as int, 2));
            assert(q.subrange(15, 17) =~= octets(b8 as int, 2));
            lemma_port(a1, b1);
            lemma_port(a2, b2);
            lemma_port(a3, b3);
            lemma_port(a4, b4);
            lemma_port(a5, b5);
            lemma_port(a6, b6);
            lemma_port(a7, b7);
            lemma_port(a8, b8);
        },
        (IpAddr::V4(..), IpAddr::V6(..)) => {
            assert(s[0] == 4 && t[0] == 6);
        },
        (IpAddr::V6(..), IpAddr::V4(..)) => {
            assert(s[0] == 6 && t[0] == 4);
        },
    }
}

pub(crate) proof fn lemma_tenths(a: Timestamp, b: Timestamp)
    requires
        a.valid(),
        b.valid(),
        tenth_octets(a) == tenth_octets(b),
    ensures
        tenth(a) == tenth(b),
{
    assert(pow256(8) == 0x1_0000_0000_0000_0000) by {
        reveal_with_fuel(pow256, 9);
    }
    lemma_tenth_range(a);
    lemma_tenth_range(b);
    let n = if tenth(a) < 0 {
        tenth(a) + 0x1_0000_0000_0000_0000
    } else {
        tenth(a)
    };
    let m = if tenth(b) < 0 {
        tenth(b) + 0x1_0000_0000_0000_0000
    } else {
        tenth(b)
    };
    lemma_octets_differ(n, m, 8);
}

proof fn lemma_tenth_range(a: Timestamp)
    requires
        a.valid(),
    ensures
        -0x4000_0000_0000_0000 < tenth(a) < 0x4000_0000_0000_0000,
{
}

/// Only repeated sightings are taken for one: two events with one identity
/// are of one kind, of one connection and of one tenth of a second.
pub proof fn law_different_sightings_differ(a: NetworkEvent, b: NetworkEvent)
    requires
        a.at().valid(),
        b.at().valid(),
        connection_identity(a) == connection_identity(b),
    ensures
        a is Connect <==> b is Connect,
        a.key() == b.key(),
        tenth(a.at()) == tenth(b.at()),
{
    let p = connection_identity(a);
    let q = connection_identity(b);
    assert(p[0] == if a is Connect {
        0u8
    } else {
        1u8
    });
    assert(q[0] == if b is Connect {
        0u8
    } else {
        1u8
    });
    assert(p.drop_first() =~= sighting_octets(a.key(), a.at()));
    assert(q.drop_first() =~= sighting_octets(b.key(), b.at()));
    lemma_sightings(a.key(), a.at(), b.key(), b.at());
}

proof fn lemma_chain(x: u8, a: Seq<u8>, b: Seq<u8>, c: Seq<u8>, d: Seq<u8>, e: Seq<u8>)
    ensures
        (seq![x] + a + b + c + d + e)[0] == x,
        (seq![x] + a + b + c + d + e).drop_first() == a + (b + (c + (d + e))),
{
    assert((seq![x] + a + b + c + d + e).drop_first() =~= a + (b + (c + (d + e))));
}

proof fn lemma_sightings(k: ConnKey, s: Timestamp, l: ConnKey, t: Timestamp)
    requires
        s.valid(),
        t.valid(),
        sighting_octets(k, s) == sighting_octets(l, t),
    ensures
        k == l,
        tenth(s) == tenth(t),
{
    reveal(sighting_octets);
    lemma_octets_len(k.local_port as int, 2);
    lemma_octets_len(l.local_port as int, 2);
    lemma_octets_len(k.remote_port as int, 2);
    lemma_octets_len(l.remote_port as int, 2);
    let p = sighting_octets(k, s);
    let q = sighting_octets(l, t);
    let k4 = octets(k.remote_port as int, 2) + tenth_octets(s);
    let l4 = octets(l.remote_port as int, 2) + tenth_octets(t);
    let k3 = addr_octets(k.remote_addr) + k4;
    let l3 = addr_octets(l.remote_addr) + l4;
    let k2 = octets(k.local_port as int, 2) + k3;
    let l2 = octets(l.local_port as int, 2) + l3;
    let k1 = addr_octets(k.local_addr) + k2;
    let l1 = addr_octets(l.local_addr) + l2;
    lemma_chain(
        p[0],
        addr_octets(k.local_addr),
        octets(k.local_port as int, 2),
        addr_octets(k.remote_addr),
        octets(k.remote_port as int, 2),
        tenth_octets(s),
    );
    lemma_chain(
        q[0],
        addr_octets(l.local_addr),
        octets(l.local_port as int, 2),
        addr_octets(l.remote_addr),
        octets(l.remote_port as int, 2),
        tenth_octets(t),
    );
    lemma_addr(k.local_addr, k2, l.local_addr, l2);
    lemma_split(octets(k.local_port as int, 2), k3, octets(l.local_port as int, 2), l3);
    lemma_port(k.local_port, l.local_port);
    lemma_addr(k.remote_addr, k4, l.remote_addr, l4);
    lemma_split(
        octets(k.remote_port as int, 2),
        tenth_octets(s),
        octets(l.remote_port as int, 2),
        tenth_octets(t),
    );
    lemma_port(k.remote_port, l.remote_port);
    lemma_tenths(s, t);
}

/// A tenth of a second holds the moments of a hundred milliseconds.
pub proof fn law_tenths_of_seconds(t: Timestamp)
    requires
        t.valid(),
        t.secs >= 0,
    ensures
        tenth(t) * 100 <= t.millis() < tenth(t) * 100 + 100,
        t.nanos < 1_000_000_000 ==> tenth(t) / 10 == t.secs,
{
}

/// The key of an event is the hash of its identity, and of nothing less.
pub proof fn law_keys_are_hashes(n: NetworkEvent, d: DnsEvent, a: u64, b: u64)
    requires
        n.at().valid(),
        d.observed_at.valid(),
        call_ensures(crate::network_module::connection_dedup_key, (&n,), a),
        call_ensures(crate::network_module::dns_dedup_key, (&d,), b),
    ensures
        a == DefaultHasher::spec_finish(seq![connection_identity(n)]),
        b == DefaultHasher::spec_finish(seq![dns_identity(d)]),
        connection_key(n) == a,
        crate::network_module::dns_key(d) == b,
{
}

/// Only repeated queries are taken for one: two queries with one identity are
/// for one name and one type, of one tenth of a second.
pub proof fn law_different_queries_differ(a: DnsEvent, b: DnsEvent)
    requires
        a.observed_at.valid(),
        b.observed_at.valid(),
        dns_identity(a) == dns_identity(b),
    ensures
        vstd::utf8::encode_utf8(a.query_name@) == vstd::utf8::encode_utf8(b.query_name@),
        a.query_type == b.query_type,
        tenth(a.observed_at) == tenth(b.observed_at),
{
    let p = dns_identity(a);
    let q = dns_identity(b);
    lemma_octets_len(tenth(a.observed_at), 8);
    lemma_octets_len(tenth(b.observed_at), 8);
    lemma_octets_len(tenth(a.observed_at) + 0x1_0000_0000_0000_0000, 8);
    lemma_octets_len(tenth(b.observed_at) + 0x1_0000_0000_0000_0000, 8);
    let n = p.len() as int;
    assert(p.skip(n - 8) =~= tenth_octets(a.observed_at));
    assert(q.skip(n - 8) =~= tenth_octets(b.observed_at));
    lemma_tenths(a.observed_at, b.observed_at);
    assert(p.take(n - 10) =~= vstd::utf8::encode_utf8(a.query_name@));
    assert(q.take(n - 10) =~= vstd::utf8::encode_utf8(b.query_name@));
    assert(p[n - 9] == a.query_type.code_spec());
    assert(q[n - 9] == b.query_type.code_spec());
    law_record_types_differ(a.query_type, b.query_type);
}

/// A published query has the time at which it was observed.
pub proof fn law_times_of_queries(ev: DnsEvent, r: DnsQueryPayload)
    requires
        ev.observed_at.valid(),
        call_ensures(emit_dns_event, (ev,), r),
    ensures
        r.observed_at@ == crate::clock::rfc3339_text(
            ev.observed_at.secs as int,
            ev.observed_at.nanos as int,
        ),
{
    assert(r@.observed_at == r.observed_at@);
}

/// The first event of a second forgets what is more than five seconds older,
/// and nothing later.
pub proof fn law_old_seconds_are_forgotten(
    pre: UdpSampler,
    ev: NetworkEvent,
    post: UdpSampler,
    passed: bool,
    flow: ConnKey,
    second: i64,
)
    requires
        sample_step(pre, ev, post, passed),
        ev is Connect,
        ev.key().protocol == TransportProtocol::Udp,
        second != ev.at().secs,
    ensures
        post.saw(ev.at().secs),
        pre.saw(ev.at().secs) ==> post.count(flow, second) == pre.count(flow, second) && (post.saw(
            second,
        ) <==> pre.saw(second)),
        !pre.saw(ev.at().secs) && second < ev.at().secs - 5 ==> post.count(flow, second) == 0
            && !post.saw(second),
        second >= ev.at().secs - 5 ==> post.count(flow, second) == pre.count(flow, second) && (
        post.saw(second) <==> pre.saw(second)),
{
}

/// Before the epoch tenths are counted backward, and one that has begun does
/// not count.
pub proof fn law_tenths_before_the_epoch(t: Timestamp)
    requires
        t.valid(),
        t.millis() < 0,
    ensures
        tenth(t) * 100 - 100 < t.millis() <= tenth(t) * 100,
{
}

} // verus!
