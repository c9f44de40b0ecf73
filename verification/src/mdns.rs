//! Minimal mDNS responder logic (RFC 6762, DNS-SD RFC 6763): which queries
//! in a packet concern this device, and the responses to send for them.
//!
//! An `A` query for `<hostname>.local` is answered with the device address;
//! a `PTR` or `SRV` query for `_rotctld._tcp.local` is answered with the
//! service record set (PTR, SRV, TXT and A).

use vstd::prelude::*;
use vstd::string::StringSliceAdditionalSpecFns;
use crate::http::index_of;

verus! {

pub const DNS_TYPE_A: u16 = 1;
pub const DNS_TYPE_PTR: u16 = 12;
pub const DNS_TYPE_TXT: u16 = 16;
pub const DNS_TYPE_SRV: u16 = 33;
pub const DNS_CLASS_IN: u16 = 1;
/// Class IN with the cache-flush bit.
pub const DNS_CLASS_IN_FLUSH: u16 = 0x8001;
pub const TTL_SECS: u32 = 120;
/// Size of the buffers that names and responses are built in.
pub const NAME_BUF_LEN: usize = 128;
pub const HOST_BUF_LEN: usize = 64;
pub const RESP_BUF_LEN: usize = 512;

/// ASCII lower case of one byte.
pub open spec fn lower(b: u8) -> u8 {
    if 0x41u8 <= b <= 0x5Au8 {
        (b + 32) as u8
    } else {
        b
    }
}

pub open spec fn lower_all(s: Seq<u8>) -> Seq<u8> {
    s.map_values(|b: u8| lower(b))
}

fn lower_exec(b: u8) -> (r: u8)
    ensures
        r == lower(b),
{
    if 0x41 <= b && b <= 0x5A {
        b + 32
    } else {
        b
    }
}

pub open spec fn be16(x: u16) -> Seq<u8> {
    seq![(x >> 8u16) as u8, (x & 0xff) as u8]
}

pub open spec fn be32(x: u32) -> Seq<u8> {
    seq![(x >> 24u32) as u8, ((x >> 16u32) & 0xff) as u8, ((x >> 8u32) & 0xff) as u8, (x & 0xff) as u8]
}

fn push_be16(v: &mut Vec<u8>, x: u16)
    ensures
        final(v)@ == old(v)@ + be16(x),
{
    v.push((x >> 8u16) as u8);
    v.push((x & 0xff) as u8);
    assert(final(v)@ =~= old(v)@ + be16(x));
}

fn push_be32(v: &mut Vec<u8>, x: u32)
    ensures
        final(v)@ == old(v)@ + be32(x),
{
    v.push((x >> 24u32) as u8);
    v.push(((x >> 16u32) & 0xff) as u8);
    v.push(((x >> 8u32) & 0xff) as u8);
    v.push((x & 0xff) as u8);
    assert(final(v)@ =~= old(v)@ + be32(x));
}

pub(crate) fn push_all(v: &mut Vec<u8>, s: &[u8])
    ensures
        final(v)@ == old(v)@ + s@,
{
    let mut i: usize = 0;
    while i < s.len()
        invariant
            i <= s@.len(),
            v@ == old(v)@ + s@.take(i as int),
        decreases s@.len() - i,
    {
        v.push(s[i]);
        i = i + 1;
        assert(v@ =~= old(v)@ + s@.take(i as int));
    }
    assert(s@.take(s@.len() as int) =~= s@);
}

/// `<hostname>.local` in lower case as built in a buffer of `cap` bytes:
/// the hostname cut to the buffer, and `.local` only when it still fits.
pub open spec fn spec_host_local(hostname: Seq<u8>, cap: nat) -> Seq<u8> {
    let h = lower_all(hostname);
    let l = if h.len() <= cap {
        h
    } else {
        h.take(cap as int)
    };
    if l.len() + 6 <= cap {
        l + ".local".spec_bytes()
    } else {
        l
    }
}

/// Build `<hostname>.local` in lower case within `cap` bytes.
pub fn build_host_local(hostname: &[u8], cap: usize) -> (r: Vec<u8>)
    ensures
        r@ == spec_host_local(hostname@, cap as nat),
{
    let mut r: Vec<u8> = Vec::new();
    let mut i: usize = 0;
    while i < hostname.len() && i < cap
        invariant
            i <= hostname@.len(),
            i <= cap,
            r@ == lower_all(hostname@).take(i as int),
        decreases hostname@.len() - i,
    {
        r.push(lower_exec(hostname[i]));
        i = i + 1;
        assert(r@ =~= lower_all(hostname@).take(i as int));
    }
    proof {
        let h = lower_all(hostname@);
        if h.len() <= cap {
            assert(h.take(i as int) =~= h);
        }
    }
    if cap >= 6 && i <= cap - 6 {
        push_all(&mut r, ".local".as_bytes());
    }
    r
}

/// The two names are equal when compared case-insensitively.
pub open spec fn spec_names_equal(a: Seq<u8>, b: Seq<u8>) -> bool {
    a.len() == b.len() && lower_all(a) == lower_all(b)
}

/// Case-insensitive name comparison.
pub fn names_equal(a: &[u8], b: &[u8]) -> (r: bool)
    ensures
        r == spec_names_equal(a@, b@),
{
    if a.len() != b.len() {
        return false;
    }
    let mut i: usize = 0;
    while i < a.len()
        invariant
            a@.len() == b@.len(),
            i <= a@.len(),
            forall|j: int| 0 <= j < i ==> lower(a@[j]) == lower(b@[j]),
        decreases a@.len() - i,
    {
        if lower_exec(a[i]) != lower_exec(b[i]) {
            assert(lower_all(a@)[i as int] != lower_all(b@)[i as int]);
            return false;
        }
        i = i + 1;
    }
    assert(lower_all(a@) =~= lower_all(b@));
    true
}

/// `hostname.local` as DNS labels within a 64-byte buffer: nothing when the
/// hostname label itself does not fit, the hostname label alone when
/// `local` does not fit after it.
pub open spec fn spec_host_local_dns(hostname: Seq<u8>) -> Seq<u8> {
    if hostname.len() + 1 > HOST_BUF_LEN {
        Seq::empty()
    } else if hostname.len() + 1 + 6 > HOST_BUF_LEN {
        seq![hostname.len() as u8] + hostname
    } else {
        seq![hostname.len() as u8] + hostname + seq![5u8] + "local".spec_bytes() + seq![0u8]
    }
}

/// Build `hostname.local` as DNS wire-format labels, e.g.
/// `\x14g5500-hamlib-adaptor\x05local\x00`. A hostname of exactly 57 bytes
/// would overrun the 64-byte buffer and is excluded.
pub fn build_host_local_dns(hostname: &[u8]) -> (r: Vec<u8>)
    requires
        hostname@.len() != 57,
    ensures
        r@ == spec_host_local_dns(hostname@),
{
    let mut r: Vec<u8> = Vec::new();
    if hostname.len() >= HOST_BUF_LEN {
        assert(r@ =~= Seq::<u8>::empty());
        return r;
    }
    r.push(hostname.len() as u8);
    push_all(&mut r, hostname);
    if hostname.len() + 1 + 6 > HOST_BUF_LEN {
        return r;
    }
    r.push(5);
    push_all(&mut r, "local".as_bytes());
    r.push(0);
    r
}

/// Append pre-built DNS labels to a buffer of `cap` bytes holding `buf`,
/// when they fit.
pub open spec fn spec_write_raw(buf: Seq<u8>, cap: nat, labels: Seq<u8>) -> Seq<u8> {
    if buf.len() + labels.len() > cap {
        buf
    } else {
        buf + labels
    }
}

/// Write pre-built DNS labels into a buffer of `cap` bytes, when they fit.
pub fn write_dns_name_raw(buf: &mut Vec<u8>, cap: usize, labels: &[u8])
    ensures
        final(buf)@ == spec_write_raw(old(buf)@, cap as nat, labels@),
{
    if buf.len() > cap || cap - buf.len() < labels.len() {
        return;
    }
    push_all(buf, labels);
}

/// The labels of a dotted name appended to a buffer of `cap` bytes already
/// holding `used` bytes: each label as its length and bytes while it fits,
/// then the root label when there is room; writing stops at the first
/// label that does not fit, without the root label.
pub open spec fn spec_dns_labels(used: int, cap: int, name: Seq<u8>) -> Seq<u8>
    decreases name.len(),
{
    match index_of(name, 0x2Eu8, 0) {
        Some(p) => {
            let label = name.take(p);
            if used + 1 + label.len() > cap || p < 0 || p >= name.len() {
                Seq::empty()
            } else {
                seq![label.len() as u8] + label + spec_dns_labels(
                    used + 1 + label.len(),
                    cap,
                    name.skip(p + 1),
                )
            }
        },
        None => if used + 1 + name.len() > cap {
            Seq::empty()
        } else if used + 1 + name.len() < cap {
            seq![name.len() as u8] + name + seq![0u8]
        } else {
            seq![name.len() as u8] + name
        },
    }
}

/// Write a dotted name as DNS labels into a buffer of `cap` bytes.
pub fn write_dns_name(buf: &mut Vec<u8>, cap: usize, name: &[u8])
    requires
        old(buf)@.len() <= cap,
    ensures
        final(buf)@ == old(buf)@ + spec_dns_labels(old(buf)@.len() as int, cap as int, name@),
{
    let mut rest: &[u8] = name;
    let ghost start = buf@;
    loop
        invariant
            buf@.len() <= cap,
            start == old(buf)@,
            start + spec_dns_labels(start.len() as int, cap as int, name@) == buf@
                + spec_dns_labels(buf@.len() as int, cap as int, rest@),
        decreases rest@.len(),
    {
        proof {
            crate::http::lemma_index_of_bounds(rest@, 0x2Eu8, 0);
        }
        let n = rest.len();
        let (label, next, last) = match crate::http::find_dot(rest) {
            Some(p) => (&rest[0..p], &rest[p + 1..n], false),
            None => (rest, rest, true),
        };
        let len = label.len();
        if buf.len() >= cap || cap - buf.len() - 1 < len {
            proof {
                if !last {
                    let p = index_of(rest@, 0x2Eu8, 0).unwrap();
                    assert(label@ =~= rest@.take(p));
                }
                assert(spec_dns_labels(buf@.len() as int, cap as int, rest@) =~= Seq::<u8>::empty());
                assert(buf@ + Seq::<u8>::empty() =~= buf@);
            }
            return;
        }
        let ghost before = buf@;
        buf.push(len as u8);
        push_all(buf, label);
        if last {
            if buf.len() < cap {
                buf.push(0);
            }
            assert(before + spec_dns_labels(before.len() as int, cap as int, rest@) =~= buf@);
            return;
        }
        proof {
            let p = index_of(rest@, 0x2Eu8, 0).unwrap();
            assert(label@ =~= rest@.take(p));
            assert(next@ =~= rest@.skip(p + 1));
            assert(before + spec_dns_labels(before.len() as int, cap as int, rest@) =~= buf@
                + spec_dns_labels(buf@.len() as int, cap as int, next@));
        }
        rest = next;
    }
}


/// `_rotctld._tcp.local` as DNS labels.
pub open spec fn service_name_wire() -> Seq<u8> {
    seq![8u8] + "_rotctld".spec_bytes() + seq![4u8] + "_tcp".spec_bytes() + seq![5u8]
        + "local".spec_bytes() + seq![0u8]
}

/// `G5500 HamLib._rotctld._tcp.local` as DNS labels.
pub open spec fn instance_wire() -> Seq<u8> {
    seq![12u8] + "G5500 HamLib".spec_bytes() + service_name_wire()
}

/// A response header echoing the query's transaction ID, flagged as an
/// authoritative response, with no questions.
pub open spec fn response_header(query_header: Seq<u8>, answers: u16, additional: u16) -> Seq<u8> {
    seq![query_header[0], query_header[1]] + be16(0x8400) + be16(0) + be16(answers) + be16(0) + be16(
        additional,
    )
}

/// The resource record header: type, class, TTL and data length.
pub open spec fn record_header(rtype: u16, class: u16, rdlength: u16) -> Seq<u8> {
    be16(rtype) + be16(class) + be32(TTL_SECS) + be16(rdlength)
}

/// The answer to an `A` query for `<hostname>.local`: one A record with the
/// device address.
pub open spec fn spec_a_response(query_header: Seq<u8>, hostname: Seq<u8>, ip: Seq<u8>) -> Seq<u8> {
    response_header(query_header, 1, 0) + spec_host_local_dns(hostname) + record_header(
        DNS_TYPE_A,
        DNS_CLASS_IN_FLUSH,
        4,
    ) + ip
}

/// The answer to a `PTR` query for `_rotctld._tcp.local`: the PTR record
/// naming the instance, then SRV (port and target host), an empty TXT and the
/// A record of the host.
pub open spec fn spec_service_response(
    query_header: Seq<u8>,
    hostname: Seq<u8>,
    ip: Seq<u8>,
    port: u16,
) -> Seq<u8> {
    let h = spec_host_local_dns(hostname);
    response_header(query_header, 1, 3) + ptr_record() + srv_record(h, port) + txt_record()
        + a_record(h, ip)
}

proof fn lemma_ascii_bytes(s: &str)
    requires
        vstd::string::is_ascii(s),
    ensures
        s.spec_bytes() =~= Seq::new(s@.len(), |i: int| s@[i] as u8),
{
    vstd::string::is_ascii_spec_bytes(s);
}

pub proof fn lemma_index_of_first(s: Seq<u8>, b: u8, i: int, p: int)
    requires
        0 <= i <= p < s.len(),
        s[p] == b,
        forall|j: int| i <= j < p ==> s[j] != b,
    ensures
        index_of(s, b, i) == Some(p),
    decreases p - i,
{
    if i < p {
        lemma_index_of_first(s, b, i + 1, p);
    }
}

pub proof fn lemma_index_of_none(s: Seq<u8>, b: u8, i: int)
    requires
        0 <= i <= s.len(),
        forall|j: int| i <= j < s.len() ==> s[j] != b,
    ensures
        index_of(s, b, i) is None,
    decreases s.len() - i,
{
    if i < s.len() {
        lemma_index_of_none(s, b, i + 1);
    }
}

proof fn lemma_service_name_labels(used: int)
    requires
        0 <= used <= 400,
    ensures
        spec_dns_labels(used, RESP_BUF_LEN as int, "_rotctld._tcp.local".spec_bytes())
            == service_name_wire(),
        service_name_wire().len() == 21,
{
    reveal_strlit("_rotctld._tcp.local");
    reveal_strlit("_rotctld");
    reveal_strlit("_tcp");
    reveal_strlit("local");
    lemma_ascii_bytes("_rotctld._tcp.local");
    lemma_ascii_bytes("_rotctld");
    lemma_ascii_bytes("_tcp");
    lemma_ascii_bytes("local");
    let n = "_rotctld._tcp.local".spec_bytes();
    let a = "_rotctld".spec_bytes();
    let t = "_tcp".spec_bytes();
    let l = "local".spec_bytes();
    assert(n.len() == 19);
    lemma_index_of_first(n, 0x2Eu8, 0, 8);
    let n1 = n.skip(9);
    assert(n.take(8) =~= a);
    lemma_index_of_first(n1, 0x2Eu8, 0, 4);
    let n2 = n1.skip(5);
    assert(n1.take(4) =~= t);
    assert(n2 =~= l);
    lemma_index_of_none(n2, 0x2Eu8, 0);
    assert(spec_dns_labels(used + 14, RESP_BUF_LEN as int, n2) =~= seq![5u8] + l + seq![0u8]);
    assert(spec_dns_labels(used + 9, RESP_BUF_LEN as int, n1) =~= seq![4u8] + t + seq![5u8] + l
        + seq![0u8]);
    assert(spec_dns_labels(used, RESP_BUF_LEN as int, n) =~= service_name_wire());
}

proof fn lemma_instance_len()
    ensures
        instance_wire().len() == 34,
        "G5500 HamLib".spec_bytes().len() == 12,
{
    reveal_strlit("G5500 HamLib");
    lemma_ascii_bytes("G5500 HamLib");
    lemma_service_name_labels(0);
}

proof fn lemma_host_local_dns_len(hostname: Seq<u8>)
    requires
        hostname.len() != 57,
    ensures
        spec_host_local_dns(hostname).len() <= HOST_BUF_LEN,
{
    reveal_strlit("local");
    lemma_ascii_bytes("local");
}

fn push_header(buf: &mut Vec<u8>, query_header: &[u8], answers: u16, additional: u16)
    requires
        query_header@.len() >= 2,
    ensures
        final(buf)@ == old(buf)@ + response_header(query_header@, answers, additional),
{
    buf.push(query_header[0]);
    buf.push(query_header[1]);
    push_be16(buf, 0x8400);
    push_be16(buf, 0);
    push_be16(buf, answers);
    push_be16(buf, 0);
    push_be16(buf, additional);
    assert(final(buf)@ =~= old(buf)@ + response_header(query_header@, answers, additional));
}

fn push_record_header(buf: &mut Vec<u8>, rtype: u16, class: u16, rdlength: u16)
    ensures
        final(buf)@ == old(buf)@ + record_header(rtype, class, rdlength),
{
    push_be16(buf, rtype);
    push_be16(buf, class);
    push_be32(buf, TTL_SECS);
    push_be16(buf, rdlength);
    assert(final(buf)@ =~= old(buf)@ + record_header(rtype, class, rdlength));
}

/// Build the answer to an `A` query for `<hostname>.local` (see
/// `spec_a_response`). The question itself is not repeated.
pub fn build_a_response(
    query_header: &[u8],
    _question_raw: &[u8],
    hostname: &[u8],
    ip: [u8; 4],
) -> (r: Vec<u8>)
    requires
        query_header@.len() >= 2,
        hostname@.len() != 57,
    ensures
        r@ == spec_a_response(query_header@, hostname@, ip@),
        r@.len() <= RESP_BUF_LEN,
{
    proof {
        lemma_host_local_dns_len(hostname@);
    }
    let mut buf: Vec<u8> = Vec::new();
    push_header(&mut buf, query_header, 1, 0);
    let hl = build_host_local_dns(hostname);
    write_dns_name_raw(&mut buf, RESP_BUF_LEN, hl.as_slice());
    push_record_header(&mut buf, DNS_TYPE_A, DNS_CLASS_IN_FLUSH, 4);
    push_all(&mut buf, ip.as_slice());
    assert(buf@ =~= spec_a_response(query_header@, hostname@, ip@));
    buf
}

fn push_instance_name(buf: &mut Vec<u8>)
    requires
        old(buf)@.len() <= 350,
    ensures
        final(buf)@ == old(buf)@ + instance_wire(),
{
    proof {
        lemma_instance_len();
        lemma_service_name_labels(old(buf)@.len() + 13int);
    }
    let label = "G5500 HamLib".as_bytes();
    if buf.len() < RESP_BUF_LEN {
        buf.push(label.len() as u8);
    }
    push_all(buf, label);
    write_dns_name(buf, RESP_BUF_LEN, "_rotctld._tcp.local".as_bytes());
    assert(final(buf)@ =~= old(buf)@ + instance_wire());
}

/// The PTR answer naming the service instance.
pub open spec fn ptr_record() -> Seq<u8> {
    service_name_wire() + record_header(DNS_TYPE_PTR, DNS_CLASS_IN, instance_wire().len() as u16)
        + instance_wire()
}

/// The SRV record: priority 0, weight 0, the port and the target host.
pub open spec fn srv_record(h: Seq<u8>, port: u16) -> Seq<u8> {
    instance_wire() + record_header(DNS_TYPE_SRV, DNS_CLASS_IN_FLUSH, (6 + h.len()) as u16) + be16(
        0,
    ) + be16(0) + be16(port) + h
}

/// The TXT record holding one empty string.
pub open spec fn txt_record() -> Seq<u8> {
    instance_wire() + record_header(DNS_TYPE_TXT, DNS_CLASS_IN_FLUSH, 1) + seq![0u8]
}

/// The A record of the host.
pub open spec fn a_record(h: Seq<u8>, ip: Seq<u8>) -> Seq<u8> {
    h + record_header(DNS_TYPE_A, DNS_CLASS_IN_FLUSH, 4) + ip
}

fn push_ptr_record(buf: &mut Vec<u8>)
    requires
        old(buf)@.len() <= 12,
    ensures
        final(buf)@ == old(buf)@ + ptr_record(),
{
    proof {
        lemma_instance_len();
        lemma_service_name_labels(old(buf)@.len() as int);
    }
    write_dns_name(buf, RESP_BUF_LEN, "_rotctld._tcp.local".as_bytes());
    let mut rdata: Vec<u8> = Vec::new();
    push_instance_name(&mut rdata);
    push_record_header(buf, DNS_TYPE_PTR, DNS_CLASS_IN, rdata.len() as u16);
    push_all(buf, rdata.as_slice());
    assert(final(buf)@ =~= old(buf)@ + ptr_record());
}

fn push_srv_record(buf: &mut Vec<u8>, hl: &[u8], port: u16)
    requires
        old(buf)@.len() <= 200,
        hl@.len() <= HOST_BUF_LEN,
    ensures
        final(buf)@ == old(buf)@ + srv_record(hl@, port),
{
    push_instance_name(buf);
    let mut srv: Vec<u8> = Vec::new();
    push_be16(&mut srv, 0);
    push_be16(&mut srv, 0);
    push_be16(&mut srv, port);
    write_dns_name_raw(&mut srv, RESP_BUF_LEN, hl);
    push_record_header(buf, DNS_TYPE_SRV, DNS_CLASS_IN_FLUSH, srv.len() as u16);
    push_all(buf, srv.as_slice());
    assert(final(buf)@ =~= old(buf)@ + srv_record(hl@, port));
}

fn push_txt_record(buf: &mut Vec<u8>)
    requires
        old(buf)@.len() <= 350,
    ensures
        final(buf)@ == old(buf)@ + txt_record(),
{
    push_instance_name(buf);
    push_record_header(buf, DNS_TYPE_TXT, DNS_CLASS_IN_FLUSH, 1);
    buf.push(0);
    assert(final(buf)@ =~= old(buf)@ + txt_record());
}

/// Build the service discovery answer (see `spec_service_response`). Each
/// record's data length is the length of the data that follows it.
pub fn build_service_response(
    query_header: &[u8],
    hostname: &[u8],
    ip: [u8; 4],
    port: u16,
) -> (r: Vec<u8>)
    requires
        query_header@.len() >= 2,
        hostname@.len() != 57,
    ensures
        r@ == spec_service_response(query_header@, hostname@, ip@, port),
        r@.len() <= RESP_BUF_LEN,
{
    proof {
        lemma_instance_len();
        lemma_service_name_labels(0);
        lemma_host_local_dns_len(hostname@);
    }
    let mut buf: Vec<u8> = Vec::new();
    push_header(&mut buf, query_header, 1, 3);
    push_ptr_record(&mut buf);
    let hl = build_host_local_dns(hostname);
    push_srv_record(&mut buf, hl.as_slice(), port);
    push_txt_record(&mut buf);
    write_dns_name_raw(&mut buf, RESP_BUF_LEN, hl.as_slice());
    push_record_header(&mut buf, DNS_TYPE_A, DNS_CLASS_IN_FLUSH, 4);
    push_all(&mut buf, ip.as_slice());
    assert(buf@ =~= response_header(query_header@, 1, 3) + ptr_record() + srv_record(hl@, port)
        + txt_record() + a_record(hl@, ip@));
    buf
}


/// Largest packet the responder reads.
pub const MDNS_PACKET_MAX: usize = 512;

/// A name gets a label appended as the responder collects it: a dot first
/// unless the name is empty or full, then the label in lower case, cut so
/// the name stays within 128 bytes.
pub open spec fn append_label(name: Seq<u8>, label: Seq<u8>) -> Seq<u8> {
    let n1 = if 0 < name.len() < NAME_BUF_LEN {
        name.push(0x2Eu8)
    } else {
        name
    };
    let room = NAME_BUF_LEN - n1.len();
    let copy = if label.len() <= room {
        label.len() as int
    } else {
        room
    };
    n1 + lower_all(label.take(copy))
}

/// Read the labels of a query name starting at `off`: the dotted lower-case
/// name collected so far and the offset after it. A zero byte ends the name;
/// a compression pointer (top two bits set) ends it after its two bytes; a
/// label that runs past the packet ends it after its length byte.
pub open spec fn read_labels(data: Seq<u8>, off: int, name: Seq<u8>) -> (Seq<u8>, int)
    decreases data.len() - off,
{
    if off < 0 || off >= data.len() {
        (name, off)
    } else if data[off] == 0 {
        (name, off + 1)
    } else if data[off] & 0xC0u8 == 0xC0u8 {
        (name, off + 2)
    } else if off + 1 + data[off] > data.len() {
        (name, off + 1)
    } else {
        read_labels(
            data,
            off + 1 + data[off],
            append_label(name, data.subrange(off + 1, off + 1 + data[off])),
        )
    }
}

/// The big-endian 16-bit word at `i`.
pub open spec fn be16_at(data: Seq<u8>, i: int) -> u16 {
    (data[i] as u16 * 256 + data[i + 1] as u16) as u16
}

/// The questions of a packet, read from `off` for at most `k` questions:
/// each one's name and type. Reading stops at the end of the packet.
pub open spec fn spec_questions(data: Seq<u8>, off: int, k: int) -> Seq<(Seq<u8>, u16)>
    decreases k,
{
    if k <= 0 || off < 0 || off >= data.len() {
        Seq::empty()
    } else {
        let (name, o2) = read_labels(data, off, Seq::empty());
        if o2 + 4 > data.len() {
            Seq::empty()
        } else {
            seq![(name, be16_at(data, o2))] + spec_questions(data, o2 + 4, k - 1)
        }
    }
}

/// The responses that one question calls for.
pub open spec fn answers_to(
    q: (Seq<u8>, u16),
    query_header: Seq<u8>,
    hostname: Seq<u8>,
    ip: Seq<u8>,
    port: u16,
) -> Seq<Seq<u8>> {
    if q.1 == DNS_TYPE_A && spec_names_equal(q.0, spec_host_local(hostname, HOST_BUF_LEN as nat)) {
        seq![spec_a_response(query_header, hostname, ip)]
    } else if (q.1 == DNS_TYPE_PTR || q.1 == DNS_TYPE_SRV) && spec_names_equal(
        q.0,
        "_rotctld._tcp.local".spec_bytes(),
    ) {
        seq![spec_service_response(query_header, hostname, ip, port)]
    } else {
        Seq::empty()
    }
}

/// The responses to a list of questions, in order.
pub open spec fn answers(
    qs: Seq<(Seq<u8>, u16)>,
    query_header: Seq<u8>,
    hostname: Seq<u8>,
    ip: Seq<u8>,
    port: u16,
) -> Seq<Seq<u8>>
    decreases qs.len(),
{
    if qs.len() == 0 {
        Seq::empty()
    } else {
        answers_to(qs[0], query_header, hostname, ip, port) + answers(
            qs.drop_first(),
            query_header,
            hostname,
            ip,
            port,
        )
    }
}

/// The responses to send for a received packet, given the device address
/// (`None` while it has none): nothing for a packet shorter than a DNS
/// header, a response packet, a packet without questions or while there is
/// no address; otherwise the answers to its questions, each response
/// echoing the transaction ID.
pub open spec fn spec_mdns_responses(
    data: Seq<u8>,
    hostname: Seq<u8>,
    ip: Option<Seq<u8>>,
    port: u16,
) -> Seq<Seq<u8>> {
    if data.len() < 12 || data[2] >= 0x80 || be16_at(data, 4) == 0 {
        Seq::empty()
    } else {
        match ip {
            None => Seq::empty(),
            Some(ip) => answers(
                spec_questions(data, 12, be16_at(data, 4) as int),
                data.take(12),
                hostname,
                ip,
                port,
            ),
        }
    }
}

pub open spec fn views(v: Seq<Vec<u8>>) -> Seq<Seq<u8>> {
    v.map_values(|x: Vec<u8>| x@)
}

pub open spec fn ip_view(ip: Option<[u8; 4]>) -> Option<Seq<u8>> {
    match ip {
        Some(a) => Some(a@),
        None => None,
    }
}

fn append_label_exec(name: &mut Vec<u8>, label: &[u8])
    requires
        old(name)@.len() <= NAME_BUF_LEN,
    ensures
        final(name)@ == append_label(old(name)@, label@),
        final(name)@.len() <= NAME_BUF_LEN,
{
    if name.len() > 0 && name.len() < NAME_BUF_LEN {
        name.push(0x2E);
    }
    let room = NAME_BUF_LEN - name.len();
    let copy = if label.len() <= room {
        label.len()
    } else {
        room
    };
    let ghost n1 = name@;
    let mut i: usize = 0;
    while i < copy
        invariant
            copy <= label@.len(),
            n1.len() + copy <= NAME_BUF_LEN,
            i <= copy,
            name@ == n1 + lower_all(label@.take(i as int)),
        decreases copy - i,
    {
        name.push(lower_exec(label[i]));
        i = i + 1;
        assert(name@ =~= n1 + lower_all(label@.take(i as int)));
    }
}

fn read_name(data: &[u8], start: usize) -> (r: (Vec<u8>, usize))
    requires
        data@.len() <= MDNS_PACKET_MAX,
        start <= data@.len(),
    ensures
        (r.0@, r.1 as int) == read_labels(data@, start as int, Seq::empty()),
        r.1 <= data@.len() + 2,
{
    let mut name: Vec<u8> = Vec::new();
    let mut off: usize = start;
    loop
        invariant
            data@.len() <= MDNS_PACKET_MAX,
            off <= data@.len(),
            name@.len() <= NAME_BUF_LEN,
            read_labels(data@, start as int, Seq::empty()) == read_labels(
                data@,
                off as int,
                name@,
            ),
        decreases data@.len() - off,
    {
        if off >= data.len() {
            return (name, off);
        }
        let l = data[off];
        if l == 0 {
            return (name, off + 1);
        }
        if l & 0xC0 == 0xC0 {
            return (name, off + 2);
        }
        let len = l as usize;
        if off + 1 + len > data.len() {
            return (name, off + 1);
        }
        let label = &data[off + 1..off + 1 + len];
        append_label_exec(&mut name, label);
        off = off + 1 + len;
    }
}

/// The responses to send for a received packet (see `spec_mdns_responses`).
pub fn mdns_responses(
    data: &[u8],
    hostname: &[u8],
    our_ip: Option<[u8; 4]>,
    service_port: u16,
) -> (r: Vec<Vec<u8>>)
    requires
        data@.len() <= MDNS_PACKET_MAX,
        hostname@.len() == 57 ==> spec_mdns_responses(
            data@,
            hostname@,
            ip_view(our_ip),
            service_port,
        ).len() == 0,
    ensures
        views(r@) == spec_mdns_responses(data@, hostname@, ip_view(our_ip), service_port),
        forall|i: int| 0 <= i < r@.len() ==> r@[i]@.len() <= RESP_BUF_LEN,
{
    let mut out: Vec<Vec<u8>> = Vec::new();
    let n = data.len();
    if n < 12 {
        return out;
    }
    if data[2] >= 0x80 {
        return out;
    }
    let qdcount: u16 = ((data[4] as u16) * 256 + data[5] as u16) as u16;
    if qdcount == 0 {
        return out;
    }
    let ip = match our_ip {
        Some(ip) => ip,
        None => {
            return out;
        },
    };
    let header = &data[0..12];
    assert(header@ =~= data@.take(12));
    let host_local = build_host_local(hostname, HOST_BUF_LEN);
    let service = "_rotctld._tcp.local".as_bytes();
    let ghost all = spec_questions(data@, 12, qdcount as int);
    let mut offset: usize = 12;
    let mut q: u16 = 0;
    assert(views(out@) =~= Seq::<Seq<u8>>::empty());
    while q < qdcount
        invariant
            data@.len() == n,
            n <= MDNS_PACKET_MAX,
            hostname@.len() == 57 ==> answers(all, data@.take(12), hostname@, ip@, service_port).len()
                == 0,
            header@ == data@.take(12),
            host_local@ == spec_host_local(hostname@, HOST_BUF_LEN as nat),
            service@ == "_rotctld._tcp.local".spec_bytes(),
            all == spec_questions(data@, 12, qdcount as int),
            q <= qdcount,
            offset <= n + 4,
            answers(all, data@.take(12), hostname@, ip@, service_port) == views(out@) + answers(
                spec_questions(data@, offset as int, qdcount - q),
                data@.take(12),
                hostname@,
                ip@,
                service_port,
            ),
            forall|i: int| 0 <= i < out@.len() ==> out@[i]@.len() <= RESP_BUF_LEN,
        ensures
            answers(all, data@.take(12), hostname@, ip@, service_port) == views(out@),
            forall|i: int| 0 <= i < out@.len() ==> out@[i]@.len() <= RESP_BUF_LEN,
        decreases qdcount - q,
    {
        let ghost rest = spec_questions(data@, offset as int, qdcount - q);
        assert(answers(Seq::<(Seq<u8>, u16)>::empty(), data@.take(12), hostname@, ip@, service_port)
            =~= Seq::<Seq<u8>>::empty());
        if offset >= n {
            assert(rest =~= Seq::<(Seq<u8>, u16)>::empty());
            assert(views(out@) + answers(rest, data@.take(12), hostname@, ip@, service_port)
                =~= views(out@));
            break;
        }
        let name_start = offset;
        let (name, after) = read_name(data, offset);
        if after + 4 > n {
            assert(rest =~= Seq::<(Seq<u8>, u16)>::empty());
            assert(views(out@) + answers(rest, data@.take(12), hostname@, ip@, service_port)
                =~= views(out@));
            break;
        }
        let qtype: u16 = ((data[after] as u16) * 256 + data[after + 1] as u16) as u16;
        offset = after + 4;
        let ghost question = (name@, qtype);
        assert(rest == seq![question] + spec_questions(data@, offset as int, qdcount - q - 1));
        assert(rest.drop_first() =~= spec_questions(data@, offset as int, qdcount - q - 1));
        let ghost before = views(out@);
        proof {
            assert(rest[0] == question);
            if answers_to(question, data@.take(12), hostname@, ip@, service_port).len() > 0 {
                assert(answers(rest, data@.take(12), hostname@, ip@, service_port).len() > 0);
            }
        }
        if qtype == DNS_TYPE_A && names_equal(name.as_slice(), host_local.as_slice()) {
            let resp = build_a_response(header, &data[name_start..n], hostname, ip);
            out.push(resp);
        }
        if (qtype == DNS_TYPE_PTR || qtype == DNS_TYPE_SRV) && names_equal(name.as_slice(), service) {
            let resp = build_service_response(header, hostname, ip, service_port);
            out.push(resp);
        }
        assert(views(out@) =~= before + answers_to(
            question,
            data@.take(12),
            hostname@,
            ip@,
            service_port,
        ));
        q = q + 1;
        proof {
            if q == qdcount {
                assert(spec_questions(data@, offset as int, 0) =~= Seq::<(Seq<u8>, u16)>::empty());
                assert(views(out@) + answers(
                    Seq::<(Seq<u8>, u16)>::empty(),
                    data@.take(12),
                    hostname@,
                    ip@,
                    service_port,
                ) =~= views(out@));
            }
        }
    }
    out
}


/// A response echoes the query's transaction ID and carries the flags of an
/// authoritative response.
pub open spec fn echoes_query(resp: Seq<u8>, data: Seq<u8>) -> bool {
    &&& resp.len() >= 4
    &&& resp[0] == data[0]
    &&& resp[1] == data[1]
    &&& resp[2] == 0x84u8
    &&& resp[3] == 0x00u8
}

proof fn lemma_header_prefix(qh: Seq<u8>, an: u16, ar: u16, rest: Seq<u8>)
    requires
        qh.len() >= 2,
    ensures
        echoes_query(response_header(qh, an, ar) + rest, qh),
{
    assert((0x8400u16 >> 8u16) as u8 == 0x84u8) by (bit_vector);
    assert((0x8400u16 & 0xffu16) as u8 == 0x00u8) by (bit_vector);
    let r = response_header(qh, an, ar) + rest;
    assert(r[2] == be16(0x8400)[0]);
    assert(r[3] == be16(0x8400)[1]);
}

proof fn lemma_answers_echo(
    qs: Seq<(Seq<u8>, u16)>,
    qh: Seq<u8>,
    hostname: Seq<u8>,
    ip: Seq<u8>,
    port: u16,
)
    requires
        qh.len() >= 2,
    ensures
        forall|i: int|
            0 <= i < answers(qs, qh, hostname, ip, port).len() ==> echoes_query(
                #[trigger] answers(qs, qh, hostname, ip, port)[i],
                qh,
            ),
    decreases qs.len(),
{
    if qs.len() > 0 {
        lemma_answers_echo(qs.drop_first(), qh, hostname, ip, port);
        let h = spec_host_local_dns(hostname);
        lemma_header_prefix(
            qh,
            1,
            0,
            h + record_header(DNS_TYPE_A, DNS_CLASS_IN_FLUSH, 4) + ip,
        );
        lemma_header_prefix(
            qh,
            1,
            3,
            ptr_record() + srv_record(h, port) + txt_record() + a_record(h, ip),
        );
        assert(spec_a_response(qh, hostname, ip) =~= response_header(qh, 1, 0) + (h
            + record_header(DNS_TYPE_A, DNS_CLASS_IN_FLUSH, 4) + ip));
        assert(spec_service_response(qh, hostname, ip, port) =~= response_header(qh, 1, 3) + (
        ptr_record() + srv_record(h, port) + txt_record() + a_record(h, ip)));
        let first = answers_to(qs[0], qh, hostname, ip, port);
        let rest = answers(qs.drop_first(), qh, hostname, ip, port);
        assert forall|i: int|
            0 <= i < answers(qs, qh, hostname, ip, port).len() implies echoes_query(
                #[trigger] answers(qs, qh, hostname, ip, port)[i],
                qh,
            ) by {
            if i >= first.len() {
                assert(answers(qs, qh, hostname, ip, port)[i] == rest[i - first.len()]);
            }
        }
    }
}

/// Every response the responder sends echoes the transaction ID of the
/// query it answers and is flagged as an authoritative response.
pub proof fn lemma_responses_echo_query(
    data: Seq<u8>,
    hostname: Seq<u8>,
    ip: Option<Seq<u8>>,
    port: u16,
)
    ensures
        forall|i: int|
            0 <= i < spec_mdns_responses(data, hostname, ip, port).len() ==> echoes_query(
                #[trigger] spec_mdns_responses(data, hostname, ip, port)[i],
                data,
            ),
{
    if data.len() >= 12 && data[2] < 0x80 && be16_at(data, 4) != 0 && ip is Some {
        let qh = data.take(12);
        lemma_answers_echo(
            spec_questions(data, 12, be16_at(data, 4) as int),
            qh,
            hostname,
            ip.unwrap(),
            port,
        );
    }
}

/// The address record answered for the host carries the device address as
/// its data, after the host name.
pub proof fn lemma_a_response_carries_address(qh: Seq<u8>, hostname: Seq<u8>, ip: Seq<u8>)
    requires
        ip.len() == 4,
    ensures
        spec_a_response(qh, hostname, ip).skip(spec_a_response(qh, hostname, ip).len() - 4) == ip,
{
    let r = spec_a_response(qh, hostname, ip);
    assert(r.skip(r.len() - 4) =~= ip);
}

/// Name comparison ignores letter case and is symmetric.
pub proof fn lemma_names_equal_laws(a: Seq<u8>, b: Seq<u8>)
    ensures
        spec_names_equal(a, lower_all(a)),
        spec_names_equal(a, b) == spec_names_equal(b, a),
        spec_names_equal(a, a),
{
    assert(lower_all(lower_all(a)) =~= lower_all(a));
}

} // verus!
