//! IPv4/UDP envelopes that carry audio frames through the VPN tunnel, and
//! the address and port text they are built from.

use vstd::prelude::*;
use crate::text::{
    digits_value, first_field, first_index_of, is_digit, parse_unsigned_spec, second_field,
    split_first, split_second, str_chars,
};

verus! {

/// UDP port used when the target text names none that can be read.
pub const DEFAULT_PORT: u16 = 12345;

/// Length of the IPv4 header that the envelopes carry.
pub const IP_HEADER_LEN: usize = 20;

/// Length of the IPv4 and UDP headers of an audio envelope.
pub const IP_UDP_HEADER_LEN: usize = 28;

/// Whether `p` is one octet of dotted IPv4 text: one to three ASCII digits,
/// no leading zero, value at most 255.
pub open spec fn octet_ok(p: Seq<char>) -> bool {
    1 <= p.len() <= 3 && (forall|i: int| 0 <= i < p.len() ==> is_digit(#[trigger] p[i])) && (
    p.len() > 1 ==> p[0] != '0') && digits_value(p) <= 255
}

/// The four dot-separated fields of `s`, when it has exactly four.
pub open spec fn four_fields(s: Seq<char>) -> Option<(Seq<char>, Seq<char>, Seq<char>, Seq<char>)> {
    let i0 = first_index_of(s, '.');
    let r1 = s.skip(i0 as int + 1);
    let i1 = first_index_of(r1, '.');
    let r2 = r1.skip(i1 as int + 1);
    let i2 = first_index_of(r2, '.');
    let r3 = r2.skip(i2 as int + 1);
    if i0 < s.len() && i1 < r1.len() && i2 < r2.len() && first_index_of(r3, '.') == r3.len() {
        Some((s.take(i0 as int), r1.take(i1 as int), r2.take(i2 as int), r3))
    } else {
        None
    }
}

/// What `str::parse::<Ipv4Addr>` gives for `s`, as its four octets: four
/// decimal octets separated by dots, with no octal-looking leading zeros.
pub open spec fn parse_ipv4_spec(s: Seq<char>) -> Option<Seq<u8>> {
    match four_fields(s) {
        Some((a, b, c, d)) => if octet_ok(a) && octet_ok(b) && octet_ok(c) && octet_ok(d) {
            Some(
                seq![
                    digits_value(a) as u8,
                    digits_value(b) as u8,
                    digits_value(c) as u8,
                    digits_value(d) as u8,
                ],
            )
        } else {
            None
        },
        None => None,
    }
}

/// Reads one octet of dotted IPv4 text held in `s[from..to]`.
fn parse_octet(s: &[char], from: usize, to: usize) -> (r: Option<u8>)
    requires
        from <= to <= s@.len(),
    ensures
        match r {
            Some(v) => octet_ok(s@.subrange(from as int, to as int)) && v as nat == digits_value(
                s@.subrange(from as int, to as int),
            ),
            None => !octet_ok(s@.subrange(from as int, to as int)),
        },
{
    let ghost p = s@.subrange(from as int, to as int);
    let n = to - from;
    if n < 1 || n > 3 {
        return None;
    }
    if n > 1 && s[from] == '0' {
        assert(p[0] == s@[from as int]);
        return None;
    }
    let mut acc: u32 = 0;
    let mut i: usize = from;
    while i < to
        invariant
            from <= i <= to <= s@.len(),
            to - from <= 3,
            p == s@.subrange(from as int, to as int),
            forall|j: int| 0 <= j < i - from ==> is_digit(#[trigger] p[j]),
            acc == digits_value(p.take(i - from)),
            i - from == 0 ==> acc == 0,
            i - from == 1 ==> acc < 10,
            i - from == 2 ==> acc < 100,
        decreases to - i,
    {
        let c = s[i];
        assert(p[i - from] == c);
        if !('0' <= c && c <= '9') {
            assert(!is_digit(p[i - from]));
            return None;
        }
        assert(p.take(i - from + 1).drop_last() =~= p.take(i - from));
        assert(p.take(i - from + 1).last() == c);
        acc = acc * 10 + (c as u32 - '0' as u32);
        i = i + 1;
    }
    assert(p.take(to - from) =~= p);
    if acc > 255 {
        return None;
    }
    Some(acc as u8)
}

/// The positions of the three dots of text with exactly four dot-separated
/// fields.
fn dot_positions(s: &[char]) -> (r: Option<(usize, usize, usize)>)
    ensures
        match r {
            Some((e0, e1, e2)) => e0 < e1 < e2 < s@.len() && four_fields(s@) == Some(
                (
                    s@.subrange(0, e0 as int),
                    s@.subrange(e0 + 1, e1 as int),
                    s@.subrange(e1 + 1, e2 as int),
                    s@.subrange(e2 + 1, s@.len() as int),
                ),
            ),
            None => four_fields(s@) is None,
        },
{
    let n = s.len();
    let e0 = find_dot(s, 0);
    proof {
        assert(s@.skip(0) =~= s@);
    }
    if e0 >= n {
        return None;
    }
    let e1 = find_dot(s, e0 + 1);
    if e1 >= n {
        return None;
    }
    let e2 = find_dot(s, e1 + 1);
    proof {
        assert(s@.skip(e0 + 1).skip(e1 - e0) =~= s@.skip(e1 + 1));
    }
    if e2 >= n {
        return None;
    }
    let e3 = find_dot(s, e2 + 1);
    proof {
        let s0 = s@;
        assert(s0.skip(e1 + 1).skip(e2 - e1) =~= s0.skip(e2 + 1));
        assert(s0.skip(e0 + 1).take(e1 - e0 - 1) =~= s0.subrange(e0 + 1, e1 as int));
        assert(s0.skip(e1 + 1).take(e2 - e1 - 1) =~= s0.subrange(e1 + 1, e2 as int));
        assert(s0.skip(e2 + 1) =~= s0.subrange(e2 + 1, n as int));
        assert(s0.take(e0 as int) =~= s0.subrange(0, e0 as int));
    }
    if e3 < n {
        return None;
    }
    Some((e0, e1, e2))
}

/// Reads dotted IPv4 text, as `str::parse::<Ipv4Addr>` does, into its four
/// octets.
pub fn parse_ipv4(text: &str) -> (r: Option<Vec<u8>>)
    ensures
        match r {
            Some(v) => parse_ipv4_spec(text@) == Some(v@),
            None => parse_ipv4_spec(text@) is None,
        },
{
    let cs = str_chars(text);
    let s = cs.as_slice();
    let n = s.len();
    match dot_positions(s) {
        None => None,
        Some((e0, e1, e2)) => {
            let a = parse_octet(s, 0, e0);
            let b = parse_octet(s, e0 + 1, e1);
            let c = parse_octet(s, e1 + 1, e2);
            let d = parse_octet(s, e2 + 1, n);
            match (a, b, c, d) {
                (Some(a), Some(b), Some(c), Some(d)) => {
                    let mut v: Vec<u8> = Vec::new();
                    v.push(a);
                    v.push(b);
                    v.push(c);
                    v.push(d);
                    assert(v@ =~= parse_ipv4_spec(text@).unwrap());
                    Some(v)
                },
                _ => None,
            }
        },
    }
}

/// The position of the first `.` at or after `from`, or the length.
fn find_dot(s: &[char], from: usize) -> (r: usize)
    requires
        from <= s@.len(),
    ensures
        r == from + first_index_of(s@.skip(from as int), '.'),
        from <= r <= s@.len(),
{
    let mut i = from;
    while i < s.len() && s[i] != '.'
        invariant
            from <= i <= s@.len(),
            forall|j: int| from <= j < i ==> s@[j] != '.',
        decreases s@.len() - i,
    {
        i = i + 1;
    }
    proof {
        let t = s@.skip(from as int);
        assert forall|j: int| 0 <= j < i - from implies t[j] != '.' by {
            assert(t[j] == s@[from + j]);
        }
        if i < s@.len() {
            assert(t[i - from] == s@[i as int]);
        }
        crate::text::lemma_first_index_of(t, '.', i - from);
    }
    i
}

/// The UDP port named after the first `:` of the target text, as the
/// engine reads it once at start-up, else the default port.
pub open spec fn dest_port_spec(target: Seq<char>) -> u16 {
    match second_field(target, ':') {
        Some(f) => match parse_unsigned_spec(f, 0xffff) {
            Some(v) => v as u16,
            None => DEFAULT_PORT,
        },
        None => DEFAULT_PORT,
    }
}

/// The destination port that audio envelopes carry, read from the target
/// text `host:port`.
pub fn dest_port_from_target(target: &str) -> (r: u16)
    ensures
        r == dest_port_spec(target@),
{
    let cs = str_chars(target);
    match split_second(cs.as_slice(), ':') {
        Some(f) => {
            let t = crate::text::string_from_chars(f.as_slice());
            match crate::text::parse_u16(t.as_str()) {
                Some(v) => v,
                None => DEFAULT_PORT,
            }
        },
        None => DEFAULT_PORT,
    }
}

/// The two big-endian bytes of a 16-bit value.
pub open spec fn be16(v: nat) -> Seq<u8> {
    seq![((v / 256) % 256) as u8, (v % 256) as u8]
}

/// The four source-address bytes an envelope carries: those of the local
/// tunnel address when it reads, else zeros.
pub open spec fn addr_or_zero(a: Option<Seq<u8>>) -> Seq<u8> {
    match a {
        Some(b) => b,
        None => seq![0u8, 0u8, 0u8, 0u8],
    }
}

/// The address of the tunnel gateway that audio envelopes are sent to.
pub open spec fn gateway_addr() -> Seq<u8> {
    seq![192u8, 168u8, 11u8, 1u8]
}

/// The IPv4 and UDP envelope around an audio frame `pkt`: version and
/// header length 0x45, total length, TTL 64, protocol UDP, the local
/// address (zeros when it does not read), the gateway, the local and
/// destination ports and the UDP length; checksums are left zero.
pub open spec fn vpn_audio_frame_spec(
    pkt: Seq<u8>,
    local_ip: Seq<char>,
    local_port: u16,
    dst_port: u16,
) -> Seq<u8> {
    let total = pkt.len() + 28;
    let udp = pkt.len() + 8;
    seq![0x45u8, 0u8] + be16(total) + seq![0u8, 0u8, 0u8, 0u8, 64u8, 17u8, 0u8, 0u8]
        + addr_or_zero(parse_ipv4_spec(local_ip)) + gateway_addr() + be16(local_port as nat)
        + be16(dst_port as nat) + be16(udp) + seq![0u8, 0u8] + pkt
}

/// Appends the two big-endian bytes of `v` (taken modulo 65536).
fn push_be16(out: &mut Vec<u8>, v: usize)
    ensures
        final(out)@ == old(out)@ + be16(v as nat),
{
    out.push(((v >> 8usize) & 0xffusize) as u8);
    out.push((v & 0xffusize) as u8);
    assert(((v >> 8usize) & 0xffusize) == (v / 256) % 256 && (v & 0xffusize) == v % 256)
        by (bit_vector);
    assert(final(out)@ =~= old(out)@ + be16(v as nat));
}

/// Appends eight given bytes.
fn push8(out: &mut Vec<u8>, b: [u8; 8])
    ensures
        final(out)@ == old(out)@ + b@,
{
    let ghost start = out@;
    let mut i: usize = 0;
    while i < 8
        invariant
            i <= 8,
            out@ =~= start + b@.take(i as int),
        decreases 8 - i,
    {
        out.push(b[i]);
        i = i + 1;
    }
    assert(b@.take(8) =~= b@);
}

/// Appends the four source-address bytes: those of `local_ip` when it
/// reads as IPv4, else zeros.
fn push_addr_or_zero(out: &mut Vec<u8>, local_ip: &str)
    ensures
        final(out)@ == old(out)@ + addr_or_zero(parse_ipv4_spec(local_ip@)),
{
    match parse_ipv4(local_ip) {
        Some(a) => push_all(out, a.as_slice()),
        None => {
            let ghost start = out@;
            out.push(0u8);
            out.push(0u8);
            out.push(0u8);
            out.push(0u8);
            assert(out@ =~= start + seq![0u8, 0u8, 0u8, 0u8]);
        },
    }
}

/// Appends the bytes of `b`.
fn push_all(out: &mut Vec<u8>, b: &[u8])
    ensures
        final(out)@ == old(out)@ + b@,
{
    let ghost start = out@;
    let mut i: usize = 0;
    while i < b.len()
        invariant
            i <= b@.len(),
            out@ =~= start + b@.take(i as int),
        decreases b@.len() - i,
    {
        out.push(b[i]);
        i = i + 1;
    }
    assert(b@.take(b@.len() as int) =~= b@);
}

/// Wraps an audio frame in the IPv4/UDP envelope that the tunnel carries.
pub fn vpn_audio_frame(pkt: &[u8], local_ip: &str, local_port: u16, dst_port: u16) -> (r: Vec<
    u8,
>)
    requires
        pkt@.len() + IP_UDP_HEADER_LEN <= usize::MAX,
    ensures
        r@ == vpn_audio_frame_spec(pkt@, local_ip@, local_port, dst_port),
{
    let total = IP_UDP_HEADER_LEN + pkt.len();
    let udp = 8 + pkt.len();
    let mut v: Vec<u8> = Vec::new();
    v.push(0x45u8);
    v.push(0u8);
    assert(v@ =~= seq![0x45u8, 0u8]);
    push_be16(&mut v, total);
    push8(&mut v, [0u8, 0u8, 0u8, 0u8, 64u8, 17u8, 0u8, 0u8]);
    assert([0u8, 0u8, 0u8, 0u8, 64u8, 17u8, 0u8, 0u8]@ =~= seq![0u8, 0u8, 0u8, 0u8, 64u8, 17u8, 0u8, 0u8]);
    push_addr_or_zero(&mut v, local_ip);
    let ghost before = v@;
    v.push(192u8);
    v.push(168u8);
    v.push(11u8);
    v.push(1u8);
    assert(v@ =~= before + gateway_addr());
    push_be16(&mut v, local_port as usize);
    push_be16(&mut v, dst_port as usize);
    push_be16(&mut v, udp);
    let ghost before2 = v@;
    v.push(0u8);
    v.push(0u8);
    assert(v@ =~= before2 + seq![0u8, 0u8]);
    push_all(&mut v, pkt);
    v
}

/// The addresses a ping envelope carries: the local tunnel address and the
/// target host when both read, else eight zeros.
pub open spec fn ping_addrs(local_ip: Seq<char>, target: Seq<char>) -> Seq<u8> {
    match (parse_ipv4_spec(local_ip), parse_ipv4_spec(first_field(target, ':'))) {
        (Some(s), Some(d)) => s + d,
        _ => seq![0u8, 0u8, 0u8, 0u8, 0u8, 0u8, 0u8, 0u8],
    }
}

/// The IPv4 envelope (no UDP header) around a ping frame `pkt`, addressed
/// from the local tunnel address to the host part of the target.
pub open spec fn ping_frame_spec(pkt: Seq<u8>, local_ip: Seq<char>, target: Seq<char>) -> Seq<u8> {
    seq![0x45u8, 0u8] + be16(pkt.len() + 20) + seq![0u8, 0u8, 0u8, 0u8, 64u8, 17u8, 0u8, 0u8]
        + ping_addrs(local_ip, target) + pkt
}

/// Wraps a ping frame in the IPv4 envelope that the tunnel carries.
pub fn ping_frame(pkt: &[u8], local_ip: &str, target: &str) -> (r: Vec<u8>)
    requires
        pkt@.len() + IP_HEADER_LEN <= usize::MAX,
    ensures
        r@ == ping_frame_spec(pkt@, local_ip@, target@),
{
    let total = IP_HEADER_LEN + pkt.len();
    let mut v: Vec<u8> = Vec::new();
    v.push(0x45u8);
    v.push(0u8);
    assert(v@ =~= seq![0x45u8, 0u8]);
    push_be16(&mut v, total);
    push8(&mut v, [0u8, 0u8, 0u8, 0u8, 64u8, 17u8, 0u8, 0u8]);
    assert([0u8, 0u8, 0u8, 0u8, 64u8, 17u8, 0u8, 0u8]@ =~= seq![0u8, 0u8, 0u8, 0u8, 64u8, 17u8, 0u8, 0u8]);
    let tc = str_chars(target);
    let host = split_first(tc.as_slice(), ':');
    let host_text = crate::text::string_from_chars(host.as_slice());
    let ghost before = v@;
    match (parse_ipv4(local_ip), parse_ipv4(host_text.as_str())) {
        (Some(s), Some(d)) => {
            push_all(&mut v, s.as_slice());
            push_all(&mut v, d.as_slice());
            assert(v@ =~= before + ping_addrs(local_ip@, target@));
        },
        _ => {
            push8(&mut v, [0u8, 0u8, 0u8, 0u8, 0u8, 0u8, 0u8, 0u8]);
            assert([0u8, 0u8, 0u8, 0u8, 0u8, 0u8, 0u8, 0u8]@ =~= seq![0u8, 0u8, 0u8, 0u8, 0u8, 0u8, 0u8, 0u8]);
        },
    }
    push_all(&mut v, pkt);
    v
}

/// The length fields of an audio envelope hold its true lengths: the IPv4
/// total length is the length of the whole envelope and the UDP length is
/// that length less the IPv4 header, whenever the envelope is shorter than
/// 65536 bytes.
pub proof fn lemma_audio_frame_lengths(pkt: Seq<u8>, local_ip: Seq<char>, local_port: u16, dst_port: u16)
    requires
        pkt.len() + 28 < 65536,
    ensures
        ({
            let f = vpn_audio_frame_spec(pkt, local_ip, local_port, dst_port);
            &&& f.len() == pkt.len() + 28
            &&& f[2] as nat * 256 + f[3] as nat == f.len()
            &&& f[24] as nat * 256 + f[25] as nat == f.len() - 20
        }),
{
    let f = vpn_audio_frame_spec(pkt, local_ip, local_port, dst_port);
    let a = parse_ipv4_spec(local_ip);
    match a {
        Some(b) => {
            if four_fields(local_ip) is Some {
            }
            assert(b.len() == 4);
        },
        None => {},
    }
    assert(addr_or_zero(a).len() == 4);
}

/// What follows the 28 envelope bytes of an audio envelope is the frame it
/// carries, and the ping envelope is 20 bytes of IPv4 header before its
/// frame.
pub proof fn lemma_envelope_payloads(
    pkt: Seq<u8>,
    local_ip: Seq<char>,
    local_port: u16,
    dst_port: u16,
    target: Seq<char>,
)
    ensures
        vpn_audio_frame_spec(pkt, local_ip, local_port, dst_port).len() == pkt.len() + 28,
        vpn_audio_frame_spec(pkt, local_ip, local_port, dst_port).skip(28) == pkt,
        ping_frame_spec(pkt, local_ip, target).len() == pkt.len() + 20,
        ping_frame_spec(pkt, local_ip, target).skip(20) == pkt,
{
    let a = parse_ipv4_spec(local_ip);
    assert(addr_or_zero(a).len() == 4);
    let h = seq![0x45u8, 0u8] + be16(pkt.len() + 28) + seq![0u8, 0u8, 0u8, 0u8, 64u8, 17u8, 0u8, 0u8]
        + addr_or_zero(a) + gateway_addr() + be16(local_port as nat) + be16(dst_port as nat) + be16(
        pkt.len() + 8,
    ) + seq![0u8, 0u8];
    assert(h.len() == 28);
    assert(vpn_audio_frame_spec(pkt, local_ip, local_port, dst_port) == h + pkt);
    assert((h + pkt).skip(28) =~= pkt);
    assert(ping_addrs(local_ip, target).len() == 8);
    let g = seq![0x45u8, 0u8] + be16(pkt.len() + 20) + seq![0u8, 0u8, 0u8, 0u8, 64u8, 17u8, 0u8, 0u8]
        + ping_addrs(local_ip, target);
    assert(g.len() == 20);
    assert(ping_frame_spec(pkt, local_ip, target) == g + pkt);
    assert((g + pkt).skip(20) =~= pkt);
}

} // verus!
