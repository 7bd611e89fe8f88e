//! The packet codec: builds the fixed-layout 66-byte link-layer + IPv4 + TCP
//! SYN probe frame, byte for byte as the specification functions here state
//! it, with both checksums proved to validate under the standard receiver
//! check.

use vstd::prelude::*;

verus! {

use vstd::pervasive::VecAdditionalExecFns;
use crate::checksum::{
    checksum_of, fold16, internet_checksum, internet_checksum_ok, lemma_fold16_complement,
    lemma_fold16_range, lemma_sum16_bound, lemma_sum16_update, lemma_words_of, sum16, words_of,
};
use crate::net::{CodecError, IpAddress, Ipv4Address, MacAddress};

/// Relies on rand::random: draws a fresh value through the thread-local
/// generator; nothing is promised of the value itself.
pub assume_specification<T>[ rand::random::<T> ]() -> (r: T)
    where
        rand::distributions::Standard: rand::distributions::Distribution<T>,
;

pub const ETHERNET_HEADER_LEN: usize = 14;

pub const IPV4_HEADER_LEN: usize = 20;

pub const TCP_HEADER_LEN: usize = 32;

/// The total size of one probe frame.
pub const PROBE_FRAME_LEN: usize = 66;

/// Fixed header fields that encode the emulated stack fingerprint.
pub const PROBE_TTL: u8 = 64;

pub const PROBE_WINDOW: u16 = 64240;

pub const PROBE_MSS: u16 = 1460;

pub const PROBE_WINDOW_SCALE: u8 = 7;

/// The IPv4 total length: the IPv4 header plus the TCP header.
pub const PROBE_IP_TOTAL_LEN: u16 = 52;

/// The high byte of a 16-bit value, as it is laid out on the wire.
pub open spec fn hi(w: u16) -> u8 {
    (w / 0x100) as u8
}

/// The low byte of a 16-bit value.
pub open spec fn lo(w: u16) -> u8 {
    (w % 0x100) as u8
}

/// The 14 link-layer header bytes: broadcast destination, the interface's
/// hardware address as source, and the IPv4 ethertype.
pub open spec fn ethernet_header_bytes(mac: MacAddress) -> Seq<u8> {
    seq![
        0xFFu8, 0xFF, 0xFF, 0xFF, 0xFF, 0xFF,
        mac.m0, mac.m1, mac.m2, mac.m3, mac.m4, mac.m5,
        0x08, 0x00,
    ]
}

/// The 20 IPv4 header bytes: version 4, header length 5 words, total length
/// 52, Don't-Fragment, TTL 64, protocol TCP, and the given identification
/// and checksum.
pub open spec fn ipv4_header_bytes(src: Ipv4Address, dst: Ipv4Address, id: u16, ck: u16) -> Seq<
    u8,
> {
    seq![
        0x45u8, 0x00,
        hi(PROBE_IP_TOTAL_LEN), lo(PROBE_IP_TOTAL_LEN),
        hi(id), lo(id),
        0x40, 0x00,
        PROBE_TTL, 0x06,
        hi(ck), lo(ck),
        src.o0, src.o1, src.o2, src.o3,
        dst.o0, dst.o1, dst.o2, dst.o3,
    ]
}

/// The 32 TCP header bytes: SYN only, window 64240, sequence and urgent
/// pointer zero, data offset 8 words, and 12 option bytes (MSS 1460,
/// SACK-permitted, two no-ops, window scale 7, one end-of-options byte).
pub open spec fn tcp_header_bytes(src_port: u16, dst_port: u16, ck: u16) -> Seq<u8> {
    seq![
        hi(src_port), lo(src_port),
        hi(dst_port), lo(dst_port),
        0x00u8, 0x00, 0x00, 0x00,
        0x00, 0x00, 0x00, 0x00,
        0x80, 0x02,
        hi(PROBE_WINDOW), lo(PROBE_WINDOW),
        hi(ck), lo(ck),
        0x00, 0x00,
        0x02, 0x04, hi(PROBE_MSS), lo(PROBE_MSS),
        0x04, 0x02,
        0x01, 0x01,
        0x03, 0x03, PROBE_WINDOW_SCALE,
        0x00,
    ]
}

/// The 12 pseudo-header bytes the TCP checksum is computed over: both IPv4
/// addresses, a zero byte, the TCP protocol number, and the TCP length.
pub open spec fn tcp_pseudo_bytes(src: Ipv4Address, dst: Ipv4Address) -> Seq<u8> {
    seq![
        src.o0, src.o1, src.o2, src.o3,
        dst.o0, dst.o1, dst.o2, dst.o3,
        0x00u8, 0x06,
        0x00, 0x20,
    ]
}

/// The checksum stored in the IPv4 header: computed over the header with a
/// zeroed checksum field.
pub open spec fn ipv4_probe_checksum(src: Ipv4Address, dst: Ipv4Address, id: u16) -> int {
    checksum_of(words_of(ipv4_header_bytes(src, dst, id, 0)))
}

/// The checksum stored in the TCP header: computed over the pseudo-header
/// followed by the TCP header with a zeroed checksum field.
pub open spec fn tcp_probe_checksum(
    src: Ipv4Address,
    dst: Ipv4Address,
    src_port: u16,
    dst_port: u16,
) -> int {
    checksum_of(words_of(tcp_pseudo_bytes(src, dst) + tcp_header_bytes(src_port, dst_port, 0)))
}

/// The complete 66-byte probe frame for one target, one interface, and the
/// two per-frame randomized fields.
pub open spec fn probe_frame_bytes(
    target: Ipv4Address,
    target_port: u16,
    iface_ip: Ipv4Address,
    iface_mac: MacAddress,
    ip_id: u16,
    src_port: u16,
) -> Seq<u8> {
    ethernet_header_bytes(iface_mac) + ipv4_header_bytes(
        iface_ip,
        target,
        ip_id,
        ipv4_probe_checksum(iface_ip, target, ip_id) as u16,
    ) + tcp_header_bytes(
        src_port,
        target_port,
        tcp_probe_checksum(iface_ip, target, src_port, target_port) as u16,
    )
}

fn push_word(v: &mut Vec<u8>, w: u16)
    ensures
        final(v)@ == old(v)@ + seq![hi(w), lo(w)],
{
    v.push((w / 0x100) as u8);
    v.push((w % 0x100) as u8);
}

fn make_ethernet_header(mac: MacAddress) -> (v: Vec<u8>)
    ensures
        v@ == ethernet_header_bytes(mac),
{
    let mut v: Vec<u8> = Vec::new();
    v.push(0xFF);
    v.push(0xFF);
    v.push(0xFF);
    v.push(0xFF);
    v.push(0xFF);
    v.push(0xFF);
    v.push(mac.m0);
    v.push(mac.m1);
    v.push(mac.m2);
    v.push(mac.m3);
    v.push(mac.m4);
    v.push(mac.m5);
    v.push(0x08);
    v.push(0x00);
    assert(v@ =~= ethernet_header_bytes(mac));
    v
}

fn make_ipv4_header(src: Ipv4Address, dst: Ipv4Address, id: u16, ck: u16) -> (v: Vec<u8>)
    ensures
        v@ == ipv4_header_bytes(src, dst, id, ck),
{
    let mut v: Vec<u8> = Vec::new();
    v.push(0x45);
    v.push(0x00);
    push_word(&mut v, PROBE_IP_TOTAL_LEN);
    push_word(&mut v, id);
    v.push(0x40);
    v.push(0x00);
    v.push(PROBE_TTL);
    v.push(0x06);
    push_word(&mut v, ck);
    v.push(src.o0);
    v.push(src.o1);
    v.push(src.o2);
    v.push(src.o3);
    v.push(dst.o0);
    v.push(dst.o1);
    v.push(dst.o2);
    v.push(dst.o3);
    assert(v@ =~= ipv4_header_bytes(src, dst, id, ck));
    v
}

fn make_tcp_header(src_port: u16, dst_port: u16, ck: u16) -> (v: Vec<u8>)
    ensures
        v@ == tcp_header_bytes(src_port, dst_port, ck),
{
    let mut v: Vec<u8> = Vec::new();
    push_word(&mut v, src_port);
    push_word(&mut v, dst_port);
    let mut i: usize = 0;
    while i < 8
        invariant
            i <= 8,
            v@ =~= seq![hi(src_port), lo(src_port), hi(dst_port), lo(dst_port)] + Seq::new(
                i as nat,
                |j: int| 0u8,
            ),
        decreases 8 - i,
    {
        v.push(0x00);
        proof {
            assert(v@ =~= seq![hi(src_port), lo(src_port), hi(dst_port), lo(dst_port)] + Seq::new(
                (i + 1) as nat,
                |j: int| 0u8,
            ));
        }
        i = i + 1;
    }
    v.push(0x80);
    v.push(0x02);
    push_word(&mut v, PROBE_WINDOW);
    push_word(&mut v, ck);
    v.push(0x00);
    v.push(0x00);
    v.push(0x02);
    v.push(0x04);
    push_word(&mut v, PROBE_MSS);
    v.push(0x04);
    v.push(0x02);
    v.push(0x01);
    v.push(0x01);
    v.push(0x03);
    v.push(0x03);
    v.push(PROBE_WINDOW_SCALE);
    v.push(0x00);
    assert(v@ =~= tcp_header_bytes(src_port, dst_port, ck));
    v
}

fn make_tcp_pseudo(src: Ipv4Address, dst: Ipv4Address) -> (v: Vec<u8>)
    ensures
        v@ == tcp_pseudo_bytes(src, dst),
{
    let mut v: Vec<u8> = Vec::new();
    v.push(src.o0);
    v.push(src.o1);
    v.push(src.o2);
    v.push(src.o3);
    v.push(dst.o0);
    v.push(dst.o1);
    v.push(dst.o2);
    v.push(dst.o3);
    v.push(0x00);
    v.push(0x06);
    v.push(0x00);
    v.push(0x20);
    assert(v@ =~= tcp_pseudo_bytes(src, dst));
    v
}

/// A checksum over at most 256 words lies in the 16-bit range.
proof fn lemma_checksum_of_range(b: Seq<u8>)
    requires
        b.len() % 2 == 0,
        b.len() <= 0x200,
    ensures
        0 <= checksum_of(words_of(b)) <= 0xFFFF,
        0 <= sum16(words_of(b)) < 0x1000000,
{
    lemma_words_of(b);
    lemma_sum16_bound(words_of(b));
    assert(words_of(b).len() * 0xFFFF <= 0x100 * 0xFFFF) by (nonlinear_arith)
        requires words_of(b).len() <= 0x100;
    lemma_fold16_range(sum16(words_of(b)));
}

/// Writing the computed checksum into its zeroed field makes the buffer
/// validate under the standard receiver check.
proof fn lemma_checksum_insertion(b0: Seq<u8>, bc: Seq<u8>, k: int)
    requires
        b0.len() % 2 == 0,
        b0.len() <= 0x200,
        bc.len() == b0.len(),
        0 <= k,
        2 * k + 1 < b0.len(),
        b0[2 * k] == 0,
        b0[2 * k + 1] == 0,
        forall|i: int| 0 <= i < b0.len() && i != 2 * k && i != 2 * k + 1 ==> bc[i] == b0[i],
        bc[2 * k] == hi(checksum_of(words_of(b0)) as u16),
        bc[2 * k + 1] == lo(checksum_of(words_of(b0)) as u16),
    ensures
        internet_checksum_ok(bc),
{
    lemma_checksum_of_range(b0);
    let c = checksum_of(words_of(b0));
    let cw = c as u16;
    assert(cw == c);
    assert(hi(cw) * 0x100 + lo(cw) == c) by {
        assert(cw / 0x100 < 0x100);
        assert((cw / 0x100) * 0x100 + cw % 0x100 == cw) by (nonlinear_arith);
    }
    lemma_words_of(b0);
    lemma_words_of(bc);
    assert(words_of(bc) =~= words_of(b0).update(k, cw)) by {
        assert forall|j: int| 0 <= j < b0.len() / 2 implies words_of(bc)[j] == words_of(
            b0,
        ).update(k, cw)[j] by {
            if j == k {
                assert(words_of(bc)[j] == bc[2 * k] * 0x100 + bc[2 * k + 1]);
            } else {
                assert(bc[2 * j] == b0[2 * j]);
                assert(bc[2 * j + 1] == b0[2 * j + 1]);
            }
        }
    }
    lemma_sum16_update(words_of(b0), k, cw);
    assert(words_of(b0)[k] == 0);
    let s = sum16(words_of(b0));
    assert(sum16(words_of(bc)) == s + 0xFFFF - fold16(fold16(s)));
    lemma_fold16_complement(s);
}

/// Builds one probe frame deterministically from the target, the interface,
/// and the two randomized header fields, returning exactly the bytes that
/// `probe_frame_bytes` states.
pub fn encode_probe_frame(
    target: Ipv4Address,
    target_port: u16,
    iface_ip: Ipv4Address,
    iface_mac: MacAddress,
    ip_id: u16,
    src_port: u16,
) -> (frame: Vec<u8>)
    ensures
        frame@ == probe_frame_bytes(target, target_port, iface_ip, iface_mac, ip_id, src_port),
        frame@.len() == PROBE_FRAME_LEN,
{
    let ip_zero = make_ipv4_header(iface_ip, target, ip_id, 0);
    proof {
        lemma_checksum_of_range(ip_zero@);
    }
    let ip_ck = internet_checksum(&ip_zero);

    let mut pseudo = make_tcp_pseudo(iface_ip, target);
    let mut tcp_zero = make_tcp_header(src_port, target_port, 0);
    pseudo.append(&mut tcp_zero);
    proof {
        lemma_checksum_of_range(pseudo@);
    }
    let tcp_ck = internet_checksum(&pseudo);

    let mut frame = make_ethernet_header(iface_mac);
    let mut ip = make_ipv4_header(iface_ip, target, ip_id, ip_ck);
    let mut tcp = make_tcp_header(src_port, target_port, tcp_ck);
    frame.append(&mut ip);
    frame.append(&mut tcp);
    proof {
        assert(frame@ =~= probe_frame_bytes(
            target,
            target_port,
            iface_ip,
            iface_mac,
            ip_id,
            src_port,
        ));
    }
    frame
}

/// The minimal target and interface description one probe frame is built
/// from. Immutable once created; the randomized header fields are drawn
/// fresh inside `build_random_packet`.
pub struct PartialTCPPacketData {
    pub destination_ip: IpAddress,
    pub destination_port: u16,
    pub iface_ip: IpAddress,
    pub iface_name: String,
    pub iface_src_mac: MacAddress,
}

/// The IPv4 payload of an address, for contracts over inputs already known
/// to be of the supported family.
pub open spec fn as_v4(a: IpAddress) -> Ipv4Address {
    match a {
        IpAddress::V4(x) => x,
        IpAddress::V6(_) => Ipv4Address { o0: 0, o1: 0, o2: 0, o3: 0 },
    }
}

/// Builds one probe frame into the first 66 bytes of the given buffer,
/// leaving the rest of the buffer unchanged. The identification and source
/// port fields are drawn fresh on every call; everything else is exactly
/// `probe_frame_bytes`. Fails, writing nothing, when the buffer is shorter
/// than one frame or an address is not IPv4.
pub fn build_random_packet(partial_packet: &PartialTCPPacketData, tmp_packet: &mut Vec<u8>) -> (r:
    Result<(), CodecError>)
    ensures
        match r {
            Ok(()) => {
                &&& old(tmp_packet)@.len() >= PROBE_FRAME_LEN
                &&& partial_packet.destination_ip is V4
                &&& partial_packet.iface_ip is V4
                &&& final(tmp_packet)@.len() == old(tmp_packet)@.len()
                &&& exists|ip_id: u16, src_port: u16|
                    final(tmp_packet)@ == probe_frame_bytes(
                        as_v4(partial_packet.destination_ip),
                        partial_packet.destination_port,
                        as_v4(partial_packet.iface_ip),
                        partial_packet.iface_src_mac,
                        ip_id,
                        src_port,
                    ) + old(tmp_packet)@.skip(PROBE_FRAME_LEN as int)
            },
            Err(CodecError::BufferTooSmall) => {
                &&& old(tmp_packet)@.len() < PROBE_FRAME_LEN
                &&& *final(tmp_packet) == *old(tmp_packet)
            },
            Err(CodecError::AddressFamilyUnsupported) => {
                &&& old(tmp_packet)@.len() >= PROBE_FRAME_LEN
                &&& !(partial_packet.destination_ip is V4 && partial_packet.iface_ip is V4)
                &&& *final(tmp_packet) == *old(tmp_packet)
            },
        },
{
    if tmp_packet.len() < PROBE_FRAME_LEN {
        return Err(CodecError::BufferTooSmall);
    }
    let destination = match partial_packet.destination_ip {
        IpAddress::V4(d) => d,
        IpAddress::V6(_) => { return Err(CodecError::AddressFamilyUnsupported) },
    };
    let source = match partial_packet.iface_ip {
        IpAddress::V4(s) => s,
        IpAddress::V6(_) => { return Err(CodecError::AddressFamilyUnsupported) },
    };
    let ip_id: u16 = rand::random();
    let src_port: u16 = rand::random();
    let frame = encode_probe_frame(
        destination,
        partial_packet.destination_port,
        source,
        partial_packet.iface_src_mac,
        ip_id,
        src_port,
    );
    let ghost orig = tmp_packet@;
    let mut i: usize = 0;
    while i < PROBE_FRAME_LEN
        invariant
            i <= PROBE_FRAME_LEN,
            frame@.len() == PROBE_FRAME_LEN,
            tmp_packet@.len() == orig.len() >= PROBE_FRAME_LEN,
            forall|j: int| 0 <= j < i ==> tmp_packet@[j] == frame@[j],
            forall|j: int| i <= j < orig.len() ==> tmp_packet@[j] == orig[j],
        decreases PROBE_FRAME_LEN - i,
    {
        tmp_packet.set(i, frame[i]);
        i = i + 1;
    }
    proof {
        assert(tmp_packet@ =~= frame@ + orig.skip(PROBE_FRAME_LEN as int));
        assert(destination == as_v4(partial_packet.destination_ip));
        assert(source == as_v4(partial_packet.iface_ip));
        assert(tmp_packet@ == probe_frame_bytes(
            as_v4(partial_packet.destination_ip),
            partial_packet.destination_port,
            as_v4(partial_packet.iface_ip),
            partial_packet.iface_src_mac,
            ip_id,
            src_port,
        ) + orig.skip(PROBE_FRAME_LEN as int));
    }
    Ok(())
}

/// Law: the IPv4 header checksum and the TCP checksum embedded in every
/// probe frame validate under the standard one's-complement check, the TCP
/// one over the standard pseudo-header.
pub proof fn lemma_probe_frame_checksums_valid(
    target: Ipv4Address,
    target_port: u16,
    iface_ip: Ipv4Address,
    iface_mac: MacAddress,
    ip_id: u16,
    src_port: u16,
)
    ensures
        internet_checksum_ok(
            probe_frame_bytes(target, target_port, iface_ip, iface_mac, ip_id, src_port).subrange(
                ETHERNET_HEADER_LEN as int,
                (ETHERNET_HEADER_LEN + IPV4_HEADER_LEN) as int,
            ),
        ),
        internet_checksum_ok(
            tcp_pseudo_bytes(iface_ip, target) + probe_frame_bytes(
                target,
                target_port,
                iface_ip,
                iface_mac,
                ip_id,
                src_port,
            ).subrange(
                (ETHERNET_HEADER_LEN + IPV4_HEADER_LEN) as int,
                (ETHERNET_HEADER_LEN + IPV4_HEADER_LEN + TCP_HEADER_LEN) as int,
            ),
        ),
{
    let frame = probe_frame_bytes(target, target_port, iface_ip, iface_mac, ip_id, src_port);
    let ip0 = ipv4_header_bytes(iface_ip, target, ip_id, 0);
    let ipc = ipv4_header_bytes(iface_ip, target, ip_id, ipv4_probe_checksum(
        iface_ip,
        target,
        ip_id,
    ) as u16);
    assert(frame.subrange(
        ETHERNET_HEADER_LEN as int,
        (ETHERNET_HEADER_LEN + IPV4_HEADER_LEN) as int,
    ) =~= ipc);
    lemma_checksum_insertion(ip0, ipc, 5);

    let t0 = tcp_pseudo_bytes(iface_ip, target) + tcp_header_bytes(src_port, target_port, 0);
    let tc = tcp_pseudo_bytes(iface_ip, target) + tcp_header_bytes(
        src_port,
        target_port,
        tcp_probe_checksum(iface_ip, target, src_port, target_port) as u16,
    );
    assert(frame.subrange(
        (ETHERNET_HEADER_LEN + IPV4_HEADER_LEN) as int,
        (ETHERNET_HEADER_LEN + IPV4_HEADER_LEN + TCP_HEADER_LEN) as int,
    ) =~= tcp_header_bytes(
        src_port,
        target_port,
        tcp_probe_checksum(iface_ip, target, src_port, target_port) as u16,
    ));
    lemma_checksum_insertion(t0, tc, 14);
}

} // verus!
