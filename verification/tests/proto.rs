use pxscan::net::{Endpoint, IpAddress, Ipv4Address, NetState};
use pxscan::pool::{JobCtrl, ScanJob};
use pxscan::proto::{
    classify_reply, correlate_reply, parse_probe_reply, run_batch, ReplyInfo, Scannable,
    SynScan, TCP_FLAG_ACK, TCP_FLAG_RST, TCP_FLAG_SYN,
};

/// The endpoint of the end-to-end scenario: probing 192.0.2.1 port 80.
fn probe_target() -> Endpoint {
    Endpoint {
        addr: IpAddress::V4(Ipv4Address { o0: 192, o1: 0, o2: 2, o3: 1 }),
        port: 80,
    }
}

#[test]
fn syn_ack_reply_means_open() {
    let _target = probe_target();
    assert_eq!(classify_reply(Some(TCP_FLAG_SYN | TCP_FLAG_ACK)), NetState::Open);
}

#[test]
fn rst_reply_means_closed() {
    let _target = probe_target();
    assert_eq!(classify_reply(Some(TCP_FLAG_RST)), NetState::Closed);
}

#[test]
fn silence_means_filtered() {
    let _target = probe_target();
    assert_eq!(classify_reply(None), NetState::Filtered);
}

#[test]
fn rst_ack_reply_still_means_closed() {
    assert_eq!(classify_reply(Some(TCP_FLAG_RST | TCP_FLAG_ACK)), NetState::Closed);
}

#[test]
fn inconclusive_reply_stays_filtered() {
    assert_eq!(classify_reply(Some(TCP_FLAG_ACK)), NetState::Filtered);
}

/// A handcrafted 54-byte SYN+ACK reply frame from 192.0.2.1 port 80 back
/// to probe source port 0xC0DE.
fn reply_frame() -> Vec<u8> {
    let mut frame = vec![0u8; 54];
    frame[12] = 0x08;
    frame[13] = 0x00; // IPv4 ethertype
    frame[14] = 0x45; // version 4, header length 5 words
    frame[23] = 6; // TCP
    frame[26..30].copy_from_slice(&[192, 0, 2, 1]); // source address
    frame[34..36].copy_from_slice(&[0x00, 0x50]); // source port 80
    frame[36..38].copy_from_slice(&[0xC0, 0xDE]); // destination port
    frame[47] = TCP_FLAG_SYN | TCP_FLAG_ACK;
    frame
}

#[test]
fn reply_fields_are_extracted() {
    let info = parse_probe_reply(&reply_frame()).unwrap();
    assert_eq!(
        info,
        ReplyInfo {
            src: Ipv4Address { o0: 192, o1: 0, o2: 2, o3: 1 },
            src_port: 80,
            dst_port: 0xC0DE,
            flags: TCP_FLAG_SYN | TCP_FLAG_ACK,
        }
    );
    assert_eq!(classify_reply(Some(info.flags)), NetState::Open);
}

#[test]
fn malformed_frames_are_not_replies() {
    assert!(parse_probe_reply(&vec![0u8; 20]).is_none()); // too short
    let mut wrong_type = reply_frame();
    wrong_type[13] = 0x06;
    assert!(parse_probe_reply(&wrong_type).is_none());
    let mut not_tcp = reply_frame();
    not_tcp[23] = 17;
    assert!(parse_probe_reply(&not_tcp).is_none());
    let mut long_header = reply_frame();
    long_header[14] = 0x4F; // claims 60 header bytes the frame does not hold
    assert!(parse_probe_reply(&long_header).is_none());
}

#[test]
fn replies_correlate_by_endpoint_and_source_port() {
    let info = parse_probe_reply(&reply_frame()).unwrap();
    assert!(correlate_reply(&info, &probe_target(), 0xC0DE));
    assert!(!correlate_reply(&info, &probe_target(), 0xBEEF)); // wrong probe port
    let other_port = Endpoint { port: 81, ..probe_target() };
    assert!(!correlate_reply(&info, &other_port, 0xC0DE));
}

#[test]
fn syn_scan_classifies_through_the_capability() {
    let open = SynScan { reply: Some(TCP_FLAG_SYN | TCP_FLAG_ACK) };
    assert_eq!(open.scan(), Ok(NetState::Open));
    let closed = SynScan { reply: Some(TCP_FLAG_RST) };
    assert_eq!(closed.scan(), Ok(NetState::Closed));
    let silent = SynScan { reply: None };
    assert_eq!(silent.scan(), Ok(NetState::Filtered));
}

#[test]
fn batch_scan_classifies_every_endpoint() {
    let host = probe_target().addr;
    let jobs = vec![
        ScanJob {
            target: Endpoint { addr: host, port: 80 },
            probe: SynScan { reply: Some(TCP_FLAG_SYN | TCP_FLAG_ACK) },
        },
        ScanJob {
            target: Endpoint { addr: host, port: 443 },
            probe: SynScan { reply: Some(TCP_FLAG_RST) },
        },
        ScanJob {
            target: Endpoint { addr: host, port: 22 },
            probe: SynScan { reply: None },
        },
    ];
    let out = run_batch(jobs, 2);
    assert_eq!(out.len(), 3);
    assert!(matches!(out[0], (JobCtrl::Return(NetState::Open, ()), e) if e.port == 80));
    assert!(matches!(out[1], (JobCtrl::Return(NetState::Closed, ()), e) if e.port == 443));
    assert!(matches!(out[2], (JobCtrl::Return(NetState::Filtered, ()), e) if e.port == 22));
}
