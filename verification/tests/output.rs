use pxscan::net::{Endpoint, IpAddress, Ipv4Address, NetState, ProbeError};
use pxscan::output::{CastAs, Format, OutputType};
use pxscan::pool::JobCtrl;

fn endpoint(last_octet: u8, port: u16) -> Endpoint {
    Endpoint {
        addr: IpAddress::V4(Ipv4Address { o0: 192, o1: 0, o2: 2, o3: last_octet }),
        port,
    }
}

#[test]
fn stream_mode_renders_every_outcome() {
    let mut out = OutputType::from_format(Format::Stream);
    let buf: Vec<(JobCtrl<u8>, Endpoint)> = vec![
        (JobCtrl::Return(NetState::Open, 7), endpoint(1, 80)),
        (JobCtrl::Error(ProbeError::Timeout), endpoint(1, 81)),
    ];
    let records = out.handle(&buf);
    assert_eq!(records.len(), 2);
    assert_eq!(records[0].target, endpoint(1, 80));
    assert!(matches!(records[0].outcome, Ok(NetState::Open)));
    assert_eq!(records[1].target, endpoint(1, 81));
    assert!(matches!(records[1].outcome, Err(ProbeError::Timeout)));
}

#[test]
fn map_mode_groups_two_ports_under_one_host() {
    let a = (JobCtrl::Return(NetState::Open, 0u8), endpoint(1, 80));
    let b = (JobCtrl::Return(NetState::Closed, 0u8), endpoint(1, 443));

    // One completion order.
    let mut out = OutputType::from_format(Format::HostMap);
    let records = out.handle(&vec![a.clone_pair(), b.clone_pair()]);
    assert!(records.is_empty());
    match out {
        OutputType::HostMap(entries) => {
            assert_eq!(entries.len(), 1);
            assert_eq!(entries[0].addr, endpoint(1, 80).addr);
            assert_eq!(entries[0].services, vec![(80, NetState::Open), (443, NetState::Closed)]);
        }
        OutputType::Stream => panic!("expected map mode"),
    }

    // The reversed completion order: still exactly one entry, both ports.
    let mut out = OutputType::from_format(Format::HostMap);
    out.handle(&vec![b.clone_pair(), a.clone_pair()]);
    match out {
        OutputType::HostMap(entries) => {
            assert_eq!(entries.len(), 1);
            assert_eq!(entries[0].services, vec![(443, NetState::Closed), (80, NetState::Open)]);
        }
        OutputType::Stream => panic!("expected map mode"),
    }
}

trait ClonePair {
    fn clone_pair(&self) -> Self;
}

impl ClonePair for (JobCtrl<u8>, Endpoint) {
    fn clone_pair(&self) -> Self {
        let sig = match &self.0 {
            JobCtrl::Return(s, r) => JobCtrl::Return(*s, *r),
            JobCtrl::Error(e) => JobCtrl::Error(*e),
        };
        (sig, self.1)
    }
}

#[test]
fn map_mode_settles_errors_as_closed() {
    let mut out = OutputType::from_format(Format::HostMap);
    let buf: Vec<(JobCtrl<u8>, Endpoint)> = vec![
        (JobCtrl::Error(ProbeError::SendFailure), endpoint(2, 8080)),
    ];
    out.handle(&buf);
    match out {
        OutputType::HostMap(entries) => {
            assert_eq!(entries.len(), 1);
            assert_eq!(entries[0].services, vec![(8080, NetState::Closed)]);
        }
        OutputType::Stream => panic!("expected map mode"),
    }
}

#[test]
fn map_mode_keeps_distinct_hosts_apart() {
    let mut out = OutputType::from_format(Format::HostMap);
    let buf: Vec<(JobCtrl<u8>, Endpoint)> = vec![
        (JobCtrl::Return(NetState::Open, 0), endpoint(1, 80)),
        (JobCtrl::Return(NetState::Open, 0), endpoint(2, 80)),
    ];
    out.handle(&buf);
    match out {
        OutputType::HostMap(entries) => {
            assert_eq!(entries.len(), 2);
            assert_eq!(entries[0].addr, endpoint(1, 80).addr);
            assert_eq!(entries[1].addr, endpoint(2, 80).addr);
        }
        OutputType::Stream => panic!("expected map mode"),
    }
}

#[test]
fn format_chooses_the_sink() {
    assert!(matches!(OutputType::from_format(Format::Stream), OutputType::Stream));
    match OutputType::from_format(Format::HostMap) {
        OutputType::HostMap(entries) => assert!(entries.is_empty()),
        OutputType::Stream => panic!("expected map mode"),
    }
}

#[test]
fn cast_as_is_the_identity_on_the_same_type() {
    let e = endpoint(9, 9000);
    let viewed: &Endpoint = e.cast();
    assert_eq!(*viewed, e);
}

#[test]
fn repeated_port_on_one_host_keeps_both_entries() {
    let mut out = OutputType::from_format(Format::HostMap);
    let buf: Vec<(JobCtrl<u8>, Endpoint)> = vec![
        (JobCtrl::Return(NetState::Open, 0), endpoint(1, 80)),
        (JobCtrl::Return(NetState::Closed, 0), endpoint(1, 80)),
    ];
    out.handle(&buf);
    match out {
        OutputType::HostMap(entries) => {
            assert_eq!(entries.len(), 1);
            assert_eq!(entries[0].services, vec![(80, NetState::Open), (80, NetState::Closed)]);
        }
        OutputType::Stream => panic!("expected map mode"),
    }
}

#[test]
fn aggregation_accumulates_across_buffers() {
    let mut out = OutputType::from_format(Format::HostMap);
    out.handle(&vec![(JobCtrl::Return(NetState::Open, 0u8), endpoint(1, 80))]);
    out.handle(&vec![(JobCtrl::Return(NetState::Closed, 0u8), endpoint(1, 443))]);
    match out {
        OutputType::HostMap(entries) => {
            assert_eq!(entries.len(), 1);
            assert_eq!(entries[0].services, vec![(80, NetState::Open), (443, NetState::Closed)]);
        }
        OutputType::Stream => panic!("expected map mode"),
    }
}
