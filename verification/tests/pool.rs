use pxscan::net::{Endpoint, IpAddress, Ipv4Address, NetState, ProbeError};
use pxscan::pool::{JobCtrl, JobPool, ScanJob};

fn endpoint(last_octet: u8, port: u16) -> Endpoint {
    Endpoint {
        addr: IpAddress::V4(Ipv4Address { o0: 192, o1: 0, o2: 2, o3: last_octet }),
        port,
    }
}

fn job(last_octet: u8, port: u16) -> ScanJob<u8> {
    ScanJob { target: endpoint(last_octet, port), probe: last_octet }
}

#[test]
fn every_job_yields_exactly_one_outcome() {
    // Three jobs under a bound of two, completed out of admission order.
    let jobs = vec![job(1, 80), job(2, 443), job(3, 22)];
    let mut pool: JobPool<u8, ()> = JobPool::submit(jobs, 2);

    let first = pool.dispatch_next().unwrap();
    let second = pool.dispatch_next().unwrap();
    assert!(pool.dispatch_next().is_none()); // the bound holds
    assert_eq!(first.target, endpoint(1, 80));
    assert_eq!(second.target, endpoint(2, 443));

    pool.complete(1, JobCtrl::Return(NetState::Open, ()));
    let third = pool.dispatch_next().unwrap();
    assert_eq!(third.target, endpoint(3, 22));
    pool.complete(1, JobCtrl::Return(NetState::Closed, ()));
    pool.complete(0, JobCtrl::Return(NetState::Filtered, ()));
    assert!(pool.is_done());
    assert_eq!(pool.completed_len(), 3);

    let outcomes = pool.into_outcomes();
    assert_eq!(outcomes.len(), 3);
    let mut seen: Vec<Endpoint> = outcomes.iter().map(|o| o.1).collect();
    seen.sort_by_key(|e| e.port);
    assert_eq!(seen, vec![endpoint(3, 22), endpoint(1, 80), endpoint(2, 443)]);
}

#[test]
fn bound_of_one_serializes_dispatch() {
    let jobs = vec![job(1, 80), job(2, 81)];
    let mut pool: JobPool<u8, ()> = JobPool::submit(jobs, 1);
    assert!(pool.dispatch_next().is_some());
    assert!(pool.dispatch_next().is_none());
    pool.complete(0, JobCtrl::Return(NetState::Open, ()));
    assert!(pool.dispatch_next().is_some());
    pool.complete(0, JobCtrl::Return(NetState::Open, ()));
    assert!(pool.is_done());
    assert_eq!(pool.completed_len(), 2);
}

#[test]
fn one_failure_leaves_siblings_untouched() {
    let jobs = vec![job(1, 80), job(2, 443), job(3, 22)];
    let mut pool: JobPool<u8, ()> = JobPool::submit(jobs, 3);
    let a = pool.dispatch_next().unwrap();
    let b = pool.dispatch_next().unwrap();
    let c = pool.dispatch_next().unwrap();
    assert_eq!((a.target, b.target, c.target), (endpoint(1, 80), endpoint(2, 443), endpoint(3, 22)));

    // The middle job fails; the siblings still complete normally.
    pool.complete(1, JobCtrl::Error(ProbeError::Timeout));
    pool.complete(0, JobCtrl::Return(NetState::Open, ()));
    pool.complete(0, JobCtrl::Return(NetState::Closed, ()));
    assert!(pool.is_done());

    let outcomes = pool.into_outcomes();
    assert_eq!(outcomes.len(), 3);
    assert!(matches!(outcomes[0], (JobCtrl::Error(ProbeError::Timeout), e) if e == endpoint(2, 443)));
    assert!(matches!(outcomes[1], (JobCtrl::Return(NetState::Open, ()), e) if e == endpoint(1, 80)));
    assert!(matches!(outcomes[2], (JobCtrl::Return(NetState::Closed, ()), e) if e == endpoint(3, 22)));
}

#[test]
fn outcomes_can_be_drained_while_scanning() {
    let jobs = vec![job(1, 80), job(2, 443)];
    let mut pool: JobPool<u8, ()> = JobPool::submit(jobs, 2);
    pool.dispatch_next().unwrap();
    pool.dispatch_next().unwrap();
    pool.complete(0, JobCtrl::Return(NetState::Open, ()));

    // A streaming consumer keeps pace: it drains the settled outcome
    // before the batch is over.
    let first_batch = pool.take_outcomes();
    assert_eq!(first_batch.len(), 1);
    assert!(matches!(first_batch[0], (JobCtrl::Return(NetState::Open, ()), e) if e == endpoint(1, 80)));
    assert_eq!(pool.completed_len(), 0);

    pool.complete(0, JobCtrl::Return(NetState::Closed, ()));
    assert!(pool.is_done());
    let second_batch = pool.into_outcomes();
    assert_eq!(second_batch.len(), 1);
    assert!(matches!(second_batch[0], (JobCtrl::Return(NetState::Closed, ()), e) if e == endpoint(2, 443)));
}

#[test]
fn every_probe_error_kind_is_carried_through() {
    let jobs = vec![job(1, 1), job(1, 2), job(1, 3)];
    let mut pool: JobPool<u8, ()> = JobPool::submit(jobs, 3);
    pool.dispatch_next().unwrap();
    pool.dispatch_next().unwrap();
    pool.dispatch_next().unwrap();
    pool.complete(0, JobCtrl::Error(ProbeError::SendFailure));
    pool.complete(0, JobCtrl::Error(ProbeError::Timeout));
    pool.complete(0, JobCtrl::Error(ProbeError::MalformedResponse));
    let outcomes = pool.into_outcomes();
    assert!(matches!(outcomes[0].0, JobCtrl::Error(ProbeError::SendFailure)));
    assert!(matches!(outcomes[1].0, JobCtrl::Error(ProbeError::Timeout)));
    assert!(matches!(outcomes[2].0, JobCtrl::Error(ProbeError::MalformedResponse)));
}

#[test]
fn empty_batch_is_done_at_once() {
    let mut pool: JobPool<u8, ()> = JobPool::submit(Vec::new(), 1);
    assert!(pool.is_done());
    assert!(pool.dispatch_next().is_none());
    assert!(pool.into_outcomes().is_empty());
}
