//! The result aggregator: consumes the outcome stream and either renders
//! each outcome as one record (stream mode) or groups outcomes per host
//! (map mode). In map mode a probe error is settled as `Closed`, so every
//! probed port gets a definitive entry.

use vstd::prelude::*;

verus! {

use crate::net::{Endpoint, IpAddress, NetState, ProbeError};
use crate::pool::JobCtrl;

/// A uniform read-only view capability: lets the aggregator take any value
/// that can stand in for a `T`. Every type trivially stands in for itself.
pub trait CastAs<T> {
    /// The value the cast exposes.
    spec fn cast_spec(&self) -> T;

    fn cast(&self) -> (r: &T)
        ensures
            *r == self.cast_spec(),
    ;
}

impl<T> CastAs<T> for T {
    /// The identity cast exposes the value itself.
    open spec fn cast_spec(&self) -> T {
        *self
    }

    fn cast(&self) -> (r: &T) {
        self
    }
}

/// The output mode chosen at the start of a scan.
#[derive(Clone, Copy, Debug, PartialEq, Eq, Structural)]
pub enum Format {
    Stream,
    HostMap,
}

/// One rendered stream-mode record: the endpoint with its classification,
/// or with an explicit error annotation.
#[derive(Clone, Copy, Debug)]
pub struct StreamRecord {
    pub target: Endpoint,
    pub outcome: Result<NetState, ProbeError>,
}

/// The stream-mode rendering of one outcome: nothing is folded away, an
/// error stays an error.
pub open spec fn record_of<R>(entry: (JobCtrl<R>, Endpoint)) -> StreamRecord {
    StreamRecord {
        target: entry.1,
        outcome: match entry.0 {
            JobCtrl::Return(state, _) => Ok(state),
            JobCtrl::Error(err) => Err(err),
        },
    }
}

/// The map-mode settlement of one outcome: a probe error is recorded as
/// `Closed` rather than omitted, so the port still gets a definitive entry.
pub open spec fn settled_state<R>(sig: JobCtrl<R>) -> NetState {
    match sig {
        JobCtrl::Return(state, _) => state,
        JobCtrl::Error(_) => NetState::Closed,
    }
}

/// One host's accumulated services: an address with the (port,
/// classification) pairs recorded for it, in completion order.
#[derive(Clone, Debug)]
pub struct HostPorts {
    pub addr: IpAddress,
    pub services: Vec<(u16, NetState)>,
}

/// The mathematical view of the per-host grouping: each entry is an address
/// with its ordered service list.
pub open spec fn hosts_view(entries: Seq<HostPorts>) -> Seq<(IpAddress, Seq<(u16, NetState)>)> {
    entries.map_values(|h: HostPorts| (h.addr, h.services@))
}

/// The first entry holding the given address, or -1 if none does.
pub open spec fn find_addr(m: Seq<(IpAddress, Seq<(u16, NetState)>)>, addr: IpAddress) -> int
    decreases m.len(),
{
    if m.len() == 0 {
        -1
    } else if m[0].0 == addr {
        0
    } else {
        let r = find_addr(m.skip(1), addr);
        if r == -1 {
            -1
        } else {
            1 + r
        }
    }
}

/// `find_addr` returns the first matching index, and -1 exactly when no
/// entry holds the address.
pub proof fn lemma_find_addr(m: Seq<(IpAddress, Seq<(u16, NetState)>)>, addr: IpAddress)
    ensures
        -1 <= find_addr(m, addr) < m.len(),
        find_addr(m, addr) == -1 <==> (forall|j: int| 0 <= j < m.len() ==> m[j].0 != addr),
        find_addr(m, addr) >= 0 ==> m[find_addr(m, addr)].0 == addr && (forall|j: int|
            0 <= j < find_addr(m, addr) ==> m[j].0 != addr),
    decreases m.len(),
{
    if m.len() == 0 {
    } else if m[0].0 == addr {
    } else {
        lemma_find_addr(m.skip(1), addr);
        let r = find_addr(m.skip(1), addr);
        if r == -1 {
            assert forall|j: int| 0 <= j < m.len() implies m[j].0 != addr by {
                if j > 0 {
                    assert(m.skip(1)[j - 1] == m[j]);
                }
            }
        } else {
            assert(m[1 + r] == m.skip(1)[r]);
            assert forall|j: int| 0 <= j < 1 + r implies m[j].0 != addr by {
                if j > 0 {
                    assert(m.skip(1)[j - 1] == m[j]);
                }
            }
        }
    }
}

/// Folds one settled outcome into the grouping: appended to its host's
/// list if the host already has an entry, else opening a new entry.
pub open spec fn record_into<R>(
    m: Seq<(IpAddress, Seq<(u16, NetState)>)>,
    entry: (JobCtrl<R>, Endpoint),
) -> Seq<(IpAddress, Seq<(u16, NetState)>)> {
    let addr = entry.1.addr;
    let service = (entry.1.port, settled_state(entry.0));
    let i = find_addr(m, addr);
    if i == -1 {
        m.push((addr, seq![service]))
    } else {
        m.update(i, (addr, m[i].1.push(service)))
    }
}

/// Folds a whole outcome buffer into the grouping, in completion order.
pub open spec fn aggregate<R>(
    m: Seq<(IpAddress, Seq<(u16, NetState)>)>,
    buf: Seq<(JobCtrl<R>, Endpoint)>,
) -> Seq<(IpAddress, Seq<(u16, NetState)>)>
    decreases buf.len(),
{
    if buf.len() == 0 {
        m
    } else {
        aggregate(record_into(m, buf[0]), buf.skip(1))
    }
}

/// Folding a buffer extended by one outcome folds the buffer, then the
/// outcome.
pub proof fn lemma_aggregate_push<R>(
    m: Seq<(IpAddress, Seq<(u16, NetState)>)>,
    buf: Seq<(JobCtrl<R>, Endpoint)>,
    entry: (JobCtrl<R>, Endpoint),
)
    ensures
        aggregate(m, buf.push(entry)) == record_into(aggregate(m, buf), entry),
    decreases buf.len(),
{
    if buf.len() == 0 {
        assert(buf.push(entry).skip(1) =~= Seq::<(JobCtrl<R>, Endpoint)>::empty());
        assert(buf.push(entry)[0] == entry);
        assert(aggregate(m, buf) == m);
        assert(aggregate(record_into(m, entry), Seq::<(JobCtrl<R>, Endpoint)>::empty())
            == record_into(m, entry));
    } else {
        assert(buf.push(entry).skip(1) =~= buf.skip(1).push(entry));
        assert(buf.push(entry)[0] == buf[0]);
        assert(aggregate(m, buf) == aggregate(record_into(m, buf[0]), buf.skip(1)));
        assert(aggregate(m, buf.push(entry)) == aggregate(
            record_into(m, buf[0]),
            buf.skip(1).push(entry),
        ));
        lemma_aggregate_push(record_into(m, buf[0]), buf.skip(1), entry);
    }
}

/// The sink of the outcome stream, in the mode chosen for the scan.
pub enum OutputType {
    Stream,
    HostMap(Vec<HostPorts>),
}

fn find_host_index(entries: &Vec<HostPorts>, addr: IpAddress) -> (r: Option<usize>)
    ensures
        match r {
            Some(i) => i < entries@.len() && i == find_addr(hosts_view(entries@), addr),
            None => find_addr(hosts_view(entries@), addr) == -1,
        },
{
    proof {
        lemma_find_addr(hosts_view(entries@), addr);
    }
    let n = entries.len();
    let mut i: usize = 0;
    while i < n
        invariant
            i <= n,
            n == entries@.len(),
            forall|j: int| 0 <= j < i ==> hosts_view(entries@)[j].0 != addr,
        decreases n - i,
    {
        if entries[i].addr == addr {
            proof {
                lemma_find_addr(hosts_view(entries@), addr);
                assert(hosts_view(entries@)[i as int].0 == addr);
            }
            return Some(i);
        }
        assert(hosts_view(entries@)[i as int].0 != addr);
        i = i + 1;
    }
    None
}

impl OutputType {
    /// Chooses the sink for one scan run: streaming, or an empty per-host
    /// grouping.
    pub fn from_format(format: Format) -> (r: OutputType)
        ensures
            match r {
                OutputType::Stream => format == Format::Stream,
                OutputType::HostMap(entries) => format == Format::HostMap && entries@ == Seq::<
                    HostPorts,
                >::empty(),
            },
    {
        if let Format::Stream = format {
            OutputType::Stream
        } else {
            OutputType::HostMap(Vec::new())
        }
    }

    /// Consumes one buffer of outcomes. In stream mode every outcome comes
    /// back as one record, errors annotated, and nothing is kept. In map
    /// mode nothing comes back and every outcome is folded into the
    /// per-host grouping, errors settled as `Closed`.
    pub fn handle<R>(&mut self, buf: &Vec<(JobCtrl<R>, Endpoint)>) -> (records: Vec<StreamRecord>)
        ensures
            match *old(self) {
                OutputType::Stream => {
                    &&& *final(self) is Stream
                    &&& records@.len() == buf@.len()
                    &&& forall|i: int| 0 <= i < buf@.len() ==> records@[i] == record_of(buf@[i])
                },
                OutputType::HostMap(entries) => {
                    &&& records@.len() == 0
                    &&& *final(self) matches OutputType::HostMap(after) && hosts_view(after@)
                        == aggregate(hosts_view(entries@), buf@)
                },
            },
    {
        let n = buf.len();
        match self {
            OutputType::Stream => {
                let mut records: Vec<StreamRecord> = Vec::new();
                let mut i: usize = 0;
                while i < n
                    invariant
                        i <= n,
                        n == buf@.len(),
                        records@.len() == i,
                        forall|j: int| 0 <= j < i ==> records@[j] == record_of(buf@[j]),
                    decreases n - i,
                {
                    let (sig, endpoint) = &buf[i];
                    let outcome = match sig {
                        JobCtrl::Return(state, _resp) => Ok(*state),
                        JobCtrl::Error(err) => Err(*err),
                    };
                    records.push(StreamRecord { target: *endpoint, outcome });
                    i = i + 1;
                }
                records
            },
            OutputType::HostMap(entries) => {
                let ghost m0 = hosts_view(entries@);
                proof {
                    assert(buf@.take(0) =~= Seq::<(JobCtrl<R>, Endpoint)>::empty());
                }
                let mut i: usize = 0;
                while i < n
                    invariant
                        i <= n,
                        n == buf@.len(),
                        hosts_view(entries@) == aggregate(m0, buf@.take(i as int)),
                    decreases n - i,
                {
                    let (sig, endpoint) = &buf[i];
                    let state = match sig {
                        JobCtrl::Return(state, _resp) => *state,
                        JobCtrl::Error(_err) => NetState::Closed,
                    };
                    let service = (endpoint.port, state);
                    let ghost before = entries@;
                    match find_host_index(entries, endpoint.addr) {
                        Some(idx) => {
                            let mut host = entries.remove(idx);
                            host.services.push(service);
                            entries.insert(idx, host);
                            proof {
                                lemma_find_addr(hosts_view(before), endpoint.addr);
                                assert(hosts_view(before)[idx as int].0 == endpoint.addr);
                                assert(entries@ =~= before.update(idx as int, host));
                                assert(host.services@ == before[idx as int].services@.push(
                                    (buf@[i as int].1.port, settled_state(buf@[i as int].0)),
                                ));
                                assert(hosts_view(entries@) =~= record_into(
                                    hosts_view(before),
                                    buf@[i as int],
                                ));
                            }
                        },
                        None => {
                            let mut services: Vec<(u16, NetState)> = Vec::new();
                            services.push(service);
                            entries.push(HostPorts { addr: endpoint.addr, services });
                            proof {
                                assert(hosts_view(entries@) =~= record_into(
                                    hosts_view(before),
                                    buf@[i as int],
                                ));
                            }
                        },
                    }
                    proof {
                        assert(buf@.take(i + 1) =~= buf@.take(i as int).push(buf@[i as int]));
                        lemma_aggregate_push(m0, buf@.take(i as int), buf@[i as int]);
                    }
                    i = i + 1;
                }
                proof {
                    assert(buf@.take(n as int) =~= buf@);
                }
                Vec::new()
            },
        }
    }
}

/// Law: two outcomes for the same host and different ports, aggregated in
/// either completion order, yield exactly one entry for that host, whose
/// service list holds both ports, each settled from its own outcome.
pub proof fn lemma_map_mode_single_host<R>(a: (JobCtrl<R>, Endpoint), b: (JobCtrl<R>, Endpoint))
    requires
        a.1.addr == b.1.addr,
        a.1.port != b.1.port,
    ensures
        ({
            let m = aggregate(Seq::<(IpAddress, Seq<(u16, NetState)>)>::empty(), seq![a, b]);
            &&& m.len() == 1
            &&& m[0].0 == a.1.addr
            &&& m[0].1 == seq![
                (a.1.port, settled_state(a.0)),
                (b.1.port, settled_state(b.0)),
            ]
        }),
        ({
            let m = aggregate(Seq::<(IpAddress, Seq<(u16, NetState)>)>::empty(), seq![b, a]);
            &&& m.len() == 1
            &&& m[0].0 == a.1.addr
            &&& m[0].1 == seq![
                (b.1.port, settled_state(b.0)),
                (a.1.port, settled_state(a.0)),
            ]
        }),
{
    lemma_map_mode_pair(a, b);
    lemma_map_mode_pair(b, a);
}

/// Aggregating two same-host outcomes from an empty grouping, first `x`
/// then `y`, leaves one entry holding both services in that order.
proof fn lemma_map_mode_pair<R>(x: (JobCtrl<R>, Endpoint), y: (JobCtrl<R>, Endpoint))
    requires
        x.1.addr == y.1.addr,
    ensures
        ({
            let m = aggregate(Seq::<(IpAddress, Seq<(u16, NetState)>)>::empty(), seq![x, y]);
            &&& m.len() == 1
            &&& m[0].0 == x.1.addr
            &&& m[0].1 == seq![
                (x.1.port, settled_state(x.0)),
                (y.1.port, settled_state(y.0)),
            ]
        }),
{
    let empty = Seq::<(IpAddress, Seq<(u16, NetState)>)>::empty();
    let m1 = record_into(empty, x);
    assert(m1 == empty.push((x.1.addr, seq![(x.1.port, settled_state(x.0))])));
    let m2 = record_into(m1, y);
    assert(find_addr(m1, y.1.addr) == 0);
    assert(m2 == m1.update(0, (y.1.addr, m1[0].1.push((y.1.port, settled_state(y.0))))));
    assert(seq![x, y].skip(1) =~= seq![y]);
    assert(seq![y].skip(1) =~= Seq::<(JobCtrl<R>, Endpoint)>::empty());
    assert(aggregate(empty, seq![x, y]) == aggregate(m1, seq![y]));
    assert(aggregate(m1, seq![y]) == aggregate(m2, Seq::<(JobCtrl<R>, Endpoint)>::empty()));
    assert(aggregate(m2, Seq::<(JobCtrl<R>, Endpoint)>::empty()) == m2);
    assert(m2[0].1 =~= seq![(x.1.port, settled_state(x.0)), (y.1.port, settled_state(y.0))]);
}

} // verus!
