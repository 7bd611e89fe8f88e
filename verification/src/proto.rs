//! The protocol probe abstraction and the SYN strategy's classification
//! rule: what a reply's TCP flags — or the absence of a reply — say about
//! the probed port.

use vstd::prelude::*;

verus! {

use crate::net::{Endpoint, IpAddress, Ipv4Address, NetState, ProbeError};
use crate::pool::{job_endpoints, outcome_endpoints, JobCtrl, JobPool, ScanJob};

/// The SYN bit of the TCP flags byte.
pub const TCP_FLAG_SYN: u8 = 0x02;

/// The RST bit of the TCP flags byte.
pub const TCP_FLAG_RST: u8 = 0x04;

/// The ACK bit of the TCP flags byte.
pub const TCP_FLAG_ACK: u8 = 0x10;

/// What a SYN probe infers from the flag byte of the reply it correlated,
/// or from silence: SYN+ACK means the port accepts connections, RST means
/// it refuses them, and no conclusive reply before the timeout leaves the
/// port filtered.
pub open spec fn spec_classify(reply: Option<u8>) -> NetState {
    match reply {
        Option::None => NetState::Filtered,
        Option::Some(flags) => {
            if flags & TCP_FLAG_SYN != 0 && flags & TCP_FLAG_ACK != 0 {
                NetState::Open
            } else if flags & TCP_FLAG_RST != 0 {
                NetState::Closed
            } else {
                NetState::Filtered
            }
        },
    }
}

/// Classifies one probe's observation: the TCP flag byte of the reply, if
/// one arrived before the timeout.
pub fn classify_reply(reply: Option<u8>) -> (state: NetState)
    ensures
        state == spec_classify(reply),
{
    match reply {
        Option::None => NetState::Filtered,
        Option::Some(flags) => {
            if flags & TCP_FLAG_SYN != 0 && flags & TCP_FLAG_ACK != 0 {
                NetState::Open
            } else if flags & TCP_FLAG_RST != 0 {
                NetState::Closed
            } else {
                NetState::Filtered
            }
        },
    }
}

/// What the read path extracts from one inbound frame: the fields by which
/// a reply is correlated with its originating probe, and the flags it is
/// classified by.
#[derive(Clone, Copy, Debug, PartialEq, Eq, Structural)]
pub struct ReplyInfo {
    pub src: Ipv4Address,
    pub src_port: u16,
    pub dst_port: u16,
    pub flags: u8,
}

/// Whether an inbound frame is a TCP-over-IPv4 frame long enough to carry
/// the fields the read path needs.
pub open spec fn is_probe_reply(b: Seq<u8>) -> bool {
    &&& b.len() >= 34
    &&& b[12] == 0x08 && b[13] == 0x00
    &&& b[14] / 16 == 4
    &&& b[14] % 16 >= 5
    &&& b[23] == 6
    &&& b.len() >= 14 + (b[14] % 16) * 4 + 14
}

/// The correlation fields of a well-formed reply frame: the sender's IPv4
/// address and the TCP ports and flags behind the frame's own header
/// length.
pub open spec fn reply_info_of(b: Seq<u8>) -> ReplyInfo
    recommends
        is_probe_reply(b),
{
    let tcp = 14 + (b[14] % 16) * 4;
    ReplyInfo {
        src: Ipv4Address { o0: b[26], o1: b[27], o2: b[28], o3: b[29] },
        src_port: (b[tcp] * 0x100 + b[tcp + 1]) as u16,
        dst_port: (b[tcp + 2] * 0x100 + b[tcp + 3]) as u16,
        flags: b[tcp + 13],
    }
}

/// Extracts the correlation fields from one inbound frame, or nothing if
/// the frame is not a TCP-over-IPv4 frame of sufficient length.
pub fn parse_probe_reply(frame: &Vec<u8>) -> (r: Option<ReplyInfo>)
    ensures
        r == if is_probe_reply(frame@) {
            Some(reply_info_of(frame@))
        } else {
            Option::<ReplyInfo>::None
        },
{
    if frame.len() < 34 {
        return None;
    }
    if !(frame[12] == 0x08 && frame[13] == 0x00) {
        return None;
    }
    if !(frame[14] / 16 == 4 && frame[14] % 16 >= 5) {
        return None;
    }
    if frame[23] != 6 {
        return None;
    }
    let tcp: usize = 14 + (frame[14] % 16) as usize * 4;
    if frame.len() < tcp + 14 {
        return None;
    }
    Some(
        ReplyInfo {
            src: Ipv4Address {
                o0: frame[26],
                o1: frame[27],
                o2: frame[28],
                o3: frame[29],
            },
            src_port: frame[tcp] as u16 * 0x100 + frame[tcp + 1] as u16,
            dst_port: frame[tcp + 2] as u16 * 0x100 + frame[tcp + 3] as u16,
            flags: frame[tcp + 13],
        },
    )
}

/// Whether a reply belongs to the probe sent to `target` from the
/// randomized source port `probe_src_port`: it must come from the probed
/// address and port and be addressed back to that source port.
pub open spec fn reply_matches(info: ReplyInfo, target: Endpoint, probe_src_port: u16) -> bool {
    &&& target.addr == IpAddress::V4(info.src)
    &&& info.src_port == target.port
    &&& info.dst_port == probe_src_port
}

/// Correlates one parsed reply with its candidate probe.
pub fn correlate_reply(info: &ReplyInfo, target: &Endpoint, probe_src_port: u16) -> (matched:
    bool)
    ensures
        matched == reply_matches(*info, *target, probe_src_port),
{
    let from_target = match target.addr {
        IpAddress::V4(a) => a == info.src,
        IpAddress::V6(_) => false,
    };
    from_target && info.src_port == target.port && info.dst_port == probe_src_port
}

/// The single extension point of the engine: every scan strategy attempts
/// its probe and reports a classification or the error it failed with. The
/// dispatcher and the aggregator never know concrete probe types; each
/// strategy states what its attempt reports through `spec_scan`, and
/// `scan` is held to it.
pub trait Scannable {
    /// The classification or failure this strategy's attempt reports.
    spec fn spec_scan(&self) -> Result<NetState, ProbeError>;

    fn scan(&self) -> (r: Result<NetState, ProbeError>)
        ensures
            r == self.spec_scan(),
    ;
}

/// The SYN strategy's decision kernel. The link-layer exchange happens
/// outside; a value of this type records what came back — the reply's TCP
/// flag byte, or nothing before the timeout — and classifies it.
pub struct SynScan {
    pub reply: Option<u8>,
}

impl Scannable for SynScan {
    /// A SYN probe never fails of itself: it classifies what it observed.
    open spec fn spec_scan(&self) -> Result<NetState, ProbeError> {
        Ok(spec_classify(self.reply))
    }

    fn scan(&self) -> (r: Result<NetState, ProbeError>) {
        Ok(classify_reply(self.reply))
    }
}

/// The outcome a probe's report settles its job with.
pub open spec fn outcome_of(r: Result<NetState, ProbeError>) -> JobCtrl<()> {
    match r {
        Ok(state) => JobCtrl::Return(state, ()),
        Err(err) => JobCtrl::Error(err),
    }
}

/// Runs a whole batch through the dispatcher: each job's probe is
/// attempted as the job is dispatched, its report becomes the job's one
/// outcome, and a failed probe never touches its siblings. Every job
/// yields exactly what its own probe reports, paired with its endpoint;
/// in this sequential driver completion order is submission order. The
/// dispatcher never learns the concrete probe type.
pub fn run_batch<P: Scannable>(jobs: Vec<ScanJob<P>>, limit: usize) -> (out: Vec<(
    JobCtrl<()>,
    Endpoint,
)>)
    requires
        limit >= 1,
    ensures
        out@.len() == jobs@.len(),
        forall|i: int|
            0 <= i < jobs@.len() ==> out@[i] == (
                outcome_of(jobs@[i].probe.spec_scan()),
                jobs@[i].target,
            ),
        outcome_endpoints(out@).to_multiset() == job_endpoints(jobs@).to_multiset(),
{
    let mut pool: JobPool<P, ()> = JobPool::submit(jobs, limit);
    while !pool.is_done()
        invariant
            pool.wf(),
            pool.inflight@.len() == 0,
            pool.submitted@ == job_endpoints(jobs@),
            pool.yielded@ == Seq::<Endpoint>::empty(),
            pool.completed@.len() + pool.pending@.len() == jobs@.len(),
            pool.pending@ == jobs@.skip(pool.completed@.len() as int),
            forall|i: int|
                0 <= i < pool.completed@.len() ==> pool.completed@[i] == (
                    outcome_of(jobs@[i].probe.spec_scan()),
                    jobs@[i].target,
                ),
        decreases pool.pending@.len(),
    {
        let ghost done = pool.completed@.len() as int;
        match pool.dispatch_next() {
            Some(job) => {
                proof {
                    assert(job == jobs@.skip(done)[0]);
                    assert(job == jobs@[done]);
                }
                let outcome = match job.probe.scan() {
                    Ok(state) => JobCtrl::Return(state, ()),
                    Err(err) => JobCtrl::Error(err),
                };
                proof {
                    assert(outcome == outcome_of(jobs@[done].probe.spec_scan()));
                }
                pool.complete(0, outcome);
                proof {
                    assert(pool.pending@ =~= jobs@.skip(done + 1));
                }
            },
            None => {
                proof {
                    assert(false);
                }
            },
        }
    }
    proof {
        assert(pool.completed@.len() == jobs@.len());
        assert(outcome_endpoints(pool.completed@) =~= job_endpoints(jobs@));
    }
    pool.into_outcomes()
}

} // verus!
