//! The scanning engine: connection attempts in bounded batches, service
//! fingerprinting, liveness probing.

pub mod matcher;
pub mod ping;
pub mod socket;

use crate::fingerprint::Fingerprint;
use crate::scanner::matcher::{FingerprintMatcher, MatcherView};
use crate::scanner::ping::{live_hosts, resolve_ping_ip};
use crate::scanner::socket::{
    unknown_name, ScannerReply, ScannerReplyView, TransportLayerProtocol,
};
use crate::utils::address::{targets, IpAddress, SocketIterator, SocketTarget};
use crate::utils::text::same_text;
use vstd::prelude::*;
use vstd::string::StringExecFns;

verus! {

/// How many connection attempts may be under way at once.
pub const BATCH_LIMIT: usize = 1000;

/// How many replies may wait to be reported before the scan is held back.
pub const REPORT_QUEUE: usize = 10;

/// What is done with an endpoint that accepts a connection.
#[derive(Debug, Clone, Copy, PartialEq, Eq, Structural)]
pub enum ScanMode {
    /// Report it as open and move on.
    LivenessOnly,
    /// Probe it to find out which service is listening.
    Fingerprinting,
}

/// A scan as it is set up: the hosts, the ports, and the options it was
/// asked for.
#[derive(Debug)]
pub struct Scanner {
    ips: Vec<IpAddress>,
    ports: Vec<u16>,
    batch_size: u16,
    ping: bool,
}

impl Scanner {
    /// The hosts that will be scanned.
    pub closed spec fn ips(&self) -> Seq<IpAddress> {
        self.ips@
    }

    /// The ports that will be tried on each host.
    pub closed spec fn ports(&self) -> Seq<u16> {
        self.ports@
    }

    /// The batch size that was asked for.
    pub closed spec fn batch_size(&self) -> u16 {
        self.batch_size
    }

    /// Whether hosts were pinged first.
    pub closed spec fn ping(&self) -> bool {
        self.ping
    }

    /// Sets up a scan of `ips`. With `ping` set, only those of them that
    /// answered their ping are scanned, and `outcomes` says which did;
    /// without it, every host is scanned and `outcomes` is not looked at.
    /// Either way no host is scanned that is not among `ips`.
    pub fn new(
        ips: Vec<IpAddress>,
        ports: Vec<u16>,
        batch_size: u16,
        ping: bool,
        outcomes: Vec<Result<IpAddress, IpAddress>>,
    ) -> (scanner: Scanner)
        ensures
            scanner.ips() == if ping {
                live_hosts(ips@, outcomes@)
            } else {
                ips@
            },
            scanner.ports() == ports@,
            scanner.batch_size() == batch_size,
            scanner.ping() == ping,
    {
        let ips = if ping {
            resolve_ping_ip(ips, outcomes)
        } else {
            ips
        };
        Scanner { ips, ports, batch_size, ping }
    }

    /// The hosts that will be scanned.
    pub fn hosts(&self) -> (hosts: &Vec<IpAddress>)
        ensures
            hosts@ == self.ips(),
    {
        &self.ips
    }

    /// Lays out the connection attempts of this scan: every port on every
    /// host, port by port, at most `BATCH_LIMIT` of them at a time.
    pub fn scan_socket_list(&self) -> (schedule: BatchScheduler<'_>)
        ensures
            schedule@ == SchedulerView::initial(
                targets(self.ips(), self.ports()),
                BATCH_LIMIT as nat,
            ),
    {
        BatchScheduler::new(self.ips.as_slice(), self.ports.as_slice(), BATCH_LIMIT)
    }

    /// Decides what follows a connection attempt. A target that refused or
    /// timed out is passed over in silence. One that accepted is identified:
    /// with the loaded definition when fingerprinting, with none otherwise,
    /// in which case the identification is finished from the start and the
    /// endpoint is reported as open.
    pub fn scan_socket(
        target: SocketTarget,
        connected: bool,
        mode: ScanMode,
        fingerprint: Option<Fingerprint>,
    ) -> (matcher: Option<FingerprintMatcher>)
        ensures
            matcher is Some == connected,
            matcher matches Some(started) ==> started@ == MatcherView::initial(
                target,
                if mode == ScanMode::Fingerprinting {
                    fingerprint
                } else {
                    None
                },
            ),
    {
        if !connected {
            return None;
        }
        match mode {
            ScanMode::Fingerprinting => Some(FingerprintMatcher::new(target, fingerprint)),
            ScanMode::LivenessOnly => Some(FingerprintMatcher::new(target, None)),
        }
    }
}

/// What stands in a report for something that is not known.
pub open spec fn wildcard() -> Seq<char> {
    "*"@
}

/// Whether `reply` describes an endpoint that can be reported: one that was
/// reached over TCP and whose host and port are filled in.
pub open spec fn reportable(reply: ScannerReplyView) -> bool {
    reply.transport_layer_protocol == Some(TransportLayerProtocol::TCP) && reply.ip_addr is Some
        && reply.port is Some
}

/// The service name as it is reported: the wildcard where nothing
/// identified the service.
pub open spec fn shown_name(reply: ScannerReplyView) -> Seq<char> {
    if reply.name == unknown_name() {
        wildcard()
    } else {
        reply.name
    }
}

/// The version as it is reported: the wildcard where none was captured.
pub open spec fn shown_version(reply: ScannerReplyView) -> Seq<char> {
    match reply.version {
        Some(version) => version,
        None => wildcard(),
    }
}

/// One reported endpoint, ready to be printed.
#[derive(Debug)]
pub struct ReportLine {
    pub host: IpAddress,
    pub port: u16,
    pub name: String,
    pub version: String,
}

/// What there is to report about `reply`: a line for an endpoint reached
/// over TCP, nothing for any other reply.
pub fn report_line(reply: &ScannerReply) -> (line: Option<ReportLine>)
    ensures
        line is Some == reportable(reply@),
        line matches Some(shown) ==> {
            &&& reply@.ip_addr == Some(shown.host)
            &&& reply@.port == Some(shown.port)
            &&& shown.name@ == shown_name(reply@)
            &&& shown.version@ == shown_version(reply@)
        },
{
    match (reply.transport_layer_protocol(), reply.ip_addr(), reply.port()) {
        (Some(TransportLayerProtocol::TCP), Some(host), Some(port)) => {
            let held = reply.name();
            let name = if same_text(held.as_str(), "unknown") {
                String::from_str("*")
            } else {
                held
            };
            let version = match reply.version() {
                Some(text) => text,
                None => String::from_str("*"),
            };
            Some(ReportLine { host, port, name, version })
        },
        _ => None,
    }
}

/// The scheduler's state as plain values: the attempts of the scan in
/// order, how many have been launched, the limit, and how many launched
/// attempts have not been retired.
pub ghost struct SchedulerView {
    pub targets: Seq<SocketTarget>,
    pub launched: nat,
    pub limit: nat,
    pub outstanding: nat,
}

impl SchedulerView {
    /// A schedule on which nothing has been launched.
    pub open spec fn initial(targets: Seq<SocketTarget>, limit: nat) -> SchedulerView {
        SchedulerView { targets, launched: 0, limit, outstanding: 0 }
    }

    /// What every schedule satisfies: no more attempts are outstanding than
    /// the limit allows, and none is launched that the scan does not hold.
    pub open spec fn well_formed(self) -> bool {
        self.outstanding <= self.limit && self.launched <= self.targets.len()
    }

    /// The attempts that `launch` hands out in this state: none while a
    /// batch is under way, otherwise the next ones up to the limit.
    pub open spec fn next_batch(self) -> Seq<SocketTarget> {
        if self.outstanding > 0 {
            Seq::empty()
        } else if self.targets.len() - self.launched <= self.limit {
            self.targets.skip(self.launched as int)
        } else {
            self.targets.subrange(self.launched as int, (self.launched + self.limit) as int)
        }
    }

    /// The state after `launch`.
    pub open spec fn after_launch(self) -> SchedulerView {
        if self.outstanding > 0 {
            self
        } else {
            SchedulerView {
                launched: self.launched + self.next_batch().len(),
                outstanding: self.next_batch().len(),
                ..self
            }
        }
    }

    /// The state after one attempt has come to its end.
    pub open spec fn after_retire(self) -> SchedulerView {
        if self.outstanding > 0 {
            SchedulerView { outstanding: (self.outstanding - 1) as nat, ..self }
        } else {
            self
        }
    }

    /// Every attempt has been launched and retired.
    pub open spec fn done(self) -> bool {
        self.outstanding == 0 && self.launched >= self.targets.len()
    }
}

/// Launches the connection attempts of a scan in batches. A batch holds at
/// most `limit` attempts, and the next one is launched only when every
/// attempt of the one before has been retired.
#[derive(Debug)]
pub struct BatchScheduler<'s> {
    queue: SocketIterator<'s>,
    limit: usize,
    outstanding: usize,
}

impl<'s> View for BatchScheduler<'s> {
    type V = SchedulerView;

    closed spec fn view(&self) -> SchedulerView {
        SchedulerView {
            targets: self.queue.all(),
            launched: self.queue.position(),
            limit: self.limit as nat,
            outstanding: self.outstanding as nat,
        }
    }
}

impl<'s> BatchScheduler<'s> {
    #[verifier::type_invariant]
    spec fn bounded(self) -> bool {
        self.outstanding <= self.limit && self.queue.position() <= self.queue.all().len()
    }

    pub fn new(ips: &'s [IpAddress], ports: &'s [u16], limit: usize) -> (schedule: Self)
        ensures
            schedule@ == SchedulerView::initial(targets(ips@, ports@), limit as nat),
    {
        BatchScheduler { queue: SocketIterator::new(ips, ports), limit, outstanding: 0 }
    }

    /// Hands out the next batch of attempts to start, in scan order. While
    /// attempts of the last batch are still outstanding it hands out none.
    pub fn launch(&mut self) -> (batch: Vec<SocketTarget>)
        ensures
            batch@ == old(self)@.next_batch(),
            final(self)@ == old(self)@.after_launch(),
            final(self)@.well_formed(),
            batch@.len() <= old(self)@.limit,
    {
        proof {
            use_type_invariant(&*self);
        }
        let mut batch: Vec<SocketTarget> = Vec::new();
        if self.outstanding > 0 {
            return batch;
        }
        let limit = self.limit;
        let mut queue = self.queue;
        let ghost start = queue.position();
        let ghost all = queue.all();
        let mut queue_empty = false;
        while batch.len() < limit && !queue_empty
            invariant
                queue.all() == all,
                batch@.len() <= limit,
                queue.position() == start + batch@.len(),
                queue.position() <= all.len(),
                batch@ == all.subrange(start as int, (start + batch@.len()) as int),
                queue_empty ==> queue.position() == all.len(),
            decreases all.len() - queue.position() + if queue_empty { 0int } else { 1int },
        {
            match queue.next() {
                Some(target) => {
                    batch.push(target);
                },
                None => {
                    queue_empty = true;
                },
            }
        }
        self.queue = queue;
        self.outstanding = batch.len();
        batch
    }

    /// Takes note that one launched attempt has come to its end, whether it
    /// connected or not.
    pub fn retire(&mut self)
        ensures
            final(self)@ == old(self)@.after_retire(),
            final(self)@.well_formed(),
    {
        proof {
            use_type_invariant(&*self);
        }
        if self.outstanding > 0 {
            self.outstanding = self.outstanding - 1;
        }
    }

    /// Whether the scan is over: every attempt has been launched and
    /// retired.
    pub fn is_done(&self) -> (done: bool)
        ensures
            done == self@.done(),
    {
        self.outstanding == 0 && self.queue.is_exhausted()
    }

    /// How many launched attempts have not been retired yet.
    pub fn outstanding(&self) -> (count: usize)
        ensures
            count == self@.outstanding,
            count <= self@.limit,
    {
        proof {
            use_type_invariant(self);
        }
        self.outstanding
    }
}

/// Batches follow one another through the scan without a gap or a
/// repetition: a batch starts where the one before it ended, and while
/// attempts are left and the limit is not zero it is not empty.
pub proof fn lemma_batches_in_order(state: SchedulerView)
    requires
        state.well_formed(),
        state.outstanding == 0,
    ensures
        state.next_batch() == state.targets.subrange(
            state.launched as int,
            state.after_launch().launched as int,
        ),
        state.after_launch().launched <= state.targets.len(),
        state.limit > 0 && state.launched < state.targets.len() ==> state.next_batch().len() > 0,
        state.after_launch().outstanding == state.next_batch().len(),
{
}

/// Launching and retiring never bring more attempts under way than the
/// limit allows, and a batch is no larger than the limit.
pub proof fn lemma_outstanding_bounded(state: SchedulerView)
    requires
        state.well_formed(),
    ensures
        state.after_launch().well_formed(),
        state.after_retire().well_formed(),
        state.next_batch().len() <= state.limit,
        SchedulerView::initial(state.targets, state.limit).well_formed(),
{
}

} // verus!
