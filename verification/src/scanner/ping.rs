//! Liveness probing: ICMP echo requests and the table that matches each
//! reply to the ping that waits for it.

use crate::utils::address::{IpAddress, SocketTarget};
use crate::utils::table::AddressMap;
use vstd::prelude::*;

verus! {

/// Whether `outcomes` hold an answered ping for `host`. Each outcome carries
/// the host it is about: `Ok` where a reply came in time, `Err` where none
/// did or the request could not be sent.
pub open spec fn replied(outcomes: Seq<Result<IpAddress, IpAddress>>, host: IpAddress) -> bool {
    outcomes.contains(Ok::<IpAddress, IpAddress>(host))
}

/// The hosts among `ips` that answered their ping, in the order of `ips`.
pub open spec fn live_hosts(ips: Seq<IpAddress>, outcomes: Seq<Result<IpAddress, IpAddress>>)
    -> Seq<IpAddress> {
    ips.filter(|host: IpAddress| replied(outcomes, host))
}

/// Keeps the hosts of `ips` that answered their ping and drops the others.
/// An outcome about a host that is not among `ips` adds nothing.
pub fn resolve_ping_ip(ips: Vec<IpAddress>, outcomes: Vec<Result<IpAddress, IpAddress>>) -> (live:
    Vec<IpAddress>)
    ensures
        live@ == live_hosts(ips@, outcomes@),
{
    let mut heard: AddressMap<()> = AddressMap::new();
    let mut i: usize = 0;
    while i < outcomes.len()
        invariant
            i <= outcomes.len(),
            forall|host: IpAddress|
                heard@.contains_key(host) <==> replied(outcomes@.take(i as int), host),
        decreases outcomes.len() - i,
    {
        let ghost before = outcomes@.take(i as int);
        let ghost upto = outcomes@.take(i + 1);
        match outcomes[i] {
            Ok(host) => {
                heard.insert(host, ());
            },
            Err(_) => {},
        }
        proof {
            assert forall|host: IpAddress|
                heard@.contains_key(host) <==> replied(upto, host) by {
                let wanted = Ok::<IpAddress, IpAddress>(host);
                if before.contains(wanted) {
                    let k = choose|k: int| 0 <= k < before.len() && before[k] == wanted;
                    assert(upto[k] == wanted);
                }
                if upto.contains(wanted) {
                    let k = choose|k: int| 0 <= k < upto.len() && upto[k] == wanted;
                    if k < i {
                        assert(before[k] == wanted);
                    }
                }
                assert(upto[i as int] == outcomes@[i as int]);
            }
        }
        i = i + 1;
    }
    proof {
        assert(outcomes@.take(i as int) == outcomes@);
    }
    let mut live: Vec<IpAddress> = Vec::new();
    let mut k: usize = 0;
    while k < ips.len()
        invariant
            k <= ips.len(),
            forall|host: IpAddress| heard@.contains_key(host) <==> replied(outcomes@, host),
            live@ == live_hosts(ips@.take(k as int), outcomes@),
        decreases ips.len() - k,
    {
        proof {
            reveal(Seq::filter);
            let upto = ips@.take(k + 1);
            assert(upto.drop_last() == ips@.take(k as int));
            assert(upto.last() == ips@[k as int]);
        }
        if heard.contains_key(ips[k]) {
            live.push(ips[k]);
        }
        k = k + 1;
    }
    proof {
        assert(ips@.take(k as int) == ips@);
    }
    live
}

/// Only hosts that were asked for and answered are kept, each as often and
/// in the order in which it was asked for.
pub proof fn lemma_live_hosts_were_asked_for(
    ips: Seq<IpAddress>,
    outcomes: Seq<Result<IpAddress, IpAddress>>,
    host: IpAddress,
)
    ensures
        live_hosts(ips, outcomes).len() <= ips.len(),
        live_hosts(ips, outcomes).contains(host) <==> ips.contains(host) && replied(
            outcomes,
            host,
        ),
        forall|others: Seq<IpAddress>|
            live_hosts(ips + others, outcomes) == live_hosts(ips, outcomes) + #[trigger] live_hosts(
                others,
                outcomes,
            ),
{
    let kept = |asked: IpAddress| replied(outcomes, asked);
    let live = live_hosts(ips, outcomes);
    ips.lemma_filter_len(kept);
    if live.contains(host) {
        let at = choose|at: int| 0 <= at < live.len() && live[at] == host;
        ips.lemma_filter_pred(kept, at);
        ips.lemma_filter_contains_rev(kept, host);
    }
    if ips.contains(host) && replied(outcomes, host) {
        let at = choose|at: int| 0 <= at < ips.len() && ips[at] == host;
        ips.lemma_filter_contains(kept, at);
    }
    assert forall|others: Seq<IpAddress>|
        live_hosts(ips + others, outcomes) == live_hosts(ips, outcomes) + #[trigger] live_hosts(
            others,
            outcomes,
        ) by {
        Seq::filter_distributes_over_add(ips, others, kept);
    }
}

/// The host that an outcome is about.
pub open spec fn host_of(outcome: Result<IpAddress, IpAddress>) -> IpAddress {
    match outcome {
        Ok(host) => host,
        Err(host) => host,
    }
}

/// The hosts of the answered pings, in the order of the pings.
pub open spec fn answered(outcomes: Seq<Result<IpAddress, IpAddress>>) -> Seq<IpAddress>
    decreases outcomes.len(),
{
    if outcomes.len() == 0 {
        Seq::empty()
    } else {
        let before = answered(outcomes.drop_last());
        match outcomes.last() {
            Ok(host) => before.push(host),
            Err(_) => before,
        }
    }
}

/// Where every host is pinged once and the outcomes come in the order of
/// the hosts, the hosts that are kept are those of the answered pings, up
/// to any number `k` of hosts and so for all of them.
pub proof fn lemma_live_hosts_follow_the_pings(
    ips: Seq<IpAddress>,
    outcomes: Seq<Result<IpAddress, IpAddress>>,
    k: int,
)
    requires
        ips.no_duplicates(),
        outcomes.len() == ips.len(),
        forall|i: int| 0 <= i < ips.len() ==> host_of(#[trigger] outcomes[i]) == ips[i],
        0 <= k <= ips.len(),
    ensures
        live_hosts(ips.take(k), outcomes) == answered(outcomes.take(k)),
    decreases k,
{
    reveal(Seq::filter);
    if k > 0 {
        lemma_live_hosts_follow_the_pings(ips, outcomes, k - 1);
        let host = ips[k - 1];
        assert(ips.take(k).drop_last() == ips.take(k - 1));
        assert(ips.take(k).last() == host);
        assert(outcomes.take(k).drop_last() == outcomes.take(k - 1));
        assert(outcomes.take(k).last() == outcomes[k - 1]);
        assert(host_of(outcomes[k - 1]) == host);
        if replied(outcomes, host) {
            let j = choose|j: int|
                0 <= j < outcomes.len() && outcomes[j] == Ok::<IpAddress, IpAddress>(host);
            assert(host_of(outcomes[j]) == ips[j]);
            assert(j == k - 1);
        }
    }
}

/// How long a ping waits for its reply, in milliseconds.
pub const PING_TIMEOUT_MS: u64 = 500;

/// How many bytes of payload an echo request carries.
pub const PAYLOAD_LEN: usize = 56;

/// The longest payload that fits into one IPv4 datagram behind the IP and
/// ICMP headers.
pub const MAX_PAYLOAD_LEN: usize = 65507;

/// What `pnet::packet::util::checksum` computes over `data`, leaving out the
/// two bytes at `2 * skipword`.
pub uninterp spec fn internet_checksum(data: Seq<u8>, skipword: usize) -> u16;

/// Calls `pnet::packet::util::checksum`, which sums 16-bit words in a
/// 32-bit accumulator: the bound keeps that sum from overflowing. The
/// result depends on the arguments alone.
#[verifier::external_body]
fn checksum(data: &[u8], skipword: usize) -> (sum: u16)
    requires
        data@.len() <= 131072,
    ensures
        sum == internet_checksum(data@, skipword),
{
    pnet::packet::util::checksum(data, skipword)
}

/// Draws an identifier with `rand::random`. Nothing is known of it.
#[verifier::external_body]
fn random_identifier() -> u16 {
    rand::random::<u16>()
}

/// The more significant byte of `word`.
pub open spec fn high(word: u16) -> u8 {
    (word / 256) as u8
}

/// The less significant byte of `word`.
pub open spec fn low(word: u16) -> u8 {
    (word % 256) as u8
}

/// The two bytes of `word`, the more significant first.
fn bytes_of(word: u16) -> (bytes: (u8, u8))
    ensures
        bytes.0 == high(word),
        bytes.1 == low(word),
{
    ((word / 256) as u8, (word % 256) as u8)
}

/// An echo request on the wire: type 8, code 0, the checksum, the
/// identifier and the sequence number, each 16-bit field with its more
/// significant byte first, and then the payload.
pub open spec fn echo_request(ident: u16, seq_cnt: u16, payload: Seq<u8>, sum: u16) -> Seq<u8> {
    seq![8u8, 0u8, high(sum), low(sum), high(ident), low(ident), high(seq_cnt), low(seq_cnt)]
        + payload
}

/// The checksum of an echo request: computed over the whole packet, with
/// the checksum field itself counted as zero.
pub open spec fn echo_checksum(ident: u16, seq_cnt: u16, payload: Seq<u8>) -> u16 {
    internet_checksum(echo_request(ident, seq_cnt, payload, 0), 1)
}

/// Lays out an echo request that carries the checksum `sum`.
pub fn assemble_echo_request(ident: u16, seq_cnt: u16, payload: &[u8], sum: u16) -> (packet: Vec<
    u8,
>)
    ensures
        packet@ == echo_request(ident, seq_cnt, payload@, sum),
{
    let sum_bytes = bytes_of(sum);
    let ident_bytes = bytes_of(ident);
    let seq_bytes = bytes_of(seq_cnt);
    let mut packet: Vec<u8> = Vec::new();
    packet.push(8);
    packet.push(0);
    packet.push(sum_bytes.0);
    packet.push(sum_bytes.1);
    packet.push(ident_bytes.0);
    packet.push(ident_bytes.1);
    packet.push(seq_bytes.0);
    packet.push(seq_bytes.1);
    let ghost header = packet@;
    let mut i: usize = 0;
    while i < payload.len()
        invariant
            i <= payload.len(),
            packet@ == header + payload@.take(i as int),
        decreases payload.len() - i,
    {
        packet.push(payload[i]);
        i = i + 1;
    }
    assert(payload@.take(i as int) == payload@);
    packet
}

/// Builds an echo request with its checksum filled in.
pub fn make_icmp_echo_packet(ident: u16, seq_cnt: u16, payload: &[u8]) -> (packet: Vec<u8>)
    requires
        payload@.len() <= MAX_PAYLOAD_LEN,
    ensures
        packet@ == echo_request(ident, seq_cnt, payload@, echo_checksum(ident, seq_cnt, payload@)),
{
    let unsummed = assemble_echo_request(ident, seq_cnt, payload, 0);
    let sum = checksum(unsummed.as_slice(), 1);
    assemble_echo_request(ident, seq_cnt, payload, sum)
}

/// One ping: the host it goes to.
#[derive(Debug, Clone, Copy)]
pub struct Pinger {
    pub host: IpAddress,
}

impl Pinger {
    pub fn new(host: IpAddress) -> (pinger: Pinger)
        ensures
            pinger.host == host,
    {
        Pinger { host }
    }

    /// Where the echo request is sent: the host, with no port.
    pub fn destination(&self) -> (target: SocketTarget)
        ensures
            target == (SocketTarget { ip: self.host, port: 0 }),
    {
        SocketTarget { ip: self.host, port: 0 }
    }

    /// The echo request to send: a fresh identifier, sequence number zero,
    /// and `payload`. The identifier is drawn at random, so two requests
    /// for one host need not be equal.
    pub fn request(&self, payload: &[u8]) -> (packet: Vec<u8>)
        requires
            payload@.len() <= MAX_PAYLOAD_LEN,
        ensures
            exists|ident: u16|
                packet@ == #[trigger] echo_request(
                    ident,
                    0,
                    payload@,
                    echo_checksum(ident, 0, payload@),
                ),
    {
        let ident = random_identifier();
        make_icmp_echo_packet(ident, 0, payload)
    }

    /// What the ping comes to: the host on the `Ok` side where its reply
    /// came in time, on the `Err` side where it did not.
    pub fn ping(&self, replied: bool) -> (outcome: Result<IpAddress, IpAddress>)
        ensures
            outcome == if replied {
                Ok::<IpAddress, IpAddress>(self.host)
            } else {
                Err::<IpAddress, IpAddress>(self.host)
            },
    {
        if replied {
            Ok(self.host)
        } else {
            Err(self.host)
        }
    }
}

/// The pings that wait for a reply: for each host, the one waiter to wake
/// when a packet from that host comes in.
#[derive(Debug)]
pub struct ReplyMap<W> {
    waiters: AddressMap<W>,
}

impl<W> View for ReplyMap<W> {
    type V = Map<IpAddress, W>;

    closed spec fn view(&self) -> Map<IpAddress, W> {
        self.waiters@
    }
}

impl<W> ReplyMap<W> {
    /// A table in which nothing waits.
    pub fn new() -> (table: Self)
        ensures
            table@ == Map::<IpAddress, W>::empty(),
    {
        ReplyMap { waiters: AddressMap::new() }
    }

    /// Registers `waiter` for the reply of `host`. A host has one pending
    /// ping at a time: where one is registered already, the registration is
    /// refused, the table and the first waiter stay as they were, and the
    /// new waiter comes back as the error.
    pub fn new_waiter(&mut self, host: IpAddress, waiter: W) -> (registered: Result<(), W>)
        ensures
            match registered {
                Ok(_) => !old(self)@.contains_key(host) && final(self)@ == old(self)@.insert(
                    host,
                    waiter,
                ),
                Err(refused) => old(self)@.contains_key(host) && final(self)@ == old(self)@
                    && refused == waiter,
            },
    {
        if self.waiters.contains_key(host) {
            Err(waiter)
        } else {
            self.waiters.insert(host, waiter);
            Ok(())
        }
    }

    /// Takes out the waiter for a packet that came from `host`. A packet
    /// from a host that nothing waits for, or no longer waits for, finds
    /// none and changes nothing.
    pub fn remove(&mut self, host: IpAddress) -> (waiter: Option<W>)
        ensures
            final(self)@ == old(self)@.remove(host),
            match waiter {
                Some(found) => old(self)@.contains_key(host) && found == old(self)@[host],
                None => !old(self)@.contains_key(host) && final(self)@ == old(self)@,
            },
    {
        let waiter = self.waiters.remove(host);
        proof {
            if waiter is None {
                assert(old(self)@.remove(host) =~= old(self)@);
            }
        }
        waiter
    }
}

/// Pings to different hosts do not touch each other: registering or
/// resolving one leaves the waiter of the other as it was.
pub proof fn lemma_hosts_are_independent<W>(
    table: Map<IpAddress, W>,
    host: IpAddress,
    other: IpAddress,
    waiter: W,
)
    requires
        host != other,
    ensures
        table.insert(host, waiter).contains_key(other) == table.contains_key(other),
        table.contains_key(other) ==> table.insert(host, waiter)[other] == table[other],
        table.remove(host).contains_key(other) == table.contains_key(other),
        table.contains_key(other) ==> table.remove(host)[other] == table[other],
{
}

/// A reply is matched to the ping of the host it came from: once a waiter
/// is registered for `host`, a packet from `host` finds that waiter, and a
/// second packet from it finds none.
pub proof fn lemma_reply_finds_its_waiter<W>(table: Map<IpAddress, W>, host: IpAddress, waiter: W)
    ensures
        table.insert(host, waiter).contains_key(host),
        table.insert(host, waiter)[host] == waiter,
        !table.insert(host, waiter).remove(host).contains_key(host),
{
}

} // verus!
