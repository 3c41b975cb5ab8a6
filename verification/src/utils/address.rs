//! Addresses: the values the scanner works on, and the expressions that
//! name them.

use crate::utils::distinct::{distinct, lemma_distinct, lemma_merge_joined, merge};
use crate::utils::pattern::{is_match, regex_is_match, regex_valid};
use crate::utils::table::AddressMap;
use crate::utils::text::{
    bounded_decimal, chars_of, fields, parse_decimal, same_text, split, views,
};
use vstd::arithmetic::div_mod::lemma_fundamental_div_mod_converse;
use vstd::prelude::*;

verus! {

/// An IP address as a number: the four octets of an IPv4 address, or the
/// sixteen of an IPv6 address, most significant first.
#[derive(Clone, Copy, Debug, PartialEq, Eq, Structural, Hash)]
pub enum IpAddress {
    V4(u32),
    V6(u128),
}

/// One endpoint to scan: a host and a port on it.
#[derive(Clone, Copy, Debug, PartialEq, Eq, Structural, Hash)]
pub struct SocketTarget {
    pub ip: IpAddress,
    pub port: u16,
}

/// The shape of one address expression.
#[derive(Debug, Clone, Copy, PartialEq, Eq, Structural)]
pub enum AddressType {
    /// A single IPv4 address, `a.b.c.d`.
    IP,
    /// Two IPv4 addresses and everything between them, `a.b.c.d-e.f.g.h`.
    Range,
    /// A network in CIDR notation, `a.b.c.d/n`.
    Mask,
    /// Anything else; it is taken for a host name.
    UNKNOWN,
}

/// The pattern of a single IPv4 address.
pub const IP_PATTERN: &'static str =
    "^((2(5[0-5]|[0-4]\\d))|[0-1]?\\d{1,2})(\\.((2(5[0-5]|[0-4]\\d))|[0-1]?\\d{1,2})){3}$";

/// The pattern of a range of IPv4 addresses.
pub const RANGE_PATTERN: &'static str =
    "^((2(5[0-5]|[0-4]\\d))|[0-1]?\\d{1,2})(\\.((2(5[0-5]|[0-4]\\d))|[0-1]?\\d{1,2})){3}-((2(5[0-5]|[0-4]\\d))|[0-1]?\\d{1,2})(\\.((2(5[0-5]|[0-4]\\d))|[0-1]?\\d{1,2})){3}$";

/// The pattern of an IPv4 network in CIDR notation.
pub const MASK_PATTERN: &'static str =
    "^((2(5[0-5]|[0-4]\\d))|[0-1]?\\d{1,2})(\\.((2(5[0-5]|[0-4]\\d))|[0-1]?\\d{1,2})){3}/\\d+$";

/// Whether `pattern` is a regular expression that occurs in `text`.
pub open spec fn occurs(pattern: Seq<char>, text: Seq<char>) -> bool {
    regex_valid(pattern) && regex_is_match(pattern, text)
}

/// The shape of an expression, given which of the three patterns it
/// fits: the first of single address, range and network that it fits, and a
/// host name where it fits none.
pub open spec fn shape_of(ip: bool, range: bool, mask: bool) -> AddressType {
    if ip {
        AddressType::IP
    } else if range {
        AddressType::Range
    } else if mask {
        AddressType::Mask
    } else {
        AddressType::UNKNOWN
    }
}

/// The shape of `address`.
pub open spec fn address_type(address: Seq<char>) -> AddressType {
    shape_of(
        occurs(IP_PATTERN@, address),
        occurs(RANGE_PATTERN@, address),
        occurs(MASK_PATTERN@, address),
    )
}

impl AddressType {
    /// The shape of an expression, from which of the three patterns it
    /// fits.
    pub fn from_matches(ip: bool, range: bool, mask: bool) -> (shape: AddressType)
        ensures
            shape == shape_of(ip, range, mask),
    {
        if ip {
            AddressType::IP
        } else if range {
            AddressType::Range
        } else if mask {
            AddressType::Mask
        } else {
            AddressType::UNKNOWN
        }
    }
}

/// Whether `pattern` occurs in `text`. A pattern that does not compile
/// occurs nowhere.
fn fits(pattern: &str, text: &str) -> (found: bool)
    ensures
        found == occurs(pattern@, text@),
{
    match is_match(pattern, text) {
        Ok(hit) => hit,
        Err(_) => false,
    }
}

/// Tells the shape of one address expression.
pub fn get_address_type(address: &str) -> (shape: AddressType)
    ensures
        shape == address_type(address@),
{
    let ip = fits(IP_PATTERN, address);
    let range = fits(RANGE_PATTERN, address);
    let mask = fits(MASK_PATTERN, address);
    AddressType::from_matches(ip, range, mask)
}

/// What `s` reads as one octet of a dotted address: one to three ASCII
/// digits that write a number up to 255, with no zero in front of another
/// digit.
pub open spec fn octet(s: Seq<char>) -> Option<nat> {
    if s.len() <= 3 && (s.len() == 1 || s[0] != '0') {
        bounded_decimal(s, 255)
    } else {
        None
    }
}

/// What `s` reads as a dotted IPv4 address: four octets with dots between
/// them, the first being the most significant.
pub open spec fn ipv4_number(s: Seq<char>) -> Option<u32> {
    let parts = fields(s, '.');
    if parts.len() == 4 && octet(parts[0]) is Some && octet(parts[1]) is Some && octet(
        parts[2],
    ) is Some && octet(parts[3]) is Some {
        Some(
            (octet(parts[0])->0 * 16777216 + octet(parts[1])->0 * 65536 + octet(parts[2])->0 * 256
                + octet(parts[3])->0) as u32,
        )
    } else {
        None
    }
}

/// Reads one octet of a dotted address.
fn parse_octet(text: &str) -> (value: Option<u32>)
    ensures
        match value {
            Some(v) => octet(text@) == Some(v as nat) && v <= 255,
            None => octet(text@) is None,
        },
{
    let chars = chars_of(text);
    if chars.len() > 3 || (chars.len() != 1 && chars.len() > 0 && chars[0] == '0') {
        return None;
    }
    parse_decimal(&chars, 255)
}

/// Reads a dotted IPv4 address.
pub fn parse_ipv4(text: &str) -> (address: Option<u32>)
    ensures
        address == ipv4_number(text@),
{
    let parts = split(text, '.');
    if parts.len() != 4 {
        return None;
    }
    let a = parse_octet(parts[0].as_str());
    let b = parse_octet(parts[1].as_str());
    let c = parse_octet(parts[2].as_str());
    let d = parse_octet(parts[3].as_str());
    proof {
        let spec_parts = fields(text@, '.');
        assert(spec_parts[0] == parts@[0]@);
        assert(spec_parts[1] == parts@[1]@);
        assert(spec_parts[2] == parts@[2]@);
        assert(spec_parts[3] == parts@[3]@);
    }
    match (a, b, c, d) {
        (Some(a), Some(b), Some(c), Some(d)) => Some(a * 16777216 + b * 65536 + c * 256 + d),
        _ => None,
    }
}

/// The addresses from `start` to `end`, both included, in ascending order;
/// none where `start` lies after `end`.
pub open spec fn span(start: u32, end: u32) -> Seq<u32> {
    Seq::new(
        if start <= end {
            (end - start + 1) as nat
        } else {
            0
        },
        |i: int| (start + i) as u32,
    )
}

/// The IPv4 addresses `numbers`, as addresses.
pub open spec fn as_v4(numbers: Seq<u32>) -> Seq<IpAddress> {
    Seq::new(numbers.len(), |i: int| IpAddress::V4(numbers[i]))
}

/// What `cidr_utils::cidr::Ipv4Cidr::from_str` makes of `text`: the
/// addresses of the IPv4 network that it names, in ascending order, or
/// `None` where it names none.
pub uninterp spec fn cidr_block(text: Seq<char>) -> Option<Seq<u32>>;

/// `cidr_utils::cidr::Ipv4CidrError`, the error of `Ipv4Cidr::from_str`. It
/// is carried through and never looked into.
#[verifier::external_type_specification]
#[verifier::external_body]
pub struct ExCidrError(cidr_utils::cidr::Ipv4CidrError);

/// Walks `ipnet::Ipv4AddrRange::new(start, end)` to its end. The iterator
/// yields `start`, then each following address up to and including `end`,
/// and nothing where `start` is greater than `end`.
#[verifier::external_body]
fn ipv4_range(start: u32, end: u32) -> (hosts: Vec<u32>)
    ensures
        hosts@ == span(start, end),
{
    ipnet::Ipv4AddrRange::new(start.into(), end.into()).map(u32::from).collect()
}

/// Parses `text` with `cidr_utils::cidr::Ipv4Cidr::from_str` and walks
/// `Ipv4Cidr::iter` to its end. The result depends on the text alone.
#[verifier::external_body]
fn cidr_hosts(text: &str) -> (hosts: Result<Vec<u32>, cidr_utils::cidr::Ipv4CidrError>)
    ensures
        match hosts {
            Ok(list) => cidr_block(text@) == Some(list@),
            Err(_) => cidr_block(text@) is None,
        },
{
    Ok(cidr_utils::cidr::Ipv4Cidr::from_str(text)?.iter().collect())
}

/// Turns IPv4 numbers into addresses.
pub fn to_addresses(numbers: Vec<u32>) -> (hosts: Vec<IpAddress>)
    ensures
        hosts@ == as_v4(numbers@),
{
    let mut hosts: Vec<IpAddress> = Vec::new();
    let mut i: usize = 0;
    while i < numbers.len()
        invariant
            i <= numbers.len(),
            hosts@ == as_v4(numbers@.take(i as int)),
        decreases numbers.len() - i,
    {
        hosts.push(IpAddress::V4(numbers[i]));
        i = i + 1;
        assert(hosts@ == as_v4(numbers@.take(i as int)));
    }
    assert(numbers@.take(i as int) == numbers@);
    hosts
}

/// The addresses that the range expression `s` names: for `first-last`,
/// every address from `first` to `last`; for the empty expression, none.
/// `None` where `s` is not two dotted addresses with a hyphen between them.
/// What follows a second hyphen is not read.
pub open spec fn range_addresses(s: Seq<char>) -> Option<Seq<IpAddress>> {
    let parts = fields(s, '-');
    if s.len() == 0 {
        Some(Seq::empty())
    } else if parts.len() >= 2 && ipv4_number(parts[0]) is Some && ipv4_number(parts[1]) is Some {
        Some(as_v4(span(ipv4_number(parts[0])->0, ipv4_number(parts[1])->0)))
    } else {
        None
    }
}

/// The addresses that the network expression `s` names, or `None` where it
/// names no IPv4 network.
pub open spec fn mask_addresses(s: Seq<char>) -> Option<Seq<IpAddress>> {
    match cidr_block(s) {
        Some(numbers) => Some(as_v4(numbers)),
        None => None,
    }
}

/// Expands a range expression. The error is the expression itself.
pub fn resolve_ips_from_range_address(address: &str) -> (hosts: Result<Vec<IpAddress>, String>)
    ensures
        match hosts {
            Ok(list) => range_addresses(address@) == Some(list@),
            Err(token) => range_addresses(address@) is None && token@ == address@,
        },
{
    if address.is_empty() {
        return Ok(Vec::new());
    }
    let parts = split(address, '-');
    if parts.len() < 2 {
        return Err(address.to_owned());
    }
    proof {
        let spec_parts = fields(address@, '-');
        assert(spec_parts[0] == parts@[0]@);
        assert(spec_parts[1] == parts@[1]@);
    }
    match (parse_ipv4(parts[0].as_str()), parse_ipv4(parts[1].as_str())) {
        (Some(start), Some(end)) => Ok(to_addresses(ipv4_range(start, end))),
        _ => Err(address.to_owned()),
    }
}

/// Expands an IPv4 network expression. The error is the expression itself;
/// an IPv6 network is not expanded and comes back as an error too.
pub fn resolve_ips_from_mask_address(address: &str) -> (hosts: Result<Vec<IpAddress>, String>)
    ensures
        match hosts {
            Ok(list) => mask_addresses(address@) == Some(list@),
            Err(token) => mask_addresses(address@) is None && token@ == address@,
        },
{
    match cidr_hosts(address) {
        Ok(numbers) => Ok(to_addresses(numbers)),
        Err(_) => Err(address.to_owned()),
    }
}

/// The answer to one name lookup: the addresses that the name resolved to,
/// or `None` where it could not be resolved.
#[derive(Debug, Clone)]
pub struct Lookup {
    pub name: String,
    pub addresses: Option<Vec<IpAddress>>,
}

/// What the first lookup of `name` at or after `from` answered; `None`
/// where that lookup failed or there is none.
pub open spec fn looked_up(name: Seq<char>, lookups: Seq<Lookup>, from: int) -> Option<
    Seq<IpAddress>,
>
    decreases lookups.len() - from,
{
    if from < 0 || from >= lookups.len() {
        None
    } else if lookups[from].name@ == name {
        match lookups[from].addresses {
            Some(list) => Some(list@),
            None => None,
        }
    } else {
        looked_up(name, lookups, from + 1)
    }
}

/// The addresses that one expression names, or `None` where it names none
/// and is to be reported as invalid. A host name names what its lookup
/// answered.
pub open spec fn outcome(token: Seq<char>, lookups: Seq<Lookup>) -> Option<Seq<IpAddress>> {
    match address_type(token) {
        AddressType::IP => match ipv4_number(token) {
            Some(number) => Some(seq![IpAddress::V4(number)]),
            None => None,
        },
        AddressType::Range => range_addresses(token),
        AddressType::Mask => mask_addresses(token),
        AddressType::UNKNOWN => looked_up(token, lookups, 0),
    }
}

/// The addresses that the expressions `tokens` name, expression by
/// expression, with repetitions.
pub open spec fn resolved(tokens: Seq<Seq<char>>, lookups: Seq<Lookup>) -> Seq<IpAddress>
    decreases tokens.len(),
{
    if tokens.len() == 0 {
        Seq::empty()
    } else {
        let before = resolved(tokens.drop_last(), lookups);
        match outcome(tokens.last(), lookups) {
            Some(hosts) => before + hosts,
            None => before,
        }
    }
}

/// The expressions among `tokens` that name no address, in order, with
/// repetitions.
pub open spec fn rejected(tokens: Seq<Seq<char>>, lookups: Seq<Lookup>) -> Seq<Seq<char>>
    decreases tokens.len(),
{
    if tokens.len() == 0 {
        Seq::empty()
    } else {
        let before = rejected(tokens.drop_last(), lookups);
        match outcome(tokens.last(), lookups) {
            Some(_) => before,
            None => before.push(tokens.last()),
        }
    }
}

/// The expressions among `tokens` that are taken for host names, in order.
pub open spec fn host_names(tokens: Seq<Seq<char>>) -> Seq<Seq<char>>
    decreases tokens.len(),
{
    if tokens.len() == 0 {
        Seq::empty()
    } else {
        let before = host_names(tokens.drop_last());
        if address_type(tokens.last()) == AddressType::UNKNOWN {
            before.push(tokens.last())
        } else {
            before
        }
    }
}

/// Whether the expression `token` names the address `ip`.
pub open spec fn names(token: Seq<char>, lookups: Seq<Lookup>, ip: IpAddress) -> bool {
    outcome(token, lookups) matches Some(hosts) && hosts.contains(ip)
}

/// An expression is among the rejected ones exactly when it is one of the
/// expressions given and names no address.
pub proof fn lemma_rejected_are_the_failures(
    tokens: Seq<Seq<char>>,
    lookups: Seq<Lookup>,
    token: Seq<char>,
)
    ensures
        rejected(tokens, lookups).contains(token) <==> tokens.contains(token) && outcome(
            token,
            lookups,
        ) is None,
    decreases tokens.len(),
{
    if tokens.len() > 0 {
        let head = tokens.drop_last();
        let before = rejected(head, lookups);
        let after = rejected(tokens, lookups);
        lemma_rejected_are_the_failures(head, lookups, token);
        if tokens.contains(token) {
            let k = choose|k: int| 0 <= k < tokens.len() && tokens[k] == token;
            if k < head.len() {
                assert(head[k] == token);
            }
        }
        if head.contains(token) {
            let k = choose|k: int| 0 <= k < head.len() && head[k] == token;
            assert(tokens[k] == token);
        }
        assert(tokens[tokens.len() - 1] == tokens.last());
        if outcome(tokens.last(), lookups) is None {
            assert(after[after.len() - 1] == tokens.last());
            if before.contains(token) {
                let k = choose|k: int| 0 <= k < before.len() && before[k] == token;
                assert(after[k] == token);
            }
            if after.contains(token) {
                let k = choose|k: int| 0 <= k < after.len() && after[k] == token;
                if k < before.len() {
                    assert(before[k] == token);
                }
            }
        }
    }
}

/// An address is among the resolved ones exactly when one of the
/// expressions given names it.
pub proof fn lemma_resolved_are_named(tokens: Seq<Seq<char>>, lookups: Seq<Lookup>, ip: IpAddress)
    ensures
        resolved(tokens, lookups).contains(ip) <==> exists|i: int|
            0 <= i < tokens.len() && names(#[trigger] tokens[i], lookups, ip),
    decreases tokens.len(),
{
    if tokens.len() > 0 {
        let head = tokens.drop_last();
        let before = resolved(head, lookups);
        let after = resolved(tokens, lookups);
        let last = tokens.len() - 1;
        lemma_resolved_are_named(head, lookups, ip);
        if exists|i: int| 0 <= i < tokens.len() && names(#[trigger] tokens[i], lookups, ip) {
            let i = choose|i: int| 0 <= i < tokens.len() && names(#[trigger] tokens[i], lookups, ip);
            if i < last {
                assert(names(head[i], lookups, ip));
                assert(before.contains(ip));
                let k = choose|k: int| 0 <= k < before.len() && before[k] == ip;
                assert(after[k] == ip);
            } else {
                let hosts = outcome(tokens.last(), lookups)->0;
                let k = choose|k: int| 0 <= k < hosts.len() && hosts[k] == ip;
                assert(after[before.len() + k] == ip);
            }
        }
        if after.contains(ip) {
            let k = choose|k: int| 0 <= k < after.len() && after[k] == ip;
            if k < before.len() {
                assert(before[k] == ip);
                assert(before.contains(ip));
                let i = choose|i: int| 0 <= i < head.len() && names(#[trigger] head[i], lookups, ip);
                assert(names(tokens[i], lookups, ip));
            } else {
                let hosts = outcome(tokens.last(), lookups)->0;
                assert(hosts[k - before.len()] == ip);
                assert(names(tokens[last], lookups, ip));
            }
        }
    }
}

/// Every expression goes to exactly one side. One that names addresses is
/// not reported as invalid, and each address it names is valid; one that
/// names none is reported as invalid. Here `valid` and `invalid` are what
/// `ParseAddress::resolve_ips` returns for the expressions `tokens`.
pub proof fn lemma_tokens_partitioned(tokens: Seq<Seq<char>>, lookups: Seq<Lookup>, i: int)
    requires
        0 <= i < tokens.len(),
    ensures
        match outcome(tokens[i], lookups) {
            Some(hosts) => {
                &&& !distinct(rejected(tokens, lookups)).contains(tokens[i])
                &&& forall|ip: IpAddress| #[trigger]
                    hosts.contains(ip) ==> distinct(resolved(tokens, lookups)).contains(ip)
            },
            None => distinct(rejected(tokens, lookups)).contains(tokens[i]),
        },
{
    lemma_rejected_are_the_failures(tokens, lookups, tokens[i]);
    lemma_distinct(rejected(tokens, lookups), tokens[i]);
    match outcome(tokens[i], lookups) {
        Some(hosts) => {
            assert forall|ip: IpAddress| #[trigger] hosts.contains(ip) implies distinct(
                resolved(tokens, lookups),
            ).contains(ip) by {
                assert(names(tokens[i], lookups, ip));
                lemma_resolved_are_named(tokens, lookups, ip);
                lemma_distinct(resolved(tokens, lookups), ip);
            }
        },
        None => {},
    }
}

/// The outcome of resolving a list of address expressions.
#[derive(Debug, Clone)]
pub struct ParseAddress {
    /// The addresses that were named, each once, in the order in which they
    /// first came up.
    pub valid_address: Vec<IpAddress>,
    /// The expressions that named no address, each once, in the order in
    /// which they first came up.
    pub invalid_address: Vec<String>,
}

/// Finds what the lookups say about `name`.
fn find_lookup(name: &str, lookups: &Vec<Lookup>) -> (hosts: Option<Vec<IpAddress>>)
    ensures
        match hosts {
            Some(list) => looked_up(name@, lookups@, 0) == Some(list@),
            None => looked_up(name@, lookups@, 0) is None,
        },
{
    let mut i: usize = 0;
    while i < lookups.len()
        invariant
            i <= lookups.len(),
            looked_up(name@, lookups@, 0) == looked_up(name@, lookups@, i as int),
        decreases lookups.len() - i,
    {
        if same_text(lookups[i].name.as_str(), name) {
            return match &lookups[i].addresses {
                Some(list) => {
                    let mut copy: Vec<IpAddress> = Vec::new();
                    let mut k: usize = 0;
                    while k < list.len()
                        invariant
                            k <= list.len(),
                            copy@ == list@.take(k as int),
                        decreases list.len() - k,
                    {
                        copy.push(list[k]);
                        k = k + 1;
                    }
                    assert(list@.take(k as int) == list@);
                    Some(copy)
                },
                None => None,
            };
        }
        i = i + 1;
    }
    None
}

/// Resolves one address expression. The error is the expression itself.
pub fn resolve_token(token: &str, lookups: &Vec<Lookup>) -> (hosts: Result<Vec<IpAddress>, String>)
    ensures
        match hosts {
            Ok(list) => outcome(token@, lookups@) == Some(list@),
            Err(text) => outcome(token@, lookups@) is None && text@ == token@,
        },
{
    match get_address_type(token) {
        AddressType::IP => match parse_ipv4(token) {
            Some(number) => {
                let mut hosts: Vec<IpAddress> = Vec::new();
                hosts.push(IpAddress::V4(number));
                assert(hosts@ == seq![IpAddress::V4(number)]);
                Ok(hosts)
            },
            None => Err(token.to_owned()),
        },
        AddressType::Range => resolve_ips_from_range_address(token),
        AddressType::Mask => resolve_ips_from_mask_address(token),
        AddressType::UNKNOWN => match find_lookup(token, lookups) {
            Some(hosts) => Ok(hosts),
            None => Err(token.to_owned()),
        },
    }
}

/// Adds to `valid` the addresses of `more` that it does not hold yet.
fn merge_addresses(valid: &mut Vec<IpAddress>, seen: &mut AddressMap<()>, more: &Vec<IpAddress>)
    requires
        forall|ip: IpAddress| old(seen)@.contains_key(ip) <==> old(valid)@.contains(ip),
    ensures
        final(valid)@ == merge(old(valid)@, more@),
        forall|ip: IpAddress| final(seen)@.contains_key(ip) <==> final(valid)@.contains(ip),
{
    let mut k: usize = 0;
    while k < more.len()
        invariant
            k <= more.len(),
            valid@ == merge(old(valid)@, more@.take(k as int)),
            forall|ip: IpAddress| seen@.contains_key(ip) <==> valid@.contains(ip),
        decreases more.len() - k,
    {
        let ip = more[k];
        proof {
            let upto = more@.take(k + 1);
            assert(upto.drop_last() == more@.take(k as int));
            assert(upto.last() == ip);
        }
        let ghost before = valid@;
        if seen.insert(ip, ()).is_none() {
            valid.push(ip);
            proof {
                assert forall|other: IpAddress|
                    seen@.contains_key(other) <==> valid@.contains(other) by {
                    if before.contains(other) {
                        let at = choose|at: int| 0 <= at < before.len() && before[at] == other;
                        assert(valid@[at] == other);
                    }
                    if valid@.contains(other) {
                        let at = choose|at: int| 0 <= at < valid@.len() && valid@[at] == other;
                        if at < before.len() {
                            assert(before[at] == other);
                        }
                    }
                    assert(valid@[valid@.len() - 1] == ip);
                }
            }
        }
        k = k + 1;
    }
    assert(more@.take(k as int) == more@);
}

/// Adds `token` to `invalid` unless it is there already.
fn merge_token(invalid: &mut Vec<String>, token: String)
    ensures
        views(final(invalid)@) == merge(views(old(invalid)@), seq![token@]),
{
    let mut i: usize = 0;
    let mut present = false;
    while i < invalid.len() && !present
        invariant
            i <= invalid.len(),
            *invalid == *old(invalid),
            present ==> views(invalid@).contains(token@),
            !present ==> forall|j: int| 0 <= j < i ==> views(invalid@)[j] != token@,
        decreases invalid.len() - i + if present { 0int } else { 1int },
    {
        if same_text(invalid[i].as_str(), token.as_str()) {
            present = true;
            assert(views(invalid@)[i as int] == token@);
        } else {
            i = i + 1;
        }
    }
    proof {
        let one = seq![token@];
        assert(one.drop_last() == Seq::<Seq<char>>::empty());
        assert(one.last() == token@);
        assert(merge(views(invalid@), one.drop_last()) == views(invalid@));
    }
    if !present {
        proof {
            assert(views(invalid@.push(token)) == views(invalid@).push(token@));
        }
        invalid.push(token);
    }
}

impl ParseAddress {
    /// Resolves a comma-separated list of address expressions. Each
    /// expression is a single IPv4 address, a range, a network in CIDR
    /// notation, or a host name; `lookups` holds what the host names
    /// resolved to. An expression goes to one side only: its addresses join
    /// the valid ones, or, where it names none, the expression itself joins
    /// the invalid ones.
    pub fn resolve_ips(addresses: &str, lookups: &Vec<Lookup>) -> (parsed: ParseAddress)
        ensures
            parsed.valid_address@ == distinct(resolved(fields(addresses@, ','), lookups@)),
            views(parsed.invalid_address@) == distinct(
                rejected(fields(addresses@, ','), lookups@),
            ),
    {
        let tokens = split(addresses, ',');
        let mut valid: Vec<IpAddress> = Vec::new();
        let mut invalid: Vec<String> = Vec::new();
        let mut seen: AddressMap<()> = AddressMap::new();
        let mut k: usize = 0;
        while k < tokens.len()
            invariant
                k <= tokens.len(),
                views(tokens@) == fields(addresses@, ','),
                valid@ == distinct(resolved(views(tokens@).take(k as int), lookups@)),
                views(invalid@) == distinct(rejected(views(tokens@).take(k as int), lookups@)),
                forall|ip: IpAddress| seen@.contains_key(ip) <==> valid@.contains(ip),
            decreases tokens.len() - k,
        {
            proof {
                let upto = views(tokens@).take(k + 1);
                let before = views(tokens@).take(k as int);
                assert(upto.drop_last() == before);
                assert(upto.last() == tokens@[k as int]@);
                match outcome(tokens@[k as int]@, lookups@) {
                    Some(hosts) => {
                        lemma_merge_joined(
                            Seq::<IpAddress>::empty(),
                            resolved(before, lookups@),
                            hosts,
                        );
                    },
                    None => {
                        lemma_merge_joined(
                            Seq::<Seq<char>>::empty(),
                            rejected(before, lookups@),
                            seq![tokens@[k as int]@],
                        );
                        assert(rejected(before, lookups@) + seq![tokens@[k as int]@] == rejected(
                            before,
                            lookups@,
                        ).push(tokens@[k as int]@));
                    },
                }
            }
            match resolve_token(tokens[k].as_str(), lookups) {
                Ok(hosts) => {
                    merge_addresses(&mut valid, &mut seen, &hosts);
                },
                Err(token) => {
                    merge_token(&mut invalid, token);
                },
            }
            k = k + 1;
        }
        proof {
            assert(views(tokens@).take(k as int) == views(tokens@));
        }
        ParseAddress { valid_address: valid, invalid_address: invalid }
    }

    /// The expressions of `addresses` that are taken for host names, in
    /// order: the names to look up before `resolve_ips` is called.
    pub fn host_names(addresses: &str) -> (names: Vec<String>)
        ensures
            views(names@) == host_names(fields(addresses@, ',')),
    {
        let mut tokens = split(addresses, ',');
        let mut names: Vec<String> = Vec::new();
        let mut k: usize = 0;
        while k < tokens.len()
            invariant
                k <= tokens.len(),
                views(tokens@) == fields(addresses@, ','),
                views(names@) == host_names(views(tokens@).take(k as int)),
            decreases tokens.len() - k,
        {
            proof {
                let upto = views(tokens@).take(k + 1);
                assert(upto.drop_last() == views(tokens@).take(k as int));
                assert(upto.last() == tokens@[k as int]@);
            }
            match get_address_type(tokens[k].as_str()) {
                AddressType::UNKNOWN => {
                    let name = tokens[k].clone();
                    proof {
                        assert(views(names@.push(name)) == views(names@).push(name@));
                    }
                    names.push(name);
                },
                _ => {},
            }
            k = k + 1;
        }
        proof {
            assert(views(tokens@).take(k as int) == views(tokens@));
        }
        names
    }
}

/// Every pairing of a port with a host, port by port: all hosts on the
/// first port, then all hosts on the second, and so on.
pub open spec fn targets(ips: Seq<IpAddress>, ports: Seq<u16>) -> Seq<SocketTarget> {
    Seq::new(
        ips.len() * ports.len(),
        |k: int| SocketTarget { ip: ips[k % (ips.len() as int)], port: ports[k / (ips.len() as int)] },
    )
}

/// Walks the pairings of ports and hosts one at a time, without ever
/// holding the whole list.
#[derive(Debug, Clone, Copy)]
pub struct SocketIterator<'s> {
    ips: &'s [IpAddress],
    ports: &'s [u16],
    port_at: usize,
    ip_at: usize,
}

impl<'s> SocketIterator<'s> {
    #[verifier::type_invariant]
    spec fn well_formed(self) -> bool {
        &&& self.port_at <= self.ports@.len()
        &&& if self.ips@.len() == 0 || self.port_at == self.ports@.len() {
            self.ip_at == 0
        } else {
            self.ip_at < self.ips@.len()
        }
    }

    /// The hosts that are paired.
    pub closed spec fn ips(self) -> Seq<IpAddress> {
        self.ips@
    }

    /// The ports that are paired.
    pub closed spec fn ports(self) -> Seq<u16> {
        self.ports@
    }

    /// How many pairings have been handed out.
    pub closed spec fn position(self) -> nat {
        if self.ips@.len() == 0 {
            0
        } else {
            (self.port_at * self.ips@.len() + self.ip_at) as nat
        }
    }

    /// All the pairings, from the first.
    pub open spec fn all(self) -> Seq<SocketTarget> {
        targets(self.ips(), self.ports())
    }

    /// The pairings still to come.
    pub open spec fn remaining(self) -> Seq<SocketTarget> {
        self.all().skip(self.position() as int)
    }

    pub fn new(ips: &'s [IpAddress], ports: &'s [u16]) -> (walk: Self)
        ensures
            walk.ips() == ips@,
            walk.ports() == ports@,
            walk.position() == 0,
    {
        SocketIterator { ips, ports, port_at: 0, ip_at: 0 }
    }

    /// Whether every pairing has been handed out.
    pub fn is_exhausted(&self) -> (exhausted: bool)
        ensures
            exhausted == (self.position() >= self.all().len()),
    {
        proof {
            use_type_invariant(self);
            let n = self.ips@.len() as int;
            let p = self.port_at as int;
            let i = self.ip_at as int;
            if n != 0 {
                if p < self.ports@.len() {
                    assert(p * n + i < n * self.ports@.len()) by (nonlinear_arith)
                        requires
                            0 <= i < n,
                            0 <= p < self.ports@.len(),
                    ;
                } else {
                    assert(p * n + 0 == n * self.ports@.len()) by (nonlinear_arith)
                        requires
                            p == self.ports@.len(),
                    ;
                }
            }
        }
        self.ips.len() == 0 || self.port_at >= self.ports.len()
    }

    /// The next pairing, or `None` when every port has been paired with
    /// every host.
    pub fn next(&mut self) -> (target: Option<SocketTarget>)
        ensures
            final(self).ips() == old(self).ips(),
            final(self).ports() == old(self).ports(),
            old(self).position() <= old(self).all().len(),
            match target {
                Some(found) => {
                    &&& old(self).position() < old(self).all().len()
                    &&& found == old(self).all()[old(self).position() as int]
                    &&& final(self).position() == old(self).position() + 1
                },
                None => {
                    &&& old(self).position() == old(self).all().len()
                    &&& final(self).position() == old(self).position()
                },
            },
    {
        proof {
            use_type_invariant(&*self);
        }
        let hosts = self.ips.len();
        let ghost n = hosts as int;
        let ghost p = self.port_at as int;
        let ghost i = self.ip_at as int;
        if hosts == 0 || self.port_at >= self.ports.len() {
            proof {
                if hosts != 0 {
                    assert(p * n + 0 == n * self.ports@.len()) by (nonlinear_arith)
                        requires
                            p == self.ports@.len(),
                    ;
                }
            }
            return None;
        }
        let found = SocketTarget { ip: self.ips[self.ip_at], port: self.ports[self.port_at] };
        proof {
            lemma_fundamental_div_mod_converse(p * n + i, n, p, i);
            assert(p * n + i < n * self.ports@.len()) by (nonlinear_arith)
                requires
                    0 <= i < n,
                    0 <= p < self.ports@.len(),
            ;
            if i + 1 == n {
                assert((p + 1) * n + 0 == p * n + i + 1) by (nonlinear_arith)
                    requires
                        i + 1 == n,
                ;
            }
        }
        if self.ip_at + 1 == hosts {
            self.ip_at = 0;
            self.port_at = self.port_at + 1;
        } else {
            self.ip_at = self.ip_at + 1;
        }
        Some(found)
    }
}

} // verus!
