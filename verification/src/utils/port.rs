//! Port expressions: single ports and ranges, separated by commas.

use crate::utils::text::{bounded_decimal, chars_of, fields, parse_decimal, split, views};
use std::collections::HashSet;
use vstd::prelude::*;
use vstd::std_specs::hash::group_hash_axioms;

verus! {

/// The shape of one port expression.
#[derive(Debug, Clone, Copy, PartialEq, Eq, Structural)]
pub enum PortType {
    /// A single port.
    Port,
    /// Two ports and everything between them, `first-last`.
    Range,
}

/// The shape of `port`: a range where it holds a hyphen, a single port
/// otherwise.
pub open spec fn port_type(port: Seq<char>) -> PortType {
    if port.contains('-') {
        PortType::Range
    } else {
        PortType::Port
    }
}

/// What `s` reads as a port: decimal digits that write a number up to
/// 65535, with or without a plus sign in front.
pub open spec fn port_number(s: Seq<char>) -> Option<u16> {
    let digits = if s.len() > 0 && s[0] == '+' {
        s.drop_first()
    } else {
        s
    };
    match bounded_decimal(digits, 65535) {
        Some(value) => Some(value as u16),
        None => None,
    }
}

/// The ports from `first` to `last`, both included; none where `first`
/// lies after `last`.
pub open spec fn port_span(first: u16, last: u16) -> Set<u16> {
    Set::new(|port: u16| first <= port <= last)
}

/// The ports that one expression names, or `None` where it cannot be read.
/// Of a range, the first two hyphen-separated parts are read and the rest
/// is ignored.
pub open spec fn token_ports(token: Seq<char>) -> Option<Set<u16>> {
    match port_type(token) {
        PortType::Port => match port_number(token) {
            Some(port) => Some(set![port]),
            None => None,
        },
        PortType::Range => {
            let parts = fields(token, '-');
            if parts.len() >= 2 && port_number(parts[0]) is Some && port_number(parts[1]) is Some {
                Some(port_span(port_number(parts[0])->0, port_number(parts[1])->0))
            } else {
                None
            }
        },
    }
}

/// The ports that the expressions `tokens` name between them.
pub open spec fn ports_of(tokens: Seq<Seq<char>>) -> Set<u16>
    decreases tokens.len(),
{
    if tokens.len() == 0 {
        Set::empty()
    } else {
        let before = ports_of(tokens.drop_last());
        match token_ports(tokens.last()) {
            Some(ports) => before.union(ports),
            None => before,
        }
    }
}

/// The expressions among `tokens` that cannot be read, in order.
pub open spec fn unreadable(tokens: Seq<Seq<char>>) -> Seq<Seq<char>>
    decreases tokens.len(),
{
    if tokens.len() == 0 {
        Seq::empty()
    } else {
        let before = unreadable(tokens.drop_last());
        match token_ports(tokens.last()) {
            Some(_) => before,
            None => before.push(tokens.last()),
        }
    }
}

/// Every port there is: 1 to 65535.
pub open spec fn all_ports() -> Set<u16> {
    Set::new(|port: u16| port >= 1)
}

/// Tells the shape of one port expression.
pub fn get_port_type(port: &str) -> (shape: PortType)
    ensures
        shape == port_type(port@),
{
    let chars = chars_of(port);
    let mut i: usize = 0;
    while i < chars.len()
        invariant
            i <= chars.len(),
            chars@ == port@,
            forall|j: int| 0 <= j < i ==> chars@[j] != '-',
        decreases chars.len() - i,
    {
        if chars[i] == '-' {
            assert(chars@.contains('-'));
            return PortType::Range;
        }
        i = i + 1;
    }
    PortType::Port
}

/// Reads one port number.
pub fn parse_port(text: &str) -> (port: Option<u16>)
    ensures
        port == port_number(text@),
{
    let chars = chars_of(text);
    let value = if chars.len() > 0 && chars[0] == '+' {
        let digits = chars_of(text.substring_char(1, chars.len()));
        assert(digits@ == text@.drop_first());
        parse_decimal(&digits, 65535)
    } else {
        parse_decimal(&chars, 65535)
    };
    match value {
        Some(number) => Some(number as u16),
        None => None,
    }
}

/// Adds the ports from `first` to `last` to `ports`.
fn insert_span(ports: &mut HashSet<u16>, first: u16, last: u16)
    ensures
        final(ports)@ == old(ports)@.union(port_span(first, last)),
{
    broadcast use group_hash_axioms;

    if first > last {
        assert(ports@ == old(ports)@.union(port_span(first, last)));
        return ;
    }
    let mut next: u32 = first as u32;
    while next <= last as u32
        invariant
            first <= next <= last + 1,
            ports@ == old(ports)@.union(Set::new(|port: u16| first <= port < next)),
        decreases last + 1 - next,
    {
        ports.insert(next as u16);
        next = next + 1;
    }
}

/// The outcome of resolving a list of port expressions.
#[derive(Debug)]
pub struct ParsePort {
    /// The ports that were named.
    pub valid_ports: HashSet<u16>,
    /// The expressions that could not be read, in the order in which they
    /// were given.
    pub invalid_ports: Vec<String>,
}

impl ParsePort {
    /// Resolves a comma-separated list of port expressions, each a single
    /// port or a range `first-last`. An expression that cannot be read
    /// names no port and is handed back.
    pub fn resolve(expression: &str) -> (parsed: ParsePort)
        ensures
            parsed.valid_ports@ == ports_of(fields(expression@, ',')),
            views(parsed.invalid_ports@) == unreadable(fields(expression@, ',')),
    {
        broadcast use group_hash_axioms;

        let tokens = split(expression, ',');
        let mut valid: HashSet<u16> = HashSet::new();
        let mut invalid: Vec<String> = Vec::new();
        let mut k: usize = 0;
        while k < tokens.len()
            invariant
                k <= tokens.len(),
                views(tokens@) == fields(expression@, ','),
                valid@ == ports_of(views(tokens@).take(k as int)),
                views(invalid@) == unreadable(views(tokens@).take(k as int)),
            decreases tokens.len() - k,
        {
            proof {
                let upto = views(tokens@).take(k + 1);
                assert(upto.drop_last() == views(tokens@).take(k as int));
                assert(upto.last() == tokens@[k as int]@);
            }
            let token = tokens[k].as_str();
            let mut readable = false;
            match get_port_type(token) {
                PortType::Port => {
                    if let Some(port) = parse_port(token) {
                        valid.insert(port);
                        assert(valid@ == ports_of(views(tokens@).take(k as int)).union(set![port]));
                        readable = true;
                    }
                },
                PortType::Range => {
                    let parts = split(token, '-');
                    if parts.len() >= 2 {
                        proof {
                            let spec_parts = fields(token@, '-');
                            assert(spec_parts[0] == parts@[0]@);
                            assert(spec_parts[1] == parts@[1]@);
                        }
                        match (parse_port(parts[0].as_str()), parse_port(parts[1].as_str())) {
                            (Some(first), Some(last)) => {
                                insert_span(&mut valid, first, last);
                                readable = true;
                            },
                            _ => {},
                        }
                    }
                },
            }
            if !readable {
                let copy = tokens[k].clone();
                proof {
                    assert(views(invalid@.push(copy)) == views(invalid@).push(copy@));
                }
                invalid.push(copy);
            }
            k = k + 1;
        }
        proof {
            assert(views(tokens@).take(k as int) == views(tokens@));
        }
        ParsePort { valid_ports: valid, invalid_ports: invalid }
    }
}

/// The ports that a port expression names; none where there is no
/// expression. Parts of the expression that cannot be read name no port.
pub fn resolve_ports(addresses: Option<String>) -> (ports: HashSet<u16>)
    ensures
        ports@ == match addresses {
            Some(expression) => ports_of(fields(expression@, ',')),
            None => Set::<u16>::empty(),
        },
{
    match addresses {
        Some(expression) => ParsePort::resolve(expression.as_str()).valid_ports,
        None => HashSet::new(),
    }
}

/// The ports that a port expression names, and every port from 1 to 65535
/// where there is no expression.
pub fn resolve_ports_or_all(addresses: Option<String>) -> (ports: HashSet<u16>)
    ensures
        ports@ == match addresses {
            Some(expression) => ports_of(fields(expression@, ',')),
            None => all_ports(),
        },
        addresses is None ==> ports@.len() == 65535,
{
    if addresses.is_none() {
        let mut ports: HashSet<u16> = HashSet::new();
        insert_span(&mut ports, 1, 65535);
        proof {
            assert(ports@ == all_ports());
            lemma_all_ports_len();
        }
        return ports;
    }
    resolve_ports(addresses)
}

/// There are 65535 ports.
pub proof fn lemma_all_ports_len()
    ensures
        all_ports().finite(),
        all_ports().len() == 65535,
{
    lemma_span_len(1, 65535);
    assert(all_ports() == port_span(1, 65535));
}

/// A span from `first` to `last` holds `last - first + 1` ports.
pub proof fn lemma_span_len(first: u16, last: u16)
    requires
        first <= last,
    ensures
        port_span(first, last).finite(),
        port_span(first, last).len() == last - first + 1,
    decreases last - first,
{
    if first == last {
        assert(port_span(first, last) == set![first]);
    } else {
        lemma_span_len(first, (last - 1) as u16);
        assert(port_span(first, last) == port_span(first, (last - 1) as u16).insert(last));
    }
}

} // verus!
