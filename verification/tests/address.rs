use magic_scanner::utils::table::AddressMap;
use magic_scanner::utils::address::{
    get_address_type, parse_ipv4, resolve_ips_from_mask_address, resolve_ips_from_range_address,
    resolve_token, to_addresses, AddressType, IpAddress, Lookup, ParseAddress,
    SocketIterator, SocketTarget,
};

fn v4(a: u32, b: u32, c: u32, d: u32) -> IpAddress {
    IpAddress::V4(a * 16777216 + b * 65536 + c * 256 + d)
}

#[test]
fn check_address_type_test() {
    let mut address = String::from("127.0.0.1");
    let result = get_address_type(&address);
    assert_eq!(result, AddressType::IP);
    address = String::from("127.0.0.1-127.0.0.10");
    let result = get_address_type(&address);
    assert_eq!(result, AddressType::Range);
    address = String::from("127.0.0.1/24");
    let result = get_address_type(&address);
    assert_eq!(result, AddressType::Mask);
    address = String::from("300.0.0.0");
    let result = get_address_type(&address);
    assert_eq!(result, AddressType::UNKNOWN);
}

#[test]
fn address_type_of_names_and_fragments() {
    assert_eq!(get_address_type("example.com"), AddressType::UNKNOWN);
    assert_eq!(get_address_type(""), AddressType::UNKNOWN);
    assert_eq!(get_address_type("10.0.0"), AddressType::UNKNOWN);
    assert_eq!(get_address_type("10.0.0.1-"), AddressType::UNKNOWN);
    assert_eq!(get_address_type("10.0.0.1/"), AddressType::UNKNOWN);
    assert_eq!(get_address_type(" 10.0.0.1"), AddressType::UNKNOWN);
}

#[test]
fn address_type_from_matches_prefers_the_first() {
    assert_eq!(AddressType::from_matches(true, true, true), AddressType::IP);
    assert_eq!(AddressType::from_matches(false, true, true), AddressType::Range);
    assert_eq!(AddressType::from_matches(false, false, true), AddressType::Mask);
    assert_eq!(AddressType::from_matches(false, false, false), AddressType::UNKNOWN);
}

#[test]
fn parse_ipv4_reads_dotted_addresses() {
    assert_eq!(parse_ipv4("0.0.0.0"), Some(0));
    assert_eq!(parse_ipv4("127.0.0.1"), Some(0x7f000001));
    assert_eq!(parse_ipv4("255.255.255.255"), Some(u32::MAX));
    assert_eq!(parse_ipv4("10.1.2.3"), Some(10 * 16777216 + 65536 + 2 * 256 + 3));
}

#[test]
fn parse_ipv4_refuses_what_is_no_address() {
    assert_eq!(parse_ipv4(""), None);
    assert_eq!(parse_ipv4("1.2.3"), None);
    assert_eq!(parse_ipv4("1.2.3.4.5"), None);
    assert_eq!(parse_ipv4("256.0.0.1"), None);
    assert_eq!(parse_ipv4("01.2.3.4"), None);
    assert_eq!(parse_ipv4("1.2.3.004"), None);
    assert_eq!(parse_ipv4("1.2..4"), None);
    assert_eq!(parse_ipv4("1.2.3.a"), None);
    assert_eq!(parse_ipv4("1.2.3.+4"), None);
    assert_eq!(parse_ipv4("1.2.3.4 "), None);
}

#[test]
fn range_expands_to_every_address_between() {
    let hosts = resolve_ips_from_range_address("10.0.0.1-10.0.0.3").unwrap();
    assert_eq!(hosts, vec![v4(10, 0, 0, 1), v4(10, 0, 0, 2), v4(10, 0, 0, 3)]);
}

#[test]
fn range_of_one_address_and_backwards_range() {
    assert_eq!(resolve_ips_from_range_address("10.0.0.7-10.0.0.7").unwrap(), vec![v4(10, 0, 0, 7)]);
    assert_eq!(resolve_ips_from_range_address("10.0.0.9-10.0.0.1").unwrap(), Vec::new());
    assert_eq!(resolve_ips_from_range_address("").unwrap(), Vec::new());
}

#[test]
fn range_crosses_octet_boundaries() {
    let hosts = resolve_ips_from_range_address("10.0.0.254-10.0.1.1").unwrap();
    assert_eq!(
        hosts,
        vec![v4(10, 0, 0, 254), v4(10, 0, 0, 255), v4(10, 0, 1, 0), v4(10, 0, 1, 1)]
    );
}

#[test]
fn range_that_cannot_be_read_comes_back() {
    assert_eq!(resolve_ips_from_range_address("10.0.0.1"), Err(String::from("10.0.0.1")));
    assert_eq!(
        resolve_ips_from_range_address("10.0.0.1-10.0.0.300"),
        Err(String::from("10.0.0.1-10.0.0.300"))
    );
    assert_eq!(resolve_ips_from_range_address("a-b"), Err(String::from("a-b")));
}

#[test]
fn mask_expands_to_the_network() {
    let hosts = resolve_ips_from_mask_address("127.0.0.1/24").unwrap();
    assert_eq!(hosts.len(), 256);
    assert_eq!(hosts[0], v4(127, 0, 0, 0));
    assert_eq!(hosts[1], v4(127, 0, 0, 1));
    assert_eq!(hosts[255], v4(127, 0, 0, 255));
    let small = resolve_ips_from_mask_address("192.168.1.9/30").unwrap();
    assert_eq!(
        small,
        vec![v4(192, 168, 1, 8), v4(192, 168, 1, 9), v4(192, 168, 1, 10), v4(192, 168, 1, 11)]
    );
    assert_eq!(resolve_ips_from_mask_address("10.1.2.3/32").unwrap(), vec![v4(10, 1, 2, 3)]);
}

#[test]
fn mask_that_names_no_network_comes_back() {
    assert_eq!(resolve_ips_from_mask_address("10.0.0.1/33"), Err(String::from("10.0.0.1/33")));
    assert_eq!(resolve_ips_from_mask_address("nonsense"), Err(String::from("nonsense")));
}

#[test]
fn to_addresses_keeps_order() {
    assert_eq!(to_addresses(vec![3, 1, 2]), vec![IpAddress::V4(3), IpAddress::V4(1), IpAddress::V4(2)]);
    assert_eq!(to_addresses(Vec::new()), Vec::new());
}

#[test]
fn resolve_token_uses_the_lookups_for_names() {
    let lookups = vec![
        Lookup { name: String::from("a.example"), addresses: Some(vec![v4(1, 1, 1, 1)]) },
        Lookup { name: String::from("b.example"), addresses: None },
        Lookup { name: String::from("a.example"), addresses: Some(vec![v4(9, 9, 9, 9)]) },
    ];
    assert_eq!(resolve_token("a.example", &lookups), Ok(vec![v4(1, 1, 1, 1)]));
    assert_eq!(resolve_token("b.example", &lookups), Err(String::from("b.example")));
    assert_eq!(resolve_token("c.example", &lookups), Err(String::from("c.example")));
    assert_eq!(resolve_token("8.8.8.8", &lookups), Ok(vec![v4(8, 8, 8, 8)]));
    assert_eq!(resolve_token("08.8.8.8", &lookups), Err(String::from("08.8.8.8")));
}

#[test]
fn resolve_ips_expands_a_range() {
    let parsed = ParseAddress::resolve_ips("10.0.0.1-10.0.0.3", &Vec::new());
    assert_eq!(parsed.valid_address, vec![v4(10, 0, 0, 1), v4(10, 0, 0, 2), v4(10, 0, 0, 3)]);
    assert!(parsed.invalid_address.is_empty());
}

#[test]
fn resolve_ips_partitions_the_tokens() {
    let lookups = vec![
        Lookup { name: String::from("host.example"), addresses: Some(vec![v4(10, 0, 0, 2), IpAddress::V6(1)]) },
        Lookup { name: String::from("gone.example"), addresses: None },
    ];
    let parsed = ParseAddress::resolve_ips(
        "10.0.0.1,host.example,gone.example,10.0.0.0/31,300.1.1.1,10.0.0.1-10.0.0.2,gone.example",
        &lookups,
    );
    assert_eq!(
        parsed.valid_address,
        vec![v4(10, 0, 0, 1), v4(10, 0, 0, 2), IpAddress::V6(1), v4(10, 0, 0, 0)]
    );
    assert_eq!(
        parsed.invalid_address,
        vec![String::from("gone.example"), String::from("300.1.1.1")]
    );
}

#[test]
fn resolve_ips_of_nothing_reports_the_empty_token() {
    let parsed = ParseAddress::resolve_ips("", &Vec::new());
    assert!(parsed.valid_address.is_empty());
    assert_eq!(parsed.invalid_address, vec![String::new()]);
}

#[test]
fn host_names_are_the_tokens_to_look_up() {
    let names = ParseAddress::host_names("10.0.0.1,host.example,10.0.0.0/24,other.example,1.1.1.1-1.1.1.2");
    assert_eq!(names, vec![String::from("host.example"), String::from("other.example")]);
}

#[test]
fn socket_iterator_goes_port_by_port() {
    let ips = vec![v4(10, 0, 0, 1), v4(10, 0, 0, 2)];
    let ports = vec![22u16, 80, 443];
    let mut walk = SocketIterator::new(&ips, &ports);
    let mut seen = Vec::new();
    while let Some(target) = walk.next() {
        seen.push(target);
    }
    assert_eq!(
        seen,
        vec![
            SocketTarget { ip: ips[0], port: 22 },
            SocketTarget { ip: ips[1], port: 22 },
            SocketTarget { ip: ips[0], port: 80 },
            SocketTarget { ip: ips[1], port: 80 },
            SocketTarget { ip: ips[0], port: 443 },
            SocketTarget { ip: ips[1], port: 443 },
        ]
    );
    assert_eq!(walk.next(), None);
}

#[test]
fn socket_iterator_without_hosts_or_ports_is_empty() {
    let ips = vec![v4(10, 0, 0, 1)];
    let none_ip: Vec<IpAddress> = Vec::new();
    let none_port: Vec<u16> = Vec::new();
    assert_eq!(SocketIterator::new(&ips, &none_port).next(), None);
    assert_eq!(SocketIterator::new(&none_ip, &[80]).next(), None);
    assert_eq!(SocketIterator::new(&none_ip, &none_port).next(), None);
}

#[test]
fn address_map_tells_families_apart() {
    let mut table: AddressMap<u8> = AddressMap::new();
    assert_eq!(table.insert(IpAddress::V4(1), 10), None);
    assert_eq!(table.insert(IpAddress::V6(1), 20), None);
    assert!(table.contains_key(IpAddress::V4(1)));
    assert!(!table.contains_key(IpAddress::V4(2)));
    assert_eq!(table.insert(IpAddress::V4(1), 11), Some(10));
    assert_eq!(table.remove(IpAddress::V6(1)), Some(20));
    assert_eq!(table.remove(IpAddress::V6(1)), None);
    assert_eq!(table.remove(IpAddress::V4(1)), Some(11));
    assert!(!table.contains_key(IpAddress::V4(1)));
}
