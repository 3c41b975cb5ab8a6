use magic_scanner::scanner::ping::{
    assemble_echo_request, make_icmp_echo_packet, resolve_ping_ip, Pinger, ReplyMap,
    MAX_PAYLOAD_LEN, PAYLOAD_LEN, PING_TIMEOUT_MS,
};
use magic_scanner::utils::address::{IpAddress, SocketTarget};

fn ones_complement_sum(packet: &[u8]) -> u16 {
    let mut sum: u32 = 0;
    let mut i = 0;
    while i < packet.len() {
        let high = (packet[i] as u32) << 8;
        let low = if i + 1 < packet.len() { packet[i + 1] as u32 } else { 0 };
        sum += high + low;
        i += 2;
    }
    while sum >> 16 != 0 {
        sum = (sum >> 16) + (sum & 0xffff);
    }
    sum as u16
}

#[test]
fn echo_request_has_the_standard_layout() {
    let packet = make_icmp_echo_packet(0x1234, 0, &[0u8; 56]);
    assert_eq!(packet.len(), 64);
    assert_eq!(&packet[..8], &[8, 0, 0xe5, 0xcb, 0x12, 0x34, 0, 0]);
    assert!(packet[8..].iter().all(|byte| *byte == 0));
}

#[test]
fn echo_request_checksum_covers_the_whole_packet() {
    let payload: Vec<u8> = (0..56u8).collect();
    let packet = make_icmp_echo_packet(0xbeef, 7, &payload);
    assert_eq!(&packet[4..8], &[0xbe, 0xef, 0, 7]);
    assert_eq!(&packet[8..], &payload[..]);
    assert_eq!(ones_complement_sum(&packet), 0xffff);
    let odd = make_icmp_echo_packet(1, 2, &[0xaa, 0xbb, 0xcc]);
    assert_eq!(odd.len(), 11);
    assert_eq!(ones_complement_sum(&odd), 0xffff);
}

#[test]
fn echo_request_without_payload() {
    let packet = make_icmp_echo_packet(0, 0, &[]);
    assert_eq!(packet, vec![8, 0, 0xf7, 0xff, 0, 0, 0, 0]);
}

#[test]
fn echo_request_of_the_longest_payload() {
    let payload = vec![0u8; MAX_PAYLOAD_LEN];
    let packet = make_icmp_echo_packet(0x0102, 0x0304, &payload);
    assert_eq!(packet.len(), MAX_PAYLOAD_LEN + 8);
    assert_eq!(ones_complement_sum(&packet), 0xffff);
}

#[test]
fn assemble_puts_each_field_high_byte_first() {
    let packet = assemble_echo_request(0x0102, 0x0304, &[9, 8], 0xa1b2);
    assert_eq!(packet, vec![8, 0, 0xa1, 0xb2, 1, 2, 3, 4, 9, 8]);
}

#[test]
fn pinger_builds_a_valid_request() {
    let pinger = Pinger::new(IpAddress::V4(0x0a000001));
    assert_eq!(pinger.destination(), SocketTarget { ip: IpAddress::V4(0x0a000001), port: 0 });
    let packet = pinger.request(&[0u8; PAYLOAD_LEN]);
    assert_eq!(packet.len(), 64);
    assert_eq!(&packet[..2], &[8, 0]);
    assert_eq!(&packet[6..8], &[0, 0]);
    assert_eq!(ones_complement_sum(&packet), 0xffff);
    assert_eq!(PING_TIMEOUT_MS, 500);
}

#[test]
fn ping_outcome_carries_the_host() {
    let pinger = Pinger::new(IpAddress::V4(5));
    assert_eq!(pinger.ping(true), Ok(IpAddress::V4(5)));
    assert_eq!(pinger.ping(false), Err(IpAddress::V4(5)));
}

#[test]
fn only_hosts_that_answered_are_kept() {
    let ips = vec![
        IpAddress::V4(1),
        IpAddress::V4(2),
        IpAddress::V4(3),
        IpAddress::V4(4),
        IpAddress::V6(5),
    ];
    let outcomes = vec![
        Ok(IpAddress::V4(1)),
        Err(IpAddress::V4(2)),
        Ok(IpAddress::V4(3)),
        Err(IpAddress::V4(4)),
        Ok(IpAddress::V6(5)),
    ];
    assert_eq!(
        resolve_ping_ip(ips, outcomes),
        vec![IpAddress::V4(1), IpAddress::V4(3), IpAddress::V6(5)]
    );
    assert!(resolve_ping_ip(vec![IpAddress::V4(1)], vec![Err(IpAddress::V4(1))]).is_empty());
    assert!(resolve_ping_ip(vec![IpAddress::V4(1)], Vec::new()).is_empty());
    assert!(resolve_ping_ip(Vec::new(), Vec::new()).is_empty());
}

#[test]
fn kept_hosts_follow_the_hosts_asked_for() {
    let ips = vec![IpAddress::V4(3), IpAddress::V4(1), IpAddress::V4(2)];
    let outcomes = vec![
        Ok(IpAddress::V4(2)),
        Ok(IpAddress::V4(9)),
        Ok(IpAddress::V6(3)),
        Ok(IpAddress::V4(3)),
        Err(IpAddress::V4(1)),
    ];
    assert_eq!(resolve_ping_ip(ips, outcomes), vec![IpAddress::V4(3), IpAddress::V4(2)]);
}

#[test]
fn replies_are_matched_by_source() {
    let mut table: ReplyMap<&str> = ReplyMap::new();
    assert_eq!(table.new_waiter(IpAddress::V4(1), "first"), Ok(()));
    assert_eq!(table.new_waiter(IpAddress::V4(2), "second"), Ok(()));
    assert_eq!(table.remove(IpAddress::V4(2)), Some("second"));
    assert_eq!(table.remove(IpAddress::V4(1)), Some("first"));
}

#[test]
fn late_or_stray_reply_finds_no_waiter() {
    let mut table: ReplyMap<u8> = ReplyMap::new();
    assert_eq!(table.remove(IpAddress::V4(9)), None);
    assert_eq!(table.new_waiter(IpAddress::V4(9), 1), Ok(()));
    assert_eq!(table.remove(IpAddress::V4(9)), Some(1));
    assert_eq!(table.remove(IpAddress::V4(9)), None);
    assert_eq!(table.remove(IpAddress::V6(9)), None);
}

#[test]
fn second_waiter_for_a_pending_host_is_refused() {
    let mut table: ReplyMap<u8> = ReplyMap::new();
    assert_eq!(table.new_waiter(IpAddress::V4(9), 1), Ok(()));
    assert_eq!(table.new_waiter(IpAddress::V4(9), 2), Err(2));
    assert_eq!(table.new_waiter(IpAddress::V4(9), 3), Err(3));
    assert_eq!(table.remove(IpAddress::V4(9)), Some(1));
    assert_eq!(table.remove(IpAddress::V4(9)), None);
}

#[test]
fn host_can_be_registered_again_once_its_ping_is_over() {
    let mut table: ReplyMap<u8> = ReplyMap::new();
    assert_eq!(table.new_waiter(IpAddress::V4(9), 1), Ok(()));
    assert_eq!(table.remove(IpAddress::V4(9)), Some(1));
    assert_eq!(table.new_waiter(IpAddress::V4(9), 2), Ok(()));
    assert_eq!(table.new_waiter(IpAddress::V6(9), 3), Ok(()));
    assert_eq!(table.remove(IpAddress::V4(9)), Some(2));
    assert_eq!(table.remove(IpAddress::V6(9)), Some(3));
}
