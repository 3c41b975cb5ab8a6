use magic_scanner::fingerprint::{Fingerprint, Match, Probe};
use magic_scanner::scanner::matcher::{apply_rules, record, search, FingerprintMatcher, Search};
use magic_scanner::scanner::socket::{ScannerReply, TransportLayerProtocol};
use magic_scanner::scanner::{ScanMode, Scanner};
use magic_scanner::utils::address::{IpAddress, SocketTarget};

fn rule(pattern: &str, name: &str) -> Match {
    Match {
        pattern: String::from(pattern),
        name: String::from(name),
        discontinue: false,
        version_info: None,
    }
}

fn probe(payload: &str, matches: Vec<Match>) -> Probe {
    Probe { probe_name: None, probe_string: String::from(payload), matches }
}

fn tcp(probes: Vec<Probe>) -> Fingerprint {
    Fingerprint { protocol: String::from("TCP"), probes }
}

fn target() -> SocketTarget {
    SocketTarget { ip: IpAddress::V4(0x7f000001), port: 22 }
}

fn assert_open_unidentified(reply: &ScannerReply) {
    assert!(reply.activity());
    assert_eq!(reply.name(), "unknown");
    assert_eq!(reply.version(), None);
    assert_eq!(reply.ip_addr(), Some(IpAddress::V4(0x7f000001)));
    assert_eq!(reply.port(), Some(22));
    assert!(matches!(reply.transport_layer_protocol(), Some(TransportLayerProtocol::TCP)));
}

#[test]
fn search_tells_the_three_outcomes_apart() {
    assert!(matches!(search("(", "anything"), Search::Malformed));
    assert!(matches!(search("^SSH", "HTTP/1.1 200 OK"), Search::Missed));
    assert!(matches!(search("^SSH", "SSH-2.0-OpenSSH_9.6"), Search::Found(None)));
    match search("^SSH-(?P<version>[0-9.]+)-", "SSH-2.0-OpenSSH_9.6") {
        Search::Found(Some(version)) => assert_eq!(version, "2.0"),
        other => panic!("unexpected outcome {:?}", other),
    }
}

#[test]
fn search_with_a_version_group_that_took_no_part() {
    assert!(matches!(search("^SSH|(?P<version>HTTP)", "SSH-2.0"), Search::Found(None)));
}

#[test]
fn search_reads_no_group_but_version() {
    assert!(matches!(
        search("^SSH-(?P<release>[0-9.]+)-", "SSH-2.0-OpenSSH_9.6"),
        Search::Found(None)
    ));
    assert!(matches!(search("^SSH-([0-9.]+)-", "SSH-2.0-OpenSSH_9.6"), Search::Found(None)));
    match search("^(?P<release>SSH)-(?P<version>[0-9.]+)-", "SSH-2.0-OpenSSH_9.6") {
        Search::Found(Some(version)) => assert_eq!(version, "2.0"),
        other => panic!("unexpected outcome {:?}", other),
    }
}

#[test]
fn record_takes_name_and_version() {
    let ssh = rule("^SSH", "ssh");
    let mut reply = ScannerReply::new();
    assert!(record(&mut reply, &ssh, Search::Found(Some(String::from("2.0")))));
    assert_eq!(reply.name(), "ssh");
    assert_eq!(reply.version(), Some(String::from("2.0")));

    let mut reply = ScannerReply::new();
    reply.set_version(String::from("kept"));
    assert!(record(&mut reply, &ssh, Search::Found(None)));
    assert_eq!(reply.name(), "ssh");
    assert_eq!(reply.version(), Some(String::from("kept")));

    let mut reply = ScannerReply::new();
    assert!(!record(&mut reply, &ssh, Search::Missed));
    assert_eq!(reply.name(), "unknown");
    assert!(record(&mut reply, &ssh, Search::Malformed));
    assert_eq!(reply.name(), "unknown");
    assert_eq!(reply.version(), None);
}

#[test]
fn first_satisfying_rule_wins() {
    let rules = vec![rule("^HTTP", "http"), rule("SSH", "ssh"), rule("^SSH-2", "ssh2")];
    let mut reply = ScannerReply::new();
    assert!(apply_rules(&mut reply, &rules, "SSH-2.0-OpenSSH_9.6"));
    assert_eq!(reply.name(), "ssh");

    let rules = vec![rule("^HTTP", "http"), rule("^SSH-2", "ssh2"), rule("SSH", "ssh")];
    let mut reply = ScannerReply::new();
    assert!(apply_rules(&mut reply, &rules, "SSH-2.0-OpenSSH_9.6"));
    assert_eq!(reply.name(), "ssh2");
}

#[test]
fn matching_is_repeatable() {
    let rules = vec![rule("^HTTP", "http"), rule("^SSH-(?P<version>[0-9.]+)", "ssh")];
    for _ in 0..3 {
        let mut reply = ScannerReply::new();
        assert!(apply_rules(&mut reply, &rules, "SSH-2.0-OpenSSH_9.6"));
        assert_eq!(reply.name(), "ssh");
        assert_eq!(reply.version(), Some(String::from("2.0")));
    }
}

#[test]
fn empty_pattern_settles_before_later_rules() {
    let rules = vec![rule("^HTTP", "http"), rule("", "ignored"), rule("SSH", "ssh")];
    let mut reply = ScannerReply::new();
    assert!(apply_rules(&mut reply, &rules, "SSH-2.0"));
    assert_eq!(reply.name(), "unknown");
    assert_eq!(reply.version(), None);
}

#[test]
fn malformed_pattern_ends_the_search_without_a_name() {
    let rules = vec![rule("(", "broken"), rule("SSH", "ssh")];
    let mut reply = ScannerReply::new();
    assert!(apply_rules(&mut reply, &rules, "SSH-2.0"));
    assert_eq!(reply.name(), "unknown");
}

#[test]
fn no_rule_matching_leaves_the_reply() {
    let rules = vec![rule("^HTTP", "http"), rule("^SMTP", "smtp")];
    let mut reply = ScannerReply::new();
    assert!(!apply_rules(&mut reply, &rules, "SSH-2.0"));
    assert_eq!(reply.name(), "unknown");
    assert!(!apply_rules(&mut reply, &Vec::new(), "SSH-2.0"));
}

#[test]
fn without_a_definition_the_endpoint_is_reported_open() {
    let matcher = FingerprintMatcher::new(target(), None);
    assert!(matcher.is_finished());
    assert_eq!(matcher.next_probe(), None);
    assert_open_unidentified(&matcher.into_reply());
}

#[test]
fn empty_pattern_reports_open_whatever_the_banner() {
    for banner in [&b"SSH-2.0-OpenSSH_9.6\r\n"[..], &b""[..], &[0xff, 0xfe, 0x00][..]] {
        let definition = tcp(vec![probe("\r\n", vec![rule("", "")])]);
        let mut matcher = FingerprintMatcher::new(target(), Some(definition));
        assert_eq!(matcher.next_probe(), Some(&String::from("\r\n")));
        matcher.on_response(banner);
        assert!(matcher.is_finished());
        assert_eq!(matcher.next_probe(), None);
        assert_open_unidentified(&matcher.into_reply());
    }
}

#[test]
fn empty_pattern_stops_later_probes() {
    let definition = tcp(vec![
        probe("first", vec![rule("", "")]),
        probe("second", vec![rule("SSH", "ssh")]),
    ]);
    let mut matcher = FingerprintMatcher::new(target(), Some(definition));
    matcher.on_response(b"SSH-2.0");
    assert_eq!(matcher.next_probe(), None);
    matcher.on_response(b"SSH-2.0");
    assert_open_unidentified(matcher.reply());
}

#[test]
fn probes_are_tried_in_order_until_one_identifies() {
    let definition = tcp(vec![
        probe("", vec![rule("^HTTP", "http")]),
        probe("GET / HTTP/1.0\r\n\r\n", vec![rule("^SSH-(?P<version>\\S+)", "ssh"), rule("^HTTP", "web")]),
        probe("never", vec![rule(".", "anything")]),
    ]);
    let mut matcher = FingerprintMatcher::new(target(), Some(definition));
    assert_eq!(matcher.next_probe(), Some(&String::from("")));
    matcher.on_response(b"");
    assert!(!matcher.is_finished());
    assert_eq!(matcher.next_probe(), Some(&String::from("GET / HTTP/1.0\r\n\r\n")));
    matcher.on_response(b"SSH-2.0-OpenSSH_9.6");
    assert!(matcher.is_finished());
    assert_eq!(matcher.next_probe(), None);
    let reply = matcher.into_reply();
    assert!(reply.activity());
    assert_eq!(reply.name(), "ssh");
    assert_eq!(reply.version(), Some(String::from("2.0-OpenSSH_9.6")));
    assert_eq!(reply.port(), Some(22));
}

#[test]
fn probes_running_out_reports_open() {
    let definition = tcp(vec![probe("a", vec![rule("^A", "a")]), probe("b", vec![rule("^B", "b")])]);
    let mut matcher = FingerprintMatcher::new(target(), Some(definition));
    matcher.on_response(b"x");
    assert_eq!(matcher.next_probe(), Some(&String::from("b")));
    matcher.on_response(b"y");
    assert!(matcher.is_finished());
    assert_open_unidentified(&matcher.into_reply());
}

#[test]
fn failure_ends_the_identification_with_the_reply_so_far() {
    let definition = tcp(vec![probe("a", vec![rule("^A", "a")]), probe("b", vec![rule("^B", "b")])]);
    let mut matcher = FingerprintMatcher::new(target(), Some(definition));
    matcher.on_failure();
    assert!(matcher.is_finished());
    assert_eq!(matcher.next_probe(), None);
    matcher.on_response(b"B");
    assert_open_unidentified(&matcher.into_reply());
}

#[test]
fn banner_is_decoded_leniently() {
    let definition = tcp(vec![probe("", vec![rule("^\u{fffd}SSH-(?P<version>[0-9.]+)", "ssh")])]);
    let mut matcher = FingerprintMatcher::new(target(), Some(definition));
    matcher.on_response(&[0xff, b'S', b'S', b'H', b'-', b'2', b'.', b'0']);
    let reply = matcher.into_reply();
    assert_eq!(reply.name(), "ssh");
    assert_eq!(reply.version(), Some(String::from("2.0")));
}

#[test]
fn definition_without_probes_reports_open() {
    let matcher = FingerprintMatcher::new(target(), Some(tcp(Vec::new())));
    assert!(matcher.is_finished());
    assert_open_unidentified(&matcher.into_reply());
}

#[test]
fn refused_target_gives_no_result() {
    let definition = tcp(vec![probe("a", vec![rule("", "")])]);
    assert!(Scanner::scan_socket(target(), false, ScanMode::Fingerprinting, Some(definition)).is_none());
    assert!(Scanner::scan_socket(target(), false, ScanMode::LivenessOnly, None).is_none());
}

#[test]
fn open_target_is_probed_only_when_fingerprinting() {
    let definition = tcp(vec![probe("a", vec![rule("^A", "a")])]);
    let probing =
        Scanner::scan_socket(target(), true, ScanMode::Fingerprinting, Some(definition.clone())).unwrap();
    assert_eq!(probing.next_probe(), Some(&String::from("a")));
    let liveness = Scanner::scan_socket(target(), true, ScanMode::LivenessOnly, Some(definition)).unwrap();
    assert!(liveness.is_finished());
    assert_open_unidentified(&liveness.into_reply());
}

#[test]
fn port_22_open_and_9999_refused_without_a_database() {
    let ssh = SocketTarget { ip: IpAddress::V4(0x7f000001), port: 22 };
    let closed = SocketTarget { ip: IpAddress::V4(0x7f000001), port: 9999 };
    let open = Scanner::scan_socket(ssh, true, ScanMode::Fingerprinting, None).unwrap();
    assert!(open.is_finished());
    assert_open_unidentified(&open.into_reply());
    assert!(Scanner::scan_socket(closed, false, ScanMode::Fingerprinting, None).is_none());
}
