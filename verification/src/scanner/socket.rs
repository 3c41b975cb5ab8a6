//! What a scan reports about one endpoint, and how sockets are set up.

use crate::utils::address::IpAddress;
use vstd::prelude::*;
use vstd::string::StringExecFns;

verus! {

/// The address family of a socket.
#[derive(Debug, Clone, Copy, PartialEq, Eq, Structural)]
pub enum IpType {
    V4,
    V6,
}

/// The transport protocol that an endpoint was reached over.
#[derive(Debug, Clone, Copy, PartialEq, Eq, Structural)]
pub enum TransportLayerProtocol {
    TCP,
    UDP,
}

/// How long a connection attempt may take, in milliseconds.
pub const CONNECT_TIMEOUT_MS: u64 = 1000;

/// How long a closing connection lingers, in milliseconds.
pub const LINGER_MS: u64 = 1000;

/// How long a datagram socket waits on a read or a write, in milliseconds.
pub const DATAGRAM_TIMEOUT_MS: u64 = 500;

/// The time to live of the datagrams that are sent.
pub const DATAGRAM_TTL: u32 = 30;

/// How a TCP socket is set up before it connects.
#[derive(Debug, Clone, Copy, PartialEq, Eq, Structural)]
pub struct TcpSettings {
    pub ip_type: IpType,
    pub reuse_address: bool,
    pub reuse_port: bool,
    pub linger_ms: Option<u64>,
}

/// How a datagram socket is set up.
#[derive(Debug, Clone, Copy, PartialEq, Eq, Structural)]
pub struct DatagramSettings {
    pub ip_type: IpType,
    pub nonblocking: bool,
    pub ttl: u32,
    pub read_timeout_ms: u64,
    pub write_timeout_ms: u64,
}

/// The socket settings of the scanner.
#[derive(Debug, Clone, Copy)]
pub struct Socket;

impl Socket {
    /// The settings of a socket for one connection attempt. An IPv4 socket
    /// may reuse its address and port and lingers on close; an IPv6 socket
    /// is left as the system makes it.
    pub fn tcp_settings(ip_type: IpType) -> (settings: TcpSettings)
        ensures
            settings == match ip_type {
                IpType::V4 => (TcpSettings {
                    ip_type,
                    reuse_address: true,
                    reuse_port: true,
                    linger_ms: Some(LINGER_MS),
                }),
                IpType::V6 => (TcpSettings {
                    ip_type,
                    reuse_address: false,
                    reuse_port: false,
                    linger_ms: None,
                }),
            },
    {
        match ip_type {
            IpType::V4 => TcpSettings {
                ip_type,
                reuse_address: true,
                reuse_port: true,
                linger_ms: Some(LINGER_MS),
            },
            IpType::V6 => TcpSettings {
                ip_type,
                reuse_address: false,
                reuse_port: false,
                linger_ms: None,
            },
        }
    }

    /// The settings of a UDP socket: non-blocking, with the scanner's time
    /// to live and timeouts.
    pub fn udp_settings(ip_type: IpType) -> (settings: DatagramSettings)
        ensures
            settings == (DatagramSettings {
                ip_type,
                nonblocking: true,
                ttl: DATAGRAM_TTL,
                read_timeout_ms: DATAGRAM_TIMEOUT_MS,
                write_timeout_ms: DATAGRAM_TIMEOUT_MS,
            }),
    {
        DatagramSettings {
            ip_type,
            nonblocking: true,
            ttl: DATAGRAM_TTL,
            read_timeout_ms: DATAGRAM_TIMEOUT_MS,
            write_timeout_ms: DATAGRAM_TIMEOUT_MS,
        }
    }

    /// The settings of the one socket that all pings share: an IPv4
    /// datagram socket with the scanner's time to live and timeouts.
    pub fn ping_settings() -> (settings: DatagramSettings)
        ensures
            settings == (DatagramSettings {
                ip_type: IpType::V4,
                nonblocking: false,
                ttl: DATAGRAM_TTL,
                read_timeout_ms: DATAGRAM_TIMEOUT_MS,
                write_timeout_ms: DATAGRAM_TIMEOUT_MS,
            }),
    {
        DatagramSettings {
            ip_type: IpType::V4,
            nonblocking: false,
            ttl: DATAGRAM_TTL,
            read_timeout_ms: DATAGRAM_TIMEOUT_MS,
            write_timeout_ms: DATAGRAM_TIMEOUT_MS,
        }
    }
}

/// The service name of an endpoint that nothing has identified.
pub open spec fn unknown_name() -> Seq<char> {
    "unknown"@
}

/// What is known about one scanned endpoint.
#[derive(Debug, Clone)]
pub struct ScannerReply {
    activity: bool,
    name: String,
    ip_addr: Option<IpAddress>,
    port: Option<u16>,
    version: Option<String>,
    transport_layer_protocol: Option<TransportLayerProtocol>,
}

/// A `ScannerReply` as plain values.
pub ghost struct ScannerReplyView {
    pub activity: bool,
    pub name: Seq<char>,
    pub ip_addr: Option<IpAddress>,
    pub port: Option<u16>,
    pub version: Option<Seq<char>>,
    pub transport_layer_protocol: Option<TransportLayerProtocol>,
}

/// The reply that every scan starts from: closed, unidentified, with no
/// endpoint filled in.
pub open spec fn blank_reply() -> ScannerReplyView {
    ScannerReplyView {
        activity: false,
        name: unknown_name(),
        ip_addr: None,
        port: None,
        version: None,
        transport_layer_protocol: None,
    }
}

impl View for ScannerReply {
    type V = ScannerReplyView;

    closed spec fn view(&self) -> ScannerReplyView {
        ScannerReplyView {
            activity: self.activity,
            name: self.name@,
            ip_addr: self.ip_addr,
            port: self.port,
            version: match self.version {
                Some(text) => Some(text@),
                None => None,
            },
            transport_layer_protocol: self.transport_layer_protocol,
        }
    }
}

impl ScannerReply {
    pub fn new() -> (reply: ScannerReply)
        ensures
            reply@ == blank_reply(),
    {
        ScannerReply {
            activity: false,
            name: String::from_str("unknown"),
            ip_addr: None,
            port: None,
            version: None,
            transport_layer_protocol: None,
        }
    }

    pub fn activity(&self) -> (activity: bool)
        ensures
            activity == self@.activity,
    {
        self.activity
    }

    pub fn set_activity(&mut self, activity: bool)
        ensures
            final(self)@ == (ScannerReplyView { activity, ..old(self)@ }),
    {
        self.activity = activity;
    }

    pub fn name(&self) -> (name: String)
        ensures
            name@ == self@.name,
    {
        self.name.clone()
    }

    pub fn set_name(&mut self, name: String)
        ensures
            final(self)@ == (ScannerReplyView { name: name@, ..old(self)@ }),
    {
        self.name = name;
    }

    pub fn version(&self) -> (version: Option<String>)
        ensures
            match version {
                Some(text) => self@.version == Some(text@),
                None => self@.version is None,
            },
    {
        match &self.version {
            Some(text) => Some(text.clone()),
            None => None,
        }
    }

    pub fn set_version(&mut self, version: String)
        ensures
            final(self)@ == (ScannerReplyView { version: Some(version@), ..old(self)@ }),
    {
        self.version = Some(version);
    }

    pub fn ip_addr(&self) -> (ip_addr: Option<IpAddress>)
        ensures
            ip_addr == self@.ip_addr,
    {
        self.ip_addr
    }

    pub fn set_ip_addr(&mut self, ip_addr: Option<IpAddress>)
        ensures
            final(self)@ == (ScannerReplyView { ip_addr, ..old(self)@ }),
    {
        self.ip_addr = ip_addr;
    }

    pub fn port(&self) -> (port: Option<u16>)
        ensures
            port == self@.port,
    {
        self.port
    }

    pub fn set_port(&mut self, port: Option<u16>)
        ensures
            final(self)@ == (ScannerReplyView { port, ..old(self)@ }),
    {
        self.port = port;
    }

    pub fn transport_layer_protocol(&self) -> (protocol: Option<TransportLayerProtocol>)
        ensures
            protocol == self@.transport_layer_protocol,
    {
        self.transport_layer_protocol
    }

    pub fn set_transport_layer_protocol(
        &mut self,
        transport_layer_protocol: Option<TransportLayerProtocol>,
    )
        ensures
            final(self)@ == (ScannerReplyView { transport_layer_protocol, ..old(self)@ }),
    {
        self.transport_layer_protocol = transport_layer_protocol;
    }
}

} // verus!
