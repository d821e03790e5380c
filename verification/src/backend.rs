//! What a backend is configured with and what it decides: the settings of
//! the proxy and TUN backends, the flow key of a raw IPv4 packet, and the
//! accounting of connections.

use crate::bypass::{BypassConfig, DetectedProtocol};
use crate::config::{Config, Protocol};
use crate::error::EngineError;
use crate::flow::FlowKey;
use crate::net::{quad, IpAddress};
use crate::stats::wrapping_sum;
use crate::text::{concat, decimal, push_decimal};
use bytes::BytesMut;
use vstd::prelude::*;
use vstd::string::StringExecFns;

verus! {

#[derive(Debug)]
pub enum BackendError {
    NotSupported(String),
    TunCreationFailed(String),
    NetworkConfig(String),
    AlreadyRunning,
    NotRunning,
    BindFailed(String),
    Connection(String),
    QueueFull(String),
    PacketTooLarge { size: usize, max: usize },
    InvalidPacket(String),
    /// An I/O failure, by its message.
    Io(String),
    Engine(EngineError),
    Shutdown,
    Timeout,
    PermissionDenied(String),
}

impl BackendError {
    /// The text that `describe` gives.
    pub open spec fn description(&self) -> Seq<char> {
        match self {
            BackendError::NotSupported(text) => "Backend not supported on this platform: "@
                + text@,
            BackendError::TunCreationFailed(text) => "Failed to create TUN device: "@ + text@,
            BackendError::NetworkConfig(text) => "Failed to configure network: "@ + text@,
            BackendError::AlreadyRunning => "Backend already running"@,
            BackendError::NotRunning => "Backend not running"@,
            BackendError::BindFailed(text) => "Failed to bind to address: "@ + text@,
            BackendError::Connection(text) => "Connection error: "@ + text@,
            BackendError::QueueFull(text) => "Queue full: "@ + text@,
            BackendError::PacketTooLarge { size, max } => "Packet too large: "@ + decimal(
                *size as nat,
            ) + " bytes (max: "@ + decimal(*max as nat) + ")"@,
            BackendError::InvalidPacket(text) => "Invalid packet: "@ + text@,
            BackendError::Io(text) => "IO error: "@ + text@,
            BackendError::Engine(error) => "Engine error: "@ + error.description(),
            BackendError::Shutdown => "Shutdown requested"@,
            BackendError::Timeout => "Timeout waiting for operation"@,
            BackendError::PermissionDenied(text) => "Permission denied: "@ + text@,
        }
    }

    /// The error as a line of text for people.
    pub fn describe(&self) -> (text: String)
        ensures
            text@ == self.description(),
    {
        match self {
            BackendError::NotSupported(text) => concat(
                "Backend not supported on this platform: ",
                text.as_str(),
            ),
            BackendError::TunCreationFailed(text) => concat(
                "Failed to create TUN device: ",
                text.as_str(),
            ),
            BackendError::NetworkConfig(text) => concat(
                "Failed to configure network: ",
                text.as_str(),
            ),
            BackendError::AlreadyRunning => "Backend already running".to_owned(),
            BackendError::NotRunning => "Backend not running".to_owned(),
            BackendError::BindFailed(text) => concat("Failed to bind to address: ", text.as_str()),
            BackendError::Connection(text) => concat("Connection error: ", text.as_str()),
            BackendError::QueueFull(text) => concat("Queue full: ", text.as_str()),
            BackendError::PacketTooLarge { size, max } => {
                let mut text = "Packet too large: ".to_owned();
                push_decimal(&mut text, *size as u64);
                text.append(" bytes (max: ");
                push_decimal(&mut text, *max as u64);
                text.append(")");
                text
            },
            BackendError::InvalidPacket(text) => concat("Invalid packet: ", text.as_str()),
            BackendError::Io(text) => concat("IO error: ", text.as_str()),
            BackendError::Engine(error) => {
                let inner = error.describe();
                concat("Engine error: ", inner.as_str())
            },
            BackendError::Shutdown => "Shutdown requested".to_owned(),
            BackendError::Timeout => "Timeout waiting for operation".to_owned(),
            BackendError::PermissionDenied(text) => concat("Permission denied: ", text.as_str()),
        }
    }
}

#[derive(Debug, Clone, Copy, PartialEq, Eq, Structural)]
pub enum PacketDirection {
    Outbound,
    Inbound,
}

/// A packet on its way through a backend.
#[derive(Debug)]
pub struct Packet {
    pub data: BytesMut,
    pub direction: PacketDirection,
    pub flow_key: Option<FlowKey>,
    /// When the packet was taken in, in the caller's time.
    pub timestamp: u64,
}

impl Packet {
    pub fn outbound(data: BytesMut, timestamp: u64) -> (packet: Self)
        ensures
            packet.data == data,
            packet.direction == PacketDirection::Outbound,
            packet.flow_key is None,
            packet.timestamp == timestamp,
    {
        Packet { data, direction: PacketDirection::Outbound, flow_key: None, timestamp }
    }

    pub fn inbound(data: BytesMut, timestamp: u64) -> (packet: Self)
        ensures
            packet.data == data,
            packet.direction == PacketDirection::Inbound,
            packet.flow_key is None,
            packet.timestamp == timestamp,
    {
        Packet { data, direction: PacketDirection::Inbound, flow_key: None, timestamp }
    }

    pub fn with_flow_key(self, key: FlowKey) -> (packet: Self)
        ensures
            packet.data == self.data,
            packet.direction == self.direction,
            packet.flow_key == Some(key),
            packet.timestamp == self.timestamp,
    {
        Packet {
            data: self.data,
            direction: self.direction,
            flow_key: Some(key),
            timestamp: self.timestamp,
        }
    }
}

/// An address and a port to listen on or to connect to.
#[derive(Debug, Clone, Copy, PartialEq, Eq, Hash, Structural)]
pub struct SocketAddress {
    pub ip: IpAddress,
    pub port: u16,
}

impl SocketAddress {
    /// The port `port` on this machine's loopback address, 127.0.0.1.
    pub fn loopback(port: u16) -> (address: Self)
        ensures
            address == (SocketAddress { ip: IpAddress::V4(quad(127, 0, 0, 1)), port }),
    {
        SocketAddress { ip: IpAddress::v4(127, 0, 0, 1), port }
    }
}

#[derive(Debug, Clone)]
pub struct BackendConfig {
    pub engine_config: Config,
    pub max_queue_size: usize,
    pub backend_settings: BackendSettings,
}

impl Default for BackendConfig {
    fn default() -> (config: Self)
        ensures
            config.engine_config.valid(),
            config.max_queue_size == 1000,
            config.backend_settings matches BackendSettings::Tun(settings) && settings.is_default(),
    {
        BackendConfig {
            engine_config: Config::default(),
            max_queue_size: 1000,
            backend_settings: BackendSettings::Tun(TunSettings::default()),
        }
    }
}

#[derive(Debug, Clone)]
pub enum BackendSettings {
    Tun(TunSettings),
    Proxy(ProxySettings),
}

#[derive(Debug, Clone)]
pub struct TunSettings {
    pub device_name: Option<String>,
    pub mtu: u16,
    pub address: String,
    pub netmask: String,
}

impl TunSettings {
    /// The settings of a device that the system names, with an MTU of 1500
    /// and the address 10.0.85.1 in a network of 256 addresses.
    pub open spec fn is_default(&self) -> bool {
        &&& self.device_name is None
        &&& self.mtu == 1500
        &&& self.address@ == "10.0.85.1"@
        &&& self.netmask@ == "255.255.255.0"@
    }
}

impl Default for TunSettings {
    fn default() -> (settings: Self)
        ensures
            settings.is_default(),
    {
        TunSettings {
            device_name: None,
            mtu: 1500,
            address: "10.0.85.1".to_owned(),
            netmask: "255.255.255.0".to_owned(),
        }
    }
}

#[derive(Debug, Clone, Copy)]
pub struct ProxySettings {
    pub listen_addr: SocketAddress,
    pub proxy_type: ProxyType,
    pub max_connections: usize,
    pub timeout_secs: u64,
}

impl Default for ProxySettings {
    fn default() -> (settings: Self)
        ensures
            settings.listen_addr == (SocketAddress {
                ip: IpAddress::V4(quad(127, 0, 0, 1)),
                port: 1080,
            }),
            settings.proxy_type == ProxyType::Socks5,
            settings.max_connections == 1000,
            settings.timeout_secs == 300,
    {
        ProxySettings {
            listen_addr: SocketAddress::loopback(1080),
            proxy_type: ProxyType::Socks5,
            max_connections: 1000,
            timeout_secs: 300,
        }
    }
}

#[derive(Debug, Clone, Copy, PartialEq, Eq, Structural)]
pub enum ProxyType {
    Socks5,
    HttpConnect,
}

/// Whether one more connection is taken on when `active` are open and at
/// most `max_connections` may be.
pub fn admits_connection(active: u64, max_connections: usize) -> (yes: bool)
    ensures
        yes == (active < max_connections),
{
    active < max_connections as u64
}

/// The settings to start the proxy backend with: those of `settings`, unless
/// the backend is running already or the settings are for another backend.
pub fn proxy_start_settings(running: bool, settings: &BackendSettings) -> (chosen: Result<
    ProxySettings,
    BackendError,
>)
    ensures
        running ==> chosen matches Err(BackendError::AlreadyRunning),
        !running ==> match settings {
            BackendSettings::Proxy(proxy) => chosen matches Ok(taken) && taken == *proxy,
            BackendSettings::Tun(_) => chosen matches Err(BackendError::NotSupported(text))
                && text@ == "ProxyBackend requires ProxySettings"@,
        },
{
    if running {
        return Err(BackendError::AlreadyRunning);
    }
    match settings {
        BackendSettings::Proxy(proxy) => Ok(*proxy),
        BackendSettings::Tun(_) => Err(
            BackendError::NotSupported("ProxyBackend requires ProxySettings".to_owned()),
        ),
    }
}

/// Whether a backend may be stopped: only one that is running.
pub fn check_stop(running: bool) -> (checked: Result<(), BackendError>)
    ensures
        running ==> checked is Ok,
        !running ==> checked matches Err(BackendError::NotRunning),
{
    if running {
        Ok(())
    } else {
        Err(BackendError::NotRunning)
    }
}

/// The number that the two bytes at `i` write, most significant first.
pub open spec fn port_at(s: Seq<u8>, i: int) -> u16 {
    (s[i] as u16 * 256 + s[i + 1] as u16) as u16
}

/// The length of the IPv4 header that begins with the byte `first`: as many
/// 32-bit words as the low half of that byte says.
pub open spec fn header_len(first: u8) -> int {
    (first & 0x0f) * 4
}

/// The protocol of a packet, and its ports when it has any.
pub enum Transport {
    Ports(Protocol),
    Bare(Protocol),
    Other,
}

/// What the protocol number of an IPv4 header stands for: 6 is TCP and 17 is
/// UDP, both with ports; 1 is the protocol without ports.
pub open spec fn transport_of(number: u8) -> Transport {
    if number == 6 {
        Transport::Ports(Protocol::Tcp)
    } else if number == 17 {
        Transport::Ports(Protocol::Udp)
    } else if number == 1 {
        Transport::Bare(Protocol::Icmp)
    } else {
        Transport::Other
    }
}

/// The flow key of a raw IPv4 packet: its addresses from the IP header, and
/// for TCP and UDP the ports from the first four bytes behind the header.
/// The third protocol known has the ports 0. `None` for fewer than twenty
/// bytes, another IP version, a packet shorter than its header says, TCP or
/// UDP without room for the ports, and any other protocol.
pub open spec fn ipv4_flow_key(s: Seq<u8>) -> Option<FlowKey> {
    let header = header_len(s[0]);
    if s.len() < 20 || (s[0] >> 4) & 0x0f != 4 || s.len() < header {
        None
    } else {
        let src_ip = IpAddress::V4(quad(s[12], s[13], s[14], s[15]));
        let dst_ip = IpAddress::V4(quad(s[16], s[17], s[18], s[19]));
        match transport_of(s[9]) {
            Transport::Ports(protocol) => if s.len() < header + 4 {
                None
            } else {
                Some(
                    FlowKey {
                        src_ip,
                        dst_ip,
                        src_port: port_at(s, header),
                        dst_port: port_at(s, header + 2),
                        protocol,
                    },
                )
            },
            Transport::Bare(protocol) => Some(
                FlowKey { src_ip, dst_ip, src_port: 0, dst_port: 0, protocol },
            ),
            Transport::Other => None,
        }
    }
}

fn header_bytes(first: u8) -> (n: usize)
    ensures
        n == header_len(first),
        n <= 60,
{
    let words: u8 = first & 0x0f;
    assert(words <= 15) by (bit_vector)
        requires
            words == first & 0x0f,
    ;
    (words as usize) * 4
}

fn read_port(data: &[u8], i: usize) -> (port: u16)
    requires
        i + 2 <= data@.len(),
    ensures
        port == port_at(data@, i as int),
{
    (data[i] as u16) * 256 + (data[i + 1] as u16)
}

fn transport(number: u8) -> (found: Transport)
    ensures
        found == transport_of(number),
{
    if number == 6 {
        Transport::Ports(Protocol::Tcp)
    } else if number == 17 {
        Transport::Ports(Protocol::Udp)
    } else if number == 1 {
        Transport::Bare(Protocol::Icmp)
    } else {
        Transport::Other
    }
}

/// Reads the flow key of a raw IPv4 packet; see `ipv4_flow_key`.
pub fn parse_ipv4_flow_key(data: &[u8]) -> (key: Option<FlowKey>)
    ensures
        key == ipv4_flow_key(data@),
{
    if data.len() < 20 {
        return None;
    }
    let first: u8 = data[0];
    let version = (first >> 4) & 0x0f;
    if version != 4 {
        return None;
    }
    let ihl = header_bytes(first);
    if data.len() < ihl {
        return None;
    }
    let src_ip = IpAddress::v4(data[12], data[13], data[14], data[15]);
    let dst_ip = IpAddress::v4(data[16], data[17], data[18], data[19]);
    match transport(data[9]) {
        Transport::Ports(protocol) => {
            if data.len() < ihl + 4 {
                return None;
            }
            let src_port = read_port(data, ihl);
            let dst_port = read_port(data, ihl + 2);
            Some(FlowKey::new(src_ip, dst_ip, src_port, dst_port, protocol))
        },
        Transport::Bare(protocol) => Some(FlowKey::new(src_ip, dst_ip, 0, 0, protocol)),
        Transport::Other => None,
    }
}

/// Counters of what the bypass proxy has done.
#[derive(Debug, Clone, Copy, PartialEq, Eq, Structural)]
pub struct ProxyStats {
    pub connections_total: u64,
    pub connections_active: u64,
    pub bytes_sent: u64,
    pub bytes_received: u64,
    pub tls_connections: u64,
    pub http_connections: u64,
    pub bypass_applied: u64,
    pub dns_queries: u64,
    pub errors: u64,
}

impl Default for ProxyStats {
    fn default() -> (stats: Self)
        ensures
            stats == ProxyStats::zero(),
    {
        ProxyStats::new()
    }
}

impl ProxyStats {
    /// The counters before anything was counted.
    pub open spec fn zero() -> Self {
        ProxyStats {
            connections_total: 0,
            connections_active: 0,
            bytes_sent: 0,
            bytes_received: 0,
            tls_connections: 0,
            http_connections: 0,
            bypass_applied: 0,
            dns_queries: 0,
            errors: 0,
        }
    }

    pub fn new() -> (stats: Self)
        ensures
            stats == ProxyStats::zero(),
    {
        ProxyStats {
            connections_total: 0,
            connections_active: 0,
            bytes_sent: 0,
            bytes_received: 0,
            tls_connections: 0,
            http_connections: 0,
            bypass_applied: 0,
            dns_queries: 0,
            errors: 0,
        }
    }

    /// Counts a connection taken on: one more in all, one more open.
    pub fn connection_opened(&mut self)
        ensures
            *final(self) == (ProxyStats {
                connections_total: wrapping_sum(old(self).connections_total, 1),
                connections_active: wrapping_sum(old(self).connections_active, 1),
                ..*old(self)
            }),
    {
        self.connections_total = self.connections_total.wrapping_add(1);
        self.connections_active = self.connections_active.wrapping_add(1);
    }

    /// Counts a connection that has ended, and its failure if it failed.
    pub fn connection_closed(&mut self, failed: bool)
        ensures
            *final(self) == (ProxyStats {
                connections_active: old(self).connections_active.wrapping_sub(1),
                errors: if failed {
                    wrapping_sum(old(self).errors, 1)
                } else {
                    old(self).errors
                },
                ..*old(self)
            }),
    {
        self.connections_active = self.connections_active.wrapping_sub(1);
        if failed {
            self.errors = self.errors.wrapping_add(1);
        }
    }

    /// Counts what the fragment engine found in a connection's first bytes:
    /// the protocol, and whether the bytes were reshaped.
    pub fn record_first_bytes(&mut self, protocol: DetectedProtocol, modified: bool)
        ensures
            *final(self) == (ProxyStats {
                tls_connections: if protocol == DetectedProtocol::TlsClientHello {
                    wrapping_sum(old(self).tls_connections, 1)
                } else {
                    old(self).tls_connections
                },
                http_connections: if protocol == DetectedProtocol::HttpRequest {
                    wrapping_sum(old(self).http_connections, 1)
                } else {
                    old(self).http_connections
                },
                bypass_applied: if modified {
                    wrapping_sum(old(self).bypass_applied, 1)
                } else {
                    old(self).bypass_applied
                },
                ..*old(self)
            }),
    {
        match protocol {
            DetectedProtocol::TlsClientHello => {
                self.tls_connections = self.tls_connections.wrapping_add(1);
            },
            DetectedProtocol::HttpRequest => {
                self.http_connections = self.http_connections.wrapping_add(1);
            },
            DetectedProtocol::Unknown => {},
        }
        if modified {
            self.bypass_applied = self.bypass_applied.wrapping_add(1);
        }
    }

    pub fn record_sent(&mut self, bytes: usize)
        ensures
            *final(self) == (ProxyStats {
                bytes_sent: wrapping_sum(old(self).bytes_sent, bytes as u64),
                ..*old(self)
            }),
    {
        self.bytes_sent = self.bytes_sent.wrapping_add(bytes as u64);
    }

    pub fn record_received(&mut self, bytes: usize)
        ensures
            *final(self) == (ProxyStats {
                bytes_received: wrapping_sum(old(self).bytes_received, bytes as u64),
                ..*old(self)
            }),
    {
        self.bytes_received = self.bytes_received.wrapping_add(bytes as u64);
    }

    pub fn record_dns_query(&mut self)
        ensures
            *final(self) == (ProxyStats {
                dns_queries: wrapping_sum(old(self).dns_queries, 1),
                ..*old(self)
            }),
    {
        self.dns_queries = self.dns_queries.wrapping_add(1);
    }
}

/// The settings of the bypass proxy.
#[derive(Debug, Clone, Copy)]
pub struct ProxyConfig {
    pub listen_addr: SocketAddress,
    pub bypass: BypassConfig,
    /// How long to wait for a connection, in seconds.
    pub connect_timeout_secs: u64,
    pub buffer_size: usize,
    pub verbose: bool,
}

impl Default for ProxyConfig {
    fn default() -> (config: Self)
        ensures
            config.listen_addr == (SocketAddress {
                ip: IpAddress::V4(quad(127, 0, 0, 1)),
                port: 8844,
            }),
            config.bypass == BypassConfig::preset(3, 2, 1, 0, 40),
            config.connect_timeout_secs == 30,
            config.buffer_size == 65536,
            !config.verbose,
    {
        ProxyConfig {
            listen_addr: SocketAddress::loopback(8844),
            bypass: BypassConfig::default(),
            connect_timeout_secs: 30,
            buffer_size: 65536,
            verbose: false,
        }
    }
}

/// The named policies of the fragment engine.
#[derive(Debug, Clone, Copy, PartialEq, Eq, Structural)]
pub enum IspPreset {
    TurkTelekom,
    Vodafone,
    Superonline,
    Aggressive,
}

impl IspPreset {
    pub fn to_bypass_config(&self) -> (config: BypassConfig)
        ensures
            config == match self {
                IspPreset::TurkTelekom => BypassConfig::preset(2, 2, 1, 0, 20),
                IspPreset::Vodafone => BypassConfig::preset(3, 3, 1, 100, 30),
                IspPreset::Superonline => BypassConfig::preset(1, 1, 1, 0, 15),
                IspPreset::Aggressive => BypassConfig::preset(0, 1, 3, 10000, 5),
            },
    {
        match self {
            IspPreset::TurkTelekom => BypassConfig::turk_telekom(),
            IspPreset::Vodafone => BypassConfig::vodafone_tr(),
            IspPreset::Superonline => BypassConfig::superonline(),
            IspPreset::Aggressive => BypassConfig::aggressive(),
        }
    }
}

/// The answers of the proxy to its client.
pub const RESPONSE_ESTABLISHED: &'static str = "HTTP/1.1 200 Connection Established\r\n\r\n";

pub const RESPONSE_BAD_REQUEST: &'static str =
    "HTTP/1.1 400 Bad Request\r\n\r\nUnsupported request\r\n";

pub const RESPONSE_BAD_GATEWAY: &'static str = "HTTP/1.1 502 Bad Gateway\r\n\r\n";

pub const RESPONSE_GATEWAY_TIMEOUT: &'static str = "HTTP/1.1 504 Gateway Timeout\r\n\r\n";

} // verus!
