//! Transport-level value types: ICE, DTLS and SCTP descriptions that
//! surround the negotiation core, and the application data attached to
//! routers and transports.

use vstd::prelude::*;

verus! {

/// User data attached to routers, transports, producers and consumers;
/// the library never reads it, it only carries it for the caller.
#[derive(Debug)]
pub struct AppData<T>(pub T);

impl<T> AppData<T> {
    /// Wraps a value as application data.
    pub fn new(app_data: T) -> (r: Self)
        ensures
            r.0 == app_data,
    {
        AppData(app_data)
    }

    /// Borrows the carried value.
    pub fn get(&self) -> (r: &T)
        ensures
            r == &self.0,
    {
        &self.0
    }
}

/// A local IP to listen on, with the IP announced to clients when it
/// differs (as behind NAT).
#[derive(Debug, PartialEq, Eq)]
pub struct TransportListenIp {
    pub ip: String,
    pub announced_ip: Option<String>,
}

impl Clone for TransportListenIp {
    fn clone(&self) -> (r: Self)
        ensures
            r.ip@ == self.ip@,
            r.announced_ip.deep_view() == self.announced_ip.deep_view(),
    {
        TransportListenIp {
            ip: self.ip.clone(),
            announced_ip: crate::rtp_parameters::clone_opt_string(&self.announced_ip),
        }
    }
}

/// Requested numbers of SCTP streams.
#[derive(Debug, Clone, Copy, PartialEq, Eq, Structural)]
pub struct NumSctpStreams {
    /// Initially requested number of outgoing SCTP streams.
    pub os: u16,
    /// Maximum number of incoming SCTP streams.
    pub mis: u16,
}

impl Default for NumSctpStreams {
    fn default() -> (r: Self)
        ensures
            r == (NumSctpStreams { os: 1024, mis: 1024 }),
    {
        NumSctpStreams { os: 1024, mis: 1024 }
    }
}

/// Role of the ICE agent.
#[derive(Debug, Clone, Copy, PartialEq, Eq, Hash, Structural)]
pub enum IceRole {
    Controlled,
    Controlling,
}

/// ICE parameters of the local agent.
#[derive(Debug, PartialEq, Eq, Hash)]
pub struct IceParameters {
    pub username_fragment: String,
    pub password: String,
    pub ice_lite: Option<bool>,
}

impl Clone for IceParameters {
    fn clone(&self) -> (r: Self)
        ensures
            r.username_fragment@ == self.username_fragment@,
            r.password@ == self.password@,
            r.ice_lite == self.ice_lite,
    {
        IceParameters {
            username_fragment: self.username_fragment.clone(),
            password: self.password.clone(),
            ice_lite: self.ice_lite,
        }
    }
}

/// Kind of an ICE candidate.
#[derive(Debug, Clone, Copy, PartialEq, Eq, Hash, Structural)]
pub enum IceCandidateType {
    Host,
    Srflx,
    Prflx,
    Relay,
}

/// TCP mode of an ICE candidate.
#[derive(Debug, Clone, Copy, PartialEq, Eq, Hash, Structural)]
pub enum IceCandidateTcpType {
    Passive,
}

/// Transport protocol of an ICE candidate or tuple.
#[derive(Debug, Clone, Copy, PartialEq, Eq, Hash, Structural)]
pub enum TransportProtocol {
    Tcp,
    Udp,
}

/// One ICE candidate of the local agent.
#[derive(Debug, PartialEq, Eq, Hash)]
pub struct IceCandidate {
    pub foundation: String,
    pub priority: u32,
    pub ip: String,
    pub protocol: TransportProtocol,
    pub port: u16,
    pub candidate_type: IceCandidateType,
    pub tcp_type: Option<IceCandidateTcpType>,
}

impl Clone for IceCandidate {
    fn clone(&self) -> (r: Self)
        ensures
            r.foundation@ == self.foundation@,
            r.priority == self.priority,
            r.ip@ == self.ip@,
            r.protocol == self.protocol,
            r.port == self.port,
            r.candidate_type == self.candidate_type,
            r.tcp_type == self.tcp_type,
    {
        IceCandidate {
            foundation: self.foundation.clone(),
            priority: self.priority,
            ip: self.ip.clone(),
            protocol: self.protocol,
            port: self.port,
            candidate_type: self.candidate_type,
            tcp_type: self.tcp_type,
        }
    }
}

/// State of the ICE session.
#[derive(Debug, Clone, Copy, PartialEq, Eq, Hash, Structural)]
pub enum IceState {
    New,
    Connected,
    Completed,
    Disconnected,
    Closed,
}

/// The local, and once connected the remote, endpoint of a transport.
#[derive(Debug, PartialEq, Eq, Hash)]
pub enum TransportTuple {
    LocalOnly { local_ip: String, local_port: u16, protocol: TransportProtocol },
    WithRemote {
        local_ip: String,
        local_port: u16,
        remote_ip: String,
        remote_port: u16,
        protocol: TransportProtocol,
    },
}

/// State of the DTLS session.
#[derive(Debug, Clone, Copy, PartialEq, Eq, Hash, Structural)]
pub enum DtlsState {
    New,
    Connecting,
    Connected,
    Failed,
    Closed,
}

/// SCTP settings of a transport.
#[derive(Debug, Clone, Copy, PartialEq, Eq, Hash, Structural)]
pub struct SctpParameters {
    /// Must always equal 5000.
    pub port: u16,
    /// Initially requested number of outgoing SCTP streams.
    pub os: u16,
    /// Maximum number of incoming SCTP streams.
    pub mis: u16,
    /// Maximum allowed size for SCTP messages.
    pub max_message_size: usize,
}

/// State of the SCTP association.
#[derive(Debug, Clone, Copy, PartialEq, Eq, Hash, Structural)]
pub enum SctpState {
    New,
    Connecting,
    Connected,
    Failed,
    Closed,
}

/// Role of the DTLS endpoint.
#[derive(Debug, Clone, Copy, PartialEq, Eq, Hash, Structural)]
pub enum DtlsRole {
    Auto,
    Client,
    Server,
}

impl Default for DtlsRole {
    fn default() -> (r: Self)
        ensures
            r == DtlsRole::Auto,
    {
        DtlsRole::Auto
    }
}

/// Hash of a DTLS certificate, with the algorithm that produced it.
#[derive(Debug, PartialEq, Eq)]
pub struct DtlsFingerprint {
    pub algorithm: String,
    pub value: String,
}

impl Clone for DtlsFingerprint {
    fn clone(&self) -> (r: Self)
        ensures
            r.algorithm@ == self.algorithm@,
            r.value@ == self.value@,
    {
        DtlsFingerprint { algorithm: self.algorithm.clone(), value: self.value.clone() }
    }
}

/// DTLS settings of a transport endpoint.
#[derive(Debug, PartialEq, Eq)]
pub struct DtlsParameters {
    pub role: DtlsRole,
    pub fingerprints: Vec<DtlsFingerprint>,
}

/// Direction of a traced event.
#[derive(Debug, Clone, Copy, PartialEq, Eq, Structural)]
pub enum EventDirection {
    In,
    Out,
}

/// Direction of an RTP stream in statistics.
#[derive(Debug, Clone, Copy, PartialEq, Eq, Hash, Structural)]
pub enum RtpType {
    Inbound,
    Outbound,
}

} // verus!
