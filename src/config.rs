//! Fixed configuration: timing constants, the remote endpoint, the peer
//! name used for verification and the request that each session sends.

use vstd::prelude::*;

verus! {

/// Interval between two polls of the link and lease state.
pub const LINK_POLL_INTERVAL_MS: u64 = 500;

/// Delay after a disassociation, and after a failed association attempt,
/// before the radio supervisor acts again.
pub const RECONNECT_DELAY_MS: u64 = 5000;

/// Delay before each session attempt begins.
pub const PRE_ATTEMPT_DELAY_MS: u64 = 1000;

/// Delay after each session attempt ends, whatever its outcome.
pub const POST_ATTEMPT_DELAY_MS: u64 = 3000;

/// Idle and connect timeout configured on every transport socket. It is the
/// only bound on a single wait of the read loop.
pub const SOCKET_TIMEOUT_MS: u64 = 10000;

/// Size of each of the two buffers (receive and transmit) that the socket
/// is bound to.
pub const SOCKET_BUFFER_LEN: usize = 4096;

/// Size of the chunk that one read of the secure session fills.
pub const READ_CHUNK_LEN: usize = 1024;

/// Port of the remote peer.
pub const REMOTE_PORT: u16 = 443;

/// An IPv4 address as its four octets, most significant first.
#[derive(Clone, Copy, Debug, PartialEq, Eq, Structural)]
pub struct Ipv4Addr {
    pub a: u8,
    pub b: u8,
    pub c: u8,
    pub d: u8,
}

/// Address and port of a transport peer.
#[derive(Clone, Copy, Debug, PartialEq, Eq, Structural)]
pub struct Endpoint {
    pub addr: Ipv4Addr,
    pub port: u16,
}

impl Ipv4Addr {
    pub fn new(a: u8, b: u8, c: u8, d: u8) -> (r: Ipv4Addr)
        ensures
            r == (Ipv4Addr { a, b, c, d }),
    {
        Ipv4Addr { a, b, c, d }
    }
}

pub open spec fn remote_endpoint_spec() -> Endpoint {
    Endpoint { addr: Ipv4Addr { a: 192, b: 168, c: 2, d: 21 }, port: REMOTE_PORT }
}

/// The peer that every session attempt connects to.
pub fn remote_endpoint() -> (r: Endpoint)
    ensures
        r == remote_endpoint_spec(),
{
    Endpoint { addr: Ipv4Addr::new(192, 168, 2, 21), port: REMOTE_PORT }
}

/// Name that the peer's certificate is verified against. Verification is by
/// name, routing by the numeric address of `remote_endpoint`.
pub fn peer_hostname() -> (r: &'static str)
    ensures
        r@ == "nas.0d0a.com"@,
{
    "nas.0d0a.com"
}

/// The request written once in every session.
pub fn request_text() -> (r: &'static str)
    ensures
        r@ == "GET /ui/ HTTP/1.0\r\nHost: nas.0d0a.com\r\n\r\n"@,
{
    "GET /ui/ HTTP/1.0\r\nHost: nas.0d0a.com\r\n\r\n"
}

} // verus!
