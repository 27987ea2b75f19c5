//! STUN (RFC 5389) binding requests and responses for NAT traversal.
//!
//! The wire format is handled here on plain bytes; sockets, timers and name
//! resolution are left to the caller, which feeds each attempt's outcome back
//! through [`StunClient::step`].
use vstd::prelude::*;

use crate::bytes::{be16, be32, read_be16, read_be32};

verus! {

/// Message type of a binding request.
pub const STUN_BINDING_REQUEST: u16 = 0x0001;

/// Message type of a successful binding response.
pub const STUN_BINDING_RESPONSE: u16 = 0x0101;

/// Attribute type MAPPED-ADDRESS (legacy).
pub const STUN_ATTR_MAPPED_ADDRESS: u16 = 0x0001;

/// Attribute type XOR-MAPPED-ADDRESS.
pub const STUN_ATTR_XOR_MAPPED_ADDRESS: u16 = 0x0020;

/// Magic cookie of RFC 5389.
pub const STUN_MAGIC_COOKIE: u32 = 0x2112A442;

/// The upper half of the magic cookie, which masks the port of XOR-MAPPED-ADDRESS.
pub const STUN_COOKIE_HIGH: u16 = 0x2112;

/// Size of a STUN message header.
pub const STUN_HEADER_SIZE: usize = 20;

/// Default time to wait for each response, in milliseconds.
pub const STUN_DEFAULT_TIMEOUT_MS: u64 = 3000;

/// Default number of attempts per server.
pub const STUN_DEFAULT_RETRIES: u32 = 3;

/// An IPv4 transport address: the address as a big-endian `u32` and a port.
#[derive(Clone, Copy, Debug, PartialEq, Eq, Structural)]
pub struct StunAddress {
    pub ip: u32,
    pub port: u16,
}

/// Result of a binding request: the server-reflexive address together with the
/// local address the request left from and the server that answered.
#[derive(Clone, Copy, Debug, PartialEq, Eq, Structural)]
pub struct StunResult {
    pub mapped_address: StunAddress,
    pub local_address: StunAddress,
    pub server: StunAddress,
    /// Round-trip time in microseconds.
    pub rtt_us: u64,
}

/// Errors of STUN discovery.
#[derive(Clone, Debug, PartialEq, Eq, Structural)]
pub enum StunError {
    /// The server string did not name a socket address.
    InvalidServer,
    /// A socket operation failed.
    Io,
    /// Receiving the last attempt's answer failed.
    ReceiveFailed,
    /// The last attempt timed out.
    Timeout,
    /// Every attempt was answered, but never by a usable binding response.
    RetriesExhausted,
    /// No server of the list produced a binding.
    AllServersFailed,
    /// NAT detection reached no server at all.
    NoServersReachable,
}

/// NAT type classification.
#[derive(Clone, Copy, Debug, PartialEq, Eq, Structural)]
pub enum NatType {
    /// No NAT - public IP
    NoNat,
    /// Full cone NAT - easiest to traverse
    FullCone,
    /// Restricted cone NAT
    RestrictedCone,
    /// Port restricted cone NAT
    PortRestrictedCone,
    /// Symmetric NAT - hardest to traverse
    Symmetric,
    /// Symmetric NAT with port-only variation
    SymmetricPortOnly,
    /// Could not determine
    Unknown,
}

/// The NAT types that STUN alone can traverse.
pub open spec fn spec_stun_traversable(t: NatType) -> bool {
    t is NoNat || t is FullCone || t is RestrictedCone || t is PortRestrictedCone
}

/// The NAT types that need a TURN relay.
pub open spec fn spec_requires_turn(t: NatType) -> bool {
    t is Symmetric || t is SymmetricPortOnly
}

impl NatType {
    /// Check if this NAT type is traversable with STUN alone
    pub fn stun_traversable(&self) -> (r: bool)
        ensures
            r == spec_stun_traversable(*self),
    {
        match self {
            NatType::NoNat | NatType::FullCone | NatType::RestrictedCone
            | NatType::PortRestrictedCone => true,
            _ => false,
        }
    }

    /// Check if TURN is required
    pub fn requires_turn(&self) -> (r: bool)
        ensures
            r == spec_requires_turn(*self),
    {
        match self {
            NatType::Symmetric | NatType::SymmetricPortOnly => true,
            _ => false,
        }
    }
}

/// What one attempt of a binding request observed.
#[derive(Clone, Debug, PartialEq, Eq, Structural)]
pub enum AttemptOutcome {
    /// A datagram arrived; `from_server` tells whether it came from the server
    /// asked, and `mapped` is what [`parse_binding_response`] made of it.
    Received { from_server: bool, mapped: Option<StunAddress> },
    /// Receiving failed.
    ReceiveFailed,
    /// No datagram arrived in time.
    TimedOut,
}

/// What the client does after an attempt.
#[derive(Clone, Debug, PartialEq, Eq, Structural)]
pub enum StunStep {
    /// The server-reflexive address was found.
    Found(StunAddress),
    /// Discovery with this server has failed.
    Fail(StunError),
    /// Send the request again.
    Retry,
}

/// STUN client for NAT traversal
pub struct StunClient {
    /// Timeout for each request, in milliseconds
    timeout_ms: u64,
    /// Number of attempts
    retries: u32,
}

impl StunClient {
    /// The timeout of each attempt, in milliseconds.
    pub closed spec fn spec_timeout_ms(&self) -> u64 {
        self.timeout_ms
    }

    /// The number of attempts per server.
    pub closed spec fn spec_retries(&self) -> u32 {
        self.retries
    }

    /// Create a new STUN client with default settings
    pub fn new() -> (c: Self)
        ensures
            c.spec_timeout_ms() == STUN_DEFAULT_TIMEOUT_MS,
            c.spec_retries() == STUN_DEFAULT_RETRIES,
    {
        StunClient { timeout_ms: STUN_DEFAULT_TIMEOUT_MS, retries: STUN_DEFAULT_RETRIES }
    }

    /// Create with custom timeout (in milliseconds)
    pub fn with_timeout(timeout_ms: u64) -> (c: Self)
        ensures
            c.spec_timeout_ms() == timeout_ms,
            c.spec_retries() == STUN_DEFAULT_RETRIES,
    {
        StunClient { timeout_ms, retries: STUN_DEFAULT_RETRIES }
    }

    /// Timeout of each attempt, in milliseconds.
    pub fn timeout_ms(&self) -> (r: u64)
        ensures
            r == self.spec_timeout_ms(),
    {
        self.timeout_ms
    }

    /// Number of attempts per server.
    pub fn retries(&self) -> (r: u32)
        ensures
            r == self.spec_retries(),
    {
        self.retries
    }

    /// Decides what follows attempt number `attempt` (counted from 0) given
    /// what it observed: a usable response from the server ends discovery;
    /// anything else asks for another attempt, except on the last attempt,
    /// which ends with the error for what it observed (a failed receive, a
    /// timeout, or retries exhausted by unusable answers).
    pub fn step(&self, attempt: u32, outcome: &AttemptOutcome) -> (s: StunStep)
        requires
            attempt < self.spec_retries(),
        ensures
            s == spec_step(self.spec_retries(), attempt, *outcome),
    {
        let last = attempt == self.retries - 1;
        match outcome {
            AttemptOutcome::Received { from_server, mapped } => {
                match mapped {
                    Some(a) if *from_server => StunStep::Found(*a),
                    _ => if last {
                        StunStep::Fail(StunError::RetriesExhausted)
                    } else {
                        StunStep::Retry
                    },
                }
            },
            AttemptOutcome::ReceiveFailed => {
                if last {
                    StunStep::Fail(StunError::ReceiveFailed)
                } else {
                    StunStep::Retry
                }
            },
            AttemptOutcome::TimedOut => {
                if last {
                    StunStep::Fail(StunError::Timeout)
                } else {
                    StunStep::Retry
                }
            },
        }
    }
}

/// What follows attempt `attempt` out of `retries`.
pub open spec fn spec_step(retries: u32, attempt: u32, outcome: AttemptOutcome) -> StunStep {
    let last = attempt + 1 == retries;
    match outcome {
        AttemptOutcome::Received { from_server, mapped } => if from_server && mapped is Some {
            StunStep::Found(mapped->0)
        } else if last {
            StunStep::Fail(StunError::RetriesExhausted)
        } else {
            StunStep::Retry
        },
        AttemptOutcome::ReceiveFailed => if last {
            StunStep::Fail(StunError::ReceiveFailed)
        } else {
            StunStep::Retry
        },
        AttemptOutcome::TimedOut => if last {
            StunStep::Fail(StunError::Timeout)
        } else {
            StunStep::Retry
        },
    }
}

/// Classifies the NAT from the bindings obtained from up to two servers.
pub open spec fn spec_classify_nat(results: Seq<StunResult>) -> Result<NatType, StunError> {
    if results.len() == 0 {
        Err(StunError::NoServersReachable)
    } else if results.len() == 1 {
        if results[0].mapped_address == results[0].local_address {
            Ok(NatType::NoNat)
        } else {
            Ok(NatType::Unknown)
        }
    } else {
        let a1 = results[0].mapped_address;
        let a2 = results[1].mapped_address;
        if a1.ip == a2.ip && a1.port == a2.port {
            Ok(NatType::FullCone)
        } else if a1.ip == a2.ip {
            Ok(NatType::SymmetricPortOnly)
        } else {
            Ok(NatType::Symmetric)
        }
    }
}

/// Classifies the NAT type by comparing the bindings seen by different servers:
/// one binding equal to the local address means no NAT; the same binding from
/// two servers means a full cone; the same IP with different ports means a
/// port-only symmetric NAT; different IPs mean a symmetric NAT.
pub fn classify_nat(results: &Vec<StunResult>) -> (r: Result<NatType, StunError>)
    ensures
        r == spec_classify_nat(results@),
{
    if results.len() == 0 {
        return Err(StunError::NoServersReachable);
    }
    if results.len() == 1 {
        let result = &results[0];
        if result.mapped_address.ip == result.local_address.ip && result.mapped_address.port
            == result.local_address.port {
            return Ok(NatType::NoNat);
        }
        return Ok(NatType::Unknown);
    }
    let addr1 = results[0].mapped_address;
    let addr2 = results[1].mapped_address;
    if addr1.ip == addr2.ip && addr1.port == addr2.port {
        Ok(NatType::FullCone)
    } else if addr1.ip == addr2.ip {
        Ok(NatType::SymmetricPortOnly)
    } else {
        Ok(NatType::Symmetric)
    }
}

/// The two big-endian bytes of `x`.
pub open spec fn be16_bytes(x: int) -> Seq<u8> {
    seq![(x / 256) as u8, (x % 256) as u8]
}

/// The four big-endian bytes of `x`.
pub open spec fn be32_bytes(x: int) -> Seq<u8> {
    seq![(x / 16777216) as u8, ((x / 65536) % 256) as u8, ((x / 256) % 256) as u8, (x % 256) as u8]
}

/// The bytes of a binding request with the given transaction ID: the message
/// type, a zero length (no attributes), the magic cookie and the ID.
pub open spec fn spec_binding_request(txn: Seq<u8>) -> Seq<u8> {
    be16_bytes(STUN_BINDING_REQUEST as int) + be16_bytes(0) + be32_bytes(STUN_MAGIC_COOKIE as int)
        + txn
}

fn push_be16(v: &mut Vec<u8>, x: u16)
    ensures
        final(v)@ == old(v)@ + be16_bytes(x as int),
{
    v.push((x / 256) as u8);
    v.push((x % 256) as u8);
}

fn push_be32(v: &mut Vec<u8>, x: u32)
    ensures
        final(v)@ == old(v)@ + be32_bytes(x as int),
{
    v.push((x / 16777216) as u8);
    v.push(((x / 65536) % 256) as u8);
    v.push(((x / 256) % 256) as u8);
    v.push((x % 256) as u8);
}

/// Build a STUN binding request
pub fn build_binding_request(transaction_id: &[u8; 12]) -> (r: Vec<u8>)
    ensures
        r@ == spec_binding_request(transaction_id@),
        r@.len() == STUN_HEADER_SIZE,
{
    let mut request: Vec<u8> = Vec::with_capacity(STUN_HEADER_SIZE);
    push_be16(&mut request, STUN_BINDING_REQUEST);
    push_be16(&mut request, 0u16);
    push_be32(&mut request, STUN_MAGIC_COOKIE);
    let mut i: usize = 0;
    while i < 12
        invariant
            0 <= i <= 12,
            request@ == be16_bytes(STUN_BINDING_REQUEST as int) + be16_bytes(0) + be32_bytes(
                STUN_MAGIC_COOKIE as int,
            ) + transaction_id@.subrange(0, i as int),
        decreases 12 - i,
    {
        request.push(transaction_id[i]);
        i = i + 1;
        assert(transaction_id@.subrange(0, i as int) =~= transaction_id@.subrange(0, i - 1).push(
            transaction_id@[i - 1],
        ));
    }
    assert(transaction_id@.subrange(0, 12) =~= transaction_id@);
    request
}

/// The port carried by XOR-MAPPED-ADDRESS bytes.
pub open spec fn spec_xor_port(data: Seq<u8>) -> u16 {
    ((be16(data, 2) as u16) ^ STUN_COOKIE_HIGH) as u16
}

/// What an XOR-MAPPED-ADDRESS attribute value denotes: an IPv4 address with
/// port and address masked by the cookie; IPv6 and other families yield nothing.
pub open spec fn spec_parse_xor_mapped_address(data: Seq<u8>) -> Option<StunAddress> {
    if data.len() < 8 {
        None
    } else if data[1] == 1 {
        Some(
            StunAddress {
                ip: ((be32(data, 4) as u32) ^ STUN_MAGIC_COOKIE) as u32,
                port: spec_xor_port(data),
            },
        )
    } else {
        None
    }
}

/// What a MAPPED-ADDRESS attribute value denotes: an IPv4 address with port.
pub open spec fn spec_parse_mapped_address(data: Seq<u8>) -> Option<StunAddress> {
    if data.len() < 8 {
        None
    } else if data[1] == 1 {
        Some(StunAddress { ip: be32(data, 4) as u32, port: be16(data, 2) as u16 })
    } else {
        None
    }
}

/// Length `n` rounded up to a multiple of four.
pub open spec fn pad4(n: int) -> int {
    (n + 3) / 4 * 4
}

/// Scans the attributes in `data` from `offset` while a full attribute header
/// fits before `end`; the first (XOR-)MAPPED-ADDRESS decides the result, and an
/// attribute that runs past the data ends the scan without a result.
pub open spec fn spec_scan_attributes(data: Seq<u8>, offset: int, end: int) -> Option<StunAddress>
    decreases end - offset,
{
    if offset < 0 || offset + 4 > end {
        None
    } else {
        let attr_type = be16(data, offset);
        let attr_len = be16(data, offset + 2);
        let start = offset + 4;
        if start + attr_len > data.len() {
            None
        } else if attr_type == STUN_ATTR_XOR_MAPPED_ADDRESS as int {
            spec_parse_xor_mapped_address(data.subrange(start, start + attr_len))
        } else if attr_type == STUN_ATTR_MAPPED_ADDRESS as int {
            spec_parse_mapped_address(data.subrange(start, start + attr_len))
        } else {
            let next = start + pad4(attr_len);
            if next + 4 > end {
                None
            } else {
                proof {
                    assert(pad4(attr_len) >= 0) by (nonlinear_arith)
                        requires
                            attr_len >= 0,
                    ;
                }
                spec_scan_attributes(data, next, end)
            }
        }
    }
}

/// The mapped address a binding response carries for the given transaction:
/// none unless the data holds a full header of type binding response with the
/// magic cookie, the expected transaction ID and a length that fits.
pub open spec fn spec_parse_binding_response(data: Seq<u8>, txn: Seq<u8>) -> Option<StunAddress> {
    if data.len() < STUN_HEADER_SIZE {
        None
    } else if be16(data, 0) != STUN_BINDING_RESPONSE as int {
        None
    } else if be32(data, 4) != STUN_MAGIC_COOKIE as int {
        None
    } else if data.subrange(8, 20) != txn {
        None
    } else if data.len() < STUN_HEADER_SIZE + be16(data, 2) {
        None
    } else {
        spec_scan_attributes(data, STUN_HEADER_SIZE as int, STUN_HEADER_SIZE + be16(data, 2))
    }
}

/// Parse XOR-MAPPED-ADDRESS attribute
pub fn parse_xor_mapped_address(data: &[u8]) -> (r: Option<StunAddress>)
    ensures
        r == spec_parse_xor_mapped_address(data@),
{
    if data.len() < 8 {
        return None;
    }
    let family = data[1];
    let xor_port = read_be16(data, 2);
    let port = xor_port ^ STUN_COOKIE_HIGH;
    if family == 1 {
        let xor_addr = read_be32(data, 4);
        Some(StunAddress { ip: xor_addr ^ STUN_MAGIC_COOKIE, port })
    } else {
        None
    }
}

/// Parse MAPPED-ADDRESS attribute (legacy)
pub fn parse_mapped_address(data: &[u8]) -> (r: Option<StunAddress>)
    ensures
        r == spec_parse_mapped_address(data@),
{
    if data.len() < 8 {
        return None;
    }
    let family = data[1];
    let port = read_be16(data, 2);
    if family == 1 {
        Some(StunAddress { ip: read_be32(data, 4), port })
    } else {
        None
    }
}

/// Parse a STUN binding response and extract the mapped address
pub fn parse_binding_response(data: &[u8], expected_txn_id: &[u8; 12]) -> (r: Option<
    StunAddress,
>)
    ensures
        r == spec_parse_binding_response(data@, expected_txn_id@),
{
    if data.len() < STUN_HEADER_SIZE {
        return None;
    }
    let msg_type = read_be16(data, 0);
    if msg_type != STUN_BINDING_RESPONSE {
        return None;
    }
    let cookie = read_be32(data, 4);
    if cookie != STUN_MAGIC_COOKIE {
        return None;
    }
    let mut k: usize = 0;
    while k < 12
        invariant
            0 <= k <= 12,
            data@.len() >= 20,
            forall|j: int| 0 <= j < k ==> data@[8 + j] == expected_txn_id@[j],
        decreases 12 - k,
    {
        if data[8 + k] != expected_txn_id[k] {
            assert(data@.subrange(8, 20)[k as int] != expected_txn_id@[k as int]);
            return None;
        }
        k = k + 1;
    }
    assert(data@.subrange(8, 20) =~= expected_txn_id@);
    let msg_len = read_be16(data, 2) as usize;
    if data.len() < STUN_HEADER_SIZE + msg_len {
        return None;
    }
    let end = STUN_HEADER_SIZE + msg_len;
    let mut offset = STUN_HEADER_SIZE;
    while offset + 4 <= end
        invariant
            STUN_HEADER_SIZE <= offset <= 140000,
            end <= data@.len(),
            end <= 65555,
            end == STUN_HEADER_SIZE + be16(data@, 2),
            spec_parse_binding_response(data@, expected_txn_id@) == spec_scan_attributes(
                data@,
                offset as int,
                end as int,
            ),
        decreases 140000 - offset,
    {
        let attr_type = read_be16(data, offset);
        let attr_len = read_be16(data, offset + 2) as usize;
        assert(attr_len <= 65535);
        let start = offset + 4;
        if start + attr_len > data.len() {
            return None;
        }
        if attr_type == STUN_ATTR_XOR_MAPPED_ADDRESS {
            return parse_xor_mapped_address(&data[start..start + attr_len]);
        }
        if attr_type == STUN_ATTR_MAPPED_ADDRESS {
            return parse_mapped_address(&data[start..start + attr_len]);
        }
        let padded = (attr_len + 3) / 4 * 4;
        assert(padded == pad4(attr_len as int) && attr_len <= padded <= attr_len + 3) by (nonlinear_arith)
            requires
                padded == (attr_len + 3) / 4 * 4,
                0 <= attr_len <= 65535,
        ;
        offset = start + padded;
    }
    None
}

/// One random byte from the thread-local generator of `rand`.
///
/// Calls `rand::random::<u8>()`. Nothing is claimed of the byte: it rests on
/// chance.
#[verifier::external_body]
fn random_byte() -> (b: u8) {
    rand::random::<u8>()
}

/// Generate a random 12-byte transaction ID. Each byte is drawn independently;
/// nothing about the values is promised.
pub fn generate_transaction_id() -> (id: [u8; 12])
    ensures
        id@.len() == 12,
{
    let mut id = [0u8; 12];
    let mut i: usize = 0;
    while i < 12
        invariant
            0 <= i <= 12,
            id@.len() == 12,
        decreases 12 - i,
    {
        let b = random_byte();
        id.set(i, b);
        i = i + 1;
    }
    id
}

} // verus!
