//! STUN (RFC 5389) binding requests and responses, the bytes with which a
//! peer learns its public address.

use vstd::prelude::*;

verus! {

/// Discovers this device's public address through public STUN servers.
pub struct StunClient;

impl StunClient {
    pub fn new() -> (c: StunClient)
        ensures
            c == StunClient,
    {
        StunClient
    }
}

impl Default for StunClient {
    fn default() -> (c: StunClient)
        ensures
            c == StunClient,
    {
        StunClient::new()
    }
}

/// How many public STUN servers discovery asks.
pub const STUN_SERVER_COUNT: usize = 3;

/// The STUN servers, in the order they are asked.
pub open spec fn stun_server_spec(i: int) -> Seq<char> {
    if i == 0 {
        "stun.l.google.com:19302"@
    } else if i == 1 {
        "stun1.l.google.com:19302"@
    } else {
        "stun.cloudflare.com:3478"@
    }
}

/// STUN server number `i`.
pub fn stun_server(i: usize) -> (s: &'static str)
    requires
        i < STUN_SERVER_COUNT,
    ensures
        s@ == stun_server_spec(i as int),
{
    if i == 0 {
        "stun.l.google.com:19302"
    } else if i == 1 {
        "stun1.l.google.com:19302"
    } else {
        "stun.cloudflare.com:3478"
    }
}

/// What discovery does after asking server number `i`.
#[derive(Clone, Copy, Debug, PartialEq, Eq, Structural)]
pub enum DiscoveryStep {
    /// The server answered: use its address.
    UseAddress,
    /// Ask the next server.
    TryServer(usize),
    /// Every server failed: go through the relay.
    GiveUp,
}

/// Discovery asks the servers in order and stops at the first that answers.
pub fn after_query(i: usize, answered: bool) -> (d: DiscoveryStep)
    requires
        i < STUN_SERVER_COUNT,
    ensures
        answered ==> d == DiscoveryStep::UseAddress,
        !answered && i + 1 < STUN_SERVER_COUNT ==> d == DiscoveryStep::TryServer((i + 1) as usize),
        !answered && i + 1 == STUN_SERVER_COUNT ==> d == DiscoveryStep::GiveUp,
{
    if answered {
        DiscoveryStep::UseAddress
    } else if i + 1 < STUN_SERVER_COUNT {
        DiscoveryStep::TryServer(i + 1)
    } else {
        DiscoveryStep::GiveUp
    }
}

/// An IPv4 address and port as a STUN server reports them.
#[derive(Clone, Copy, Debug, PartialEq, Eq)]
pub struct MappedAddress {
    pub ip: [u8; 4],
    pub port: u16,
}

/// Why a response was not accepted.
#[derive(Clone, Copy, Debug, PartialEq, Eq, Structural)]
pub enum StunError {
    /// Fewer than the 20 bytes of a STUN header.
    TooShort,
    /// Not a Binding Response (message type 0x0101).
    NotBindingResponse,
    /// No (XOR-)MAPPED-ADDRESS attribute could be read.
    NoMappedAddress,
}

/// The first eight bytes of a Binding Request: message type 0x0001, length
/// zero, and the magic cookie 0x2112A442.
pub open spec fn request_header() -> Seq<u8> {
    seq![0x00u8, 0x01u8, 0x00u8, 0x00u8, 0x21u8, 0x12u8, 0xA4u8, 0x42u8]
}

/// A 20-byte Binding Request carrying `transaction_id`.
pub fn binding_request(transaction_id: [u8; 12]) -> (req: [u8; 20])
    ensures
        req@ == request_header() + transaction_id@,
{
    let t = transaction_id;
    let req: [u8; 20] = [
        0x00, 0x01, 0x00, 0x00, 0x21, 0x12, 0xA4, 0x42,
        t[0], t[1], t[2], t[3], t[4], t[5], t[6], t[7], t[8], t[9], t[10], t[11],
    ];
    assert(req@ =~= request_header() + transaction_id@);
    req
}

/// Twelve random bytes from `rand::random::<[u8; 12]>()`; nothing is claimed
/// of their values.
#[verifier::external_body]
fn random_transaction_id() -> (id: [u8; 12]) {
    rand::random::<[u8; 12]>()
}

/// A Binding Request with a fresh random transaction id.
pub fn new_binding_request() -> (req: [u8; 20])
    ensures
        req@.take(8) == request_header(),
        req@.len() == 20,
{
    let req = binding_request(random_transaction_id());
    assert(req@.take(8) =~= request_header());
    req
}

pub open spec fn be16(hi: u8, lo: u8) -> int {
    hi * 256 + lo
}

pub open spec fn round_up4(n: int) -> int {
    n + 3 - (n + 3) % 4
}

/// What scanning the attributes from `offset` finds.
#[derive(Debug)]
pub enum ScanResult {
    Found(MappedAddress),
    Missing,
    /// The scan reads a byte past the end of the datagram.
    Overrun,
}

/// What an unfinished scan falls back to: the MAPPED-ADDRESS seen so far,
/// if any.
pub open spec fn fallback(mapped: Option<MappedAddress>) -> ScanResult {
    match mapped {
        Some(a) => ScanResult::Found(a),
        None => ScanResult::Missing,
    }
}

/// Scans the attributes of a response from byte `offset`, as long as an
/// attribute header fits before `msg_end` (20 plus the header's length).
/// XOR-MAPPED-ADDRESS is preferred: the first one found is the answer.
/// MAPPED-ADDRESS is the fallback: the first one found (`mapped`) is the
/// answer when the scan ends without an XOR-MAPPED-ADDRESS. The scan
/// overruns when it would read past the end of the datagram before any
/// address was found.
pub open spec fn scan(data: Seq<u8>, magic: Seq<u8>, msg_end: int, offset: int, mapped: Option<MappedAddress>) -> ScanResult
    decreases data.len() + 4 - offset,
{
    if offset + 4 > msg_end {
        fallback(mapped)
    } else if offset + 4 > data.len() {
        if mapped is Some { fallback(mapped) } else { ScanResult::Overrun }
    } else {
        let attr_type = be16(data[offset], data[offset + 1]);
        let attr_len = be16(data[offset + 2], data[offset + 3]);
        let v = offset + 4;
        if v + attr_len > data.len() {
            fallback(mapped)
        } else if attr_type == 0x0020 && attr_len >= 8 {
            if magic.len() < 4 {
                if mapped is Some { fallback(mapped) } else { ScanResult::Overrun }
            } else {
                ScanResult::Found(MappedAddress {
                    ip: [data[v + 4] ^ magic[0], data[v + 5] ^ magic[1], data[v + 6] ^ magic[2], data[v + 7] ^ magic[3]],
                    port: (be16(data[v + 2], data[v + 3]) as u16) ^ 0x2112u16,
                })
            }
        } else if attr_type == 0x0001 && attr_len >= 8 && mapped is None {
            scan(data, magic, msg_end, v + round_up4(attr_len), Some(MappedAddress {
                ip: [data[v + 4], data[v + 5], data[v + 6], data[v + 7]],
                port: be16(data[v + 2], data[v + 3]) as u16,
            }))
        } else {
            scan(data, magic, msg_end, v + round_up4(attr_len), mapped)
        }
    }
}

/// The answer to response `data` to a request whose cookie bytes are `magic`.
pub open spec fn parse_spec(data: Seq<u8>, magic: Seq<u8>) -> ScanResultOrError {
    if data.len() < 20 {
        ScanResultOrError::Error(StunError::TooShort)
    } else if data[0] != 0x01 || data[1] != 0x01 {
        ScanResultOrError::Error(StunError::NotBindingResponse)
    } else {
        match scan(data, magic, 20 + be16(data[2], data[3]), 20, None) {
            ScanResult::Found(a) => ScanResultOrError::Address(a),
            ScanResult::Missing => ScanResultOrError::Error(StunError::NoMappedAddress),
            ScanResult::Overrun => ScanResultOrError::Overrun,
        }
    }
}

/// The reading of a whole response.
#[derive(Debug)]
pub enum ScanResultOrError {
    Address(MappedAddress),
    Error(StunError),
    Overrun,
}

proof fn lemma_round_up4(n: usize)
    requires
        n <= 0xffff,
    ensures
        (((n + 3) as usize) & !3usize) as int == round_up4(n as int),
        round_up4(n as int) >= n,
        round_up4(n as int) <= n + 3,
{
    assert((((n + 3) as usize) & !3usize) == (n + 3) - (n + 3) % 4) by (bit_vector)
        requires
            n <= 0xffff,
    ;
}

impl StunClient {
    /// Reads a response in full: the mapped address, the error, or the
    /// finding that the attribute scan would read past the end of `data`
    /// (where a caller that indexes the datagram without checking would
    /// fail).
    pub fn check_response(&self, data: &[u8], magic: &[u8]) -> (r: ScanResultOrError)
        ensures
            r == parse_spec(data@, magic@),
    {
        if data.len() < 20 {
            return ScanResultOrError::Error(StunError::TooShort);
        }
        if data[0] != 0x01 || data[1] != 0x01 {
            return ScanResultOrError::Error(StunError::NotBindingResponse);
        }
        let msg_len: usize = (data[2] as usize) * 256 + (data[3] as usize);
        let msg_end: usize = 20 + msg_len;
        let mut offset: usize = 20;
        let mut mapped: Option<MappedAddress> = None;
        while offset <= msg_end && msg_end - offset >= 4
            invariant
                data@.len() >= 20,
                msg_end == 20 + be16(data@[2], data@[3]),
                msg_end <= 20 + 0xffff,
                20 <= offset,
                offset <= data@.len() + 3,
                parse_spec(data@, magic@) == match scan(data@, magic@, msg_end as int, offset as int, mapped) {
                    ScanResult::Found(a) => ScanResultOrError::Address(a),
                    ScanResult::Missing => ScanResultOrError::Error(StunError::NoMappedAddress),
                    ScanResult::Overrun => ScanResultOrError::Overrun,
                },
            decreases data@.len() + 8 - offset,
        {
            if offset + 4 > data.len() {
                return match mapped {
                    Some(a) => ScanResultOrError::Address(a),
                    None => ScanResultOrError::Overrun,
                };
            }
            let attr_type: usize = (data[offset] as usize) * 256 + (data[offset + 1] as usize);
            let attr_len: usize = (data[offset + 2] as usize) * 256 + (data[offset + 3] as usize);
            offset = offset + 4;
            if attr_len > data.len() - offset {
                return match mapped {
                    Some(a) => ScanResultOrError::Address(a),
                    None => ScanResultOrError::Error(StunError::NoMappedAddress),
                };
            }
            if attr_type == 0x0020 && attr_len >= 8 {
                if magic.len() < 4 {
                    return match mapped {
                        Some(a) => ScanResultOrError::Address(a),
                        None => ScanResultOrError::Overrun,
                    };
                }
                let hi: u16 = data[offset + 2] as u16;
                let lo: u16 = data[offset + 3] as u16;
                let xport: u16 = (hi * 256 + lo) ^ 0x2112;
                let ip: [u8; 4] = [
                    data[offset + 4] ^ magic[0],
                    data[offset + 5] ^ magic[1],
                    data[offset + 6] ^ magic[2],
                    data[offset + 7] ^ magic[3],
                ];
                return ScanResultOrError::Address(MappedAddress { ip, port: xport });
            }
            if attr_type == 0x0001 && attr_len >= 8 && mapped.is_none() {
                let hi: u16 = data[offset + 2] as u16;
                let lo: u16 = data[offset + 3] as u16;
                let port: u16 = hi * 256 + lo;
                let ip: [u8; 4] = [data[offset + 4], data[offset + 5], data[offset + 6], data[offset + 7]];
                mapped = Some(MappedAddress { ip, port });
            }
            proof {
                lemma_round_up4(attr_len);
            }
            offset = offset + ((attr_len + 3) & !3usize);
        }
        match mapped {
            Some(a) => ScanResultOrError::Address(a),
            None => ScanResultOrError::Error(StunError::NoMappedAddress),
        }
    }

    /// Reads the mapped address from a Binding Response, preferring
    /// XOR-MAPPED-ADDRESS and falling back to MAPPED-ADDRESS; `magic` holds
    /// the magic cookie bytes of the request, with which XOR-MAPPED-ADDRESS
    /// is unmasked. Inputs on which the scan would read past the end of `data`
    /// are outside the contract (`check_response` tells them apart).
    pub fn parse_response(&self, data: &[u8], magic: &[u8]) -> (r: Result<MappedAddress, StunError>)
        requires
            !(parse_spec(data@, magic@) is Overrun),
        ensures
            match parse_spec(data@, magic@) {
                ScanResultOrError::Address(a) => r == Ok::<MappedAddress, StunError>(a),
                ScanResultOrError::Error(e) => r == Err::<MappedAddress, StunError>(e),
                ScanResultOrError::Overrun => false,
            },
    {
        match self.check_response(data, magic) {
            ScanResultOrError::Address(a) => Ok(a),
            ScanResultOrError::Error(e) => Err(e),
            ScanResultOrError::Overrun => {
                assert(false);
                Err(StunError::NoMappedAddress)
            },
        }
    }
}

} // verus!
