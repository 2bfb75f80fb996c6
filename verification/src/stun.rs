//! STUN (RFC 5389) Binding requests and the reading of the public endpoint
//! out of a Binding Success Response, plus the order in which STUN servers
//! are tried.
use vstd::prelude::*;
use crate::text::{decimal, decimal_string};

verus! {

/// An IPv4 address `a.b.c.d` with a port.
#[derive(Clone, Copy, Debug, PartialEq, Eq)]
pub struct Ipv4Endpoint {
    pub a: u8,
    pub b: u8,
    pub c: u8,
    pub d: u8,
    pub port: u16,
}

/// The fixed part of a Binding Request: message type 0x0001, body length 0
/// and the magic cookie 0x2112A442.
pub open spec fn binding_request_header() -> Seq<u8> {
    seq![0x00u8, 0x01u8, 0x00u8, 0x00u8, 0x21u8, 0x12u8, 0xA4u8, 0x42u8]
}

/// A Binding Request carrying the given 12-byte transaction id.
pub open spec fn binding_request(txid: Seq<u8>) -> Seq<u8> {
    binding_request_header() + txid
}

/// Big-endian 16-bit value at `i`.
pub open spec fn be16(b: Seq<u8>, i: int) -> int {
    b[i] as int * 256 + b[i + 1] as int
}

/// The attributes of a STUN message from offset `i` on: each is a 16-bit
/// type, a 16-bit value length and that many value bytes. Reading stops where
/// a header or a value would run past the end of the message.
pub open spec fn stun_attributes(msg: Seq<u8>, i: int) -> Seq<(int, Seq<u8>)>
    decreases msg.len() - i,
{
    if i < 0 || i + 4 > msg.len() {
        seq![]
    } else if i + 4 + be16(msg, i + 2) > msg.len() {
        seq![]
    } else {
        seq![(be16(msg, i), msg.subrange(i + 4, i + 4 + be16(msg, i + 2)))] + stun_attributes(
            msg,
            i + 4 + be16(msg, i + 2),
        )
    }
}

/// The endpoint carried by an attribute, if it is an IPv4 XOR-MAPPED-ADDRESS
/// (type 0x0020, port and address XORed with the magic cookie) or an IPv4
/// MAPPED-ADDRESS (type 0x0001, in the clear).
pub open spec fn mapped_endpoint(attr_type: int, value: Seq<u8>) -> Option<Ipv4Endpoint> {
    if value.len() == 8 && value[1] == 1 {
        let port = (value[2] as int * 256 + value[3] as int) as u16;
        if attr_type == 0x0020 {
            Some(
                Ipv4Endpoint {
                    a: value[4] ^ 0x21u8,
                    b: value[5] ^ 0x12u8,
                    c: value[6] ^ 0xA4u8,
                    d: value[7] ^ 0x42u8,
                    port: port ^ 0x2112u16,
                },
            )
        } else if attr_type == 0x0001 {
            Some(Ipv4Endpoint { a: value[4], b: value[5], c: value[6], d: value[7], port })
        } else {
            None
        }
    } else {
        None
    }
}

/// The endpoint of the first attribute in the list that carries one.
pub open spec fn first_mapped(attrs: Seq<(int, Seq<u8>)>) -> Option<Ipv4Endpoint>
    decreases attrs.len(),
{
    if attrs.len() == 0 {
        None
    } else {
        match mapped_endpoint(attrs[0].0, attrs[0].1) {
            Some(e) => Some(e),
            None => first_mapped(attrs.drop_first()),
        }
    }
}

/// The public endpoint that a Binding Success Response (message type 0x0101,
/// at least the 20-byte header) reports; `None` for any other message.
pub open spec fn reported_endpoint(msg: Seq<u8>) -> Option<Ipv4Endpoint> {
    if msg.len() >= 20 && msg[0] == 0x01 && msg[1] == 0x01 {
        first_mapped(stun_attributes(msg, 20))
    } else {
        None
    }
}

/// Builds a Binding Request with the given transaction id.
pub fn binding_request_with_id(txid: &[u8]) -> (req: Vec<u8>)
    requires
        txid.len() == 12,
    ensures
        req@ == binding_request(txid@),
{
    let mut req: Vec<u8> = Vec::new();
    req.push(0x00);
    req.push(0x01);
    req.push(0x00);
    req.push(0x00);
    req.push(0x21);
    req.push(0x12);
    req.push(0xA4);
    req.push(0x42);
    let mut k: usize = 0;
    while k < txid.len()
        invariant
            k <= txid.len(),
            req@ == binding_request_header() + txid@.subrange(0, k as int),
        decreases txid.len() - k,
    {
        req.push(txid[k]);
        k += 1;
        assert(req@ =~= binding_request_header() + txid@.subrange(0, k as int));
    }
    assert(txid@.subrange(0, 12) =~= txid@);
    req
}

/// Wraps `rand::thread_rng().fill` on a 12-byte buffer: a fresh random
/// transaction id. Nothing is promised of the bytes but their number.
#[verifier::external_body]
fn random_transaction_id() -> (id: Vec<u8>)
    ensures
        id@.len() == 12,
{
    let mut id = [0u8; 12];
    rand::Rng::fill(&mut rand::thread_rng(), &mut id[..]);
    id.to_vec()
}

/// A Binding Request with a random transaction id.
pub fn new_binding_request() -> (req: Vec<u8>)
    ensures
        req@.len() == 20,
        req@.subrange(0, 8) == binding_request_header(),
        req@ == binding_request(req@.subrange(8, 20)),
{
    let txid = random_transaction_id();
    let req = binding_request_with_id(txid.as_slice());
    assert(req@.subrange(0, 8) =~= binding_request_header());
    assert(req@.subrange(8, 20) =~= txid@);
    req
}

/// Reads the public endpoint out of a STUN reply: the first IPv4
/// XOR-MAPPED-ADDRESS or MAPPED-ADDRESS attribute of a Binding Success
/// Response.
pub fn parse_binding_response(msg: &[u8]) -> (r: Option<Ipv4Endpoint>)
    ensures
        r == reported_endpoint(msg@),
{
    let size = msg.len();
    if size < 20 || msg[0] != 0x01 || msg[1] != 0x01 {
        return None;
    }
    let mut i: usize = 20;
    while i <= size && size - i >= 4
        invariant
            20 <= i,
            size == msg@.len(),
            size >= 20 && msg@[0] == 0x01 && msg@[1] == 0x01,
            first_mapped(stun_attributes(msg@, i as int)) == reported_endpoint(msg@),
        decreases size - i,
    {
        let attr_type: u16 = (msg[i] as u16) * 256 + msg[i + 1] as u16;
        let attr_len: usize = (msg[i + 2] as usize) * 256 + msg[i + 3] as usize;
        assert(attr_type as int == be16(msg@, i as int));
        assert(attr_len as int == be16(msg@, i + 2));
        if attr_len > size - i - 4 {
            return None;
        }
        let ghost value = msg@.subrange(i + 4, i + 4 + attr_len);
        let ghost rest = stun_attributes(msg@, i + 4 + attr_len);
        assert(stun_attributes(msg@, i as int) == seq![(attr_type as int, value)] + rest);
        assert((seq![(attr_type as int, value)] + rest).drop_first() =~= rest);
        if attr_len == 8 && msg[i + 5] == 0x01 && (attr_type == 0x0020 || attr_type == 0x0001) {
            let port: u16 = (msg[i + 6] as u16) * 256 + msg[i + 7] as u16;
            let e = if attr_type == 0x0020 {
                Ipv4Endpoint {
                    a: msg[i + 8] ^ 0x21,
                    b: msg[i + 9] ^ 0x12,
                    c: msg[i + 10] ^ 0xA4,
                    d: msg[i + 11] ^ 0x42,
                    port: port ^ 0x2112,
                }
            } else {
                Ipv4Endpoint { a: msg[i + 8], b: msg[i + 9], c: msg[i + 10], d: msg[i + 11], port }
            };
            assert(mapped_endpoint(attr_type as int, value) == Some(e));
            return Some(e);
        }
        assert(mapped_endpoint(attr_type as int, value) is None);
        i = i + 4 + attr_len;
    }
    None
}

} // verus!

verus! {

/// `a.b.c.d:port`, the way a `SocketAddr` of IPv4 prints.
pub open spec fn endpoint_text(e: Ipv4Endpoint) -> Seq<char> {
    decimal(e.a as nat) + seq!['.'] + decimal(e.b as nat) + seq!['.'] + decimal(e.c as nat)
        + seq!['.'] + decimal(e.d as nat) + seq![':'] + decimal(e.port as nat)
}

/// Renders an endpoint as `a.b.c.d:port`.
pub fn endpoint_string(e: &Ipv4Endpoint) -> (s: String)
    ensures
        s@ == endpoint_text(*e),
{
    let dot = ".";
    let colon = ":";
    proof {
        reveal_strlit(".");
        reveal_strlit(":");
    }
    assert(dot@ =~= seq!['.']);
    assert(colon@ =~= seq![':']);
    let mut s = decimal_string(e.a as u128);
    s.append(dot);
    let part = decimal_string(e.b as u128);
    s.append(part.as_str());
    s.append(dot);
    let part = decimal_string(e.c as u128);
    s.append(part.as_str());
    s.append(dot);
    let part = decimal_string(e.d as u128);
    s.append(part.as_str());
    s.append(colon);
    let part = decimal_string(e.port as u128);
    s.append(part.as_str());
    s
}

/// Number of STUN servers that are asked, in order, for the public endpoint.
pub const STUN_SERVER_COUNT: usize = 3;

/// The STUN servers, in the order they are asked.
pub open spec fn stun_server_names() -> Seq<Seq<char>> {
    seq![
        "stun.l.google.com:19302"@,
        "stun1.l.google.com:19302"@,
        "stun.miwifi.com:3478"@,
    ]
}

/// The `i`-th STUN server (`host:port`).
pub fn stun_server(i: usize) -> (name: &'static str)
    requires
        i < STUN_SERVER_COUNT,
    ensures
        name@ == stun_server_names()[i as int],
{
    if i == 0 {
        "stun.l.google.com:19302"
    } else if i == 1 {
        "stun1.l.google.com:19302"
    } else {
        "stun.miwifi.com:3478"
    }
}

/// What to do next while looking for the public endpoint.
#[derive(Clone, Copy, Debug, PartialEq, Eq)]
pub enum ProbeStep {
    /// Send a Binding Request to the server with this index.
    Ask(usize),
    /// A server reported this endpoint; stop.
    Found(Ipv4Endpoint),
    /// Every server was asked and none reported an endpoint.
    Exhausted,
}

/// The step that follows asking server `server`, given its reply (`None`
/// when sending failed, or no reply came in time).
pub open spec fn probe_after(server: int, reply: Option<Seq<u8>>) -> ProbeStep {
    match reply {
        Some(msg) if reported_endpoint(msg) is Some => ProbeStep::Found(
            reported_endpoint(msg)->0,
        ),
        _ => if server + 1 < STUN_SERVER_COUNT {
            ProbeStep::Ask((server + 1) as usize)
        } else {
            ProbeStep::Exhausted
        },
    }
}

/// The first step of the search: ask the first server.
pub fn first_probe_step() -> (step: ProbeStep)
    ensures
        step == ProbeStep::Ask(0),
{
    ProbeStep::Ask(0)
}

/// Decides what follows the exchange with server `server`.
pub fn next_probe_step(server: usize, reply: Option<&[u8]>) -> (step: ProbeStep)
    requires
        server < STUN_SERVER_COUNT,
    ensures
        step == probe_after(
            server as int,
            match reply {
                Some(m) => Some(m@),
                None => None,
            },
        ),
        reply matches Some(m) ==> (reported_endpoint(m@) is Some ==> step == ProbeStep::Found(
            reported_endpoint(m@)->0,
        )),
        (reply is None || reported_endpoint(reply->0@) is None) ==> (if server + 1
            < STUN_SERVER_COUNT {
            step == ProbeStep::Ask((server + 1) as usize)
        } else {
            step == ProbeStep::Exhausted
        }),
{
    if let Some(msg) = reply {
        if let Some(e) = parse_binding_response(msg) {
            return ProbeStep::Found(e);
        }
    }
    if server + 1 < STUN_SERVER_COUNT {
        ProbeStep::Ask(server + 1)
    } else {
        ProbeStep::Exhausted
    }
}

} // verus!

verus! {

/// A Binding Success Response with the given transaction id whose body is one
/// attribute of type `attr_type` carrying the 8-byte `value`.
pub open spec fn binding_success_response(txid: Seq<u8>, attr_type: u16, value: Seq<u8>) -> Seq<u8> {
    seq![0x01u8, 0x01u8, 0x00u8, 12u8, 0x21u8, 0x12u8, 0xA4u8, 0x42u8] + txid + seq![
        (attr_type / 256) as u8,
        (attr_type % 256) as u8,
        0x00u8,
        0x08u8,
    ] + value
}

/// The value of an IPv4 MAPPED-ADDRESS attribute for `e`.
pub open spec fn mapped_address_value(e: Ipv4Endpoint) -> Seq<u8> {
    seq![0x00u8, 0x01u8, (e.port / 256) as u8, (e.port % 256) as u8, e.a, e.b, e.c, e.d]
}

/// The value of an IPv4 XOR-MAPPED-ADDRESS attribute for `e`: port and
/// address XORed with the magic cookie.
pub open spec fn xor_mapped_address_value(e: Ipv4Endpoint) -> Seq<u8> {
    let p = e.port ^ 0x2112u16;
    seq![
        0x00u8,
        0x01u8,
        (p / 256) as u8,
        (p % 256) as u8,
        e.a ^ 0x21u8,
        e.b ^ 0x12u8,
        e.c ^ 0xA4u8,
        e.d ^ 0x42u8,
    ]
}

proof fn lemma_single_attribute(txid: Seq<u8>, attr_type: u16, value: Seq<u8>)
    requires
        txid.len() == 12,
        value.len() == 8,
    ensures
        reported_endpoint(binding_success_response(txid, attr_type, value)) == mapped_endpoint(
            attr_type as int,
            value,
        ),
{
    let msg = binding_success_response(txid, attr_type, value);
    assert(msg.len() == 32);
    assert(msg[20] == (attr_type / 256) as u8 && msg[21] == (attr_type % 256) as u8);
    assert(be16(msg, 20) == attr_type as int);
    assert(be16(msg, 22) == 8);
    assert(msg.subrange(24, 32) =~= value);
    assert(stun_attributes(msg, 32) =~= Seq::<(int, Seq<u8>)>::empty());
    let attrs = stun_attributes(msg, 20);
    assert(attrs =~= seq![(attr_type as int, value)]);
    assert(attrs.drop_first() =~= Seq::<(int, Seq<u8>)>::empty());
    assert(msg[0] == 0x01u8 && msg[1] == 0x01u8);
    assert(first_mapped(attrs.drop_first()) is None);
    assert(attrs[0] == (attr_type as int, value));
}

/// A Binding Request is never taken for a response: reading a request as a
/// reply reports no endpoint.
pub proof fn request_reports_no_endpoint(txid: Seq<u8>)
    ensures
        reported_endpoint(binding_request(txid)) is None,
{
    assert(binding_request(txid)[0] == 0x00u8);
}

/// The reader recovers the endpoint that a server reports, whether the
/// server sends it as an XOR-MAPPED-ADDRESS or as a MAPPED-ADDRESS.
pub proof fn reported_endpoint_roundtrip(txid: Seq<u8>, e: Ipv4Endpoint)
    requires
        txid.len() == 12,
    ensures
        reported_endpoint(binding_success_response(txid, 0x0020, xor_mapped_address_value(e)))
            == Some(e),
        reported_endpoint(binding_success_response(txid, 0x0001, mapped_address_value(e)))
            == Some(e),
{
    lemma_single_attribute(txid, 0x0020, xor_mapped_address_value(e));
    lemma_single_attribute(txid, 0x0001, mapped_address_value(e));
    let a = e.a;
    let b = e.b;
    let c = e.c;
    let d = e.d;
    let port = e.port;
    assert((a ^ 0x21u8) ^ 0x21u8 == a) by (bit_vector);
    assert((b ^ 0x12u8) ^ 0x12u8 == b) by (bit_vector);
    assert((c ^ 0xA4u8) ^ 0xA4u8 == c) by (bit_vector);
    assert((d ^ 0x42u8) ^ 0x42u8 == d) by (bit_vector);
    assert((port ^ 0x2112u16) ^ 0x2112u16 == port) by (bit_vector);
    let p = port ^ 0x2112u16;
    assert(((p / 256) as u8) as int * 256 + ((p % 256) as u8) as int == p as int);
    assert(((port / 256) as u8) as int * 256 + ((port % 256) as u8) as int == port as int);
}

} // verus!

verus! {

/// The search stops at the first server whose reply reports an endpoint,
/// whichever server that is, and returns that endpoint. A server that gives
/// no endpoint passes the search on to the next server, and after the last
/// one the search ends empty-handed.
pub proof fn probe_stops_at_first_endpoint(server: int, reply: Option<Seq<u8>>)
    requires
        0 <= server < STUN_SERVER_COUNT,
    ensures
        reply matches Some(m) ==> (reported_endpoint(m) is Some ==> probe_after(server, reply)
            == ProbeStep::Found(reported_endpoint(m)->0)),
        (reply is None || reported_endpoint(reply->0) is None) ==> (probe_after(server, reply)
            == if server + 1 < STUN_SERVER_COUNT {
            ProbeStep::Ask((server + 1) as usize)
        } else {
            ProbeStep::Exhausted
        }),
        probe_after(server, reply) matches ProbeStep::Ask(next) ==> next == server + 1,
{
}

} // verus!

verus! {

/// A Binding Request is 20 bytes: type 0x0001, body length 0, the magic
/// cookie 0x2112A442, then the transaction id.
pub proof fn binding_request_says(txid: Seq<u8>)
    requires
        txid.len() == 12,
    ensures
        binding_request(txid).len() == 20,
        binding_request(txid)[0] == 0x00 && binding_request(txid)[1] == 0x01,
        binding_request(txid)[2] == 0x00 && binding_request(txid)[3] == 0x00,
        binding_request(txid).subrange(4, 8) == seq![0x21u8, 0x12u8, 0xA4u8, 0x42u8],
        binding_request(txid).subrange(8, 20) == txid,
{
    assert(binding_request(txid).subrange(4, 8) =~= seq![0x21u8, 0x12u8, 0xA4u8, 0x42u8]);
    assert(binding_request(txid).subrange(8, 20) =~= txid);
}

/// The STUN servers asked, in order: Google's two, then Xiaomi's.
pub proof fn stun_servers_say()
    ensures
        stun_server_names() == seq![
            "stun.l.google.com:19302"@,
            "stun1.l.google.com:19302"@,
            "stun.miwifi.com:3478"@,
        ],
        stun_server_names().len() == STUN_SERVER_COUNT,
{
}

} // verus!
