use vstd::prelude::*;
use vstd::slice::slice_subrange;
use vstd::utf8::encode_utf8;
use vstd::utf8::is_ascii_chars;
use vstd::utf8::is_ascii_chars_encode_utf8;

use crate::error::DispatchError;
use crate::hexcodec::{hex_decode, hex_encode, hex_of, hex_value, is_hex_text, lemma_hex_round_trip};

verus! {

/// Lowest domain code this dispatcher may send; the codes below it are the
/// compute peer's own signalling.
pub const DOMAIN_FLOOR: u16 = 0x10;

/// A domain-tagged request to the compute peer.
#[derive(Debug, Clone)]
pub struct GIORequest {
    pub domain: u16,
    pub payload: String,
}

impl GIORequest {
    /// A request that may go to the peer: a domain at or above the floor and
    /// a payload in wire form.
    pub open spec fn sendable(&self) -> bool {
        &&& self.domain >= DOMAIN_FLOOR
        &&& exists|p: Seq<u8>| self.payload@ == wire_text(p)
    }
}

/// The compute peer's answer: a response code (0 on success) and a payload.
#[derive(Debug, Clone)]
pub struct GIOResponse {
    pub response_code: u16,
    pub response: String,
}

/// A diagnostic payload.
#[derive(Debug, Clone)]
pub struct Exception {
    pub payload: String,
}

/// The operations that the compute peer answers, each with its own code.
#[derive(Debug, Clone, Copy, PartialEq, Eq, Structural)]
pub enum Domain {
    CurrentStateCid,
    SetStateCid,
    Metadata,
    Keccak256Namespace,
    ExternalizeState,
    IpfsGetBlock,
    Hint,
}

impl Domain {
    pub open spec fn spec_code(self) -> u16 {
        match self {
            Domain::CurrentStateCid => 0x20,
            Domain::SetStateCid => 0x21,
            Domain::Metadata => 0x22,
            Domain::Keccak256Namespace => 0x23,
            Domain::ExternalizeState => 0x24,
            Domain::IpfsGetBlock => 0x25,
            Domain::Hint => 0x26,
        }
    }

    /// The numeric tag that goes on the wire.
    pub fn code(&self) -> (r: u16)
        ensures
            r == self.spec_code(),
            r >= DOMAIN_FLOOR,
    {
        match self {
            Domain::CurrentStateCid => 0x20,
            Domain::SetStateCid => 0x21,
            Domain::Metadata => 0x22,
            Domain::Keccak256Namespace => 0x23,
            Domain::ExternalizeState => 0x24,
            Domain::IpfsGetBlock => 0x25,
            Domain::Hint => 0x26,
        }
    }

    /// The operation that a numeric tag names, if any.
    pub fn from_code(c: u16) -> (r: Option<Domain>)
        ensures
            r is Some <==> 0x20 <= c <= 0x26,
            r is Some ==> r->Some_0.spec_code() == c,
    {
        match c {
            0x20 => Some(Domain::CurrentStateCid),
            0x21 => Some(Domain::SetStateCid),
            0x22 => Some(Domain::Metadata),
            0x23 => Some(Domain::Keccak256Namespace),
            0x24 => Some(Domain::ExternalizeState),
            0x25 => Some(Domain::IpfsGetBlock),
            0x26 => Some(Domain::Hint),
            _ => None,
        }
    }
}

/// Payload text on the wire: the `0x` marker, then the lowercase hex of the bytes.
pub open spec fn wire_text(p: Seq<u8>) -> Seq<char> {
    seq!['0', 'x'] + hex_of(p)
}

/// The bytes that payload text on the wire carries: `None` where the `0x`
/// marker is missing or what follows it is not hex text of even length.
pub open spec fn wire_value(text: Seq<char>) -> Option<Seq<u8>> {
    let b = encode_utf8(text);
    if b.len() >= 2 && b[0] == 48 && b[1] == 120 && is_hex_text(b.skip(2)) {
        Some(hex_value(b.skip(2)))
    } else {
        None
    }
}

/// Builds the request for a domain and a binary payload. Domains below
/// `DOMAIN_FLOOR` are refused, so that no such request is ever sent.
pub fn encode_request(domain: u16, payload: &[u8]) -> (r: Result<GIORequest, DispatchError>)
    ensures
        r is Err <==> domain < DOMAIN_FLOOR,
        r is Err ==> r->Err_0 == DispatchError::ReservedDomain,
        r is Ok ==> r->Ok_0.domain == domain && r->Ok_0.payload@ == wire_text(payload@),
        r is Ok && payload@.len() == 0 ==> r->Ok_0.payload@ == "0x"@,
        r is Ok ==> r->Ok_0.sendable(),
{
    if domain < DOMAIN_FLOOR {
        return Err(DispatchError::ReservedDomain);
    }
    proof {
        reveal_strlit("0x");
        if payload@.len() == 0 {
            assert(wire_text(payload@) =~= "0x"@);
        }
    }
    Ok(wire_request(domain, payload))
}

fn wire_request(domain: u16, payload: &[u8]) -> (r: GIORequest)
    ensures
        r.domain == domain,
        r.payload@ == wire_text(payload@),
{
    let mut text = String::from_str("0x");
    proof {
        reveal_strlit("0x");
        assert(text@ =~= seq!['0', 'x']);
    }
    let digits = hex_encode(payload);
    text.append(digits.as_str());
    GIORequest { domain, payload: text }
}

/// Tests a request before it is sent: only domains at or above
/// `DOMAIN_FLOOR` may reach the compute peer.
pub fn check_sendable(r: &GIORequest) -> (res: Result<(), DispatchError>)
    ensures
        res is Ok <==> r.domain >= DOMAIN_FLOOR,
        res is Err ==> res->Err_0 == DispatchError::ReservedDomain,
{
    if r.domain < DOMAIN_FLOOR {
        Err(DispatchError::ReservedDomain)
    } else {
        Ok(())
    }
}

/// Builds the request for one of the dispatcher's own operations.
pub fn request_for(domain: Domain, payload: &[u8]) -> (r: GIORequest)
    ensures
        r.domain == domain.spec_code(),
        r.payload@ == wire_text(payload@),
        r.sendable(),
{
    wire_request(domain.code(), payload)
}

/// Reads a response into its code and the bytes its payload carries.
pub fn decode_response(resp: &GIOResponse) -> (r: Result<(u16, Vec<u8>), DispatchError>)
    ensures
        r is Ok <==> wire_value(resp.response@) is Some,
        r is Ok ==> r->Ok_0.0 == resp.response_code && r->Ok_0.1@ == wire_value(
            resp.response@,
        )->Some_0,
        r is Err ==> r->Err_0 == DispatchError::MalformedResponse,
{
    let b = resp.response.as_str().as_bytes();
    proof {
        assert(b@ == encode_utf8(resp.response@));
    }
    if b.len() < 2 || b[0] != 48 || b[1] != 120 {
        return Err(DispatchError::MalformedResponse);
    }
    let rest = slice_subrange(b, 2, b.len());
    assert(rest@ == b@.skip(2));
    match hex_decode(rest) {
        Ok(v) => Ok((resp.response_code, v)),
        Err(_) => Err(DispatchError::MalformedResponse),
    }
}

/// The payload bytes of a successful response. A non-zero code is the
/// peer's refusal, whatever the payload holds.
pub fn accept_response(resp: &GIOResponse) -> (r: Result<Vec<u8>, DispatchError>)
    ensures
        resp.response_code != 0 ==> r == Err::<Vec<u8>, DispatchError>(
            DispatchError::PeerRejection(resp.response_code),
        ),
        resp.response_code == 0 ==> (r is Ok <==> wire_value(resp.response@) is Some),
        resp.response_code == 0 && r is Ok ==> r->Ok_0@ == wire_value(resp.response@)->Some_0,
        resp.response_code == 0 && r is Err ==> r->Err_0 == DispatchError::MalformedResponse,
{
    if resp.response_code != 0 {
        return Err(DispatchError::PeerRejection(resp.response_code));
    }
    match decode_response(resp) {
        Ok((_, v)) => Ok(v),
        Err(e) => Err(e),
    }
}

/// Encoding then decoding gives back the payload: the text that a request
/// carries for bytes `p` reads back as exactly `p`, whatever its domain.
pub proof fn lemma_codec_round_trip(p: Seq<u8>)
    ensures
        wire_value(wire_text(p)) == Some(p),
{
    let text = wire_text(p);
    assert forall|i: int| 0 <= i < text.len() implies '\0' <= #[trigger] text[i] <= '\u{7f}' by {
        if i >= 2 {
            assert(text[i] == hex_of(p)[i - 2]);
        }
    }
    assert(is_ascii_chars(text));
    is_ascii_chars_encode_utf8(text);
    let b = encode_utf8(text);
    let t = hex_of(p).map_values(|c: char| c as u8);
    lemma_hex_round_trip(p);
    assert(b.skip(2) =~= t);
}

} // verus!
