use salsa::error::DispatchError;
use salsa::gio::{
    accept_response, check_sendable, decode_response, encode_request, request_for, Domain, GIORequest,
    GIOResponse,
};

fn response(code: u16, text: &str) -> GIOResponse {
    GIOResponse { response_code: code, response: text.to_string() }
}

#[test]
fn encode_gives_marker_and_lowercase_hex() {
    let r = encode_request(0x20, &[0xAA, 0xBB, 0x01]).unwrap();
    assert_eq!(r.domain, 0x20);
    assert_eq!(r.payload, "0xaabb01");
}

#[test]
fn encode_empty_payload_is_bare_marker() {
    let r = encode_request(0x21, &[]).unwrap();
    assert_eq!(r.payload, "0x");
}

#[test]
fn encode_refuses_reserved_domains() {
    assert_eq!(encode_request(0x0f, &[1]).unwrap_err(), DispatchError::ReservedDomain);
    assert_eq!(encode_request(0, &[]).unwrap_err(), DispatchError::ReservedDomain);
    assert_eq!(encode_request(0x10, &[1]).unwrap().payload, "0x01");
}

#[test]
fn decode_reads_code_and_bytes() {
    let (code, bytes) = decode_response(&response(3, "0xaabb")).unwrap();
    assert_eq!(code, 3);
    assert_eq!(bytes, vec![0xAA, 0xBB]);
    let (_, upper) = decode_response(&response(0, "0xAAbB")).unwrap();
    assert_eq!(upper, vec![0xAA, 0xBB]);
    let (_, empty) = decode_response(&response(0, "0x")).unwrap();
    assert!(empty.is_empty());
}

#[test]
fn decode_refuses_malformed_payloads() {
    for text in ["aabb", "", "0", "0xabc", "0xzz", "1xaa", "0Xaa"] {
        assert_eq!(
            decode_response(&response(0, text)).unwrap_err(),
            DispatchError::MalformedResponse,
            "{}",
            text
        );
    }
}

#[test]
fn round_trip_through_codec() {
    let payloads: Vec<Vec<u8>> = vec![vec![], vec![0], vec![0xff, 0x10, 0x7f], (0..=255u8).collect()];
    for p in payloads {
        let req = encode_request(0x10, &p).unwrap();
        let (_, back) = decode_response(&response(0, &req.payload)).unwrap();
        assert_eq!(back, p);
    }
}

#[test]
fn accept_response_rejects_nonzero_codes() {
    assert_eq!(accept_response(&response(7, "0xaa")).unwrap_err(), DispatchError::PeerRejection(7));
    assert_eq!(accept_response(&response(0, "0xaa")).unwrap(), vec![0xAA]);
    assert_eq!(accept_response(&response(0, "zz")).unwrap_err(), DispatchError::MalformedResponse);
}

#[test]
fn domain_codes_are_fixed() {
    let all = [
        (Domain::CurrentStateCid, 0x20),
        (Domain::SetStateCid, 0x21),
        (Domain::Metadata, 0x22),
        (Domain::Keccak256Namespace, 0x23),
        (Domain::ExternalizeState, 0x24),
        (Domain::IpfsGetBlock, 0x25),
        (Domain::Hint, 0x26),
    ];
    for (d, c) in all {
        assert_eq!(d.code(), c);
        assert_eq!(Domain::from_code(c), Some(d));
    }
    assert_eq!(Domain::from_code(0x1f), None);
    assert_eq!(Domain::from_code(0x27), None);
    assert_eq!(request_for(Domain::Hint, &[0x68]).domain, 0x26);
}

#[test]
fn check_sendable_holds_the_floor() {
    let low = GIORequest { domain: 0x0f, payload: "0x".to_string() };
    assert_eq!(check_sendable(&low), Err(DispatchError::ReservedDomain));
    let floor = GIORequest { domain: 0x10, payload: "0x".to_string() };
    assert_eq!(check_sendable(&floor), Ok(()));
    assert_eq!(check_sendable(&request_for(Domain::Metadata, &[1])), Ok(()));
}
