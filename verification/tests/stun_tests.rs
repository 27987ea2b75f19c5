use elara::stun::{
    build_binding_request, classify_nat, generate_transaction_id, parse_binding_response,
    parse_mapped_address, parse_xor_mapped_address, AttemptOutcome, NatType, StunAddress, StunClient,
    StunError, StunResult, StunStep, STUN_HEADER_SIZE,
};

#[test]
fn test_build_binding_request() {
    let txn_id = [1u8; 12];
    let request = build_binding_request(&txn_id);

    assert_eq!(request.len(), STUN_HEADER_SIZE);
    assert_eq!(request[0], 0x00);
    assert_eq!(request[1], 0x01);
    assert_eq!(request[2], 0x00);
    assert_eq!(request[3], 0x00);
    assert_eq!(&request[4..8], &[0x21, 0x12, 0xA4, 0x42]);
    assert_eq!(&request[8..20], &txn_id);
}

#[test]
fn test_nat_type_traversable() {
    assert!(NatType::NoNat.stun_traversable());
    assert!(NatType::FullCone.stun_traversable());
    assert!(!NatType::Symmetric.stun_traversable());
    assert!(NatType::Symmetric.requires_turn());
}

#[test]
fn nat_types_are_traversable_or_need_turn_never_both() {
    let all = [
        NatType::NoNat,
        NatType::FullCone,
        NatType::RestrictedCone,
        NatType::PortRestrictedCone,
        NatType::Symmetric,
        NatType::SymmetricPortOnly,
        NatType::Unknown,
    ];
    for t in all {
        assert!(!(t.stun_traversable() && t.requires_turn()));
    }
    assert!(!NatType::Unknown.stun_traversable() && !NatType::Unknown.requires_turn());
}

#[test]
fn test_generate_transaction_id() {
    let id1 = generate_transaction_id();
    let id2 = generate_transaction_id();
    assert_ne!(id1, id2);
}

fn response(txn: &[u8; 12], attrs: &[u8]) -> Vec<u8> {
    let mut v = vec![0x01, 0x01, (attrs.len() >> 8) as u8, attrs.len() as u8, 0x21, 0x12, 0xA4, 0x42];
    v.extend_from_slice(txn);
    v.extend_from_slice(attrs);
    v
}

#[test]
fn parses_xor_mapped_address() {
    let txn = [7u8; 12];
    // 192.0.2.1:32853 xor-ed with the cookie
    let port: u16 = 32853 ^ 0x2112;
    let ip: u32 = 0xC000_0201 ^ 0x2112_A442;
    let mut attrs = vec![0x00, 0x20, 0x00, 0x08, 0x00, 0x01];
    attrs.extend_from_slice(&port.to_be_bytes());
    attrs.extend_from_slice(&ip.to_be_bytes());
    let msg = response(&txn, &attrs);
    assert_eq!(
        parse_binding_response(&msg, &txn),
        Some(StunAddress { ip: 0xC000_0201, port: 32853 })
    );
    // a different transaction ID is not ours
    assert_eq!(parse_binding_response(&msg, &[8u8; 12]), None);
    // a request is not a response
    assert_eq!(parse_binding_response(&build_binding_request(&txn), &txn), None);
}

#[test]
fn skips_unknown_attributes_and_reads_mapped_address() {
    let txn = [3u8; 12];
    let attrs = vec![
        0x80, 0x22, 0x00, 0x03, b'a', b'b', b'c', 0x00, // SOFTWARE, padded
        0x00, 0x01, 0x00, 0x08, 0x00, 0x01, 0x1F, 0x90, 10, 0, 0, 1, // MAPPED-ADDRESS 10.0.0.1:8080
    ];
    let msg = response(&txn, &attrs);
    assert_eq!(parse_binding_response(&msg, &txn), Some(StunAddress { ip: 0x0A00_0001, port: 8080 }));
}

#[test]
fn short_or_foreign_messages_are_refused() {
    let txn = [0u8; 12];
    assert_eq!(parse_binding_response(&[0u8; 10], &txn), None);
    let mut msg = response(&txn, &[]);
    msg[4] = 0; // wrong cookie
    assert_eq!(parse_binding_response(&msg, &txn), None);
    // a declared length beyond the data
    let mut msg = response(&txn, &[]);
    msg[3] = 8;
    assert_eq!(parse_binding_response(&msg, &txn), None);
}

#[test]
fn attribute_value_parsers() {
    assert_eq!(parse_mapped_address(&[0, 1, 0, 80, 127, 0, 0, 1]), Some(StunAddress { ip: 0x7F00_0001, port: 80 }));
    assert_eq!(parse_mapped_address(&[0, 2, 0, 80, 127, 0, 0, 1]), None);
    assert_eq!(parse_mapped_address(&[0, 1, 0]), None);
    assert_eq!(
        parse_xor_mapped_address(&[0, 1, 0x21, 0x12, 0x21, 0x12, 0xA4, 0x42]),
        Some(StunAddress { ip: 0, port: 0 })
    );
}

fn result(mapped: StunAddress, local: StunAddress) -> StunResult {
    StunResult { mapped_address: mapped, local_address: local, server: StunAddress { ip: 1, port: 3478 }, rtt_us: 10 }
}

#[test]
fn nat_classification() {
    let a = StunAddress { ip: 5, port: 1000 };
    let b = StunAddress { ip: 5, port: 2000 };
    let c = StunAddress { ip: 6, port: 1000 };
    let local = StunAddress { ip: 9, port: 1 };
    assert_eq!(classify_nat(&vec![]), Err(StunError::NoServersReachable));
    assert_eq!(classify_nat(&vec![result(local, local)]), Ok(NatType::NoNat));
    assert_eq!(classify_nat(&vec![result(a, local)]), Ok(NatType::Unknown));
    assert_eq!(classify_nat(&vec![result(a, local), result(a, local)]), Ok(NatType::FullCone));
    assert_eq!(classify_nat(&vec![result(a, local), result(b, local)]), Ok(NatType::SymmetricPortOnly));
    assert_eq!(classify_nat(&vec![result(a, local), result(c, local)]), Ok(NatType::Symmetric));
}

#[test]
fn client_steps() {
    let client = StunClient::new();
    assert_eq!(client.retries(), 3);
    assert_eq!(client.timeout_ms(), 3000);
    assert_eq!(StunClient::with_timeout(500).timeout_ms(), 500);
    let found = StunAddress { ip: 1, port: 2 };
    assert_eq!(
        client.step(0, &AttemptOutcome::Received { from_server: true, mapped: Some(found) }),
        StunStep::Found(found)
    );
    assert_eq!(
        client.step(0, &AttemptOutcome::Received { from_server: false, mapped: Some(found) }),
        StunStep::Retry
    );
    assert_eq!(client.step(1, &AttemptOutcome::TimedOut), StunStep::Retry);
    assert_eq!(client.step(2, &AttemptOutcome::TimedOut), StunStep::Fail(StunError::Timeout));
    assert_eq!(client.step(2, &AttemptOutcome::ReceiveFailed), StunStep::Fail(StunError::ReceiveFailed));
    assert_eq!(
        client.step(2, &AttemptOutcome::Received { from_server: true, mapped: None }),
        StunStep::Fail(StunError::RetriesExhausted)
    );
}
