use stun::address::{IpAddress, XorMappedAddress};
use stun::attribute::Attribute;
use stun::error::StunError;
use stun::header::{Header, MessageClass, MessageMethod};
use stun::message::Message;
use stun::version::{parse_ipver, IpVersion};

const TID: [u8; 12] = [7, 7, 7, 7, 7, 7, 7, 7, 7, 7, 7, 7];

#[test]
fn test_encode_message() {
    let encoded = Message::request().encode();

    let expected = vec![
        0, 1, 0, 0, 33, 18, 164, 66, 7, 7, 7, 7, 7, 7, 7, 7, 7, 7, 7, 7,
    ];
    assert_eq!(encoded.len(), 20);
    assert_eq!(encoded[..8], expected[..8]);
}

#[test]
fn test_decode_message() {
    let encoded: Vec<u8> = vec![
        1, 1, 0, 12, 33, 18, 164, 66, 7, 7, 7, 7, 7, 7, 7, 7, 7, 7, 7, 7, 0, 32, 0, 8, 0, 1,
        183, 220, 67, 210, 130, 201,
    ];
    let message = Message::decode(encoded).unwrap();
    assert_eq!(message.header.method, MessageMethod::Binding);
    assert_eq!(message.header.class, MessageClass::SuccessResponse);
    assert_eq!(message.header.transaction_id, [7u8; 12]);
    assert_eq!(message.attributes.len(), 1);
    assert!(matches!(message.attributes[0], Attribute::XorMappedAddress(_)));
    assert!(message.diagnostics.is_empty());
}

#[test]
fn test_decode_xor_ipv4_mapped_address() {
    let encoded = vec![0, 1, 59, 25, 67, 210, 130, 201];
    let transaction_id = [7, 7, 7, 7, 7, 7, 7, 7, 7, 7, 7, 7];
    let address = XorMappedAddress::decode(encoded, transaction_id).unwrap();

    assert_eq!(address.port, 6667);
    assert_eq!(address.ip, IpAddress::V4([98, 192, 38, 139]));
}

#[test]
fn test_decode_xor_ipv6_mapped_address() {
    let encoded = vec![
        0, 2, 59, 25, 7, 18, 180, 71, 183, 36, 62, 39, 230, 88, 229, 248, 15, 179, 161, 129,
    ];
    let transaction_id = [7, 7, 7, 7, 7, 7, 7, 7, 7, 7, 7, 7];
    let address = XorMappedAddress::decode(encoded, transaction_id).unwrap();

    assert_eq!(address.port, 6667);
    // 2600:1005:b023:3920:e15f:e2ff:8b4:a686
    assert_eq!(
        address.ip,
        IpAddress::V6([
            0x26, 0x00, 0x10, 0x05, 0xb0, 0x23, 0x39, 0x20, 0xe1, 0x5f, 0xe2, 0xff, 0x08, 0xb4,
            0xa6, 0x86
        ])
    );
}

#[test]
fn request_round_trips_through_header_decode() {
    for tid in [[0u8; 12], [0xffu8; 12], [1, 2, 3, 4, 5, 6, 7, 8, 9, 10, 11, 12]] {
        let bytes = Message::request_with_id(tid).encode();
        assert_eq!(bytes.len(), 20);
        let header = Header::decode(&bytes).unwrap();
        assert_eq!(header.class, MessageClass::Request);
        assert_eq!(header.method, MessageMethod::Binding);
        assert_eq!(header.transaction_id, tid);
    }
    let request = Message::request();
    let header = Header::decode(&request.encode()).unwrap();
    assert_eq!(header.transaction_id, request.header.transaction_id);
}

#[test]
fn request_with_id_encodes_exact_bytes() {
    let bytes = Message::request_with_id(TID).encode();
    assert_eq!(
        bytes,
        vec![0, 1, 0, 0, 0x21, 0x12, 0xA4, 0x42, 7, 7, 7, 7, 7, 7, 7, 7, 7, 7, 7, 7]
    );
}

#[test]
fn xor_address_round_trips() {
    let tid = [1, 2, 3, 4, 5, 6, 7, 8, 9, 10, 11, 12];
    let v4 = XorMappedAddress { ip: IpAddress::V4([192, 168, 1, 77]), port: 3478 };
    let wire = v4.encode(tid);
    assert_eq!(wire.len(), 8);
    assert_ne!(wire[4..8], [192, 168, 1, 77]);
    assert_eq!(XorMappedAddress::decode(wire, tid).unwrap(), v4);

    let v6 = XorMappedAddress {
        ip: IpAddress::V6([0x20, 0x01, 0x0d, 0xb8, 0, 0, 0, 0, 0, 0, 0, 0, 0, 0, 0, 1]),
        port: 65535,
    };
    let wire = v6.encode(tid);
    assert_eq!(wire.len(), 20);
    assert_eq!(XorMappedAddress::decode(wire, tid).unwrap(), v6);
}

#[test]
fn xor_address_encode_matches_known_wire_bytes() {
    let address = XorMappedAddress { ip: IpAddress::V4([98, 192, 38, 139]), port: 6667 };
    assert_eq!(address.encode(TID), vec![0, 1, 59, 25, 67, 210, 130, 201]);
}

#[test]
fn unsupported_address_family_is_reported() {
    let encoded = vec![0, 3, 59, 25, 67, 210, 130, 201];
    assert_eq!(
        XorMappedAddress::decode(encoded, TID),
        Err(StunError::UnsupportedAddressFamily(3))
    );
}

#[test]
fn short_address_value_is_malformed() {
    assert_eq!(
        XorMappedAddress::decode(vec![0, 1, 59, 25, 67], TID),
        Err(StunError::MalformedAttribute)
    );
    assert_eq!(
        XorMappedAddress::decode(vec![0, 2, 59, 25, 7, 18, 180, 71], TID),
        Err(StunError::MalformedAttribute)
    );
    assert_eq!(XorMappedAddress::decode(vec![0], TID), Err(StunError::MalformedAttribute));
}

#[test]
fn full_message_decodes_success_response() {
    let mut encoded: Vec<u8> = vec![0x01, 0x01, 0x00, 0x0C, 0x21, 0x12, 0xA4, 0x42];
    encoded.extend_from_slice(&[7u8; 12]);
    encoded.extend_from_slice(&[0x00, 0x20, 0x00, 0x08, 0x00, 0x01, 0xB7, 0xDC, 0x43, 0xD2, 0x82, 0xC9]);
    let message = Message::decode(encoded).unwrap();
    assert_eq!(message.header.class, MessageClass::SuccessResponse);
    assert_eq!(message.header.method, MessageMethod::Binding);
    assert_eq!(message.header.transaction_id, [7u8; 12]);
    assert_eq!(message.attributes.len(), 1);
    match message.attributes[0] {
        Attribute::XorMappedAddress(a) => {
            assert_eq!(a.port, 0xB7DC ^ 0x2112);
            assert_eq!(a.ip, IpAddress::V4([0x62, 0xC0, 0x26, 0x8B]));
        }
        _ => panic!("expected an XOR-MAPPED-ADDRESS"),
    }
}

#[test]
fn truncated_attribute_value_is_fatal() {
    let section = [0x00, 0x20, 0x00, 0x08, 0x00, 0x01];
    assert_eq!(
        Attribute::decode_all(&section, TID).map(|(a, _)| a.len()),
        Err(StunError::TruncatedAttribute)
    );
    let section = [0x00, 0x06, 0x00, 0x00, 0x00, 0x20, 0x00, 0x08, 0x00, 0x01, 0x3B];
    assert_eq!(
        Attribute::decode_all(&section, TID).map(|(a, _)| a.len()),
        Err(StunError::TruncatedAttribute)
    );
}

#[test]
fn truncated_attribute_prefix_is_fatal() {
    let section = [0x00, 0x20, 0x00];
    assert_eq!(
        Attribute::decode_all(&section, TID).map(|(a, _)| a.len()),
        Err(StunError::TruncatedAttribute)
    );
}

#[test]
fn truncated_message_keeps_header_decodable() {
    let mut encoded: Vec<u8> = vec![0x01, 0x01, 0x00, 0x0C, 0x21, 0x12, 0xA4, 0x42];
    encoded.extend_from_slice(&[7u8; 12]);
    encoded.extend_from_slice(&[0x00, 0x20, 0x00, 0x08, 0x00, 0x01]);
    assert_eq!(Message::decode(encoded.clone()).err(), Some(StunError::TruncatedAttribute));
    assert_eq!(Header::decode(&encoded).unwrap().class, MessageClass::SuccessResponse);
}

#[test]
fn unknown_attribute_type_is_skipped() {
    let section = [
        0x80, 0x22, 0x00, 0x04, 1, 2, 3, 4, 0x00, 0x20, 0x00, 0x08, 0x00, 0x01, 0x3B, 0x19, 0x43,
        0xD2, 0x82, 0xC9,
    ];
    let (attributes, diagnostics) = Attribute::decode_all(&section, TID).unwrap();
    assert_eq!(attributes.len(), 1);
    assert!(matches!(attributes[0], Attribute::XorMappedAddress(_)));
    assert_eq!(diagnostics, vec![StunError::UnknownAttributeType(0x8022)]);
}

#[test]
fn padding_after_odd_length_value_is_skipped() {
    let section = [
        0x00, 0x06, 0x00, 0x03, b'b', b'o', b'b', 0x00, 0x00, 0x20, 0x00, 0x08, 0x00, 0x01, 0x3B,
        0x19, 0x43, 0xD2, 0x82, 0xC9,
    ];
    let (attributes, diagnostics) = Attribute::decode_all(&section, TID).unwrap();
    assert_eq!(attributes.len(), 2);
    assert_eq!(attributes[0], Attribute::Username);
    assert_eq!(
        attributes[1],
        Attribute::XorMappedAddress(XorMappedAddress {
            ip: IpAddress::V4([98, 192, 38, 139]),
            port: 6667
        })
    );
    assert!(diagnostics.is_empty());
}

#[test]
fn missing_final_padding_is_tolerated() {
    let section = [0x00, 0x15, 0x00, 0x02, b'n', b'o'];
    let (attributes, _) = Attribute::decode_all(&section, TID).unwrap();
    assert_eq!(attributes, vec![Attribute::Nonce]);
}

#[test]
fn every_registered_type_is_recognised() {
    let codes: [(u16, Attribute); 7] = [
        (0x0001, Attribute::MappedAddress),
        (0x0006, Attribute::Username),
        (0x0008, Attribute::MessageIntegrity),
        (0x0009, Attribute::ErrorCode),
        (0x000A, Attribute::UnknownAttributes),
        (0x0014, Attribute::Realm),
        (0x0015, Attribute::Nonce),
    ];
    for (code, expected) in codes {
        assert_eq!(Attribute::decode(code, vec![1, 2, 3, 4], TID), Ok(expected));
    }
    assert_eq!(
        Attribute::decode(0x0002, vec![], TID),
        Err(StunError::UnknownAttributeType(0x0002))
    );
}

#[test]
fn address_family_error_is_a_diagnostic() {
    let section = [0x00, 0x20, 0x00, 0x08, 0x00, 0x05, 0x3B, 0x19, 0x43, 0xD2, 0x82, 0xC9];
    let (attributes, diagnostics) = Attribute::decode_all(&section, TID).unwrap();
    assert!(attributes.is_empty());
    assert_eq!(diagnostics, vec![StunError::UnsupportedAddressFamily(5)]);
}

#[test]
fn bad_magic_cookie_is_malformed() {
    let mut encoded: Vec<u8> = vec![0x01, 0x01, 0x00, 0x00, 0x21, 0x12, 0xA4, 0x43];
    encoded.extend_from_slice(&[7u8; 12]);
    assert_eq!(Header::decode(&encoded).err(), Some(StunError::MalformedHeader));
    assert_eq!(Message::decode(encoded).err(), Some(StunError::MalformedHeader));
}

#[test]
fn short_header_is_malformed() {
    let encoded: Vec<u8> = vec![0x01, 0x01, 0x00, 0x00, 0x21, 0x12, 0xA4, 0x42, 7, 7];
    assert_eq!(Header::decode(&encoded).err(), Some(StunError::MalformedHeader));
    assert_eq!(Message::decode(vec![]).err(), Some(StunError::MalformedHeader));
}

#[test]
fn header_classes_decode_from_their_bits() {
    let mut encoded: Vec<u8> = vec![0x00, 0x11, 0x00, 0x00, 0x21, 0x12, 0xA4, 0x42];
    encoded.extend_from_slice(&[9u8; 12]);
    assert_eq!(Header::decode(&encoded).unwrap().class, MessageClass::Indication);
    encoded[0] = 0x01;
    assert_eq!(Header::decode(&encoded).unwrap().class, MessageClass::FailureResponse);
    assert_eq!(MessageClass::from_u16(0x0000), Some(MessageClass::Request));
    assert_eq!(MessageClass::from_u16(0x0100), Some(MessageClass::SuccessResponse));
    assert_eq!(MessageClass::from_u16(0x0001), None);
}

#[test]
fn header_encode_writes_length_and_type() {
    let header = Header {
        class: MessageClass::SuccessResponse,
        method: MessageMethod::Binding,
        transaction_id: TID,
    };
    assert_eq!(header.message_type(), 0x0101);
    let bytes = header.encode(0x0102);
    assert_eq!(bytes[..8], [0x01, 0x01, 0x01, 0x02, 0x21, 0x12, 0xA4, 0x42]);
    assert_eq!(bytes[8..], TID);
}

#[test]
fn message_with_attributes_round_trips() {
    let mut message = Message::request_with_id(TID);
    let address = XorMappedAddress { ip: IpAddress::V4([98, 192, 38, 139]), port: 6667 };
    message.attributes.push(Attribute::Realm);
    message.attributes.push(Attribute::XorMappedAddress(address));
    let bytes = message.encode();
    assert_eq!(bytes.len(), 20 + 4 + 12);
    assert_eq!(bytes[2..4], [0, 16]);
    assert_eq!(bytes[20..24], [0x00, 0x14, 0x00, 0x00]);
    assert_eq!(bytes[24..], [0x00, 0x20, 0x00, 0x08, 0, 1, 59, 25, 67, 210, 130, 201]);
    let decoded = Message::decode(bytes).unwrap();
    assert_eq!(decoded.attributes, message.attributes);
}

#[test]
fn ip_version_parses_four_and_six() {
    assert_eq!(parse_ipver("4"), Ok(IpVersion::V4));
    assert_eq!(parse_ipver("6"), Ok(IpVersion::V6));
    assert_eq!(parse_ipver("5"), Err(String::from("Unknown IP version: 5")));
    assert_eq!(parse_ipver("44"), Err(String::from("Unknown IP version: 44")));
    assert_eq!(parse_ipver(""), Err(String::from("Unknown IP version: ")));
}

#[test]
fn truncation_after_whole_tlvs_is_fatal() {
    let section = [
        0x80, 0x22, 0x00, 0x01, 9, 0, 0, 0, 0x00, 0x06, 0x00, 0x03, b'b', b'o', b'b', 0x00,
        0x00, 0x15, 0x00, 0x05, 1, 2,
    ];
    assert_eq!(
        Attribute::decode_all(&section, TID).map(|(a, _)| a.len()),
        Err(StunError::TruncatedAttribute)
    );
    let fragment = [0x00, 0x06, 0x00, 0x00, 0x00, 0x15];
    assert_eq!(
        Attribute::decode_all(&fragment, TID).map(|(a, _)| a.len()),
        Err(StunError::TruncatedAttribute)
    );
}
