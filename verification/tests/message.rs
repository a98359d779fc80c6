use stun::attribute::Attribute;
use stun::attribute::ChangeRequest;
use stun::attribute::ErrorCode;
use stun::attribute::MappedAddress;
use stun::attribute::MessageIntegrity;
use stun::attribute::UnknownAttributes;
use stun::attribute::Username;
use stun::attribute::Value;
use stun::error::DecodeError;
use stun::header::Header;
use stun::header::HeaderType;
use stun::net::Ipv4Address;
use stun::Message;

#[test]
fn test_message_encode_decode_multiple_attributes() {
    // Create a message with multiple attributes
    let header = Header::new(HeaderType::BindingResponse, [1; 16]);
    let attributes = vec![
        Value::MappedAddress(MappedAddress::new(1, 8080, Ipv4Address::new(192, 168, 0, 1)))
            .into_attribute(),
        Value::ChangeRequest(ChangeRequest::new(true, false)).into_attribute(),
        Value::Username(Username::new("testuser".to_string())).into_attribute(),
        Value::ErrorCode(ErrorCode::new(400, "Bad Request".to_string())).into_attribute(),
    ];
    let original_message = Message::new(header, attributes);

    // Encode the message
    let encoded = original_message.encode();

    // Decode the message
    let decoded_message = Message::decode(&encoded).unwrap();

    // Verify the header
    assert_eq!(
        decoded_message.header.header_type,
        HeaderType::BindingResponse
    );
    assert_eq!(decoded_message.header.transaction_id, [1; 16]);

    // Verify the attributes
    assert_eq!(decoded_message.attributes.len(), 4);

    // Check MappedAddress
    if let Value::MappedAddress(addr) = &decoded_message.attributes[0].value {
        assert_eq!(addr.family, 1);
        assert_eq!(addr.port, 8080);
        assert_eq!(addr.address, Ipv4Address::new(192, 168, 0, 1));
    } else {
        panic!("First attribute is not MappedAddress");
    }

    // Check ChangeRequest
    if let Value::ChangeRequest(req) = &decoded_message.attributes[1].value {
        assert_eq!(req.change_ip, true);
        assert_eq!(req.change_port, false);
    } else {
        panic!("Second attribute is not ChangeRequest");
    }

    // Check Username
    if let Value::Username(username) = &decoded_message.attributes[2].value {
        assert_eq!(username.username, "testuser");
    } else {
        panic!("Third attribute is not Username");
    }

    // Check ErrorCode
    if let Value::ErrorCode(error) = &decoded_message.attributes[3].value {
        assert_eq!(error.code, 400);
        assert_eq!(error.reason, "Bad Request");
    } else {
        panic!("Fourth attribute is not ErrorCode");
    }
}

fn transaction_id() -> [u8; 16] {
    [0, 1, 2, 3, 4, 5, 6, 7, 8, 9, 10, 11, 12, 13, 14, 15]
}

fn some_attributes() -> Vec<Attribute> {
    vec![
        Value::UnknownAttributes(UnknownAttributes::new(vec![0x0020, 0x0021])).into_attribute(),
        Value::MessageIntegrity(MessageIntegrity::new([7; 20])).into_attribute(),
        Value::MappedAddress(MappedAddress::new(1, 3478, Ipv4Address::new(10, 1, 2, 3)))
            .into_attribute(),
        Value::Username(Username::new("first".to_string())).into_attribute(),
        Value::Username(Username::new("second".to_string())).into_attribute(),
    ]
}

#[test]
fn header_type_numbers() {
    let table = [
        (0x0001u16, HeaderType::BindingRequest),
        (0x0101, HeaderType::BindingResponse),
        (0x0111, HeaderType::BindingErrorResponse),
        (0x0002, HeaderType::SharedSecretRequest),
        (0x0102, HeaderType::SharedSecretResponse),
        (0x0112, HeaderType::SharedSecretErrorResponse),
    ];
    for (number, header_type) in table {
        assert_eq!(header_type.to_u16(), number);
        assert_eq!(HeaderType::from_u16(number), Ok(header_type));
        assert_eq!(HeaderType::from_be_bytes(number.to_be_bytes()), Ok(header_type));
    }
    assert_eq!(HeaderType::from_u16(0), Err(DecodeError::UnknownHeaderType));
    assert_eq!(HeaderType::from_u16(0x0003), Err(DecodeError::UnknownHeaderType));
    assert_eq!(HeaderType::from_u16(0x0100), Err(DecodeError::UnknownHeaderType));
    assert_eq!(HeaderType::from_be_bytes([0x01, 0x00]), Err(DecodeError::UnknownHeaderType));
}

#[test]
fn a_random_header_keeps_its_class() {
    let first = Header::with_random_id(HeaderType::BindingRequest);
    assert_eq!(first.header_type, HeaderType::BindingRequest);
    let second = Header::with_random_id(HeaderType::SharedSecretRequest);
    assert_eq!(second.header_type, HeaderType::SharedSecretRequest);
    assert_eq!(first.transaction_id.len(), 16);
}

#[test]
fn message_bytes() {
    let empty = Message::new(Header::new(HeaderType::BindingRequest, transaction_id()), vec![]);
    let mut expected = vec![0x00, 0x01, 0x00, 0x00];
    expected.extend_from_slice(&transaction_id());
    assert_eq!(empty.encode(), expected);
    assert_eq!(empty.try_encode(), Some(expected));

    let one = Message::new(
        Header::new(HeaderType::SharedSecretErrorResponse, [0xAA; 16]),
        vec![Value::ChangeRequest(ChangeRequest::new(true, true)).into_attribute()],
    );
    let mut expected = vec![0x01, 0x12, 0x00, 0x08];
    expected.extend_from_slice(&[0xAA; 16]);
    expected.extend_from_slice(&[0, 3, 0, 4, 0, 0, 0, 6]);
    assert_eq!(one.encode(), expected);
}

#[test]
fn any_order_of_attributes_survives_a_round_trip() {
    let message = Message::new(
        Header::new(HeaderType::SharedSecretResponse, transaction_id()),
        some_attributes(),
    );
    let decoded = Message::decode(&message.encode()).unwrap();
    assert_eq!(decoded.header.header_type, HeaderType::SharedSecretResponse);
    assert_eq!(decoded.header.transaction_id, transaction_id());
    assert_eq!(decoded.attributes, some_attributes());
    assert_eq!(decoded, message);

    let mut reversed = some_attributes();
    reversed.reverse();
    let message = Message::new(Header::new(HeaderType::BindingRequest, [9; 16]), reversed);
    let decoded = Message::decode(&message.encode()).unwrap();
    let mut expected = some_attributes();
    expected.reverse();
    assert_eq!(decoded.attributes, expected);
    assert_eq!(decoded.header, Header::new(HeaderType::BindingRequest, [9; 16]));
}

#[test]
fn the_length_field_is_the_size_of_the_attributes() {
    let attributes = some_attributes();
    let mut sum = 0;
    for attribute in &attributes {
        sum += attribute.encode().len();
    }
    assert_eq!(sum, 8 + 24 + 12 + 9 + 10);
    let message = Message::new(Header::new(HeaderType::BindingResponse, [3; 16]), attributes);
    let encoded = message.encode();
    assert_eq!(encoded.len(), 20 + sum);
    assert_eq!(u16::from_be_bytes([encoded[2], encoded[3]]) as usize, sum);
}

#[test]
fn a_declared_length_below_the_bytes_that_follow_is_rejected() {
    let message = Message::new(
        Header::new(HeaderType::BindingResponse, [3; 16]),
        vec![Value::ChangeRequest(ChangeRequest::new(true, false)).into_attribute()],
    );
    let good = message.encode();
    assert_eq!(good[3], 8);
    for declared in 0..8u8 {
        let mut bad = good.clone();
        bad[3] = declared;
        assert_eq!(Message::decode(&bad), Err(DecodeError::LengthMismatch));
    }
    assert_eq!(Message::decode(&good).unwrap(), message);
}

#[test]
fn a_declared_length_beyond_the_buffer_is_rejected() {
    let message = Message::new(
        Header::new(HeaderType::BindingResponse, [3; 16]),
        vec![Value::ChangeRequest(ChangeRequest::new(true, false)).into_attribute()],
    );
    let mut bad = message.encode();
    bad[3] = 9;
    assert_eq!(Message::decode(&bad), Err(DecodeError::Truncated));
    bad[2] = 0xFF;
    assert_eq!(Message::decode(&bad), Err(DecodeError::Truncated));
    let good = message.encode();
    assert_eq!(Message::decode(&good[..27]), Err(DecodeError::Truncated));
}

#[test]
fn an_attribute_that_passes_the_declared_length_is_rejected() {
    // Two attributes of eight bytes each, cut after twelve bytes, with a
    // header that declares those twelve.
    let message = Message::new(
        Header::new(HeaderType::BindingRequest, [0; 16]),
        vec![
            Value::ChangeRequest(ChangeRequest::new(false, false)).into_attribute(),
            Value::ChangeRequest(ChangeRequest::new(true, true)).into_attribute(),
        ],
    );
    let mut bytes = message.encode();
    assert_eq!(bytes[3], 16);
    bytes.truncate(20 + 12);
    bytes[3] = 12;
    assert_eq!(Message::decode(&bytes), Err(DecodeError::LengthMismatch));
    bytes.truncate(20 + 8);
    bytes[3] = 8;
    let decoded = Message::decode(&bytes).unwrap();
    assert_eq!(decoded.attributes.len(), 1);
    bytes.truncate(20 + 2);
    bytes[3] = 2;
    assert_eq!(Message::decode(&bytes), Err(DecodeError::LengthMismatch));
}

#[test]
fn bytes_after_the_declared_length_are_rejected() {
    let message = Message::new(
        Header::new(HeaderType::BindingRequest, [5; 16]),
        vec![Value::Username(Username::new("u".to_string())).into_attribute()],
    );
    let mut bytes = message.encode();
    assert_eq!(Message::decode(&bytes).unwrap(), message);
    bytes.push(0);
    assert_eq!(Message::decode(&bytes), Err(DecodeError::LengthMismatch));
    let mut request = vec![0x00, 0x01, 0x00, 0x00];
    request.extend_from_slice(&[5; 16]);
    request.extend_from_slice(&[0, 3, 0, 4, 0, 0, 0, 6]);
    assert_eq!(Message::decode(&request), Err(DecodeError::LengthMismatch));
}

#[test]
fn message_decode_errors() {
    assert_eq!(Message::decode(&[]), Err(DecodeError::Truncated));
    assert_eq!(Message::decode(&[0; 19]), Err(DecodeError::Truncated));
    assert_eq!(Message::decode(&[0; 20]), Err(DecodeError::UnknownHeaderType));
    let mut header = vec![0x00, 0x01, 0x00, 0x04];
    header.extend_from_slice(&[0; 16]);
    let mut unknown = header.clone();
    unknown.extend_from_slice(&[0x00, 0x0C, 0x00, 0x00]);
    assert_eq!(Message::decode(&unknown), Err(DecodeError::UnknownAttributeType));
    let mut wrong_size = header.clone();
    wrong_size.extend_from_slice(&[0x00, 0x03, 0x00, 0x00]);
    assert_eq!(Message::decode(&wrong_size), Err(DecodeError::LengthMismatch));
    let mut text = header.clone();
    text[3] = 5;
    text.extend_from_slice(&[0x00, 0x06, 0x00, 0x01, 0xFF]);
    assert_eq!(Message::decode(&text), Err(DecodeError::InvalidUtf8));
    let mut short = header.clone();
    short[3] = 3;
    short.extend_from_slice(&[0x00, 0x06, 0x00]);
    assert_eq!(Message::decode(&short), Err(DecodeError::LengthMismatch));
}

#[test]
fn attributes_too_long_for_the_length_field_are_not_written() {
    let half = "a".repeat(0x8000);
    let message = Message::new(
        Header::new(HeaderType::BindingRequest, [0; 16]),
        vec![
            Value::Username(Username::new(half.clone())).into_attribute(),
            Value::Username(Username::new(half)).into_attribute(),
        ],
    );
    assert_eq!(message.try_encode(), None);
    let too_long = Message::new(
        Header::new(HeaderType::BindingRequest, [0; 16]),
        vec![Value::Username(Username::new("a".repeat(0x10000))).into_attribute()],
    );
    assert_eq!(too_long.try_encode(), None);
    let fits = Message::new(
        Header::new(HeaderType::BindingRequest, [0; 16]),
        vec![Value::Username(Username::new("a".repeat(0xFFFF - 4))).into_attribute()],
    );
    let encoded = fits.try_encode().unwrap();
    assert_eq!(encoded.len(), 20 + 0xFFFF);
    assert_eq!(&encoded[2..4], &[0xFF, 0xFF]);
    assert_eq!(Message::decode(&encoded).unwrap(), fits);
}

#[test]
fn bytes_with_nothing_left_open_are_written_out_as_they_were_read() {
    let mut bytes = vec![0x01, 0x01, 0x00, 0x24];
    bytes.extend_from_slice(&[0x5A; 16]);
    bytes.extend_from_slice(&[0, 1, 0, 8, 0, 1, 0x0D, 0x96, 192, 0, 2, 33]);
    bytes.extend_from_slice(&[0, 3, 0, 4, 0, 0, 0, 2]);
    bytes.extend_from_slice(&[0, 9, 0, 6, 0, 0, 4, 20, b'n', b'o']);
    bytes.extend_from_slice(&[0, 10, 0, 2, 0x12, 0x34]);
    let message = Message::decode(&bytes).unwrap();
    assert_eq!(message.attributes.len(), 4);
    assert_eq!(message.encode(), bytes);

    // A reserved byte that is not zero is read over and written as zero.
    let mut open = bytes.clone();
    open[24] = 0xFF;
    let same = Message::decode(&open).unwrap();
    assert_eq!(same, message);
    assert_eq!(same.encode(), bytes);
}
