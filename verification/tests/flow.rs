use stun::attribute::ChangeRequest;
use stun::attribute::ErrorCode;
use stun::attribute::MappedAddress;
use stun::attribute::Username;
use stun::attribute::Value;
use stun::client::Client;
use stun::client::ClientError;
use stun::error::DecodeError;
use stun::header::Header;
use stun::header::HeaderType;
use stun::net::IpAddress;
use stun::net::Ipv4Address;
use stun::net::SocketAddress;
use stun::server::handle_datagram;
use stun::server::Request;
use stun::server::ServerError;
use stun::Message;

fn v4(a: u8, b: u8, c: u8, d: u8, port: u16) -> SocketAddress {
    SocketAddress::new(IpAddress::V4(Ipv4Address::new(a, b, c, d)), port)
}

fn v6(port: u16) -> SocketAddress {
    SocketAddress::new(IpAddress::V6([0, 0, 0, 0, 0, 0, 0, 0, 0, 0, 0, 0, 0, 0, 0, 1]), port)
}

fn binding_request(transaction_id: [u8; 16]) -> Vec<u8> {
    Message::new(Header::new(HeaderType::BindingRequest, transaction_id), vec![]).encode()
}

#[test]
fn a_binding_request_from_ipv4_gets_its_mapped_address() {
    let answer = handle_datagram(v4(198, 51, 100, 9, 40000), &binding_request([0x42; 16])).unwrap();
    let mut expected = vec![0x01, 0x01, 0x00, 0x0C];
    expected.extend_from_slice(&[0x42; 16]);
    expected.extend_from_slice(&[0, 1, 0, 8, 0, 1, 0x9C, 0x40, 198, 51, 100, 9]);
    assert_eq!(answer, expected);

    let response = Message::decode(&answer).unwrap();
    assert_eq!(response.header.header_type, HeaderType::BindingResponse);
    assert_eq!(response.header.transaction_id, [0x42; 16]);
    assert_eq!(response.attributes.len(), 1);
    assert_eq!(
        response.attributes[0].value,
        Value::MappedAddress(MappedAddress::new(1, 40000, Ipv4Address::new(198, 51, 100, 9)))
    );
}

#[test]
fn a_binding_request_from_another_family_gets_an_error() {
    let answer = handle_datagram(v6(40000), &binding_request([0x17; 16])).unwrap();
    let mut expected = vec![0x01, 0x11, 0x00, 0x11];
    expected.extend_from_slice(&[0x17; 16]);
    expected.extend_from_slice(&[0, 9, 0, 13, 0, 0, 4, 0]);
    expected.extend_from_slice(b"ipv4 only");
    assert_eq!(answer, expected);

    let response = Message::decode(&answer).unwrap();
    assert_eq!(response.header.header_type, HeaderType::BindingErrorResponse);
    assert_eq!(response.header.transaction_id, [0x17; 16]);
    assert_eq!(response.attributes.len(), 1);
    assert_eq!(
        response.attributes[0].value,
        Value::ErrorCode(ErrorCode::new(400, "ipv4 only".to_string()))
    );
}

#[test]
fn handle_binding_echoes_the_transaction_identifier() {
    let request = Message::new(
        Header::new(HeaderType::BindingRequest, [6; 16]),
        vec![Value::ChangeRequest(ChangeRequest::new(true, true)).into_attribute()],
    );
    let response = Request::new(v4(1, 2, 3, 4, 5)).handle_binding(request);
    assert_eq!(response.header, Header::new(HeaderType::BindingResponse, [6; 16]));
    assert_eq!(
        response.attributes,
        vec![Value::MappedAddress(MappedAddress::new(1, 5, Ipv4Address::new(1, 2, 3, 4)))
            .into_attribute()]
    );
}

#[test]
fn dispatch_goes_by_the_class() {
    let request = Request::new(v4(1, 2, 3, 4, 5));
    assert_eq!(request.src, v4(1, 2, 3, 4, 5));
    let shared = Message::new(Header::new(HeaderType::SharedSecretRequest, [0; 16]), vec![]);
    assert_eq!(request.dispatch(shared), Err(ServerError::Unimplemented));
    for class in [
        HeaderType::BindingResponse,
        HeaderType::BindingErrorResponse,
        HeaderType::SharedSecretResponse,
        HeaderType::SharedSecretErrorResponse,
    ] {
        let message = Message::new(Header::new(class, [0; 16]), vec![]);
        assert_eq!(request.dispatch(message), Err(ServerError::InvalidRequest));
    }
    let binding = Message::new(Header::new(HeaderType::BindingRequest, [8; 16]), vec![]);
    let response = request.dispatch(binding).unwrap();
    assert_eq!(response.header.header_type, HeaderType::BindingResponse);
    assert_eq!(response.header.transaction_id, [8; 16]);
}

#[test]
fn datagrams_that_get_no_response() {
    let src = v4(10, 0, 0, 1, 1234);
    assert_eq!(handle_datagram(src, &[]), Err(ServerError::Malformed(DecodeError::Truncated)));
    assert_eq!(
        handle_datagram(src, &[0xFF; 20]),
        Err(ServerError::Malformed(DecodeError::UnknownHeaderType))
    );
    assert_eq!(handle_datagram(src, &[0; 1025]), Err(ServerError::RequestTooBig));
    assert_eq!(
        handle_datagram(src, &[0; 1024]),
        Err(ServerError::Malformed(DecodeError::UnknownHeaderType))
    );
    let shared = Message::new(Header::new(HeaderType::SharedSecretRequest, [0; 16]), vec![]);
    assert_eq!(handle_datagram(src, &shared.encode()), Err(ServerError::Unimplemented));
    let response = Message::new(Header::new(HeaderType::BindingResponse, [0; 16]), vec![]);
    assert_eq!(handle_datagram(src, &response.encode()), Err(ServerError::InvalidRequest));
}

#[test]
fn two_requests_each_get_their_own_answer() {
    let first_src = v4(192, 0, 2, 1, 1111);
    let second_src = v4(192, 0, 2, 2, 2222);
    let first = handle_datagram(first_src, &binding_request([1; 16])).unwrap();
    let second = handle_datagram(second_src, &binding_request([2; 16])).unwrap();
    let first_again = handle_datagram(first_src, &binding_request([1; 16])).unwrap();
    assert_eq!(first, first_again);

    let first = Message::decode(&first).unwrap();
    let second = Message::decode(&second).unwrap();
    assert_eq!(first.header.transaction_id, [1; 16]);
    assert_eq!(second.header.transaction_id, [2; 16]);
    assert_eq!(
        first.attributes[0].value,
        Value::MappedAddress(MappedAddress::new(1, 1111, Ipv4Address::new(192, 0, 2, 1)))
    );
    assert_eq!(
        second.attributes[0].value,
        Value::MappedAddress(MappedAddress::new(1, 2222, Ipv4Address::new(192, 0, 2, 2)))
    );
}

#[test]
fn the_client_probes_the_first_address() {
    let addrs = [v4(172, 19, 0, 2, 3478), v4(172, 19, 0, 2, 3479), v4(172, 19, 0, 4, 3478), v6(3479)];
    let client = Client::new(addrs);
    assert_eq!(client.server(), v4(172, 19, 0, 2, 3478));
    let request = client.request();
    assert_eq!(request.header.header_type, HeaderType::BindingRequest);
    assert_eq!(request.attributes.len(), 0);
    let bytes = request.try_encode().unwrap();
    assert_eq!(bytes.len(), 20);
    assert_eq!(&bytes[..4], &[0, 1, 0, 0]);
    assert_eq!(&bytes[4..], &request.header.transaction_id);
}

#[test]
fn the_client_reads_what_the_server_answers() {
    let client = Client::new([v4(172, 19, 0, 2, 3478); 4]);
    let request = client.request();
    let transaction_id = request.header.transaction_id;
    let answer = handle_datagram(v4(203, 0, 113, 5, 50000), &request.try_encode().unwrap()).unwrap();
    assert_eq!(
        Client::mapped_address(&transaction_id, &answer),
        Ok(MappedAddress::new(1, 50000, Ipv4Address::new(203, 0, 113, 5)))
    );
    let answer = handle_datagram(v6(50000), &request.try_encode().unwrap()).unwrap();
    assert_eq!(
        Client::mapped_address(&transaction_id, &answer),
        Err(ClientError::NoMappedAddress)
    );
}

#[test]
fn the_client_finds_the_mapped_address_wherever_it_stands() {
    let mapped = MappedAddress::new(1, 7, Ipv4Address::new(9, 9, 9, 9));
    let other = MappedAddress::new(1, 8, Ipv4Address::new(8, 8, 8, 8));
    let reply = Message::new(
        Header::new(HeaderType::BindingResponse, [4; 16]),
        vec![
            Value::Username(Username::new("u".to_string())).into_attribute(),
            Value::MappedAddress(mapped).into_attribute(),
            Value::MappedAddress(other).into_attribute(),
        ],
    );
    assert_eq!(Client::mapped_address(&[4; 16], &reply.encode()), Ok(mapped));
}

#[test]
fn the_client_rejects_what_it_cannot_trust() {
    let mapped = MappedAddress::new(1, 7, Ipv4Address::new(9, 9, 9, 9));
    let reply = Message::new(
        Header::new(HeaderType::BindingResponse, [4; 16]),
        vec![Value::MappedAddress(mapped).into_attribute()],
    );
    let bytes = reply.encode();
    let mut other_id = [4; 16];
    other_id[15] = 5;
    assert_eq!(
        Client::mapped_address(&other_id, &bytes),
        Err(ClientError::TransactionMismatch)
    );
    assert_eq!(
        Client::mapped_address(&[4; 16], &bytes[..bytes.len() - 1]),
        Err(ClientError::Malformed(DecodeError::Truncated))
    );
    let empty = Message::new(Header::new(HeaderType::BindingResponse, [4; 16]), vec![]);
    assert_eq!(
        Client::mapped_address(&[4; 16], &empty.encode()),
        Err(ClientError::NoMappedAddress)
    );
    assert_eq!(Client::mapped_address(&[4; 16], &bytes), Ok(mapped));
}
