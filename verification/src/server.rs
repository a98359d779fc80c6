use vstd::prelude::*;
use vstd::utf8::encode_utf8;
use vstd::utf8::is_ascii_chars_encode_utf8;
use crate::attribute::AttrType;
use crate::attribute::AttributeView;
use crate::attribute::ErrorCode;
use crate::attribute::ErrorCodeView;
use crate::attribute::MappedAddress;
use crate::attribute::Value;
use crate::attribute::ValueView;
use crate::attribute::FAMILY_IPV4;
use crate::error::DecodeError;
use crate::header::Header;
use crate::header::HeaderType;
use crate::lemma_encode_attributes_push;
use crate::net::IpAddress;
use crate::net::Ipv4Address;
use crate::net::SocketAddress;
use crate::spec_views;
use crate::Message;
use crate::MessageView;

verus! {

/// The longest datagram that the server reads.
pub const MAX_DATAGRAM_LEN: usize = 1024;

/// The error code that answers a request which the server cannot serve.
pub const BAD_REQUEST: u16 = 400;

/// Why a datagram gets no response.
#[derive(Debug, Clone, Copy, PartialEq, Eq, Structural)]
pub enum ServerError {
    /// The datagram is longer than the server reads.
    RequestTooBig,
    /// The datagram is no message.
    Malformed(DecodeError),
    /// The message is of a class that is no request.
    InvalidRequest,
    /// The message asks for a shared secret, which this server does not
    /// hand out.
    Unimplemented,
}

/// The attribute that tells a client the address it was seen at.
pub open spec fn spec_mapped_address_attribute(address: Ipv4Address, port: u16) -> AttributeView {
    AttributeView {
        attr_type: AttrType::MappedAddress,
        value: ValueView::MappedAddress(MappedAddress { family: FAMILY_IPV4, port, address }),
    }
}

/// The attribute that tells a client that only IPv4 is served.
pub open spec fn spec_ipv4_only_attribute() -> AttributeView {
    AttributeView {
        attr_type: AttrType::ErrorCode,
        value: ValueView::ErrorCode(ErrorCodeView { code: BAD_REQUEST, reason: "ipv4 only"@ }),
    }
}

/// The response to a binding request with the given transaction identifier
/// that came from `src`: to an IPv4 source its own address and port, to any
/// other source an error.
pub open spec fn spec_binding_response(src: SocketAddress, transaction_id: [u8; 16]) -> MessageView {
    match src.ip {
        IpAddress::V4(address) => MessageView {
            header: Header { header_type: HeaderType::BindingResponse, transaction_id },
            attributes: seq![spec_mapped_address_attribute(address, src.port)],
        },
        IpAddress::V6(_) => MessageView {
            header: Header { header_type: HeaderType::BindingErrorResponse, transaction_id },
            attributes: seq![spec_ipv4_only_attribute()],
        },
    }
}

/// The response to a message that came from `src`, or why there is none.
pub open spec fn spec_dispatch(src: SocketAddress, message: MessageView) -> Result<
    MessageView,
    ServerError,
> {
    match message.header.header_type {
        HeaderType::BindingRequest => Ok(
            spec_binding_response(src, message.header.transaction_id),
        ),
        HeaderType::SharedSecretRequest => Err(ServerError::Unimplemented),
        _ => Err(ServerError::InvalidRequest),
    }
}

/// The bytes that answer a datagram that came from `src`, or why there are
/// none.
pub open spec fn spec_handle_datagram(src: SocketAddress, bytes: Seq<u8>) -> Result<
    Seq<u8>,
    ServerError,
> {
    if bytes.len() > MAX_DATAGRAM_LEN {
        Err(ServerError::RequestTooBig)
    } else {
        match Message::spec_decode(bytes) {
            Err(e) => Err(ServerError::Malformed(e)),
            Ok(message) => match spec_dispatch(src, message) {
                Err(e) => Err(e),
                Ok(response) => Ok(Message::spec_encode(response)),
            },
        }
    }
}

/// The reason phrase of the error takes nine bytes.
proof fn lemma_ipv4_only_len()
    ensures
        encode_utf8("ipv4 only"@).len() == 9,
{
    reveal_strlit("ipv4 only");
    is_ascii_chars_encode_utf8("ipv4 only"@);
}

/// Each response to a binding request can be sent and read back.
pub proof fn lemma_binding_response_wf(src: SocketAddress, transaction_id: [u8; 16])
    ensures
        spec_binding_response(src, transaction_id).wf(),
{
    let response = spec_binding_response(src, transaction_id);
    let a = response.attributes[0];
    lemma_ipv4_only_len();
    lemma_encode_attributes_push(Seq::empty(), a);
}

/// A datagram as the server sees it: where it came from.
#[derive(Debug, Clone, Copy, PartialEq, Eq)]
pub struct Request {
    pub src: SocketAddress,
}

impl Request {
    /// A datagram that came from `src`.
    pub fn new(src: SocketAddress) -> (r: Self)
        ensures
            r.src == src,
    {
        Self { src }
    }

    /// Answers a message according to its class: a binding request gets its
    /// response, anything else an error.
    pub fn dispatch(&self, message: Message) -> (r: Result<Message, ServerError>)
        ensures
            match r {
                Ok(m) => spec_dispatch(self.src, message@) == Ok::<MessageView, ServerError>(m@),
                Err(e) => spec_dispatch(self.src, message@) == Err::<MessageView, ServerError>(e),
            },
            r matches Ok(m) ==> m@.wf(),
    {
        match message.header.header_type {
            HeaderType::BindingRequest => Ok(self.handle_binding(message)),
            HeaderType::SharedSecretRequest => Err(ServerError::Unimplemented),
            _ => Err(ServerError::InvalidRequest),
        }
    }

    /// The response to a binding request. It carries the transaction
    /// identifier of the request. To an IPv4 source it is a success with one
    /// attribute, the mapped address, which holds the source's address and
    /// port; to any other source it is an error with one attribute, the
    /// error code.
    pub fn handle_binding(&self, message: Message) -> (out: Message)
        ensures
            out@ == spec_binding_response(self.src, message.header.transaction_id),
            out@.wf(),
            out.header.transaction_id == message.header.transaction_id,
    {
        let tx_id = message.header.transaction_id;
        proof {
            lemma_binding_response_wf(self.src, tx_id);
        }
        let ip = match self.src.ip {
            IpAddress::V4(v4) => v4,
            _ => {
                let header = Header::new(HeaderType::BindingErrorResponse, tx_id);
                let err = Value::ErrorCode(ErrorCode::new(BAD_REQUEST, "ipv4 only".to_owned()));
                let attributes = vec![err.into_attribute()];
                assert(spec_views(attributes@) =~= seq![spec_ipv4_only_attribute()]);
                return Message::new(header, attributes);
            },
        };

        let header = Header::new(HeaderType::BindingResponse, tx_id);
        let mapped = Value::MappedAddress(MappedAddress::new(FAMILY_IPV4, self.src.port, ip));
        let attributes = vec![mapped.into_attribute()];
        assert(spec_views(attributes@) =~= seq![spec_mapped_address_attribute(ip, self.src.port)]);
        Message::new(header, attributes)
    }
}

/// Answers one datagram that came from `src`: the bytes to send back to
/// `src`, or the reason why nothing is sent. A datagram is answered from
/// what it holds and where it came from, and from nothing else.
pub fn handle_datagram(src: SocketAddress, data: &[u8]) -> (r: Result<Vec<u8>, ServerError>)
    ensures
        match r {
            Ok(out) => spec_handle_datagram(src, data@) == Ok::<Seq<u8>, ServerError>(out@),
            Err(e) => spec_handle_datagram(src, data@) == Err::<Seq<u8>, ServerError>(e),
        },
{
    if data.len() > MAX_DATAGRAM_LEN {
        return Err(ServerError::RequestTooBig);
    }
    let message = match Message::decode(data) {
        Ok(m) => m,
        Err(e) => {
            return Err(ServerError::Malformed(e));
        },
    };
    let request = Request::new(src);
    match request.dispatch(message) {
        Ok(response) => Ok(response.encode()),
        Err(e) => Err(e),
    }
}

/// A datagram that is a binding request, and no longer than the server
/// reads, is answered with the response to a binding request: it carries the
/// transaction identifier of the request; to an IPv4 source it is a success
/// whose one attribute is the mapped address with family 1 and the source's
/// port and address, to any other source an error whose one attribute is the
/// error code 400 with the reason "ipv4 only". The bytes sent back read as
/// that response.
pub proof fn lemma_binding_flow(src: SocketAddress, datagram: Seq<u8>)
    requires
        datagram.len() <= MAX_DATAGRAM_LEN,
        Message::spec_decode(datagram) is Ok,
        Message::spec_decode(datagram)->Ok_0.header.header_type == HeaderType::BindingRequest,
    ensures
        ({
            let transaction_id = Message::spec_decode(datagram)->Ok_0.header.transaction_id;
            let response = spec_binding_response(src, transaction_id);
            &&& spec_handle_datagram(src, datagram) == Ok::<Seq<u8>, ServerError>(
                Message::spec_encode(response),
            )
            &&& Message::spec_decode(Message::spec_encode(response)) == Ok::<
                MessageView,
                DecodeError,
            >(response)
            &&& response.header.transaction_id == transaction_id
            &&& match src.ip {
                IpAddress::V4(address) => {
                    &&& response.header.header_type == HeaderType::BindingResponse
                    &&& response.attributes == seq![
                        AttributeView {
                            attr_type: AttrType::MappedAddress,
                            value: ValueView::MappedAddress(
                                MappedAddress { family: 1, port: src.port, address },
                            ),
                        },
                    ]
                },
                IpAddress::V6(_) => {
                    &&& response.header.header_type == HeaderType::BindingErrorResponse
                    &&& response.attributes == seq![
                        AttributeView {
                            attr_type: AttrType::ErrorCode,
                            value: ValueView::ErrorCode(
                                ErrorCodeView { code: 400, reason: "ipv4 only"@ },
                            ),
                        },
                    ]
                },
            }
        }),
{
    let transaction_id = Message::spec_decode(datagram)->Ok_0.header.transaction_id;
    let response = spec_binding_response(src, transaction_id);
    lemma_binding_response_wf(src, transaction_id);
    Message::lemma_round_trip(response);
}

/// Two datagrams that are binding requests with different transaction
/// identifiers, from whatever sources and on whatever sockets, are each
/// answered with their own transaction identifier, not the other's, and with
/// what their own source gives.
pub proof fn lemma_requests_independent(
    src1: SocketAddress,
    datagram1: Seq<u8>,
    src2: SocketAddress,
    datagram2: Seq<u8>,
)
    requires
        datagram1.len() <= MAX_DATAGRAM_LEN,
        datagram2.len() <= MAX_DATAGRAM_LEN,
        Message::spec_decode(datagram1) is Ok,
        Message::spec_decode(datagram2) is Ok,
        Message::spec_decode(datagram1)->Ok_0.header.header_type == HeaderType::BindingRequest,
        Message::spec_decode(datagram2)->Ok_0.header.header_type == HeaderType::BindingRequest,
        Message::spec_decode(datagram1)->Ok_0.header.transaction_id != Message::spec_decode(
            datagram2,
        )->Ok_0.header.transaction_id,
    ensures
        ({
            let id1 = Message::spec_decode(datagram1)->Ok_0.header.transaction_id;
            let id2 = Message::spec_decode(datagram2)->Ok_0.header.transaction_id;
            let answer1 = spec_handle_datagram(src1, datagram1);
            let answer2 = spec_handle_datagram(src2, datagram2);
            &&& answer1 is Ok
            &&& answer2 is Ok
            &&& Message::spec_decode(answer1->Ok_0) == Ok::<MessageView, DecodeError>(
                spec_binding_response(src1, id1),
            )
            &&& Message::spec_decode(answer2->Ok_0) == Ok::<MessageView, DecodeError>(
                spec_binding_response(src2, id2),
            )
            &&& spec_binding_response(src1, id1).header.transaction_id == id1
            &&& spec_binding_response(src2, id2).header.transaction_id == id2
            &&& spec_binding_response(src1, id1).header.transaction_id != id2
            &&& spec_binding_response(src2, id2).header.transaction_id != id1
        }),
{
    lemma_binding_flow(src1, datagram1);
    lemma_binding_flow(src2, datagram2);
}

} // verus!
