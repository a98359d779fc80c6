use vstd::prelude::*;
use crate::attribute::Attribute;
use crate::attribute::AttributeView;
use crate::attribute::MappedAddress;
use crate::attribute::Value;
use crate::attribute::ValueView;
use crate::error::DecodeError;
use crate::header::Header;
use crate::header::HeaderType;
use crate::net::IpAddress;
use crate::net::SocketAddress;
use crate::server::lemma_binding_flow;
use crate::server::spec_binding_response;
use crate::server::spec_handle_datagram;
use crate::server::MAX_DATAGRAM_LEN;
use crate::wire::same_array16;
use crate::Message;
use crate::MessageView;

verus! {

/// A user name and the password that goes with it.
#[allow(dead_code)]
pub struct Credential(String, String);

/// Why a reply gave no mapped address.
#[derive(Debug, Clone, Copy, PartialEq, Eq, Structural)]
pub enum ClientError {
    /// The reply is no message.
    Malformed(DecodeError),
    /// The reply carries another transaction identifier than the request.
    TransactionMismatch,
    /// The reply holds no mapped address.
    NoMappedAddress,
}

/// What probes a server: the four addresses under which the server can be
/// reached.
pub struct Client {
    addrs: [SocketAddress; 4],
    #[allow(dead_code)]
    credential: Option<Credential>,
}

/// The payload of the first attribute that is a mapped address.
pub open spec fn spec_first_mapped_address(attributes: Seq<AttributeView>) -> Option<MappedAddress>
    decreases attributes.len(),
{
    if attributes.len() == 0 {
        None
    } else {
        match attributes[0].value {
            ValueView::MappedAddress(a) => Some(a),
            _ => spec_first_mapped_address(attributes.drop_first()),
        }
    }
}

/// What a reply tells the client that sent a request with the given
/// transaction identifier.
pub open spec fn spec_mapped_address(transaction_id: [u8; 16], reply: Seq<u8>) -> Result<
    MappedAddress,
    ClientError,
> {
    match Message::spec_decode(reply) {
        Err(e) => Err(ClientError::Malformed(e)),
        Ok(message) => if message.header.transaction_id != transaction_id {
            Err(ClientError::TransactionMismatch)
        } else {
            match spec_first_mapped_address(message.attributes) {
                Some(a) => Ok(a),
                None => Err(ClientError::NoMappedAddress),
            }
        },
    }
}

/// The first mapped address is the payload of an attribute that no mapped
/// address precedes, and there is none only where no attribute is a mapped
/// address.
pub proof fn lemma_first_mapped_address(attributes: Seq<AttributeView>)
    ensures
        match spec_first_mapped_address(attributes) {
            Some(a) => exists|i: int|
                0 <= i < attributes.len() && attributes[i].value == ValueView::MappedAddress(a)
                    && forall|j: int| 0 <= j < i ==> !(attributes[j].value is MappedAddress),
            None => forall|j: int|
                0 <= j < attributes.len() ==> !(attributes[j].value is MappedAddress),
        },
    decreases attributes.len(),
{
    if attributes.len() != 0 {
        let others = attributes.drop_first();
        lemma_first_mapped_address(others);
        match attributes[0].value {
            ValueView::MappedAddress(a) => {
                assert(attributes[0].value == ValueView::MappedAddress(a));
            },
            _ => {
                match spec_first_mapped_address(others) {
                    Some(a) => {
                        let i = choose|i: int|
                            0 <= i < others.len() && others[i].value == ValueView::MappedAddress(a)
                                && forall|j: int|
                                0 <= j < i ==> !(others[j].value is MappedAddress);
                        assert(attributes[i + 1].value == ValueView::MappedAddress(a));
                        assert forall|j: int| 0 <= j < i + 1 implies !(
                        attributes[j].value is MappedAddress) by {
                            if j > 0 {
                                assert(attributes[j] == others[j - 1]);
                            }
                        }
                    },
                    None => {
                        assert forall|j: int| 0 <= j < attributes.len() implies !(
                        attributes[j].value is MappedAddress) by {
                            if j > 0 {
                                assert(attributes[j] == others[j - 1]);
                            }
                        }
                    },
                }
            },
        }
    }
}

impl Client {
    /// The addresses that the client was made with.
    pub closed spec fn spec_addrs(&self) -> [SocketAddress; 4] {
        self.addrs
    }

    /// True where the client holds a credential.
    pub closed spec fn spec_has_credential(&self) -> bool {
        self.credential is Some
    }

    /// A client for the server that is reached under `addrs`. It holds no
    /// credential.
    pub fn new(addrs: [SocketAddress; 4]) -> (r: Self)
        ensures
            r.spec_addrs() == addrs,
            !r.spec_has_credential(),
    {
        Self { addrs, credential: None }
    }

    /// The address that the client probes: the first of the four.
    pub fn server(&self) -> (r: SocketAddress)
        ensures
            r == self.spec_addrs()[0],
    {
        self.addrs[0]
    }

    /// A binding request to send: no attributes, and a transaction
    /// identifier drawn for this request.
    pub fn request(&self) -> (m: Message)
        ensures
            m.header.header_type == HeaderType::BindingRequest,
            m@.attributes == Seq::<AttributeView>::empty(),
            m@.wf(),
    {
        let header = Header::with_random_id(HeaderType::BindingRequest);
        let attributes: Vec<Attribute> = Vec::new();
        Message::new(header, attributes)
    }

    /// Reads the reply to a request that was sent with `transaction_id`: the
    /// mapped address of the first attribute that holds one, wherever among
    /// the attributes it stands, if the reply carries the transaction
    /// identifier of the request.
    pub fn mapped_address(transaction_id: &[u8; 16], reply: &[u8]) -> (r: Result<
        MappedAddress,
        ClientError,
    >)
        ensures
            r == spec_mapped_address(*transaction_id, reply@),
    {
        let message = match Message::decode(reply) {
            Ok(m) => m,
            Err(e) => {
                return Err(ClientError::Malformed(e));
            },
        };
        if !same_array16(&message.header.transaction_id, transaction_id) {
            return Err(ClientError::TransactionMismatch);
        }
        let ghost views = message@.attributes;
        let mut i: usize = 0;
        assert(views.skip(0) =~= views);
        while i < message.attributes.len()
            invariant
                i <= message.attributes@.len(),
                views == message@.attributes,
                Message::spec_decode(reply@) == Ok::<MessageView, DecodeError>(message@),
                message.header.transaction_id == *transaction_id,
                spec_first_mapped_address(views) == spec_first_mapped_address(views.skip(i as int)),
            decreases message.attributes@.len() - i,
        {
            assert(views.skip(i as int).drop_first() =~= views.skip(i + 1));
            match &message.attributes[i].value {
                Value::MappedAddress(a) => {
                    return Ok(*a);
                },
                _ => {},
            }
            i += 1;
        }
        Err(ClientError::NoMappedAddress)
    }
}

/// A client whose binding request reaches the server from an IPv4 address
/// reads, in the bytes that the server sends back, that address and port;
/// one whose request comes from any other address finds no mapped address.
pub proof fn lemma_probe_answer(src: SocketAddress, datagram: Seq<u8>)
    requires
        datagram.len() <= MAX_DATAGRAM_LEN,
        Message::spec_decode(datagram) is Ok,
        Message::spec_decode(datagram)->Ok_0.header.header_type == HeaderType::BindingRequest,
    ensures
        ({
            let transaction_id = Message::spec_decode(datagram)->Ok_0.header.transaction_id;
            let answer = spec_handle_datagram(src, datagram);
            &&& answer is Ok
            &&& spec_mapped_address(transaction_id, answer->Ok_0) == match src.ip {
                IpAddress::V4(address) => Ok::<MappedAddress, ClientError>(
                    MappedAddress { family: 1, port: src.port, address },
                ),
                IpAddress::V6(_) => Err::<MappedAddress, ClientError>(
                    ClientError::NoMappedAddress,
                ),
            }
        }),
{
    lemma_binding_flow(src, datagram);
    let transaction_id = Message::spec_decode(datagram)->Ok_0.header.transaction_id;
    let response = spec_binding_response(src, transaction_id);
    assert(response.attributes.drop_first() =~= Seq::<AttributeView>::empty());
    assert(spec_first_mapped_address(Seq::<AttributeView>::empty()) is None);
}

} // verus!
