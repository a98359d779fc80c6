use vstd::prelude::*;
use crate::error::DecodeError;
use crate::wire::from_be16;
use crate::wire::read_be16;

verus! {

/// The class of a message.
#[derive(Debug, Clone, Copy, PartialEq, Eq, Structural)]
pub enum HeaderType {
    BindingRequest,
    BindingResponse,
    BindingErrorResponse,
    SharedSecretRequest,
    SharedSecretResponse,
    SharedSecretErrorResponse,
}

impl HeaderType {
    /// The number that stands for the class on the wire.
    pub open spec fn spec_to_u16(self) -> u16 {
        match self {
            HeaderType::BindingRequest => 0x0001,
            HeaderType::BindingResponse => 0x0101,
            HeaderType::BindingErrorResponse => 0x0111,
            HeaderType::SharedSecretRequest => 0x0002,
            HeaderType::SharedSecretResponse => 0x0102,
            HeaderType::SharedSecretErrorResponse => 0x0112,
        }
    }

    /// The class that `value` stands for, where there is one.
    pub open spec fn spec_from_u16(value: u16) -> Result<HeaderType, DecodeError> {
        match value {
            0x0001 => Ok(HeaderType::BindingRequest),
            0x0101 => Ok(HeaderType::BindingResponse),
            0x0111 => Ok(HeaderType::BindingErrorResponse),
            0x0002 => Ok(HeaderType::SharedSecretRequest),
            0x0102 => Ok(HeaderType::SharedSecretResponse),
            0x0112 => Ok(HeaderType::SharedSecretErrorResponse),
            _ => Err(DecodeError::UnknownHeaderType),
        }
    }

    /// Each class is the one that its own number stands for.
    pub proof fn lemma_from_to(t: HeaderType)
        ensures
            Self::spec_from_u16(t.spec_to_u16()) == Ok::<HeaderType, DecodeError>(t),
    {
    }

    /// A number that stands for a class is that class's number, and a number
    /// that stands for none is no class's number.
    pub proof fn lemma_to_from(value: u16)
        ensures
            match Self::spec_from_u16(value) {
                Ok(t) => t.spec_to_u16() == value,
                Err(e) => e == DecodeError::UnknownHeaderType && forall|t: HeaderType|
                    t.spec_to_u16() != value,
            },
    {
    }

    /// The number that stands for the class on the wire.
    pub fn to_u16(self) -> (v: u16)
        ensures
            v == self.spec_to_u16(),
    {
        match self {
            HeaderType::BindingRequest => 0x0001,
            HeaderType::BindingResponse => 0x0101,
            HeaderType::BindingErrorResponse => 0x0111,
            HeaderType::SharedSecretRequest => 0x0002,
            HeaderType::SharedSecretResponse => 0x0102,
            HeaderType::SharedSecretErrorResponse => 0x0112,
        }
    }

    /// The class that two bytes of a header stand for, the first byte being
    /// the more significant, or an error where they stand for none.
    pub fn from_be_bytes(bytes: [u8; 2]) -> (r: Result<Self, DecodeError>)
        ensures
            r == Self::spec_from_u16(from_be16(bytes[0], bytes[1])),
    {
        Self::from_u16(read_be16(bytes[0], bytes[1]))
    }

    /// The class that `value` stands for, or an error where it stands for
    /// none.
    pub fn from_u16(value: u16) -> (r: Result<Self, DecodeError>)
        ensures
            r == Self::spec_from_u16(value),
            match r {
                Ok(t) => t.spec_to_u16() == value,
                Err(e) => e == DecodeError::UnknownHeaderType && forall|t: HeaderType|
                    t.spec_to_u16() != value,
            },
    {
        proof {
            Self::lemma_to_from(value);
        }
        match value {
            0x0001 => Ok(HeaderType::BindingRequest),
            0x0101 => Ok(HeaderType::BindingResponse),
            0x0111 => Ok(HeaderType::BindingErrorResponse),
            0x0002 => Ok(HeaderType::SharedSecretRequest),
            0x0102 => Ok(HeaderType::SharedSecretResponse),
            0x0112 => Ok(HeaderType::SharedSecretErrorResponse),
            _ => Err(DecodeError::UnknownHeaderType),
        }
    }
}

/// What every message starts with: its class and the identifier that ties a
/// response to its request.
#[derive(Debug, Clone, Copy, PartialEq, Eq)]
pub struct Header {
    pub header_type: HeaderType,
    pub transaction_id: [u8; 16],
}

/// `rand::random` for sixteen bytes. Nothing is claimed of the bytes: each
/// call draws them afresh from the thread's generator. The generator is
/// seeded from the operating system on a thread's first call and stops the
/// program if the system gives it no seed.
#[verifier::external_body]
fn random_transaction_id() -> (id: [u8; 16]) {
    rand::random()
}

impl Header {
    /// The header of the given class and transaction identifier.
    pub fn new(header_type: HeaderType, transaction_id: [u8; 16]) -> (r: Self)
        ensures
            r == (Header { header_type, transaction_id }),
    {
        Self { header_type, transaction_id }
    }

    /// A header of the given class with a transaction identifier drawn at
    /// random for it.
    pub fn with_random_id(header_type: HeaderType) -> (r: Self)
        ensures
            r.header_type == header_type,
    {
        let transaction_id: [u8; 16] = random_transaction_id();
        Self::new(header_type, transaction_id)
    }
}

} // verus!
