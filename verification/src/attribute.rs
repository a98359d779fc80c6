use vstd::prelude::*;
use vstd::slice::slice_subrange;
use vstd::utf8::encode_utf8;
use crate::error::DecodeError;
use crate::net::Ipv4Address;
use crate::text::decode_text;
use crate::text::encode_text;
use crate::text::lemma_text_canonical;
use crate::text::lemma_text_round_trip;
use crate::text::spec_decode_text;
use crate::wire::array20;
use crate::wire::be16;
use crate::wire::from_be16;
use crate::wire::lemma_array20;
use crate::wire::lemma_from_be16_round_trip;
use crate::wire::push_all;
use crate::wire::push_be16;
use crate::wire::read_be16;

verus! {

/// The type of an attribute.
#[derive(Debug, Clone, Copy, PartialEq, Eq, Structural)]
pub enum AttrType {
    MappedAddress,
    ResponseAddress,
    ChangeRequest,
    SourceAddress,
    ChangedAddress,
    Username,
    Password,
    MessageIntegrity,
    ErrorCode,
    UnknownAttributes,
    ReflectedFrom,
}

impl AttrType {
    /// The number that stands for the type on the wire.
    pub open spec fn spec_to_u16(self) -> u16 {
        match self {
            AttrType::MappedAddress => 0x0001,
            AttrType::ResponseAddress => 0x0002,
            AttrType::ChangeRequest => 0x0003,
            AttrType::SourceAddress => 0x0004,
            AttrType::ChangedAddress => 0x0005,
            AttrType::Username => 0x0006,
            AttrType::Password => 0x0007,
            AttrType::MessageIntegrity => 0x0008,
            AttrType::ErrorCode => 0x0009,
            AttrType::UnknownAttributes => 0x000A,
            AttrType::ReflectedFrom => 0x000B,
        }
    }

    /// The type that `value` stands for, where there is one.
    pub open spec fn spec_from_u16(value: u16) -> Result<AttrType, DecodeError> {
        match value {
            0x0001 => Ok(AttrType::MappedAddress),
            0x0002 => Ok(AttrType::ResponseAddress),
            0x0003 => Ok(AttrType::ChangeRequest),
            0x0004 => Ok(AttrType::SourceAddress),
            0x0005 => Ok(AttrType::ChangedAddress),
            0x0006 => Ok(AttrType::Username),
            0x0007 => Ok(AttrType::Password),
            0x0008 => Ok(AttrType::MessageIntegrity),
            0x0009 => Ok(AttrType::ErrorCode),
            0x000A => Ok(AttrType::UnknownAttributes),
            0x000B => Ok(AttrType::ReflectedFrom),
            _ => Err(DecodeError::UnknownAttributeType),
        }
    }

    /// Each type is the one that its own number stands for.
    pub proof fn lemma_from_to(t: AttrType)
        ensures
            Self::spec_from_u16(t.spec_to_u16()) == Ok::<AttrType, DecodeError>(t),
    {
    }

    /// A number that stands for a type is that type's number, and a number
    /// that stands for none is no type's number.
    pub proof fn lemma_to_from(value: u16)
        ensures
            match Self::spec_from_u16(value) {
                Ok(t) => t.spec_to_u16() == value,
                Err(e) => e == DecodeError::UnknownAttributeType && forall|t: AttrType|
                    t.spec_to_u16() != value,
            },
    {
    }

    /// The number that stands for the type on the wire.
    pub fn to_u16(self) -> (v: u16)
        ensures
            v == self.spec_to_u16(),
    {
        match self {
            AttrType::MappedAddress => 0x0001,
            AttrType::ResponseAddress => 0x0002,
            AttrType::ChangeRequest => 0x0003,
            AttrType::SourceAddress => 0x0004,
            AttrType::ChangedAddress => 0x0005,
            AttrType::Username => 0x0006,
            AttrType::Password => 0x0007,
            AttrType::MessageIntegrity => 0x0008,
            AttrType::ErrorCode => 0x0009,
            AttrType::UnknownAttributes => 0x000A,
            AttrType::ReflectedFrom => 0x000B,
        }
    }

    /// The type that two bytes of an attribute stand for, the first byte
    /// being the more significant, or an error where they stand for none.
    pub fn from_be_bytes(bytes: [u8; 2]) -> (r: Result<AttrType, DecodeError>)
        ensures
            r == Self::spec_from_u16(from_be16(bytes[0], bytes[1])),
    {
        AttrType::from_u16(read_be16(bytes[0], bytes[1]))
    }

    /// The type that `value` stands for, or an error where it stands for
    /// none.
    pub fn from_u16(value: u16) -> (r: Result<AttrType, DecodeError>)
        ensures
            r == Self::spec_from_u16(value),
            match r {
                Ok(t) => t.spec_to_u16() == value,
                Err(e) => e == DecodeError::UnknownAttributeType && forall|t: AttrType|
                    t.spec_to_u16() != value,
            },
    {
        proof {
            Self::lemma_to_from(value);
        }
        match value {
            0x0001 => Ok(AttrType::MappedAddress),
            0x0002 => Ok(AttrType::ResponseAddress),
            0x0003 => Ok(AttrType::ChangeRequest),
            0x0004 => Ok(AttrType::SourceAddress),
            0x0005 => Ok(AttrType::ChangedAddress),
            0x0006 => Ok(AttrType::Username),
            0x0007 => Ok(AttrType::Password),
            0x0008 => Ok(AttrType::MessageIntegrity),
            0x0009 => Ok(AttrType::ErrorCode),
            0x000A => Ok(AttrType::UnknownAttributes),
            0x000B => Ok(AttrType::ReflectedFrom),
            _ => Err(DecodeError::UnknownAttributeType),
        }
    }
}

/// The length of the payload of an address-shaped attribute.
pub const ADDRESS_LEN: usize = 8;

/// The only address family there is: IPv4.
pub const FAMILY_IPV4: u8 = 1;

/// The payload of an address-shaped attribute: a zero byte, the family, the
/// port and the four octets of the address.
pub open spec fn spec_encode_address(family: u8, port: u16, address: Ipv4Address) -> Seq<u8> {
    seq![0u8, family] + be16(port) + address.octets@
}

/// The family that an address-shaped payload names.
pub open spec fn spec_family(bytes: Seq<u8>) -> u8 {
    bytes[1]
}

/// The port that an address-shaped payload names.
pub open spec fn spec_port(bytes: Seq<u8>) -> u16 {
    from_be16(bytes[2], bytes[3])
}

/// The address that an address-shaped payload names.
pub open spec fn spec_address(bytes: Seq<u8>) -> Ipv4Address {
    Ipv4Address { octets: [bytes[4], bytes[5], bytes[6], bytes[7]] }
}

/// An address-shaped payload names what it was made of.
pub proof fn lemma_address_round_trip(family: u8, port: u16, address: Ipv4Address)
    ensures
        spec_encode_address(family, port, address).len() == ADDRESS_LEN,
        spec_family(spec_encode_address(family, port, address)) == family,
        spec_port(spec_encode_address(family, port, address)) == port,
        spec_address(spec_encode_address(family, port, address)) == address,
{
    let bytes = spec_encode_address(family, port, address);
    assert(spec_address(bytes).octets == address.octets);
}

/// Writes out the payload of an address-shaped attribute.
fn encode_address(family: u8, port: u16, address: &Ipv4Address) -> (out: Vec<u8>)
    ensures
        out@ == spec_encode_address(family, port, *address),
{
    let mut buf: Vec<u8> = Vec::new();
    buf.push(0);
    buf.push(family);
    push_be16(&mut buf, port);
    push_all(&mut buf, address.octets.as_slice());
    buf
}

/// Reads what an address-shaped payload names from exactly the bytes of
/// `data`.
fn decode_address(data: &[u8]) -> (r: Result<(u8, u16, Ipv4Address), DecodeError>)
    ensures
        data@.len() == ADDRESS_LEN ==> r == Ok::<(u8, u16, Ipv4Address), DecodeError>(
            (spec_family(data@), spec_port(data@), spec_address(data@)),
        ),
        data@.len() != ADDRESS_LEN ==> r == Err::<(u8, u16, Ipv4Address), DecodeError>(
            DecodeError::LengthMismatch,
        ),
{
    if data.len() != ADDRESS_LEN {
        return Err(DecodeError::LengthMismatch);
    }
    let family: u8 = data[1];
    let port: u16 = read_be16(data[2], data[3]);
    let address = Ipv4Address { octets: [data[4], data[5], data[6], data[7]] };
    Ok((family, port, address))
}

/// The payload of the mapped-address attribute.
#[derive(Debug, Clone, Copy, PartialEq, Eq)]
pub struct MappedAddress {
    pub family: u8,
    pub port: u16,
    pub address: Ipv4Address,
}

impl MappedAddress {
    /// The bytes of the payload: a zero byte, the family, the port and the
    /// address.
    pub open spec fn spec_encode(self) -> Seq<u8> {
        spec_encode_address(self.family, self.port, self.address)
    }

    /// The payload that `bytes` are: eight bytes, of which the first is not
    /// looked at. Any other number of bytes is a length mismatch.
    pub open spec fn spec_decode(bytes: Seq<u8>) -> Result<MappedAddress, DecodeError> {
        if bytes.len() == ADDRESS_LEN {
            Ok(
                MappedAddress {
                    family: spec_family(bytes),
                    port: spec_port(bytes),
                    address: spec_address(bytes),
                },
            )
        } else {
            Err(DecodeError::LengthMismatch)
        }
    }

    /// The payload that names the given family, port and address.
    pub fn new(family: u8, port: u16, address: Ipv4Address) -> (r: Self)
        ensures
            r == (MappedAddress { family, port, address }),
    {
        MappedAddress { family, port, address }
    }

    /// Reads the payload from exactly the bytes of `data`.
    pub fn decode(data: &[u8]) -> (r: Result<MappedAddress, DecodeError>)
        ensures
            r == Self::spec_decode(data@),
    {
        match decode_address(data) {
            Ok((family, port, address)) => Ok(MappedAddress::new(family, port, address)),
            Err(e) => Err(e),
        }
    }

    /// Writes the payload out.
    pub fn encode(&self) -> (out: Vec<u8>)
        ensures
            out@ == self.spec_encode(),
    {
        encode_address(self.family, self.port, &self.address)
    }
}

/// The payload of the response-address attribute.
#[derive(Debug, Clone, Copy, PartialEq, Eq)]
pub struct ResponseAddress {
    pub family: u8,
    pub port: u16,
    pub address: Ipv4Address,
}

impl ResponseAddress {
    /// The bytes of the payload: a zero byte, the family, the port and the
    /// address.
    pub open spec fn spec_encode(self) -> Seq<u8> {
        spec_encode_address(self.family, self.port, self.address)
    }

    /// The payload that `bytes` are: eight bytes, of which the first is not
    /// looked at. Any other number of bytes is a length mismatch.
    pub open spec fn spec_decode(bytes: Seq<u8>) -> Result<ResponseAddress, DecodeError> {
        if bytes.len() == ADDRESS_LEN {
            Ok(
                ResponseAddress {
                    family: spec_family(bytes),
                    port: spec_port(bytes),
                    address: spec_address(bytes),
                },
            )
        } else {
            Err(DecodeError::LengthMismatch)
        }
    }

    /// The payload that names the given family, port and address.
    pub fn new(family: u8, port: u16, address: Ipv4Address) -> (r: Self)
        ensures
            r == (ResponseAddress { family, port, address }),
    {
        ResponseAddress { family, port, address }
    }

    /// Reads the payload from exactly the bytes of `data`.
    pub fn decode(data: &[u8]) -> (r: Result<ResponseAddress, DecodeError>)
        ensures
            r == Self::spec_decode(data@),
    {
        match decode_address(data) {
            Ok((family, port, address)) => Ok(ResponseAddress::new(family, port, address)),
            Err(e) => Err(e),
        }
    }

    /// Writes the payload out.
    pub fn encode(&self) -> (out: Vec<u8>)
        ensures
            out@ == self.spec_encode(),
    {
        encode_address(self.family, self.port, &self.address)
    }
}

/// The payload of the changed-address attribute.
#[derive(Debug, Clone, Copy, PartialEq, Eq)]
pub struct ChangedAddress {
    pub family: u8,
    pub port: u16,
    pub address: Ipv4Address,
}

impl ChangedAddress {
    /// The bytes of the payload: a zero byte, the family, the port and the
    /// address.
    pub open spec fn spec_encode(self) -> Seq<u8> {
        spec_encode_address(self.family, self.port, self.address)
    }

    /// The payload that `bytes` are: eight bytes, of which the first is not
    /// looked at. Any other number of bytes is a length mismatch.
    pub open spec fn spec_decode(bytes: Seq<u8>) -> Result<ChangedAddress, DecodeError> {
        if bytes.len() == ADDRESS_LEN {
            Ok(
                ChangedAddress {
                    family: spec_family(bytes),
                    port: spec_port(bytes),
                    address: spec_address(bytes),
                },
            )
        } else {
            Err(DecodeError::LengthMismatch)
        }
    }

    /// The payload that names the given family, port and address.
    pub fn new(family: u8, port: u16, address: Ipv4Address) -> (r: Self)
        ensures
            r == (ChangedAddress { family, port, address }),
    {
        ChangedAddress { family, port, address }
    }

    /// Reads the payload from exactly the bytes of `data`.
    pub fn decode(data: &[u8]) -> (r: Result<ChangedAddress, DecodeError>)
        ensures
            r == Self::spec_decode(data@),
    {
        match decode_address(data) {
            Ok((family, port, address)) => Ok(ChangedAddress::new(family, port, address)),
            Err(e) => Err(e),
        }
    }

    /// Writes the payload out.
    pub fn encode(&self) -> (out: Vec<u8>)
        ensures
            out@ == self.spec_encode(),
    {
        encode_address(self.family, self.port, &self.address)
    }
}

/// The payload of the source-address attribute.
#[derive(Debug, Clone, Copy, PartialEq, Eq)]
pub struct SourceAddress {
    pub family: u8,
    pub port: u16,
    pub address: Ipv4Address,
}

impl SourceAddress {
    /// The bytes of the payload: a zero byte, the family, the port and the
    /// address.
    pub open spec fn spec_encode(self) -> Seq<u8> {
        spec_encode_address(self.family, self.port, self.address)
    }

    /// The payload that `bytes` are: eight bytes, of which the first is not
    /// looked at. Any other number of bytes is a length mismatch.
    pub open spec fn spec_decode(bytes: Seq<u8>) -> Result<SourceAddress, DecodeError> {
        if bytes.len() == ADDRESS_LEN {
            Ok(
                SourceAddress {
                    family: spec_family(bytes),
                    port: spec_port(bytes),
                    address: spec_address(bytes),
                },
            )
        } else {
            Err(DecodeError::LengthMismatch)
        }
    }

    /// The payload that names the given family, port and address.
    pub fn new(family: u8, port: u16, address: Ipv4Address) -> (r: Self)
        ensures
            r == (SourceAddress { family, port, address }),
    {
        SourceAddress { family, port, address }
    }

    /// Reads the payload from exactly the bytes of `data`.
    pub fn decode(data: &[u8]) -> (r: Result<SourceAddress, DecodeError>)
        ensures
            r == Self::spec_decode(data@),
    {
        match decode_address(data) {
            Ok((family, port, address)) => Ok(SourceAddress::new(family, port, address)),
            Err(e) => Err(e),
        }
    }

    /// Writes the payload out.
    pub fn encode(&self) -> (out: Vec<u8>)
        ensures
            out@ == self.spec_encode(),
    {
        encode_address(self.family, self.port, &self.address)
    }
}

/// The payload of the reflected-from attribute.
#[derive(Debug, Clone, Copy, PartialEq, Eq)]
pub struct ReflectedFrom {
    pub family: u8,
    pub port: u16,
    pub address: Ipv4Address,
}

impl ReflectedFrom {
    /// The bytes of the payload: a zero byte, the family, the port and the
    /// address.
    pub open spec fn spec_encode(self) -> Seq<u8> {
        spec_encode_address(self.family, self.port, self.address)
    }

    /// The payload that `bytes` are: eight bytes, of which the first is not
    /// looked at. Any other number of bytes is a length mismatch.
    pub open spec fn spec_decode(bytes: Seq<u8>) -> Result<ReflectedFrom, DecodeError> {
        if bytes.len() == ADDRESS_LEN {
            Ok(
                ReflectedFrom {
                    family: spec_family(bytes),
                    port: spec_port(bytes),
                    address: spec_address(bytes),
                },
            )
        } else {
            Err(DecodeError::LengthMismatch)
        }
    }

    /// The payload that names the given family, port and address.
    pub fn new(family: u8, port: u16, address: Ipv4Address) -> (r: Self)
        ensures
            r == (ReflectedFrom { family, port, address }),
    {
        ReflectedFrom { family, port, address }
    }

    /// Reads the payload from exactly the bytes of `data`.
    pub fn decode(data: &[u8]) -> (r: Result<ReflectedFrom, DecodeError>)
        ensures
            r == Self::spec_decode(data@),
    {
        match decode_address(data) {
            Ok((family, port, address)) => Ok(ReflectedFrom::new(family, port, address)),
            Err(e) => Err(e),
        }
    }

    /// Writes the payload out.
    pub fn encode(&self) -> (out: Vec<u8>)
        ensures
            out@ == self.spec_encode(),
    {
        encode_address(self.family, self.port, &self.address)
    }
}

/// The payload of the change-request attribute: whether the response is to
/// come from another address, and whether from another port.
#[derive(Debug, Clone, Copy, PartialEq, Eq, Structural)]
pub struct ChangeRequest {
    pub change_ip: bool,
    pub change_port: bool,
}

/// The bit of the last byte that asks for another address.
pub const CHANGE_IP: u8 = 0x04;

/// The bit of the last byte that asks for another port.
pub const CHANGE_PORT: u8 = 0x02;

/// True where `byte` has the bit `flag` set, for a `flag` of one bit.
pub open spec fn spec_has_flag(byte: u8, flag: u8) -> bool {
    (byte / flag) % 2 == 1
}

impl ChangeRequest {
    /// The last byte of the payload: the bits of the flags that are set, and
    /// no others.
    pub open spec fn spec_flags(self) -> u8 {
        ((if self.change_ip { 0x04int } else { 0int }) + (if self.change_port { 0x02int } else { 0int })) as u8
    }

    /// The bytes of the payload: three zero bytes and the flags.
    pub open spec fn spec_encode(self) -> Seq<u8> {
        seq![0u8, 0u8, 0u8, self.spec_flags()]
    }

    /// The payload that `bytes` are: four bytes, of which only the two flag
    /// bits of the last are looked at. Any other number of bytes is a length
    /// mismatch.
    pub open spec fn spec_decode(bytes: Seq<u8>) -> Result<ChangeRequest, DecodeError> {
        if bytes.len() == 4 {
            Ok(
                ChangeRequest {
                    change_ip: spec_has_flag(bytes[3], CHANGE_IP),
                    change_port: spec_has_flag(bytes[3], CHANGE_PORT),
                },
            )
        } else {
            Err(DecodeError::LengthMismatch)
        }
    }

    /// The payload with the given flags.
    pub fn new(change_ip: bool, change_port: bool) -> (r: Self)
        ensures
            r == (ChangeRequest { change_ip, change_port }),
    {
        ChangeRequest { change_ip, change_port }
    }

    /// Reads the payload from exactly the bytes of `data`.
    pub fn decode(data: &[u8]) -> (r: Result<ChangeRequest, DecodeError>)
        ensures
            r == Self::spec_decode(data@),
    {
        if data.len() != 4 {
            return Err(DecodeError::LengthMismatch);
        }
        let flags: u8 = data[3];
        assert((flags & 0x04 != 0) == ((flags / 0x04) % 2 == 1) && (flags & 0x02 != 0) == ((flags
            / 0x02) % 2 == 1)) by (bit_vector);
        let change_ip = flags & CHANGE_IP != 0;
        let change_port = flags & CHANGE_PORT != 0;
        Ok(ChangeRequest { change_ip, change_port })
    }

    /// Writes the payload out.
    pub fn encode(&self) -> (out: Vec<u8>)
        ensures
            out@ == self.spec_encode(),
    {
        let mut flags: u8 = 0;
        if self.change_ip {
            flags = flags | CHANGE_IP;
        }
        if self.change_port {
            flags = flags | CHANGE_PORT;
        }
        assert((0u8 | 0x04u8) == 4 && (4u8 | 0x02u8) == 6 && (0u8 | 0x02u8) == 2) by (bit_vector);
        let mut buf: Vec<u8> = Vec::new();
        buf.push(0);
        buf.push(0);
        buf.push(0);
        buf.push(flags);
        buf
    }
}

/// The payload of the message-integrity attribute: twenty bytes that this
/// library carries and does not interpret.
#[derive(Debug, Clone, Copy, PartialEq, Eq)]
pub struct MessageIntegrity {
    pub integrity: [u8; 20],
}

impl MessageIntegrity {
    /// The bytes of the payload: the twenty bytes as they are.
    pub open spec fn spec_encode(self) -> Seq<u8> {
        self.integrity@
    }

    /// The payload that `bytes` are: twenty bytes. Any other number of bytes
    /// is a length mismatch.
    pub open spec fn spec_decode(bytes: Seq<u8>) -> Result<MessageIntegrity, DecodeError> {
        if bytes.len() == 20 {
            Ok(MessageIntegrity { integrity: array20(bytes) })
        } else {
            Err(DecodeError::LengthMismatch)
        }
    }

    /// The payload of the given twenty bytes.
    pub fn new(integrity: [u8; 20]) -> (r: Self)
        ensures
            r == (MessageIntegrity { integrity }),
    {
        MessageIntegrity { integrity }
    }

    /// Reads the payload from exactly the bytes of `data`.
    pub fn decode(data: &[u8]) -> (r: Result<MessageIntegrity, DecodeError>)
        ensures
            r == Self::spec_decode(data@),
    {
        if data.len() != 20 {
            return Err(DecodeError::LengthMismatch);
        }
        let mut integrity = [0u8; 20];
        let mut i: usize = 0;
        while i < 20
            invariant
                i <= 20,
                data@.len() == 20,
                forall|j: int| 0 <= j < i ==> integrity@[j] == data@[j],
            decreases 20 - i,
        {
            integrity[i] = data[i];
            i += 1;
        }
        assert(integrity == array20(data@));
        Ok(MessageIntegrity::new(integrity))
    }

    /// Writes the payload out.
    pub fn encode(&self) -> (out: Vec<u8>)
        ensures
            out@ == self.spec_encode(),
    {
        let mut buf: Vec<u8> = Vec::new();
        push_all(&mut buf, self.integrity.as_slice());
        buf
    }
}


/// The payload of the username attribute: text, written as UTF-8.
#[derive(Debug, PartialEq, Eq)]
pub struct Username {
    pub username: String,
}

impl View for Username {
    type V = Seq<char>;

    open spec fn view(&self) -> Seq<char> {
        self.username@
    }
}

impl Username {
    /// The bytes of the payload: the text as UTF-8, and nothing else.
    pub open spec fn spec_encode(username: Seq<char>) -> Seq<u8> {
        encode_utf8(username)
    }

    /// The text that `bytes` are, where they are UTF-8.
    pub open spec fn spec_decode(bytes: Seq<u8>) -> Result<Seq<char>, DecodeError> {
        spec_decode_text(bytes)
    }

    /// The payload of the given text.
    pub fn new(username: String) -> (r: Self)
        ensures
            r.username == username,
    {
        Username { username }
    }

    /// Reads the payload from exactly the bytes of `data`.
    pub fn decode(data: &[u8]) -> (r: Result<Username, DecodeError>)
        ensures
            match r {
                Ok(v) => Self::spec_decode(data@) == Ok::<Seq<char>, DecodeError>(v@),
                Err(e) => Self::spec_decode(data@) == Err::<Seq<char>, DecodeError>(e),
            },
    {
        match decode_text(data) {
            Ok(username) => Ok(Username::new(username)),
            Err(e) => Err(e),
        }
    }

    /// Writes the payload out.
    pub fn encode(&self) -> (out: Vec<u8>)
        ensures
            out@ == Self::spec_encode(self@),
    {
        encode_text(&self.username)
    }
}

/// The payload of the password attribute: text, written as UTF-8.
#[derive(Debug, PartialEq, Eq)]
pub struct Password {
    pub password: String,
}

impl View for Password {
    type V = Seq<char>;

    open spec fn view(&self) -> Seq<char> {
        self.password@
    }
}

impl Password {
    /// The bytes of the payload: the text as UTF-8, and nothing else.
    pub open spec fn spec_encode(password: Seq<char>) -> Seq<u8> {
        encode_utf8(password)
    }

    /// The text that `bytes` are, where they are UTF-8.
    pub open spec fn spec_decode(bytes: Seq<u8>) -> Result<Seq<char>, DecodeError> {
        spec_decode_text(bytes)
    }

    /// The payload of the given text.
    pub fn new(password: String) -> (r: Self)
        ensures
            r.password == password,
    {
        Password { password }
    }

    /// Reads the payload from exactly the bytes of `data`.
    pub fn decode(data: &[u8]) -> (r: Result<Password, DecodeError>)
        ensures
            match r {
                Ok(v) => Self::spec_decode(data@) == Ok::<Seq<char>, DecodeError>(v@),
                Err(e) => Self::spec_decode(data@) == Err::<Seq<char>, DecodeError>(e),
            },
    {
        match decode_text(data) {
            Ok(password) => Ok(Password::new(password)),
            Err(e) => Err(e),
        }
    }

    /// Writes the payload out.
    pub fn encode(&self) -> (out: Vec<u8>)
        ensures
            out@ == Self::spec_encode(self@),
    {
        encode_text(&self.password)
    }
}

/// The payload of the error-code attribute: a number, whose hundreds are the
/// error's class, and a phrase that gives the reason.
#[derive(Debug, PartialEq, Eq)]
pub struct ErrorCode {
    pub code: u16,
    pub reason: String,
}

/// An error code as a mathematical value.
pub struct ErrorCodeView {
    pub code: u16,
    pub reason: Seq<char>,
}

impl View for ErrorCode {
    type V = ErrorCodeView;

    open spec fn view(&self) -> ErrorCodeView {
        ErrorCodeView { code: self.code, reason: self.reason@ }
    }
}

impl ErrorCode {
    /// The hundreds of `code`, as far as they fit in a byte.
    pub open spec fn spec_class(code: u16) -> u8 {
        ((code / 100) % 256) as u8
    }

    /// The tens and units of `code`.
    pub open spec fn spec_number(code: u16) -> u8 {
        (code % 100) as u8
    }

    /// The code of the given class and number.
    pub open spec fn spec_code(class: u8, number: u8) -> u16 {
        (class * 100 + number) as u16
    }

    /// True where the class of `v.code` fits in its byte, so that the payload
    /// names the code.
    pub open spec fn spec_representable(v: ErrorCodeView) -> bool {
        v.code / 100 <= 255
    }

    /// The bytes of the payload: two zero bytes, the class, the number, and
    /// the reason as UTF-8.
    pub open spec fn spec_encode(v: ErrorCodeView) -> Seq<u8> {
        seq![0u8, 0u8, Self::spec_class(v.code), Self::spec_number(v.code)] + encode_utf8(v.reason)
    }

    /// The payload that `bytes` are: four bytes, of which the first two are
    /// not looked at and the other two give the code as a hundred times the
    /// class plus the number, and after them the reason as UTF-8. Fewer than
    /// four bytes are a length mismatch.
    pub open spec fn spec_decode(bytes: Seq<u8>) -> Result<ErrorCodeView, DecodeError> {
        if bytes.len() < 4 {
            Err(DecodeError::LengthMismatch)
        } else {
            match spec_decode_text(bytes.skip(4)) {
                Ok(reason) => Ok(ErrorCodeView { code: Self::spec_code(bytes[2], bytes[3]), reason }),
                Err(e) => Err(e),
            }
        }
    }

    /// The payload of the given code and reason.
    pub fn new(code: u16, reason: String) -> (r: Self)
        ensures
            r.code == code,
            r.reason == reason,
    {
        ErrorCode { code, reason }
    }

    /// Reads the payload from exactly the bytes of `data`.
    pub fn decode(data: &[u8]) -> (r: Result<ErrorCode, DecodeError>)
        ensures
            match r {
                Ok(v) => Self::spec_decode(data@) == Ok::<ErrorCodeView, DecodeError>(v@),
                Err(e) => Self::spec_decode(data@) == Err::<ErrorCodeView, DecodeError>(e),
            },
    {
        if data.len() < 4 {
            return Err(DecodeError::LengthMismatch);
        }
        let class: u8 = data[2];
        let number: u8 = data[3];
        let code: u16 = (class as u16) * 100 + (number as u16);
        let rest = slice_subrange(data, 4, data.len());
        match decode_text(rest) {
            Ok(reason) => Ok(ErrorCode::new(code, reason)),
            Err(e) => Err(e),
        }
    }

    /// Writes the payload out.
    pub fn encode(&self) -> (out: Vec<u8>)
        ensures
            out@ == Self::spec_encode(self@),
    {
        let mut buf: Vec<u8> = Vec::new();
        buf.push(0);
        buf.push(0);
        buf.push(self.class());
        buf.push(self.number());
        let reason = encode_text(&self.reason);
        push_all(&mut buf, reason.as_slice());
        buf
    }

    /// The byte that stands for the hundreds of the code.
    pub fn class(&self) -> (r: u8)
        ensures
            r == Self::spec_class(self.code),
    {
        ((self.code / 100) % 256) as u8
    }

    /// The byte that stands for the tens and units of the code.
    pub fn number(&self) -> (r: u8)
        ensures
            r == Self::spec_number(self.code),
    {
        (self.code % 100) as u8
    }
}

/// The payload of the unknown-attributes attribute: the numbers of the
/// attribute types that a receiver did not understand.
#[derive(Debug, PartialEq, Eq)]
pub struct UnknownAttributes {
    pub attributes: Vec<u16>,
}

impl View for UnknownAttributes {
    type V = Seq<u16>;

    open spec fn view(&self) -> Seq<u16> {
        self.attributes@
    }
}

impl UnknownAttributes {
    /// The bytes of the payload: two for each number, most significant
    /// first, in the order of the numbers.
    pub open spec fn spec_encode(attributes: Seq<u16>) -> Seq<u8> {
        Seq::new(2 * attributes.len(), |i: int| be16(attributes[i / 2])[i % 2])
    }

    /// The numbers that `bytes` are, two bytes each. An odd number of bytes
    /// is a length mismatch.
    pub open spec fn spec_decode(bytes: Seq<u8>) -> Result<Seq<u16>, DecodeError> {
        if bytes.len() % 2 == 0 {
            Ok(Seq::new(bytes.len() / 2, |i: int| from_be16(bytes[2 * i], bytes[2 * i + 1])))
        } else {
            Err(DecodeError::LengthMismatch)
        }
    }

    /// The payload of the given numbers.
    pub fn new(attributes: Vec<u16>) -> (r: Self)
        ensures
            r.attributes == attributes,
    {
        UnknownAttributes { attributes }
    }

    /// Reads the payload from exactly the bytes of `data`.
    pub fn decode(data: &[u8]) -> (r: Result<UnknownAttributes, DecodeError>)
        ensures
            match r {
                Ok(v) => Self::spec_decode(data@) == Ok::<Seq<u16>, DecodeError>(v@),
                Err(e) => Self::spec_decode(data@) == Err::<Seq<u16>, DecodeError>(e),
            },
    {
        if data.len() % 2 != 0 {
            return Err(DecodeError::LengthMismatch);
        }
        let count: usize = data.len() / 2;
        let mut attributes: Vec<u16> = Vec::new();
        let mut i: usize = 0;
        while i < count
            invariant
                i <= count,
                count * 2 == data@.len(),
                data@.len() <= usize::MAX,
                attributes@.len() == i,
                forall|j: int|
                    0 <= j < i ==> attributes@[j] == from_be16(data@[2 * j], data@[2 * j + 1]),
            decreases count - i,
        {
            attributes.push(read_be16(data[i * 2], data[i * 2 + 1]));
            i += 1;
        }
        assert(attributes@ =~= Self::spec_decode(data@)->Ok_0);
        Ok(UnknownAttributes::new(attributes))
    }

    /// Writes the payload out.
    pub fn encode(&self) -> (out: Vec<u8>)
        ensures
            out@ == Self::spec_encode(self@),
    {
        let mut buf: Vec<u8> = Vec::new();
        let mut i: usize = 0;
        while i < self.attributes.len()
            invariant
                i <= self.attributes@.len(),
                buf@.len() == 2 * i,
                forall|j: int| 0 <= j < 2 * i ==> buf@[j] == be16(self.attributes@[j / 2])[j % 2],
            decreases self.attributes@.len() - i,
        {
            push_be16(&mut buf, self.attributes[i]);
            i += 1;
        }
        buf
    }
}


/// The payload of an attribute, of whichever type.
#[derive(Debug, PartialEq, Eq)]
pub enum Value {
    MappedAddress(MappedAddress),
    ResponseAddress(ResponseAddress),
    ChangeRequest(ChangeRequest),
    SourceAddress(SourceAddress),
    ChangedAddress(ChangedAddress),
    Username(Username),
    Password(Password),
    MessageIntegrity(MessageIntegrity),
    ErrorCode(ErrorCode),
    UnknownAttributes(UnknownAttributes),
    ReflectedFrom(ReflectedFrom),
}

/// A payload as a mathematical value.
pub enum ValueView {
    MappedAddress(MappedAddress),
    ResponseAddress(ResponseAddress),
    ChangeRequest(ChangeRequest),
    SourceAddress(SourceAddress),
    ChangedAddress(ChangedAddress),
    Username(Seq<char>),
    Password(Seq<char>),
    MessageIntegrity(MessageIntegrity),
    ErrorCode(ErrorCodeView),
    UnknownAttributes(Seq<u16>),
    ReflectedFrom(ReflectedFrom),
}

impl View for Value {
    type V = ValueView;

    open spec fn view(&self) -> ValueView {
        match self {
            Value::MappedAddress(v) => ValueView::MappedAddress(*v),
            Value::ResponseAddress(v) => ValueView::ResponseAddress(*v),
            Value::ChangeRequest(v) => ValueView::ChangeRequest(*v),
            Value::SourceAddress(v) => ValueView::SourceAddress(*v),
            Value::ChangedAddress(v) => ValueView::ChangedAddress(*v),
            Value::Username(v) => ValueView::Username(v@),
            Value::Password(v) => ValueView::Password(v@),
            Value::MessageIntegrity(v) => ValueView::MessageIntegrity(*v),
            Value::ErrorCode(v) => ValueView::ErrorCode(v@),
            Value::UnknownAttributes(v) => ValueView::UnknownAttributes(v@),
            Value::ReflectedFrom(v) => ValueView::ReflectedFrom(*v),
        }
    }
}

impl Value {
    /// The attribute type that goes with the payload.
    pub open spec fn spec_attr_type(v: ValueView) -> AttrType {
        match v {
            ValueView::MappedAddress(_) => AttrType::MappedAddress,
            ValueView::ResponseAddress(_) => AttrType::ResponseAddress,
            ValueView::ChangeRequest(_) => AttrType::ChangeRequest,
            ValueView::SourceAddress(_) => AttrType::SourceAddress,
            ValueView::ChangedAddress(_) => AttrType::ChangedAddress,
            ValueView::Username(_) => AttrType::Username,
            ValueView::Password(_) => AttrType::Password,
            ValueView::MessageIntegrity(_) => AttrType::MessageIntegrity,
            ValueView::ErrorCode(_) => AttrType::ErrorCode,
            ValueView::UnknownAttributes(_) => AttrType::UnknownAttributes,
            ValueView::ReflectedFrom(_) => AttrType::ReflectedFrom,
        }
    }

    /// True where the payload's bytes name everything that the payload
    /// holds. Only an error code can fail this.
    pub open spec fn spec_representable(v: ValueView) -> bool {
        match v {
            ValueView::ErrorCode(e) => ErrorCode::spec_representable(e),
            _ => true,
        }
    }

    /// The bytes of the payload, as its own type writes them.
    pub open spec fn spec_encode(v: ValueView) -> Seq<u8> {
        match v {
            ValueView::MappedAddress(v) => v.spec_encode(),
            ValueView::ResponseAddress(v) => v.spec_encode(),
            ValueView::ChangeRequest(v) => v.spec_encode(),
            ValueView::SourceAddress(v) => v.spec_encode(),
            ValueView::ChangedAddress(v) => v.spec_encode(),
            ValueView::Username(v) => Username::spec_encode(v),
            ValueView::Password(v) => Password::spec_encode(v),
            ValueView::MessageIntegrity(v) => v.spec_encode(),
            ValueView::ErrorCode(v) => ErrorCode::spec_encode(v),
            ValueView::UnknownAttributes(v) => UnknownAttributes::spec_encode(v),
            ValueView::ReflectedFrom(v) => v.spec_encode(),
        }
    }

    /// The payload of the given type that `bytes` are, or why they are none.
    pub open spec fn spec_decode(attr_type: AttrType, bytes: Seq<u8>) -> Result<
        ValueView,
        DecodeError,
    > {
        match attr_type {
            AttrType::MappedAddress => match MappedAddress::spec_decode(bytes) {
                Ok(v) => Ok(ValueView::MappedAddress(v)),
                Err(e) => Err(e),
            },
            AttrType::ResponseAddress => match ResponseAddress::spec_decode(bytes) {
                Ok(v) => Ok(ValueView::ResponseAddress(v)),
                Err(e) => Err(e),
            },
            AttrType::ChangeRequest => match ChangeRequest::spec_decode(bytes) {
                Ok(v) => Ok(ValueView::ChangeRequest(v)),
                Err(e) => Err(e),
            },
            AttrType::SourceAddress => match SourceAddress::spec_decode(bytes) {
                Ok(v) => Ok(ValueView::SourceAddress(v)),
                Err(e) => Err(e),
            },
            AttrType::ChangedAddress => match ChangedAddress::spec_decode(bytes) {
                Ok(v) => Ok(ValueView::ChangedAddress(v)),
                Err(e) => Err(e),
            },
            AttrType::Username => match Username::spec_decode(bytes) {
                Ok(v) => Ok(ValueView::Username(v)),
                Err(e) => Err(e),
            },
            AttrType::Password => match Password::spec_decode(bytes) {
                Ok(v) => Ok(ValueView::Password(v)),
                Err(e) => Err(e),
            },
            AttrType::MessageIntegrity => match MessageIntegrity::spec_decode(bytes) {
                Ok(v) => Ok(ValueView::MessageIntegrity(v)),
                Err(e) => Err(e),
            },
            AttrType::ErrorCode => match ErrorCode::spec_decode(bytes) {
                Ok(v) => Ok(ValueView::ErrorCode(v)),
                Err(e) => Err(e),
            },
            AttrType::UnknownAttributes => match UnknownAttributes::spec_decode(bytes) {
                Ok(v) => Ok(ValueView::UnknownAttributes(v)),
                Err(e) => Err(e),
            },
            AttrType::ReflectedFrom => match ReflectedFrom::spec_decode(bytes) {
                Ok(v) => Ok(ValueView::ReflectedFrom(v)),
                Err(e) => Err(e),
            },
        }
    }

    /// Reads a payload of the given type from exactly the bytes of `data`.
    pub fn decode(attr_type: AttrType, data: &[u8]) -> (r: Result<Value, DecodeError>)
        ensures
            match r {
                Ok(v) => Self::spec_decode(attr_type, data@) == Ok::<ValueView, DecodeError>(v@),
                Err(e) => Self::spec_decode(attr_type, data@) == Err::<ValueView, DecodeError>(e),
            },
    {
        match attr_type {
            AttrType::MappedAddress => match MappedAddress::decode(data) {
                Ok(v) => Ok(Value::MappedAddress(v)),
                Err(e) => Err(e),
            },
            AttrType::ResponseAddress => match ResponseAddress::decode(data) {
                Ok(v) => Ok(Value::ResponseAddress(v)),
                Err(e) => Err(e),
            },
            AttrType::ChangeRequest => match ChangeRequest::decode(data) {
                Ok(v) => Ok(Value::ChangeRequest(v)),
                Err(e) => Err(e),
            },
            AttrType::SourceAddress => match SourceAddress::decode(data) {
                Ok(v) => Ok(Value::SourceAddress(v)),
                Err(e) => Err(e),
            },
            AttrType::ChangedAddress => match ChangedAddress::decode(data) {
                Ok(v) => Ok(Value::ChangedAddress(v)),
                Err(e) => Err(e),
            },
            AttrType::Username => match Username::decode(data) {
                Ok(v) => Ok(Value::Username(v)),
                Err(e) => Err(e),
            },
            AttrType::Password => match Password::decode(data) {
                Ok(v) => Ok(Value::Password(v)),
                Err(e) => Err(e),
            },
            AttrType::MessageIntegrity => match MessageIntegrity::decode(data) {
                Ok(v) => Ok(Value::MessageIntegrity(v)),
                Err(e) => Err(e),
            },
            AttrType::ErrorCode => match ErrorCode::decode(data) {
                Ok(v) => Ok(Value::ErrorCode(v)),
                Err(e) => Err(e),
            },
            AttrType::UnknownAttributes => match UnknownAttributes::decode(data) {
                Ok(v) => Ok(Value::UnknownAttributes(v)),
                Err(e) => Err(e),
            },
            AttrType::ReflectedFrom => match ReflectedFrom::decode(data) {
                Ok(v) => Ok(Value::ReflectedFrom(v)),
                Err(e) => Err(e),
            },
        }
    }

    /// Writes the payload out.
    pub fn encode(&self) -> (out: Vec<u8>)
        ensures
            out@ == Self::spec_encode(self@),
    {
        match self {
            Value::MappedAddress(value) => value.encode(),
            Value::ResponseAddress(value) => value.encode(),
            Value::ChangeRequest(value) => value.encode(),
            Value::SourceAddress(value) => value.encode(),
            Value::ChangedAddress(value) => value.encode(),
            Value::Username(value) => value.encode(),
            Value::Password(value) => value.encode(),
            Value::MessageIntegrity(value) => value.encode(),
            Value::ErrorCode(value) => value.encode(),
            Value::UnknownAttributes(value) => value.encode(),
            Value::ReflectedFrom(value) => value.encode(),
        }
    }

    /// The attribute that holds this payload under the type that goes with
    /// it.
    pub fn into_attribute(self) -> (a: Attribute)
        ensures
            a.value == self,
            a.attr_type == Self::spec_attr_type(self@),
    {
        match self {
            Value::MappedAddress(_) => Attribute::new(AttrType::MappedAddress, self),
            Value::ResponseAddress(_) => Attribute::new(AttrType::ResponseAddress, self),
            Value::ChangeRequest(_) => Attribute::new(AttrType::ChangeRequest, self),
            Value::SourceAddress(_) => Attribute::new(AttrType::SourceAddress, self),
            Value::ChangedAddress(_) => Attribute::new(AttrType::ChangedAddress, self),
            Value::Username(_) => Attribute::new(AttrType::Username, self),
            Value::Password(_) => Attribute::new(AttrType::Password, self),
            Value::MessageIntegrity(_) => Attribute::new(AttrType::MessageIntegrity, self),
            Value::ErrorCode(_) => Attribute::new(AttrType::ErrorCode, self),
            Value::UnknownAttributes(_) => Attribute::new(AttrType::UnknownAttributes, self),
            Value::ReflectedFrom(_) => Attribute::new(AttrType::ReflectedFrom, self),
        }
    }

    /// A payload survives being written out and read back under its own
    /// type, if its bytes name all that it holds.
    pub proof fn lemma_round_trip(v: ValueView)
        requires
            Self::spec_representable(v),
        ensures
            Self::spec_decode(Self::spec_attr_type(v), Self::spec_encode(v)) == Ok::<
                ValueView,
                DecodeError,
            >(v),
    {
        match v {
            ValueView::MappedAddress(a) => lemma_address_round_trip(a.family, a.port, a.address),
            ValueView::ResponseAddress(a) => lemma_address_round_trip(a.family, a.port, a.address),
            ValueView::SourceAddress(a) => lemma_address_round_trip(a.family, a.port, a.address),
            ValueView::ChangedAddress(a) => lemma_address_round_trip(a.family, a.port, a.address),
            ValueView::ReflectedFrom(a) => lemma_address_round_trip(a.family, a.port, a.address),
            ValueView::ChangeRequest(_) => {},
            ValueView::Username(t) => lemma_text_round_trip(t),
            ValueView::Password(t) => lemma_text_round_trip(t),
            ValueView::MessageIntegrity(m) => lemma_array20(m.integrity, m.integrity@),
            ValueView::ErrorCode(e) => {
                let bytes = ErrorCode::spec_encode(e);
                assert(bytes.skip(4) =~= encode_utf8(e.reason));
                lemma_text_round_trip(e.reason);
            },
            ValueView::UnknownAttributes(u) => {
                let bytes = UnknownAttributes::spec_encode(u);
                assert(UnknownAttributes::spec_decode(bytes)->Ok_0 =~= u);
            },
        }
    }

    /// True where a payload leaves at zero what a reader does not look at:
    /// the reserved bytes and the bits that are no flag, and where the last
    /// two digits of an error code are below a hundred. Such a payload is
    /// the only one that names what it names.
    pub open spec fn spec_canonical(attr_type: AttrType, bytes: Seq<u8>) -> bool {
        match attr_type {
            AttrType::MappedAddress
            | AttrType::ResponseAddress
            | AttrType::SourceAddress
            | AttrType::ChangedAddress
            | AttrType::ReflectedFrom => bytes[0] == 0,
            AttrType::ChangeRequest => bytes[0] == 0 && bytes[1] == 0 && bytes[2] == 0 && bytes[3]
                % 2 == 0 && bytes[3] < 8,
            AttrType::ErrorCode => bytes[0] == 0 && bytes[1] == 0 && bytes[3] < 100,
            AttrType::Username
            | AttrType::Password
            | AttrType::MessageIntegrity
            | AttrType::UnknownAttributes => true,
        }
    }

    /// A payload that is accepted, and that leaves at zero what a reader does
    /// not look at, is written out again as the same bytes.
    pub proof fn lemma_canonical(attr_type: AttrType, bytes: Seq<u8>)
        requires
            Self::spec_decode(attr_type, bytes) is Ok,
            Self::spec_canonical(attr_type, bytes),
        ensures
            Self::spec_encode(Self::spec_decode(attr_type, bytes)->Ok_0) == bytes,
    {
        let v = Self::spec_decode(attr_type, bytes)->Ok_0;
        match v {
            ValueView::MappedAddress(_)
            | ValueView::ResponseAddress(_)
            | ValueView::SourceAddress(_)
            | ValueView::ChangedAddress(_)
            | ValueView::ReflectedFrom(_) => lemma_from_be16_round_trip(bytes[2], bytes[3]),
            ValueView::ChangeRequest(_) => {},
            ValueView::Username(_) | ValueView::Password(_) => lemma_text_canonical(bytes),
            ValueView::MessageIntegrity(m) => lemma_array20(m.integrity, bytes),
            ValueView::ErrorCode(_) => lemma_text_canonical(bytes.skip(4)),
            ValueView::UnknownAttributes(u) => {
                assert forall|i: int| 0 <= i < bytes.len() implies #[trigger] Self::spec_encode(
                    v,
                )[i] == bytes[i] by {
                    lemma_from_be16_round_trip(bytes[2 * (i / 2)], bytes[2 * (i / 2) + 1]);
                }
            },
        }
    }

    /// Bytes that are accepted as a payload are as many as the payload takes
    /// when it is written out, and the payload is of the type asked for.
    pub proof fn lemma_decoded_len(attr_type: AttrType, bytes: Seq<u8>)
        requires
            Self::spec_decode(attr_type, bytes) is Ok,
        ensures
            Self::spec_attr_type(Self::spec_decode(attr_type, bytes)->Ok_0) == attr_type,
            Self::spec_encode(Self::spec_decode(attr_type, bytes)->Ok_0).len() == bytes.len(),
    {
        match Self::spec_decode(attr_type, bytes)->Ok_0 {
            ValueView::Username(_) | ValueView::Password(_) => lemma_text_canonical(bytes),
            ValueView::ErrorCode(_) => lemma_text_canonical(bytes.skip(4)),
            _ => {},
        }
    }
}

/// One attribute of a message: a payload under its type.
#[derive(Debug, PartialEq, Eq)]
pub struct Attribute {
    pub attr_type: AttrType,
    pub value: Value,
}

/// An attribute as a mathematical value.
pub struct AttributeView {
    pub attr_type: AttrType,
    pub value: ValueView,
}

impl View for Attribute {
    type V = AttributeView;

    open spec fn view(&self) -> AttributeView {
        AttributeView { attr_type: self.attr_type, value: self.value@ }
    }
}

/// The largest length that a length field can hold.
pub const MAX_LEN: usize = 0xFFFF;

/// The bytes that precede the payload of an attribute.
pub const ATTRIBUTE_HEADER_LEN: usize = 4;

impl AttributeView {
    /// True where the payload is short enough for its length to be written
    /// in the attribute's length field.
    pub open spec fn fits(self) -> bool {
        Value::spec_encode(self.value).len() <= MAX_LEN
    }

    /// True where the attribute can be sent and read back: the type is the
    /// payload's own, the payload's bytes name all that it holds, and its
    /// length fits the length field.
    pub open spec fn wf(self) -> bool {
        &&& self.attr_type == Value::spec_attr_type(self.value)
        &&& Value::spec_representable(self.value)
        &&& self.fits()
    }
}

impl Attribute {
    /// The bytes of the attribute: its type, the length of its payload, and
    /// the payload.
    pub open spec fn spec_encode(a: AttributeView) -> Seq<u8> {
        be16(a.attr_type.spec_to_u16()) + be16(Value::spec_encode(a.value).len() as u16)
            + Value::spec_encode(a.value)
    }

    /// The attribute at the start of `bytes` and the number of bytes that it
    /// takes there, or why there is none. The payload is read from exactly
    /// the bytes that the length field counts.
    pub open spec fn spec_decode(bytes: Seq<u8>) -> Result<(AttributeView, nat), DecodeError> {
        if bytes.len() < ATTRIBUTE_HEADER_LEN {
            Err(DecodeError::Truncated)
        } else {
            match AttrType::spec_from_u16(from_be16(bytes[0], bytes[1])) {
                Err(e) => Err(e),
                Ok(attr_type) => {
                    let end = ATTRIBUTE_HEADER_LEN + from_be16(bytes[2], bytes[3]);
                    if bytes.len() < end {
                        Err(DecodeError::Truncated)
                    } else {
                        match Value::spec_decode(
                            attr_type,
                            bytes.subrange(ATTRIBUTE_HEADER_LEN as int, end),
                        ) {
                            Ok(value) => Ok((AttributeView { attr_type, value }, end as nat)),
                            Err(e) => Err(e),
                        }
                    }
                },
            }
        }
    }

    /// The attribute of the given type and payload.
    pub fn new(attr_type: AttrType, value: Value) -> (r: Self)
        ensures
            r.attr_type == attr_type,
            r.value == value,
    {
        Self { attr_type, value }
    }

    /// Reads the attribute at the start of `data`. Gives the attribute and
    /// the number of bytes that it takes there.
    pub fn decode(data: &[u8]) -> (r: Result<(Attribute, usize), DecodeError>)
        ensures
            match r {
                Ok((a, n)) => Self::spec_decode(data@) == Ok::<(AttributeView, nat), DecodeError>(
                    (a@, n as nat),
                ),
                Err(e) => Self::spec_decode(data@) == Err::<(AttributeView, nat), DecodeError>(e),
            },
    {
        if data.len() < ATTRIBUTE_HEADER_LEN {
            return Err(DecodeError::Truncated);
        }
        let attr_type = match AttrType::from_be_bytes([data[0], data[1]]) {
            Ok(t) => t,
            Err(e) => {
                return Err(e);
            },
        };
        let length: usize = read_be16(data[2], data[3]) as usize;
        if data.len() - ATTRIBUTE_HEADER_LEN < length {
            return Err(DecodeError::Truncated);
        }
        let end: usize = ATTRIBUTE_HEADER_LEN + length;
        let payload = slice_subrange(data, ATTRIBUTE_HEADER_LEN, end);
        match Value::decode(attr_type, payload) {
            Ok(value) => Ok((Attribute { attr_type, value }, end)),
            Err(e) => Err(e),
        }
    }

    /// Writes the attribute out, if the length of its payload fits the
    /// length field.
    pub fn try_encode(&self) -> (r: Option<Vec<u8>>)
        ensures
            match r {
                Some(out) => self@.fits() && out@ == Self::spec_encode(self@),
                None => !self@.fits(),
            },
    {
        let value_bytes = self.value.encode();
        if value_bytes.len() > MAX_LEN {
            return None;
        }
        let mut buf: Vec<u8> = Vec::new();
        push_be16(&mut buf, self.attr_type.to_u16());
        push_be16(&mut buf, value_bytes.len() as u16);
        push_all(&mut buf, value_bytes.as_slice());
        Some(buf)
    }

    /// Writes the attribute out.
    pub fn encode(&self) -> (out: Vec<u8>)
        requires
            self@.fits(),
        ensures
            out@ == Self::spec_encode(self@),
    {
        match self.try_encode() {
            Some(out) => out,
            None => unreached(),
        }
    }

    /// An attribute that can be sent survives being written out and read
    /// back, whatever bytes follow it, and the bytes that it takes are four
    /// more than its payload's.
    pub proof fn lemma_round_trip(a: AttributeView, rest: Seq<u8>)
        requires
            a.wf(),
        ensures
            Self::spec_encode(a).len() == ATTRIBUTE_HEADER_LEN + Value::spec_encode(a.value).len(),
            Self::spec_decode(Self::spec_encode(a) + rest) == Ok::<
                (AttributeView, nat),
                DecodeError,
            >((a, Self::spec_encode(a).len())),
    {
        let payload = Value::spec_encode(a.value);
        let bytes = Self::spec_encode(a) + rest;
        AttrType::lemma_from_to(a.attr_type);
        Value::lemma_round_trip(a.value);
        assert(bytes.subrange(ATTRIBUTE_HEADER_LEN as int, ATTRIBUTE_HEADER_LEN + payload.len())
            =~= payload);
    }

    /// True where an attribute stands at the start of `bytes` whose payload
    /// leaves at zero what a reader does not look at.
    pub open spec fn spec_canonical(bytes: Seq<u8>) -> bool {
        Self::spec_decode(bytes) matches Ok((a, n)) && Value::spec_canonical(
            a.attr_type,
            bytes.subrange(ATTRIBUTE_HEADER_LEN as int, n as int),
        )
    }

    /// An attribute that is accepted, and whose payload leaves at zero what a
    /// reader does not look at, is written out again as the bytes that it
    /// was read from.
    pub proof fn lemma_canonical(bytes: Seq<u8>)
        requires
            Self::spec_canonical(bytes),
        ensures
            Self::spec_encode(Self::spec_decode(bytes)->Ok_0.0) == bytes.take(
                Self::spec_decode(bytes)->Ok_0.1 as int,
            ),
    {
        let (a, n) = Self::spec_decode(bytes)->Ok_0;
        let payload = bytes.subrange(ATTRIBUTE_HEADER_LEN as int, n as int);
        AttrType::lemma_to_from(from_be16(bytes[0], bytes[1]));
        lemma_from_be16_round_trip(bytes[0], bytes[1]);
        lemma_from_be16_round_trip(bytes[2], bytes[3]);
        Value::lemma_canonical(a.attr_type, payload);
    }

    /// Of the bytes that are accepted as an attribute, the attribute takes as
    /// many as it takes when it is written out; it can be written out, and
    /// its type is its payload's own.
    pub proof fn lemma_decoded_len(bytes: Seq<u8>)
        requires
            Self::spec_decode(bytes) is Ok,
        ensures
            Self::spec_decode(bytes)->Ok_0.1 <= bytes.len(),
            Self::spec_decode(bytes)->Ok_0.1 == Self::spec_encode(
                Self::spec_decode(bytes)->Ok_0.0,
            ).len(),
            Self::spec_decode(bytes)->Ok_0.0.fits(),
            Self::spec_decode(bytes)->Ok_0.0.attr_type == Value::spec_attr_type(
                Self::spec_decode(bytes)->Ok_0.0.value,
            ),
    {
        let attr_type = AttrType::spec_from_u16(from_be16(bytes[0], bytes[1]))->Ok_0;
        let end = ATTRIBUTE_HEADER_LEN + from_be16(bytes[2], bytes[3]);
        Value::lemma_decoded_len(attr_type, bytes.subrange(ATTRIBUTE_HEADER_LEN as int, end));
    }
}

} // verus!
