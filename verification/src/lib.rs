pub mod attribute;
pub mod client;
pub mod error;
pub mod header;
pub mod net;
pub mod server;
pub mod text;
pub mod wire;

use vstd::prelude::*;
use vstd::slice::slice_subrange;
use crate::attribute::Attribute;
use crate::attribute::AttributeView;
use crate::attribute::MAX_LEN;
use crate::error::DecodeError;
use crate::header::Header;
use crate::header::HeaderType;
use crate::wire::array16;
use crate::wire::be16;
use crate::wire::from_be16;
use crate::wire::lemma_array16;
use crate::wire::lemma_from_be16_round_trip;
use crate::wire::push_all;
use crate::wire::push_be16;
use crate::wire::read_array16;
use crate::wire::read_be16;

verus! {

/// A message: a header and the attributes that follow it, in order.
#[derive(Debug, PartialEq, Eq)]
pub struct Message {
    pub header: Header,
    pub attributes: Vec<Attribute>,
}

/// A message as a mathematical value.
pub struct MessageView {
    pub header: Header,
    pub attributes: Seq<AttributeView>,
}

impl View for Message {
    type V = MessageView;

    open spec fn view(&self) -> MessageView {
        MessageView { header: self.header, attributes: spec_views(self.attributes@) }
    }
}

/// The bytes that a header takes.
pub const HEADER_LEN: usize = 20;

/// The attributes of `attributes` as mathematical values.
pub open spec fn spec_views(attributes: Seq<Attribute>) -> Seq<AttributeView> {
    attributes.map_values(|a: Attribute| a@)
}

/// The bytes of the attributes, one after the other.
pub open spec fn spec_encode_attributes(attributes: Seq<AttributeView>) -> Seq<u8>
    decreases attributes.len(),
{
    if attributes.len() == 0 {
        Seq::empty()
    } else {
        Attribute::spec_encode(attributes[0]) + spec_encode_attributes(attributes.drop_first())
    }
}

/// The sizes of the attributes as they are written out, added up.
pub open spec fn spec_attributes_len(attributes: Seq<AttributeView>) -> nat
    decreases attributes.len(),
{
    if attributes.len() == 0 {
        0
    } else {
        Attribute::spec_encode(attributes[0]).len() + spec_attributes_len(attributes.drop_first())
    }
}

/// `first` followed by what `rest` holds, or the error that `rest` is.
pub open spec fn spec_followed_by(
    first: Seq<AttributeView>,
    rest: Result<Seq<AttributeView>, DecodeError>,
) -> Result<Seq<AttributeView>, DecodeError> {
    match rest {
        Ok(more) => Ok(first + more),
        Err(e) => Err(e),
    }
}

/// The attributes that fill `bytes` exactly. An attribute that would end
/// beyond the last byte is a length mismatch.
pub open spec fn spec_decode_attributes(bytes: Seq<u8>) -> Result<Seq<AttributeView>, DecodeError>
    decreases bytes.len(),
{
    if bytes.len() == 0 {
        Ok(Seq::empty())
    } else {
        match Attribute::spec_decode(bytes) {
            Err(DecodeError::Truncated) => Err(DecodeError::LengthMismatch),
            Err(e) => Err(e),
            Ok((a, n)) => spec_followed_by(seq![a], spec_decode_attributes(bytes.skip(n as int))),
        }
    }
}

impl MessageView {
    /// True where the message can be written out: the length of each payload
    /// and that of all attributes together fit their length fields.
    pub open spec fn fits(self) -> bool {
        &&& forall|i: int| 0 <= i < self.attributes.len() ==> (#[trigger] self.attributes[i]).fits()
        &&& spec_encode_attributes(self.attributes).len() <= MAX_LEN
    }

    /// True where the message can be sent and read back.
    pub open spec fn wf(self) -> bool {
        &&& forall|i: int| 0 <= i < self.attributes.len() ==> (#[trigger] self.attributes[i]).wf()
        &&& spec_encode_attributes(self.attributes).len() <= MAX_LEN
    }
}

/// After one more attribute come its bytes.
pub proof fn lemma_encode_attributes_push(attributes: Seq<AttributeView>, a: AttributeView)
    ensures
        spec_encode_attributes(attributes.push(a)) == spec_encode_attributes(attributes)
            + Attribute::spec_encode(a),
    decreases attributes.len(),
{
    if attributes.len() == 0 {
        assert(attributes.push(a).drop_first() =~= Seq::<AttributeView>::empty());
        assert(spec_encode_attributes(Seq::<AttributeView>::empty()) =~= Seq::<u8>::empty());
    } else {
        assert(attributes.push(a).drop_first() =~= attributes.drop_first().push(a));
        lemma_encode_attributes_push(attributes.drop_first(), a);
    }
}

/// The attributes written one after the other take as many bytes as their
/// sizes add up to.
pub proof fn lemma_attributes_len(attributes: Seq<AttributeView>)
    ensures
        spec_encode_attributes(attributes).len() == spec_attributes_len(attributes),
    decreases attributes.len(),
{
    if attributes.len() != 0 {
        lemma_attributes_len(attributes.drop_first());
    }
}

/// Attributes that can each be sent survive being written one after the
/// other and read back, in their order.
pub proof fn lemma_attributes_round_trip(attributes: Seq<AttributeView>)
    requires
        forall|i: int| 0 <= i < attributes.len() ==> (#[trigger] attributes[i]).wf(),
    ensures
        spec_decode_attributes(spec_encode_attributes(attributes)) == Ok::<
            Seq<AttributeView>,
            DecodeError,
        >(attributes),
    decreases attributes.len(),
{
    if attributes.len() != 0 {
        let first = attributes[0];
        let others = attributes.drop_first();
        let bytes = spec_encode_attributes(attributes);
        assert forall|i: int| 0 <= i < others.len() implies (#[trigger] others[i]).wf() by {
            assert(others[i] == attributes[i + 1]);
        }
        Attribute::lemma_round_trip(first, spec_encode_attributes(others));
        lemma_attributes_round_trip(others);
        let n = Attribute::spec_encode(first).len();
        assert(bytes.skip(n as int) =~= spec_encode_attributes(others));
        assert(seq![first] + others =~= attributes);
    } else {
        assert(attributes =~= Seq::<AttributeView>::empty());
    }
}

/// Bytes that are accepted as attributes are as many as the attributes take
/// when they are written out, and each of the attributes can be written out.
pub proof fn lemma_attributes_decoded_len(bytes: Seq<u8>)
    requires
        spec_decode_attributes(bytes) is Ok,
    ensures
        spec_encode_attributes(spec_decode_attributes(bytes)->Ok_0).len() == bytes.len(),
        forall|i: int|
            0 <= i < spec_decode_attributes(bytes)->Ok_0.len() ==> (
            #[trigger] spec_decode_attributes(bytes)->Ok_0[i]).fits(),
    decreases bytes.len(),
{
    if bytes.len() != 0 {
        let (first, n) = Attribute::spec_decode(bytes)->Ok_0;
        let others = spec_decode_attributes(bytes.skip(n as int))->Ok_0;
        let all = spec_decode_attributes(bytes)->Ok_0;
        Attribute::lemma_decoded_len(bytes);
        lemma_attributes_decoded_len(bytes.skip(n as int));
        assert(all.drop_first() =~= others);
        assert forall|i: int| 0 <= i < all.len() implies (#[trigger] all[i]).fits() by {
            if i > 0 {
                assert(all[i] == others[i - 1]);
            }
        }
    }
}

/// True where each of the attributes that fill `bytes` has a payload that
/// leaves at zero what a reader does not look at.
pub open spec fn spec_canonical_attributes(bytes: Seq<u8>) -> bool
    decreases bytes.len(),
{
    bytes.len() != 0 ==> {
        &&& Attribute::spec_canonical(bytes)
        &&& 0 < Attribute::spec_decode(bytes)->Ok_0.1 <= bytes.len()
        &&& spec_canonical_attributes(bytes.skip(Attribute::spec_decode(bytes)->Ok_0.1 as int))
    }
}

/// Attributes that are accepted, and whose payloads leave at zero what a
/// reader does not look at, are written out again as the bytes that they
/// were read from.
pub proof fn lemma_attributes_canonical(bytes: Seq<u8>)
    requires
        spec_decode_attributes(bytes) is Ok,
        spec_canonical_attributes(bytes),
    ensures
        spec_encode_attributes(spec_decode_attributes(bytes)->Ok_0) == bytes,
    decreases bytes.len(),
{
    if bytes.len() != 0 {
        let (first, n) = Attribute::spec_decode(bytes)->Ok_0;
        let others = spec_decode_attributes(bytes.skip(n as int))->Ok_0;
        let all = spec_decode_attributes(bytes)->Ok_0;
        Attribute::lemma_canonical(bytes);
        lemma_attributes_canonical(bytes.skip(n as int));
        assert(all.drop_first() =~= others);
        assert(bytes.take(n as int) + bytes.skip(n as int) =~= bytes);
    }
}

impl Message {
    /// The bytes of the message: its class, the length of its attributes,
    /// its transaction identifier, and the attributes.
    pub open spec fn spec_encode(m: MessageView) -> Seq<u8> {
        be16(m.header.header_type.spec_to_u16()) + be16(
            spec_encode_attributes(m.attributes).len() as u16,
        ) + m.header.transaction_id@ + spec_encode_attributes(m.attributes)
    }

    /// The length of the attributes that the header in `bytes` declares.
    pub open spec fn spec_declared_len(bytes: Seq<u8>) -> nat {
        from_be16(bytes[2], bytes[3]) as nat
    }

    /// The message that `bytes` are, or why they are none: a header, and
    /// after it attributes that fill exactly the length that the header
    /// declares, with no byte left over. Fewer bytes than the header declares
    /// are a truncated message, more are a length mismatch.
    pub open spec fn spec_decode(bytes: Seq<u8>) -> Result<MessageView, DecodeError> {
        if bytes.len() < HEADER_LEN {
            Err(DecodeError::Truncated)
        } else {
            match HeaderType::spec_from_u16(from_be16(bytes[0], bytes[1])) {
                Err(e) => Err(e),
                Ok(header_type) => {
                    let end = HEADER_LEN + Self::spec_declared_len(bytes);
                    if bytes.len() < end {
                        Err(DecodeError::Truncated)
                    } else if bytes.len() > end {
                        Err(DecodeError::LengthMismatch)
                    } else {
                        match spec_decode_attributes(bytes.skip(HEADER_LEN as int)) {
                            Err(e) => Err(e),
                            Ok(attributes) => Ok(
                                MessageView {
                                    header: Header {
                                        header_type,
                                        transaction_id: array16(bytes.subrange(4, 20)),
                                    },
                                    attributes,
                                },
                            ),
                        }
                    }
                },
            }
        }
    }

    /// The message of the given header and attributes.
    pub fn new(header: Header, attributes: Vec<Attribute>) -> (r: Self)
        ensures
            r.header == header,
            r.attributes == attributes,
    {
        Self { header, attributes }
    }

    /// Reads the message that `data` is. A message is accepted only where
    /// the length that its header declares is the number of bytes that
    /// follow the header, and the attributes read from them take, written
    /// out, exactly that length.
    pub fn decode(data: &[u8]) -> (r: Result<Message, DecodeError>)
        ensures
            match r {
                Ok(m) => Self::spec_decode(data@) == Ok::<MessageView, DecodeError>(m@),
                Err(e) => Self::spec_decode(data@) == Err::<MessageView, DecodeError>(e),
            },
            r matches Ok(m) ==> {
                &&& m@.fits()
                &&& data@.len() == HEADER_LEN + Self::spec_declared_len(data@)
                &&& spec_attributes_len(m@.attributes) == Self::spec_declared_len(data@)
            },
    {
        if data.len() < HEADER_LEN {
            return Err(DecodeError::Truncated);
        }
        let header_type = match HeaderType::from_be_bytes([data[0], data[1]]) {
            Ok(t) => t,
            Err(e) => {
                return Err(e);
            },
        };
        let message_length: usize = read_be16(data[2], data[3]) as usize;
        if data.len() - HEADER_LEN < message_length {
            return Err(DecodeError::Truncated);
        }
        if data.len() - HEADER_LEN > message_length {
            return Err(DecodeError::LengthMismatch);
        }
        let transaction_id = read_array16(data, 4);
        let header = Header::new(header_type, transaction_id);

        let section = slice_subrange(data, HEADER_LEN, data.len());
        let mut attributes: Vec<Attribute> = Vec::new();
        let mut attr_read: usize = 0;
        assert(section@.skip(0) =~= section@);
        while attr_read < message_length
            invariant
                attr_read <= message_length,
                message_length == section@.len(),
                data@.len() >= HEADER_LEN,
                HeaderType::spec_from_u16(from_be16(data@[0], data@[1])) == Ok::<
                    HeaderType,
                    DecodeError,
                >(header_type),
                message_length == Self::spec_declared_len(data@),
                data@.len() == HEADER_LEN + message_length,
                section@ == data@.skip(HEADER_LEN as int),
                spec_decode_attributes(section@) == spec_followed_by(
                    spec_views(attributes@),
                    spec_decode_attributes(section@.skip(attr_read as int)),
                ),
            decreases message_length - attr_read,
        {
            let rest = slice_subrange(section, attr_read, message_length);
            match Attribute::decode(rest) {
                Ok((attr, len)) => {
                    proof {
                        Attribute::lemma_decoded_len(rest@);
                        let done = spec_views(attributes@);
                        let after = spec_decode_attributes(rest@.skip(len as int));
                        assert(rest@.skip(len as int) =~= section@.skip(attr_read + len));
                        assert(spec_views(attributes@.push(attr)) =~= done + seq![attr@]);
                        if after is Ok {
                            assert(done + (seq![attr@] + after->Ok_0) =~= (done + seq![attr@])
                                + after->Ok_0);
                        }
                    }
                    attributes.push(attr);
                    attr_read += len;
                },
                Err(DecodeError::Truncated) => {
                    return Err(DecodeError::LengthMismatch);
                },
                Err(e) => {
                    return Err(e);
                },
            }
        }
        proof {
            Self::lemma_decoded_len(data@);
        }
        Ok(Message::new(header, attributes))
    }

    /// Writes the message out, if the length of each payload and that of all
    /// attributes together fit their length fields. The length field of the
    /// header holds the number of bytes that the attributes take.
    pub fn try_encode(&self) -> (r: Option<Vec<u8>>)
        ensures
            match r {
                Some(out) => {
                    &&& self@.fits()
                    &&& out@ == Self::spec_encode(self@)
                    &&& out@.len() == HEADER_LEN + spec_attributes_len(self@.attributes)
                    &&& Self::spec_declared_len(out@) == spec_attributes_len(self@.attributes)
                },
                None => !self@.fits(),
            },
    {
        let ghost views = self@.attributes;
        let mut attr_data: Vec<u8> = Vec::new();
        let mut i: usize = 0;
        while i < self.attributes.len()
            invariant
                i <= self.attributes@.len(),
                views == self@.attributes,
                forall|j: int| 0 <= j < i ==> (#[trigger] views[j]).fits(),
                attr_data@ == spec_encode_attributes(views.take(i as int)),
            decreases self.attributes@.len() - i,
        {
            match self.attributes[i].try_encode() {
                Some(bytes) => {
                    push_all(&mut attr_data, bytes.as_slice());
                },
                None => {
                    return None;
                },
            }
            proof {
                lemma_encode_attributes_push(views.take(i as int), views[i as int]);
                assert(views.take(i + 1) =~= views.take(i as int).push(views[i as int]));
            }
            i += 1;
        }
        assert(views.take(i as int) =~= views);
        if attr_data.len() > MAX_LEN {
            return None;
        }
        let message_length: u16 = attr_data.len() as u16;

        let mut data: Vec<u8> = Vec::new();
        push_be16(&mut data, self.header.header_type.to_u16());
        push_be16(&mut data, message_length);
        push_all(&mut data, self.header.transaction_id.as_slice());
        push_all(&mut data, attr_data.as_slice());
        proof {
            lemma_attributes_len(views);
        }
        Some(data)
    }

    /// Writes the message out. The length field of the header holds the
    /// number of bytes that the attributes take.
    pub fn encode(&self) -> (out: Vec<u8>)
        requires
            self@.fits(),
        ensures
            out@ == Self::spec_encode(self@),
            out@.len() == HEADER_LEN + spec_attributes_len(self@.attributes),
            Self::spec_declared_len(out@) == spec_attributes_len(self@.attributes),
    {
        match self.try_encode() {
            Some(out) => out,
            None => unreached(),
        }
    }

    /// Where the parts of a message lie in its bytes.
    proof fn lemma_layout(m: MessageView)
        requires
            spec_encode_attributes(m.attributes).len() <= MAX_LEN,
        ensures
            ({
                let bytes = Self::spec_encode(m);
                let section = spec_encode_attributes(m.attributes);
                &&& bytes.len() == HEADER_LEN + section.len()
                &&& from_be16(bytes[0], bytes[1]) == m.header.header_type.spec_to_u16()
                &&& Self::spec_declared_len(bytes) == section.len()
                &&& bytes.subrange(4, 20) == m.header.transaction_id@
                &&& bytes.skip(HEADER_LEN as int) == section
            }),
    {
    }

    /// A message that can be sent survives being written out and read back:
    /// the class, the transaction identifier and the attributes come back,
    /// the attributes in their order.
    pub proof fn lemma_round_trip(m: MessageView)
        requires
            m.wf(),
        ensures
            Self::spec_decode(Self::spec_encode(m)) == Ok::<MessageView, DecodeError>(m),
    {
        Self::lemma_layout(m);
        HeaderType::lemma_from_to(m.header.header_type);
        lemma_attributes_round_trip(m.attributes);
        lemma_array16(m.header.transaction_id, m.header.transaction_id@);
    }

    /// The length field of a message that is written out holds the number of
    /// bytes that its attributes take.
    pub proof fn lemma_encoded_len(m: MessageView)
        requires
            m.fits(),
        ensures
            Self::spec_encode(m).len() == HEADER_LEN + spec_attributes_len(m.attributes),
            Self::spec_declared_len(Self::spec_encode(m)) == spec_attributes_len(m.attributes),
    {
        lemma_attributes_len(m.attributes);
    }

    /// Bytes are accepted as a message only where the length that the header
    /// declares is the number of bytes after the header, and the attributes
    /// read from them take, written out, exactly that length; such a message
    /// can be written out again.
    pub proof fn lemma_decoded_len(bytes: Seq<u8>)
        requires
            Self::spec_decode(bytes) is Ok,
        ensures
            bytes.len() == HEADER_LEN + Self::spec_declared_len(bytes),
            spec_attributes_len(Self::spec_decode(bytes)->Ok_0.attributes)
                == Self::spec_declared_len(bytes),
            Self::spec_decode(bytes)->Ok_0.fits(),
    {
        lemma_attributes_decoded_len(bytes.skip(HEADER_LEN as int));
        lemma_attributes_len(Self::spec_decode(bytes)->Ok_0.attributes);
    }

    /// Bytes that are accepted as a message, and in which the payload of
    /// each attribute leaves at zero what a reader does not look at, are the
    /// bytes that the message is written out as.
    pub proof fn lemma_canonical(bytes: Seq<u8>)
        requires
            Self::spec_decode(bytes) is Ok,
            spec_canonical_attributes(bytes.skip(HEADER_LEN as int)),
        ensures
            Self::spec_encode(Self::spec_decode(bytes)->Ok_0) == bytes,
    {
        let m = Self::spec_decode(bytes)->Ok_0;
        Self::lemma_decoded_len(bytes);
        lemma_attributes_len(m.attributes);
        lemma_attributes_canonical(bytes.skip(HEADER_LEN as int));
        Self::lemma_layout(m);
        HeaderType::lemma_to_from(from_be16(bytes[0], bytes[1]));
        lemma_from_be16_round_trip(bytes[0], bytes[1]);
        lemma_from_be16_round_trip(bytes[2], bytes[3]);
        lemma_array16(m.header.transaction_id, bytes.subrange(4, 20));
        assert(Self::spec_encode(m) =~= bytes);
    }
}

} // verus!
