use vstd::prelude::*;
use vstd::utf8::*;
use vstd::slice::slice_to_vec;
use vstd::string::StrSliceExecFns;
use crate::error::DecodeError;

verus! {

/// What a text payload decodes to: its characters where the bytes are UTF-8,
/// an error where they are not.
pub open spec fn spec_decode_text(bytes: Seq<u8>) -> Result<Seq<char>, DecodeError> {
    if valid_utf8(bytes) {
        Ok(decode_utf8(bytes))
    } else {
        Err(DecodeError::InvalidUtf8)
    }
}

/// `String::from_utf8` of std. Believed, not proved: std answers with a
/// string exactly when the bytes are valid UTF-8, and that string then holds
/// those very bytes.
#[verifier::external_body]
fn string_from_utf8(bytes: Vec<u8>) -> (r: Option<String>)
    ensures
        r is Some <==> valid_utf8(bytes@),
        r matches Some(s) ==> encode_utf8(s@) == bytes@,
{
    String::from_utf8(bytes).ok()
}

/// Decodes a text payload.
pub(crate) fn decode_text(data: &[u8]) -> (r: Result<String, DecodeError>)
    ensures
        match r {
            Ok(s) => spec_decode_text(data@) == Ok::<Seq<char>, DecodeError>(s@),
            Err(e) => spec_decode_text(data@) == Err::<Seq<char>, DecodeError>(e),
        },
{
    broadcast use encode_utf8_decode_utf8;

    match string_from_utf8(slice_to_vec(data)) {
        Some(s) => Ok(s),
        None => Err(DecodeError::InvalidUtf8),
    }
}

/// The UTF-8 bytes of `s`.
pub(crate) fn encode_text(s: &String) -> (out: Vec<u8>)
    ensures
        out@ == encode_utf8(s@),
{
    s.as_str().as_bytes_vec()
}

/// Text survives being written out and read back.
pub proof fn lemma_text_round_trip(chars: Seq<char>)
    ensures
        spec_decode_text(encode_utf8(chars)) == Ok::<Seq<char>, DecodeError>(chars),
{
    broadcast use encode_utf8_decode_utf8, encode_utf8_valid_utf8;

}

/// Bytes that decode as text are the encoding of that text.
pub proof fn lemma_text_canonical(bytes: Seq<u8>)
    requires
        spec_decode_text(bytes) is Ok,
    ensures
        encode_utf8(spec_decode_text(bytes)->Ok_0) == bytes,
{
    broadcast use decode_utf8_encode_utf8;

}

} // verus!
