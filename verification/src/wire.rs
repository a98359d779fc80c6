use vstd::prelude::*;

verus! {

/// The two bytes of `v`, most significant first.
pub open spec fn be16(v: u16) -> Seq<u8> {
    seq![(v / 256) as u8, (v % 256) as u8]
}

/// The number whose big-endian bytes are `hi`, `lo`.
pub open spec fn from_be16(hi: u8, lo: u8) -> u16 {
    (hi as int * 256 + lo as int) as u16
}

/// The first sixteen bytes of `s` as an array.
pub open spec fn array16(s: Seq<u8>) -> [u8; 16] {
    [
        s[0], s[1], s[2], s[3], s[4], s[5], s[6], s[7],
        s[8], s[9], s[10], s[11], s[12], s[13], s[14], s[15],
    ]
}

/// The first twenty bytes of `s` as an array.
pub open spec fn array20(s: Seq<u8>) -> [u8; 20] {
    [
        s[0], s[1], s[2], s[3], s[4], s[5], s[6], s[7], s[8], s[9],
        s[10], s[11], s[12], s[13], s[14], s[15], s[16], s[17], s[18], s[19],
    ]
}

/// Writing out a number read from two bytes gives the two bytes.
pub proof fn lemma_from_be16_round_trip(hi: u8, lo: u8)
    ensures
        be16(from_be16(hi, lo)) == seq![hi, lo],
{
}

/// An array of sixteen bytes is the array made of its bytes, and sixteen
/// bytes are the bytes of the array made of them.
pub proof fn lemma_array16(a: [u8; 16], s: Seq<u8>)
    ensures
        array16(a@) == a,
        s.len() == 16 ==> array16(s)@ == s,
{
}

/// An array of twenty bytes is the array made of its bytes, and twenty bytes
/// are the bytes of the array made of them.
pub proof fn lemma_array20(a: [u8; 20], s: Seq<u8>)
    ensures
        array20(a@) == a,
        s.len() == 20 ==> array20(s)@ == s,
{
}

/// Reads a big-endian number from two bytes.
pub(crate) fn read_be16(hi: u8, lo: u8) -> (v: u16)
    ensures
        v == from_be16(hi, lo),
{
    (hi as u16) * 256 + (lo as u16)
}

/// Appends the two big-endian bytes of `v` to `buf`.
pub(crate) fn push_be16(buf: &mut Vec<u8>, v: u16)
    ensures
        final(buf)@ == old(buf)@ + be16(v),
{
    buf.push((v / 256) as u8);
    buf.push((v % 256) as u8);
}

/// Appends a copy of `data` to `buf`.
pub(crate) fn push_all(buf: &mut Vec<u8>, data: &[u8])
    ensures
        final(buf)@ == old(buf)@ + data@,
{
    buf.extend_from_slice(data);
}

/// Reads the sixteen bytes of `data` that start at `at`.
pub(crate) fn read_array16(data: &[u8], at: usize) -> (r: [u8; 16])
    requires
        at + 16 <= data@.len(),
    ensures
        r == array16(data@.subrange(at as int, at + 16)),
{
    let len: usize = data.len();
    let mut r = [0u8; 16];
    let mut i: usize = 0;
    while i < 16
        invariant
            i <= 16,
            at + 16 <= len == data@.len(),
            forall|j: int| 0 <= j < i ==> r@[j] == data@[at + j],
        decreases 16 - i,
    {
        r[i] = data[at + i];
        i += 1;
    }
    r
}

/// Tells whether two arrays of sixteen bytes hold the same bytes.
pub(crate) fn same_array16(a: &[u8; 16], b: &[u8; 16]) -> (r: bool)
    ensures
        r == (*a == *b),
{
    let mut i: usize = 0;
    while i < 16
        invariant
            i <= 16,
            forall|j: int| 0 <= j < i ==> a@[j] == b@[j],
        decreases 16 - i,
    {
        if a[i] != b[i] {
            return false;
        }
        i += 1;
    }
    assert(*a == *b);
    true
}

} // verus!
