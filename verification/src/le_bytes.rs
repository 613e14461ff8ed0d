//! Little-endian byte images of unsigned 64-bit values, one value at a time
//! and a whole column at a time.

use vstd::prelude::*;

verus! {

/// Number of bytes that one column element occupies in a payload.
pub const ELEMENT_SIZE: usize = 8;

/// The eight bytes of `x`, least significant first.
pub open spec fn u64_le_bytes(x: u64) -> Seq<u8> {
    seq![
        (x % 0x100) as u8,
        (x / 0x100 % 0x100) as u8,
        (x / 0x1_0000 % 0x100) as u8,
        (x / 0x100_0000 % 0x100) as u8,
        (x / 0x1_0000_0000 % 0x100) as u8,
        (x / 0x100_0000_0000 % 0x100) as u8,
        (x / 0x1_0000_0000_0000 % 0x100) as u8,
        (x / 0x100_0000_0000_0000 % 0x100) as u8,
    ]
}

/// The number whose little-endian image is the first eight bytes of `b`.
pub open spec fn u64_of_le_bytes(b: Seq<u8>) -> int
    recommends
        b.len() == 8,
{
    b[0] + b[1] * 0x100 + b[2] * 0x1_0000 + b[3] * 0x100_0000 + b[4] * 0x1_0000_0000 + b[5]
        * 0x100_0000_0000 + b[6] * 0x1_0000_0000_0000 + b[7] * 0x100_0000_0000_0000
}

/// The payload image of a column: the little-endian bytes of each element,
/// in element order, with nothing before, between or after them.
pub open spec fn encode_values(values: Seq<u64>) -> Seq<u8> {
    Seq::new(8 * values.len(), |k: int| u64_le_bytes(values[k / 8])[k % 8])
}

/// The column that a payload image holds: element `i` is read from the
/// bytes `8 * i .. 8 * i + 8`. Trailing bytes that do not fill an element
/// are not part of any element.
pub open spec fn decode_values(bytes: Seq<u8>) -> Seq<u64> {
    Seq::new(bytes.len() / 8, |i: int| u64_of_le_bytes(bytes.subrange(8 * i, 8 * i + 8)) as u64)
}

/// Reading back the little-endian image of a value gives that value.
pub proof fn lemma_u64_le_round_trip(x: u64)
    ensures
        u64_le_bytes(x).len() == 8,
        u64_of_le_bytes(u64_le_bytes(x)) == x,
{
    assert(x == (x % 0x100) + (x / 0x100 % 0x100) * 0x100 + (x / 0x1_0000 % 0x100) * 0x1_0000 + (x
        / 0x100_0000 % 0x100) * 0x100_0000 + (x / 0x1_0000_0000 % 0x100) * 0x1_0000_0000 + (x
        / 0x100_0000_0000 % 0x100) * 0x100_0000_0000 + (x / 0x1_0000_0000_0000 % 0x100)
        * 0x1_0000_0000_0000 + (x / 0x100_0000_0000_0000 % 0x100) * 0x100_0000_0000_0000)
        by (bit_vector);
}

/// Eight bytes are the little-endian image of the value read from them.
pub proof fn lemma_le_u64_round_trip(b: Seq<u8>)
    requires
        b.len() == 8,
    ensures
        0 <= u64_of_le_bytes(b) <= u64::MAX,
        u64_le_bytes(u64_of_le_bytes(b) as u64) == b,
{
    let b0: u8 = b[0];
    let b1: u8 = b[1];
    let b2: u8 = b[2];
    let b3: u8 = b[3];
    let b4: u8 = b[4];
    let b5: u8 = b[5];
    let b6: u8 = b[6];
    let b7: u8 = b[7];
    let x: u64 = u64_of_le_bytes(b) as u64;
    assert(x % 0x100 == b0 && x / 0x100 % 0x100 == b1 && x / 0x1_0000 % 0x100 == b2 && x
        / 0x100_0000 % 0x100 == b3 && x / 0x1_0000_0000 % 0x100 == b4 && x / 0x100_0000_0000
        % 0x100 == b5 && x / 0x1_0000_0000_0000 % 0x100 == b6 && x / 0x100_0000_0000_0000 % 0x100
        == b7) by (bit_vector)
        requires
            x == b0 + b1 * 0x100 + b2 * 0x1_0000 + b3 * 0x100_0000 + b4 * 0x1_0000_0000 + b5
                * 0x100_0000_0000 + b6 * 0x1_0000_0000_0000 + b7 * 0x100_0000_0000_0000,
    ;
    assert(u64_le_bytes(x) =~= b);
}

/// A column image has eight bytes for each element.
pub proof fn lemma_encode_len(values: Seq<u64>)
    ensures
        encode_values(values).len() == 8 * values.len(),
{
}

/// The bytes `8 * i .. 8 * i + 8` of a column image are the image of element `i`.
pub proof fn lemma_encode_element(values: Seq<u64>, i: int)
    requires
        0 <= i < values.len(),
    ensures
        encode_values(values).subrange(8 * i, 8 * i + 8) == u64_le_bytes(values[i]),
{
    let part = encode_values(values).subrange(8 * i, 8 * i + 8);
    assert forall|j: int| 0 <= j < 8 implies part[j] == u64_le_bytes(values[i])[j] by {
        assert((8 * i + j) / 8 == i);
        assert((8 * i + j) % 8 == j);
    }
    assert(part =~= u64_le_bytes(values[i]));
}

/// Decoding the image of a column gives the column back, element for element.
pub proof fn lemma_decode_encode(values: Seq<u64>)
    ensures
        decode_values(encode_values(values)) == values,
{
    let bytes = encode_values(values);
    assert(bytes.len() / 8 == values.len());
    assert forall|i: int| 0 <= i < values.len() implies decode_values(bytes)[i] == values[i] by {
        lemma_encode_element(values, i);
        lemma_u64_le_round_trip(values[i]);
    }
    assert(decode_values(bytes) =~= values);
}

/// Encoding the column read from a payload of whole elements gives the
/// payload back, byte for byte.
pub proof fn lemma_encode_decode(bytes: Seq<u8>)
    requires
        bytes.len() % 8 == 0,
    ensures
        encode_values(decode_values(bytes)) == bytes,
{
    let values = decode_values(bytes);
    assert(8 * values.len() == bytes.len());
    assert forall|k: int| 0 <= k < bytes.len() implies encode_values(values)[k] == bytes[k] by {
        let i = k / 8;
        let j = k % 8;
        let part = bytes.subrange(8 * i, 8 * i + 8);
        lemma_le_u64_round_trip(part);
        assert(part[j] == bytes[k]);
    }
    assert(encode_values(values) =~= bytes);
}

/// Appends the little-endian image of `x` to `out`.
pub fn push_u64_le(out: &mut Vec<u8>, x: u64)
    ensures
        final(out)@ == old(out)@ + u64_le_bytes(x),
{
    out.push((x % 0x100) as u8);
    out.push((x / 0x100 % 0x100) as u8);
    out.push((x / 0x1_0000 % 0x100) as u8);
    out.push((x / 0x100_0000 % 0x100) as u8);
    out.push((x / 0x1_0000_0000 % 0x100) as u8);
    out.push((x / 0x100_0000_0000 % 0x100) as u8);
    out.push((x / 0x1_0000_0000_0000 % 0x100) as u8);
    out.push((x / 0x100_0000_0000_0000 % 0x100) as u8);
    assert(out@ =~= old(out)@ + u64_le_bytes(x));
}

/// Reads the value whose little-endian image stands at `bytes[at .. at + 8]`.
pub fn read_u64_le(bytes: &[u8], at: usize) -> (x: u64)
    requires
        at + 8 <= bytes@.len(),
    ensures
        x == u64_of_le_bytes(bytes@.subrange(at as int, at + 8)),
{
    let b0: u64 = bytes[at] as u64;
    let b1: u64 = bytes[at + 1] as u64;
    let b2: u64 = bytes[at + 2] as u64;
    let b3: u64 = bytes[at + 3] as u64;
    let b4: u64 = bytes[at + 4] as u64;
    let b5: u64 = bytes[at + 5] as u64;
    let b6: u64 = bytes[at + 6] as u64;
    let b7: u64 = bytes[at + 7] as u64;
    b0 + b1 * 0x100 + b2 * 0x1_0000 + b3 * 0x100_0000 + b4 * 0x1_0000_0000 + b5 * 0x100_0000_0000
        + b6 * 0x1_0000_0000_0000 + b7 * 0x100_0000_0000_0000
}

} // verus!
