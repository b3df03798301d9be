use vstd::prelude::*;

verus! {

/// The magic cookie that every STUN header carries in bytes 4 to 7.
pub open spec fn magic_cookie() -> Seq<u8> {
    seq![0x21u8, 0x12u8, 0xA4u8, 0x42u8]
}

/// The 16 most significant bits of the magic cookie, the port's XOR key.
pub const COOKIE_HIGH: u16 = 0x2112;

/// A big-endian 16-bit value read from two bytes.
pub open spec fn be16(hi: u8, lo: u8) -> u16 {
    ((hi as u16) << 8u16) | (lo as u16)
}

/// The two big-endian bytes of a 16-bit value.
pub open spec fn be16_bytes(x: u16) -> Seq<u8> {
    seq![(x >> 8u16) as u8, (x & 0xffu16) as u8]
}

/// Byte-wise XOR of `data` with the leading bytes of `key`.
pub open spec fn xor_bytes(data: Seq<u8>, key: Seq<u8>) -> Seq<u8> {
    Seq::new(data.len(), |i: int| data[i] ^ key[i])
}

pub proof fn lemma_be16_of_bytes(x: u16)
    ensures
        be16(be16_bytes(x)[0], be16_bytes(x)[1]) == x,
{
    assert(((((x >> 8u16) as u8) as u16) << 8u16) | (((x & 0xffu16) as u8) as u16) == x)
        by (bit_vector);
}

pub proof fn lemma_xor_twice(data: Seq<u8>, key: Seq<u8>)
    requires
        data.len() <= key.len(),
    ensures
        xor_bytes(xor_bytes(data, key), key) == data,
{
    assert forall|i: int| 0 <= i < data.len() implies #[trigger] xor_bytes(
        xor_bytes(data, key),
        key,
    )[i] == data[i] by {
        let a = data[i];
        let k = key[i];
        assert((a ^ k) ^ k == a) by (bit_vector);
    }
    assert(xor_bytes(xor_bytes(data, key), key) =~= data);
}

/// Reads the big-endian 16-bit value at `i`.
pub fn read_be16(b: &[u8], i: usize) -> (r: u16)
    requires
        i + 2 <= b@.len(),
    ensures
        r == be16(b@[i as int], b@[i + 1]),
{
    ((b[i] as u16) << 8u16) | (b[i + 1] as u16)
}

/// Appends the two big-endian bytes of `x`.
pub fn push_be16(out: &mut Vec<u8>, x: u16)
    ensures
        final(out)@ == old(out)@ + be16_bytes(x),
{
    out.push((x >> 8u16) as u8);
    out.push((x & 0xffu16) as u8);
    assert(final(out)@ =~= old(out)@ + be16_bytes(x));
}

/// The magic cookie's byte at `i`.
pub fn cookie_byte(i: usize) -> (r: u8)
    requires
        i < 4,
    ensures
        r == magic_cookie()[i as int],
{
    match i {
        0 => 0x21,
        1 => 0x12,
        2 => 0xA4,
        _ => 0x42,
    }
}

} // verus!
