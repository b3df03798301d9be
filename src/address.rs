use vstd::prelude::*;
use vstd::slice::slice_subrange;

use crate::bytes::{
    be16, be16_bytes, cookie_byte, lemma_be16_of_bytes, lemma_xor_twice, magic_cookie,
    push_be16, read_be16, xor_bytes, COOKIE_HIGH,
};
use crate::error::StunError;

verus! {

/// Address family byte of IPv4.
pub const FAMILY_IPV4: u8 = 1;

/// Address family byte of IPv6.
pub const FAMILY_IPV6: u8 = 2;

/// An IP address as its octets, most significant first.
#[derive(Clone, Copy, Debug, PartialEq, Eq)]
pub enum IpAddress {
    V4([u8; 4]),
    V6([u8; 16]),
}

impl View for IpAddress {
    type V = Seq<u8>;

    open spec fn view(&self) -> Seq<u8> {
        match self {
            IpAddress::V4(o) => o@,
            IpAddress::V6(o) => o@,
        }
    }
}

/// The transport address that a server saw, recovered from its XOR'd form.
#[derive(Clone, Copy, Debug, PartialEq, Eq)]
pub struct XorMappedAddress {
    pub ip: IpAddress,
    pub port: u16,
}

impl View for XorMappedAddress {
    /// The address octets and the port.
    type V = (Seq<u8>, u16);

    open spec fn view(&self) -> (Seq<u8>, u16) {
        (self.ip@, self.port)
    }
}

/// The address XOR key: the magic cookie followed by the transaction id.
/// IPv4 uses its first 4 bytes, IPv6 all 16.
pub open spec fn xor_key(transaction_id: Seq<u8>) -> Seq<u8> {
    magic_cookie() + transaction_id
}

/// Number of address octets for a family byte.
pub open spec fn family_len(family: u8) -> int {
    if family == FAMILY_IPV4 {
        4
    } else {
        16
    }
}

/// What decoding an XOR-MAPPED-ADDRESS value gives: the plain octets and port,
/// or the error.
pub open spec fn decode_xor_address(v: Seq<u8>, transaction_id: Seq<u8>) -> Result<
    (Seq<u8>, u16),
    StunError,
> {
    if v.len() < 2 {
        Err(StunError::MalformedAttribute)
    } else if v[1] != FAMILY_IPV4 && v[1] != FAMILY_IPV6 {
        Err(StunError::UnsupportedAddressFamily(v[1]))
    } else if v.len() < 4 + family_len(v[1]) {
        Err(StunError::MalformedAttribute)
    } else {
        Ok(
            (
                xor_bytes(v.subrange(4, 4 + family_len(v[1])), xor_key(transaction_id)),
                be16(v[2], v[3]) ^ COOKIE_HIGH,
            ),
        )
    }
}

/// The wire value of an address: reserved byte, family, XOR'd port, XOR'd octets.
pub open spec fn encode_xor_address(octets: Seq<u8>, port: u16, transaction_id: Seq<u8>) -> Seq<
    u8,
> {
    seq![0u8, if octets.len() == 4 { FAMILY_IPV4 } else { FAMILY_IPV6 }] + be16_bytes(
        port ^ COOKIE_HIGH,
    ) + xor_bytes(octets, xor_key(transaction_id))
}

/// The XOR key's byte at `i`.
fn key_byte(transaction_id: &[u8; 12], i: usize) -> (r: u8)
    requires
        i < 16,
    ensures
        r == xor_key(transaction_id@)[i as int],
{
    if i < 4 {
        cookie_byte(i)
    } else {
        transaction_id[i - 4]
    }
}

/// Appends each byte of `data` XOR'd with the key byte at the same position.
fn push_xored(out: &mut Vec<u8>, data: &[u8], transaction_id: &[u8; 12])
    requires
        data@.len() <= 16,
    ensures
        final(out)@ == old(out)@ + xor_bytes(data@, xor_key(transaction_id@)),
{
    let mut i: usize = 0;
    while i < data.len()
        invariant
            0 <= i <= data@.len() <= 16,
            out@ == old(out)@ + xor_bytes(data@, xor_key(transaction_id@)).subrange(0, i as int),
        decreases data@.len() - i,
    {
        out.push(data[i] ^ key_byte(transaction_id, i));
        assert(xor_bytes(data@, xor_key(transaction_id@)).subrange(0, i + 1) =~= xor_bytes(
            data@,
            xor_key(transaction_id@),
        ).subrange(0, i as int).push(data@[i as int] ^ xor_key(transaction_id@)[i as int]));
        i = i + 1;
    }
    assert(xor_bytes(data@, xor_key(transaction_id@)).subrange(0, data@.len() as int) =~= xor_bytes(
        data@,
        xor_key(transaction_id@),
    ));
}

impl XorMappedAddress {
    /// Recovers the address and port from an XOR-MAPPED-ADDRESS value. Bytes
    /// past the family's address are ignored.
    pub fn decode(encoded: Vec<u8>, transaction_id: [u8; 12]) -> (r: Result<
        XorMappedAddress,
        StunError,
    >)
        ensures
            match r {
                Ok(a) => decode_xor_address(encoded@, transaction_id@) == Ok::<_, StunError>(a@)
                    && (a.ip is V4 <==> encoded@[1] == FAMILY_IPV4),
                Err(e) => decode_xor_address(encoded@, transaction_id@) == Err::<(Seq<u8>, u16), _>(
                    e,
                ),
            },
    {
        if encoded.len() < 2 {
            return Err(StunError::MalformedAttribute);
        }
        let family = encoded[1];
        if family != FAMILY_IPV4 && family != FAMILY_IPV6 {
            return Err(StunError::UnsupportedAddressFamily(family));
        }
        let n: usize = if family == FAMILY_IPV4 {
            4
        } else {
            16
        };
        if encoded.len() < 4 + n {
            return Err(StunError::MalformedAttribute);
        }
        let port = read_be16(encoded.as_slice(), 2) ^ COOKIE_HIGH;
        let mut plain: Vec<u8> = Vec::new();
        push_xored(&mut plain, slice_subrange(encoded.as_slice(), 4, 4 + n), &transaction_id);
        assert(plain@ =~= xor_bytes(encoded@.subrange(4, 4 + n as int), xor_key(transaction_id@)));
        let ip = if family == FAMILY_IPV4 {
            let o: [u8; 4] = [plain[0], plain[1], plain[2], plain[3]];
            assert(o@ =~= plain@);
            IpAddress::V4(o)
        } else {
            let o: [u8; 16] = [
                plain[0],
                plain[1],
                plain[2],
                plain[3],
                plain[4],
                plain[5],
                plain[6],
                plain[7],
                plain[8],
                plain[9],
                plain[10],
                plain[11],
                plain[12],
                plain[13],
                plain[14],
                plain[15],
            ];
            assert(o@ =~= plain@);
            IpAddress::V6(o)
        };
        Ok(XorMappedAddress { ip, port })
    }

    /// The XOR-MAPPED-ADDRESS value that carries this address for a transaction.
    pub fn encode(&self, transaction_id: [u8; 12]) -> (r: Vec<u8>)
        ensures
            r@ == encode_xor_address(self.ip@, self.port, transaction_id@),
            decode_xor_address(r@, transaction_id@) == Ok::<_, StunError>(self@),
    {
        let mut out: Vec<u8> = Vec::new();
        out.push(0u8);
        match &self.ip {
            IpAddress::V4(_) => out.push(FAMILY_IPV4),
            IpAddress::V6(_) => out.push(FAMILY_IPV6),
        }
        push_be16(&mut out, self.port ^ COOKIE_HIGH);
        match &self.ip {
            IpAddress::V4(o) => push_xored(&mut out, o, &transaction_id),
            IpAddress::V6(o) => push_xored(&mut out, o, &transaction_id),
        }
        assert(out@ =~= encode_xor_address(self.ip@, self.port, transaction_id@));
        proof {
            lemma_xor_address_round_trip(self.ip@, self.port, transaction_id@);
        }
        out
    }
}

/// Encoding an address and port for a transaction and decoding the result with
/// the same transaction id gives back that address and port, for IPv4 (4
/// octets) and IPv6 (16 octets) alike.
pub proof fn lemma_xor_address_round_trip(octets: Seq<u8>, port: u16, transaction_id: Seq<u8>)
    requires
        octets.len() == 4 || octets.len() == 16,
        transaction_id.len() == 12,
    ensures
        decode_xor_address(encode_xor_address(octets, port, transaction_id), transaction_id)
            == Ok::<_, StunError>((octets, port)),
{
    let v = encode_xor_address(octets, port, transaction_id);
    let x = port ^ COOKIE_HIGH;
    lemma_be16_of_bytes(x);
    assert(v[2] == be16_bytes(x)[0] && v[3] == be16_bytes(x)[1]);
    assert((port ^ 0x2112u16) ^ 0x2112u16 == port) by (bit_vector);
    let n = family_len(v[1]);
    assert(n == octets.len());
    assert(v.subrange(4, 4 + n) =~= xor_bytes(octets, xor_key(transaction_id)));
    lemma_xor_twice(octets, xor_key(transaction_id));
}

} // verus!
