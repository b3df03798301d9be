use vstd::prelude::*;
use vstd::slice::{slice_subrange, slice_to_vec};

use crate::address::{decode_xor_address, XorMappedAddress};
use crate::bytes::{be16, read_be16};
use crate::error::StunError;

verus! {

pub const TYPE_MAPPED_ADDRESS: u16 = 0x0001;

pub const TYPE_USERNAME: u16 = 0x0006;

pub const TYPE_MESSAGE_INTEGRITY: u16 = 0x0008;

pub const TYPE_ERROR_CODE: u16 = 0x0009;

pub const TYPE_UNKNOWN_ATTRIBUTES: u16 = 0x000A;

pub const TYPE_REALM: u16 = 0x0014;

pub const TYPE_NONCE: u16 = 0x0015;

pub const TYPE_XOR_MAPPED_ADDRESS: u16 = 0x0020;

/// A registered STUN attribute. Only XOR-MAPPED-ADDRESS carries its decoded
/// payload; the others are recognised by type code alone.
#[derive(Clone, Copy, Debug, PartialEq, Eq)]
pub enum Attribute {
    MappedAddress,
    Username,
    MessageIntegrity,
    ErrorCode,
    UnknownAttributes,
    Realm,
    Nonce,
    XorMappedAddress(XorMappedAddress),
}

/// An attribute with the address of XOR-MAPPED-ADDRESS as octets and port.
pub enum AttributeView {
    MappedAddress,
    Username,
    MessageIntegrity,
    ErrorCode,
    UnknownAttributes,
    Realm,
    Nonce,
    XorMappedAddress((Seq<u8>, u16)),
}

impl View for Attribute {
    type V = AttributeView;

    open spec fn view(&self) -> AttributeView {
        match self {
            Attribute::MappedAddress => AttributeView::MappedAddress,
            Attribute::Username => AttributeView::Username,
            Attribute::MessageIntegrity => AttributeView::MessageIntegrity,
            Attribute::ErrorCode => AttributeView::ErrorCode,
            Attribute::UnknownAttributes => AttributeView::UnknownAttributes,
            Attribute::Realm => AttributeView::Realm,
            Attribute::Nonce => AttributeView::Nonce,
            Attribute::XorMappedAddress(a) => AttributeView::XorMappedAddress(a@),
        }
    }
}

/// The views of a sequence of attributes.
pub open spec fn views(attributes: Seq<Attribute>) -> Seq<AttributeView> {
    attributes.map_values(|a: Attribute| a@)
}

/// What decoding one attribute value of type `attribute_type` gives.
pub open spec fn decode_attribute(attribute_type: u16, value: Seq<u8>, transaction_id: Seq<u8>) -> Result<
    AttributeView,
    StunError,
> {
    if attribute_type == TYPE_MAPPED_ADDRESS {
        Ok(AttributeView::MappedAddress)
    } else if attribute_type == TYPE_USERNAME {
        Ok(AttributeView::Username)
    } else if attribute_type == TYPE_MESSAGE_INTEGRITY {
        Ok(AttributeView::MessageIntegrity)
    } else if attribute_type == TYPE_ERROR_CODE {
        Ok(AttributeView::ErrorCode)
    } else if attribute_type == TYPE_UNKNOWN_ATTRIBUTES {
        Ok(AttributeView::UnknownAttributes)
    } else if attribute_type == TYPE_REALM {
        Ok(AttributeView::Realm)
    } else if attribute_type == TYPE_NONCE {
        Ok(AttributeView::Nonce)
    } else if attribute_type == TYPE_XOR_MAPPED_ADDRESS {
        match decode_xor_address(value, transaction_id) {
            Ok(a) => Ok(AttributeView::XorMappedAddress(a)),
            Err(e) => Err(e),
        }
    } else {
        Err(StunError::UnknownAttributeType(attribute_type))
    }
}

/// Number of padding bytes that follow a value of `len` bytes.
pub open spec fn padding(len: int) -> int {
    (4 - len % 4) % 4
}

/// Puts decoded attributes and diagnostics in front of a later result.
pub open spec fn prepend(
    attributes: Seq<AttributeView>,
    diagnostics: Seq<StunError>,
    rest: Result<(Seq<AttributeView>, Seq<StunError>), StunError>,
) -> Result<(Seq<AttributeView>, Seq<StunError>), StunError> {
    match rest {
        Ok((a, d)) => Ok((attributes + a, diagnostics + d)),
        Err(e) => Err(e),
    }
}

/// What decoding an attribute section gives: the attributes in order together
/// with a diagnostic for each TLV that was skipped, or the fatal error.
/// A TLV is a big-endian type and length, `length` value bytes and padding to
/// a multiple of 4 (padding missing at the very end is tolerated).
pub open spec fn decode_attributes(s: Seq<u8>, transaction_id: Seq<u8>) -> Result<
    (Seq<AttributeView>, Seq<StunError>),
    StunError,
>
    decreases s.len(),
{
    if s.len() == 0 {
        Ok((seq![], seq![]))
    } else if s.len() < 4 {
        Err(StunError::TruncatedAttribute)
    } else {
        let len = be16(s[2], s[3]) as int;
        if s.len() < 4 + len {
            Err(StunError::TruncatedAttribute)
        } else {
            let next = if s.len() < 4 + len + padding(len) {
                s.len() as int
            } else {
                4 + len + padding(len)
            };
            let rest = decode_attributes(s.subrange(next, s.len() as int), transaction_id);
            match decode_attribute(be16(s[0], s[1]), s.subrange(4, 4 + len), transaction_id) {
                Ok(a) => prepend(seq![a], seq![], rest),
                Err(e) => prepend(seq![], seq![e], rest),
            }
        }
    }
}

pub proof fn lemma_prepend_prepend(
    a1: Seq<AttributeView>,
    d1: Seq<StunError>,
    a2: Seq<AttributeView>,
    d2: Seq<StunError>,
    rest: Result<(Seq<AttributeView>, Seq<StunError>), StunError>,
)
    ensures
        prepend(a1, d1, prepend(a2, d2, rest)) == prepend(a1 + a2, d1 + d2, rest),
{
    match rest {
        Ok((a, d)) => {
            assert(a1 + (a2 + a) =~= (a1 + a2) + a);
            assert(d1 + (d2 + d) =~= (d1 + d2) + d);
        },
        Err(e) => {},
    }
}

/// Whether `s` is a run of whole TLVs, each with its padding.
pub open spec fn complete_tlvs(s: Seq<u8>) -> bool
    decreases s.len(),
{
    if s.len() == 0 {
        true
    } else if s.len() < 4 {
        false
    } else {
        let len = be16(s[2], s[3]) as int;
        let next = 4 + len + padding(len);
        s.len() >= next && complete_tlvs(s.subrange(next, s.len() as int))
    }
}

/// A run of whole TLVs decodes without a fatal error, and whatever follows it
/// is decoded on its own, its result placed after theirs.
pub proof fn lemma_decode_complete_prefix(p: Seq<u8>, rest: Seq<u8>, transaction_id: Seq<u8>)
    requires
        complete_tlvs(p),
    ensures
        decode_attributes(p, transaction_id) is Ok,
        decode_attributes(p + rest, transaction_id) == prepend(
            decode_attributes(p, transaction_id)->Ok_0.0,
            decode_attributes(p, transaction_id)->Ok_0.1,
            decode_attributes(rest, transaction_id),
        ),
    decreases p.len(),
{
    let s = p + rest;
    if p.len() == 0 {
        assert(s =~= rest);
        match decode_attributes(rest, transaction_id) {
            Ok((a, d)) => {
                assert(Seq::<AttributeView>::empty() + a =~= a);
                assert(Seq::<StunError>::empty() + d =~= d);
            },
            Err(_) => {},
        }
    } else {
        let len = be16(p[2], p[3]) as int;
        let next = 4 + len + padding(len);
        let tail = p.subrange(next, p.len() as int);
        assert(s[0] == p[0] && s[1] == p[1] && s[2] == p[2] && s[3] == p[3]);
        assert(s.subrange(4, 4 + len) =~= p.subrange(4, 4 + len));
        assert(s.subrange(next, s.len() as int) =~= tail + rest);
        lemma_decode_complete_prefix(tail, rest, transaction_id);
        let later = decode_attributes(rest, transaction_id);
        let t = decode_attributes(tail, transaction_id)->Ok_0;
        match decode_attribute(be16(p[0], p[1]), p.subrange(4, 4 + len), transaction_id) {
            Ok(a) => lemma_prepend_prepend(seq![a], seq![], t.0, t.1, later),
            Err(e) => lemma_prepend_prepend(seq![], seq![e], t.0, t.1, later),
        }
    }
}

/// An attribute section that, after any run of whole TLVs, ends in a TLV
/// whose declared length runs past the bytes left, or in a fragment shorter
/// than a type-length prefix, fails with `TruncatedAttribute`.
pub proof fn lemma_truncated_attribute(
    p: Seq<u8>,
    last: Seq<u8>,
    transaction_id: Seq<u8>,
)
    requires
        complete_tlvs(p),
        0 < last.len() < 4 || (last.len() >= 4 && 4 + be16(last[2], last[3]) > last.len()),
    ensures
        decode_attributes(p + last, transaction_id) == Err::<
            (Seq<AttributeView>, Seq<StunError>),
            _,
        >(StunError::TruncatedAttribute),
{
    lemma_decode_complete_prefix(p, last, transaction_id);
}

impl Attribute {
    /// Decodes one attribute value of the given type code. An unregistered
    /// code gives `UnknownAttributeType`.
    pub fn decode(attribute_type: u16, value: Vec<u8>, transaction_id: [u8; 12]) -> (r: Result<
        Attribute,
        StunError,
    >)
        ensures
            match r {
                Ok(a) => decode_attribute(attribute_type, value@, transaction_id@) == Ok::<
                    _,
                    StunError,
                >(a@),
                Err(e) => decode_attribute(attribute_type, value@, transaction_id@) == Err::<
                    AttributeView,
                    _,
                >(e),
            },
    {
        match attribute_type {
            TYPE_MAPPED_ADDRESS => Ok(Attribute::MappedAddress),
            TYPE_USERNAME => Ok(Attribute::Username),
            TYPE_MESSAGE_INTEGRITY => Ok(Attribute::MessageIntegrity),
            TYPE_ERROR_CODE => Ok(Attribute::ErrorCode),
            TYPE_UNKNOWN_ATTRIBUTES => Ok(Attribute::UnknownAttributes),
            TYPE_REALM => Ok(Attribute::Realm),
            TYPE_NONCE => Ok(Attribute::Nonce),
            TYPE_XOR_MAPPED_ADDRESS => match XorMappedAddress::decode(value, transaction_id) {
                Ok(a) => Ok(Attribute::XorMappedAddress(a)),
                Err(e) => Err(e),
            },
            _ => Err(StunError::UnknownAttributeType(attribute_type)),
        }
    }

    /// Decodes an attribute section (the bytes after the header). Returns the
    /// attributes in order and a diagnostic for each TLV that was skipped; a
    /// prefix or value that runs past the end fails with `TruncatedAttribute`.
    pub fn decode_all(encoded: &[u8], transaction_id: [u8; 12]) -> (r: Result<
        (Vec<Attribute>, Vec<StunError>),
        StunError,
    >)
        ensures
            match r {
                Ok((a, d)) => decode_attributes(encoded@, transaction_id@) == Ok::<_, StunError>(
                    (views(a@), d@),
                ),
                Err(e) => decode_attributes(encoded@, transaction_id@) == Err::<
                    (Seq<AttributeView>, Seq<StunError>),
                    _,
                >(e),
            },
    {
        let ghost s = encoded@;
        let ghost tid = transaction_id@;
        let mut attributes: Vec<Attribute> = Vec::new();
        let mut diagnostics: Vec<StunError> = Vec::new();
        let mut pos: usize = 0;
        assert(s.subrange(0, s.len() as int) =~= s);
        assert(prepend(seq![], seq![], decode_attributes(s, tid)) == decode_attributes(s, tid)) by {
            match decode_attributes(s, tid) {
                Ok((a, d)) => {
                    assert(Seq::<AttributeView>::empty() + a =~= a);
                    assert(Seq::<StunError>::empty() + d =~= d);
                },
                Err(e) => {},
            }
        }
        assert(views(attributes@) =~= seq![]);
        assert(diagnostics@ =~= seq![]);
        while pos < encoded.len()
            invariant
                s == encoded@,
                tid == transaction_id@,
                0 <= pos <= s.len(),
                decode_attributes(s, tid) == prepend(
                    views(attributes@),
                    diagnostics@,
                    decode_attributes(s.subrange(pos as int, s.len() as int), tid),
                ),
            decreases s.len() - pos,
        {
            let ghost rest = s.subrange(pos as int, s.len() as int);
            if encoded.len() - pos < 4 {
                return Err(StunError::TruncatedAttribute);
            }
            let attribute_type = read_be16(encoded, pos);
            let length = read_be16(encoded, pos + 2) as usize;
            assert(rest[0] == s[pos as int] && rest[1] == s[pos + 1]);
            assert(rest[2] == s[pos + 2] && rest[3] == s[pos + 3]);
            if encoded.len() - pos - 4 < length {
                return Err(StunError::TruncatedAttribute);
            }
            let value = slice_to_vec(slice_subrange(encoded, pos + 4, pos + 4 + length));
            assert(rest.subrange(4, 4 + length as int) =~= value@);
            let pad: usize = (4 - length % 4) % 4;
            let next: usize = if encoded.len() - pos < 4 + length + pad {
                encoded.len()
            } else {
                pos + 4 + length + pad
            };
            assert(rest.subrange(next - pos, rest.len() as int) =~= s.subrange(
                next as int,
                s.len() as int,
            ));
            let ghost later = decode_attributes(s.subrange(next as int, s.len() as int), tid);
            match Attribute::decode(attribute_type, value, transaction_id) {
                Ok(a) => {
                    proof {
                        lemma_prepend_prepend(
                            views(attributes@),
                            diagnostics@,
                            seq![a@],
                            seq![],
                            later,
                        );
                        assert(diagnostics@ + Seq::<StunError>::empty() =~= diagnostics@);
                    }
                    let ghost before = attributes@;
                    attributes.push(a);
                    assert(attributes@.drop_last() =~= before);
                    assert(views(attributes@) =~= views(before) + seq![a@]);
                },
                Err(e) => {
                    proof {
                        lemma_prepend_prepend(
                            views(attributes@),
                            diagnostics@,
                            seq![],
                            seq![e],
                            later,
                        );
                        assert(views(attributes@) + Seq::<AttributeView>::empty() =~= views(
                            attributes@,
                        ));
                    }
                    let ghost before = diagnostics@;
                    diagnostics.push(e);
                    assert(diagnostics@ =~= before + seq![e]);
                },
            }
            pos = next;
        }
        assert(s.subrange(pos as int, s.len() as int) =~= Seq::<u8>::empty());
        assert(views(attributes@) + Seq::<AttributeView>::empty() =~= views(attributes@));
        assert(diagnostics@ + Seq::<StunError>::empty() =~= diagnostics@);
        Ok((attributes, diagnostics))
    }
}

} // verus!
