use vstd::prelude::*;

use crate::attribute::{complete_tlvs, decode_attributes, lemma_prepend_prepend, lemma_truncated_attribute, prepend, views, Attribute, AttributeView, TYPE_ERROR_CODE,
    TYPE_MAPPED_ADDRESS, TYPE_MESSAGE_INTEGRITY, TYPE_NONCE, TYPE_REALM, TYPE_UNKNOWN_ATTRIBUTES,
    TYPE_USERNAME, TYPE_XOR_MAPPED_ADDRESS};
use crate::address::{encode_xor_address, lemma_xor_address_round_trip};
use crate::bytes::{be16, be16_bytes, lemma_be16_of_bytes, push_be16};
use crate::error::StunError;
use crate::header::{decode_header, header_bytes, lemma_header_round_trip, Header, MessageClass, MessageMethod, HEADER_LEN};

verus! {

/// Relies on rand::random: a value drawn from the thread-local generator.
/// Nothing is promised of the value.
pub assume_specification<T>[ rand::random::<T> ]() -> (r: T)
    where
        rand::distributions::Standard: rand::distributions::Distribution<T>,
;

/// The type code of an attribute.
pub open spec fn type_code(a: AttributeView) -> u16 {
    match a {
        AttributeView::MappedAddress => TYPE_MAPPED_ADDRESS,
        AttributeView::Username => TYPE_USERNAME,
        AttributeView::MessageIntegrity => TYPE_MESSAGE_INTEGRITY,
        AttributeView::ErrorCode => TYPE_ERROR_CODE,
        AttributeView::UnknownAttributes => TYPE_UNKNOWN_ATTRIBUTES,
        AttributeView::Realm => TYPE_REALM,
        AttributeView::Nonce => TYPE_NONCE,
        AttributeView::XorMappedAddress(_) => TYPE_XOR_MAPPED_ADDRESS,
    }
}

/// The value bytes of an attribute: the XOR'd address for XOR-MAPPED-ADDRESS,
/// nothing for the attributes that carry no decoded payload.
pub open spec fn value_bytes(a: AttributeView, transaction_id: Seq<u8>) -> Seq<u8> {
    match a {
        AttributeView::XorMappedAddress((octets, port)) => encode_xor_address(
            octets,
            port,
            transaction_id,
        ),
        _ => seq![],
    }
}

/// One attribute's TLV: type, value length, value. The values written here
/// are 0, 8 or 20 bytes long, so no padding follows.
pub open spec fn encode_attribute(a: AttributeView, transaction_id: Seq<u8>) -> Seq<u8> {
    be16_bytes(type_code(a)) + be16_bytes(value_bytes(a, transaction_id).len() as u16)
        + value_bytes(a, transaction_id)
}

/// The attribute section: each attribute's TLV, in order.
pub open spec fn encode_attributes(attributes: Seq<AttributeView>, transaction_id: Seq<u8>) -> Seq<
    u8,
>
    decreases attributes.len(),
{
    if attributes.len() == 0 {
        seq![]
    } else {
        encode_attributes(attributes.drop_last(), transaction_id) + encode_attribute(
            attributes.last(),
            transaction_id,
        )
    }
}

/// What decoding a whole message gives: class, transaction id, attributes and
/// the diagnostics of skipped attributes, or the fatal error.
pub open spec fn decode_message(e: Seq<u8>) -> Result<
    (MessageClass, Seq<u8>, Seq<AttributeView>, Seq<StunError>),
    StunError,
> {
    match decode_header(e) {
        Err(x) => Err(x),
        Ok((class, tid)) => match decode_attributes(e.subrange(20, e.len() as int), tid) {
            Ok((a, d)) => Ok((class, tid, a, d)),
            Err(x) => Err(x),
        },
    }
}

pub proof fn lemma_encode_attributes_prefix(
    attributes: Seq<AttributeView>,
    i: int,
    transaction_id: Seq<u8>,
)
    requires
        0 <= i <= attributes.len(),
    ensures
        encode_attributes(attributes.subrange(0, i), transaction_id).len() <= encode_attributes(
            attributes,
            transaction_id,
        ).len(),
    decreases attributes.len(),
{
    if i < attributes.len() {
        assert(attributes.drop_last().subrange(0, i) =~= attributes.subrange(0, i));
        lemma_encode_attributes_prefix(attributes.drop_last(), i, transaction_id);
    } else {
        assert(attributes.subrange(0, i) =~= attributes);
    }
}

impl Attribute {
    /// The TLV of this attribute for a message with the given transaction id.
    pub fn encode(&self, transaction_id: [u8; 12]) -> (r: Vec<u8>)
        ensures
            r@ == encode_attribute(self@, transaction_id@),
    {
        let code: u16 = match self {
            Attribute::MappedAddress => TYPE_MAPPED_ADDRESS,
            Attribute::Username => TYPE_USERNAME,
            Attribute::MessageIntegrity => TYPE_MESSAGE_INTEGRITY,
            Attribute::ErrorCode => TYPE_ERROR_CODE,
            Attribute::UnknownAttributes => TYPE_UNKNOWN_ATTRIBUTES,
            Attribute::Realm => TYPE_REALM,
            Attribute::Nonce => TYPE_NONCE,
            Attribute::XorMappedAddress(_) => TYPE_XOR_MAPPED_ADDRESS,
        };
        let mut value: Vec<u8> = match self {
            Attribute::XorMappedAddress(a) => a.encode(transaction_id),
            _ => Vec::new(),
        };
        assert(value@ == value_bytes(self@, transaction_id@));
        assert(value@.len() <= 20) by {
            match self {
                Attribute::XorMappedAddress(a) => {
                    assert(a.ip@.len() == 4 || a.ip@.len() == 16);
                },
                _ => {},
            }
        }
        let mut out: Vec<u8> = Vec::new();
        push_be16(&mut out, code);
        push_be16(&mut out, value.len() as u16);
        out.append(&mut value);
        out
    }
}

/// A STUN message: a header and its attributes, in wire order. `diagnostics`
/// holds what was skipped while decoding (empty for a message built here).
#[derive(Debug)]
pub struct Message {
    pub header: Header,
    pub attributes: Vec<Attribute>,
    pub diagnostics: Vec<StunError>,
}

impl Message {
    /// A Binding Request with the given transaction id and no attributes.
    pub fn request_with_id(transaction_id: [u8; 12]) -> (r: Message)
        ensures
            r.header.class == MessageClass::Request,
            r.header.method == MessageMethod::Binding,
            r.header.transaction_id == transaction_id,
            r.attributes@.len() == 0,
            r.diagnostics@.len() == 0,
    {
        Message {
            header: Header {
                class: MessageClass::Request,
                method: MessageMethod::Binding,
                transaction_id,
            },
            attributes: Vec::new(),
            diagnostics: Vec::new(),
        }
    }

    /// A Binding Request with a fresh random transaction id and no attributes.
    pub fn request() -> (r: Message)
        ensures
            r.header.class == MessageClass::Request,
            r.header.method == MessageMethod::Binding,
            r.attributes@.len() == 0,
            r.diagnostics@.len() == 0,
    {
        Message::request_with_id(rand::random::<[u8; 12]>())
    }

    /// Decodes a whole message: the 20-byte header, then every byte after it
    /// as the attribute section, XOR'd addresses read with the header's
    /// transaction id.
    pub fn decode(encoded: Vec<u8>) -> (r: Result<Message, StunError>)
        ensures
            match r {
                Ok(m) => decode_message(encoded@) == Ok::<_, StunError>(
                    (
                        m.header.class,
                        m.header.transaction_id@,
                        views(m.attributes@),
                        m.diagnostics@,
                    ),
                ) && m.header.method == MessageMethod::Binding,
                Err(e) => decode_message(encoded@) == Err::<
                    (MessageClass, Seq<u8>, Seq<AttributeView>, Seq<StunError>),
                    _,
                >(e),
            },
    {
        let header = match Header::decode(encoded.as_slice()) {
            Ok(h) => h,
            Err(e) => {
                return Err(e);
            },
        };
        let section = vstd::slice::slice_subrange(encoded.as_slice(), HEADER_LEN, encoded.len());
        match Attribute::decode_all(section, header.transaction_id) {
            Ok((attributes, diagnostics)) => Ok(Message { header, attributes, diagnostics }),
            Err(e) => Err(e),
        }
    }

    /// The wire bytes: the header, announcing the attribute section's length,
    /// then each attribute's TLV in order.
    pub fn encode(&self) -> (r: Vec<u8>)
        requires
            encode_attributes(views(self.attributes@), self.header.transaction_id@).len() <= 0xFFFF,
        ensures
            r@ == header_bytes(
                self.header.class,
                self.header.method,
                self.header.transaction_id@,
                encode_attributes(views(self.attributes@), self.header.transaction_id@).len() as u16,
            ) + encode_attributes(views(self.attributes@), self.header.transaction_id@),
    {
        let ghost tid = self.header.transaction_id@;
        let ghost all = views(self.attributes@);
        let mut body: Vec<u8> = Vec::new();
        let mut i: usize = 0;
        assert(all.subrange(0, 0) =~= Seq::<AttributeView>::empty());
        while i < self.attributes.len()
            invariant
                0 <= i <= self.attributes@.len(),
                tid == self.header.transaction_id@,
                all == views(self.attributes@),
                all.len() == self.attributes@.len(),
                encode_attributes(all, tid).len() <= 0xFFFF,
                body@ == encode_attributes(all.subrange(0, i as int), tid),
            decreases self.attributes@.len() - i,
        {
            let mut tlv = self.attributes[i].encode(self.header.transaction_id);
            proof {
                assert(all.subrange(0, i + 1).drop_last() =~= all.subrange(0, i as int));
                lemma_encode_attributes_prefix(all, i + 1, tid);
            }
            body.append(&mut tlv);
            i = i + 1;
        }
        assert(all.subrange(0, i as int) =~= all);
        let mut out = self.header.encode(body.len() as u16);
        out.append(&mut body);
        out
    }
}

/// An attribute that encoding can write: an address has 4 or 16 octets.
pub open spec fn encodable(a: AttributeView) -> bool {
    match a {
        AttributeView::XorMappedAddress((octets, _)) => octets.len() == 4 || octets.len() == 16,
        _ => true,
    }
}

proof fn lemma_decode_tlv(a: AttributeView, rest: Seq<u8>, transaction_id: Seq<u8>)
    requires
        encodable(a),
        transaction_id.len() == 12,
    ensures
        decode_attributes(encode_attribute(a, transaction_id) + rest, transaction_id) == prepend(
            seq![a],
            seq![],
            decode_attributes(rest, transaction_id),
        ),
{
    let value = value_bytes(a, transaction_id);
    let s = encode_attribute(a, transaction_id) + rest;
    lemma_be16_of_bytes(type_code(a));
    lemma_be16_of_bytes(value.len() as u16);
    assert(value.len() == 0 || value.len() == 8 || value.len() == 20);
    assert(s[0] == be16_bytes(type_code(a))[0] && s[1] == be16_bytes(type_code(a))[1]);
    assert(s[2] == be16_bytes(value.len() as u16)[0] && s[3] == be16_bytes(
        value.len() as u16,
    )[1]);
    assert(s.subrange(4, 4 + value.len() as int) =~= value);
    assert(s.subrange(4 + value.len() as int, s.len() as int) =~= rest);
    match a {
        AttributeView::XorMappedAddress((octets, port)) => {
            lemma_xor_address_round_trip(octets, port, transaction_id);
        },
        _ => {},
    }
}

proof fn lemma_decode_encoded(
    attributes: Seq<AttributeView>,
    rest: Seq<u8>,
    transaction_id: Seq<u8>,
)
    requires
        forall|i: int| 0 <= i < attributes.len() ==> encodable(#[trigger] attributes[i]),
        transaction_id.len() == 12,
    ensures
        decode_attributes(encode_attributes(attributes, transaction_id) + rest, transaction_id)
            == prepend(attributes, seq![], decode_attributes(rest, transaction_id)),
    decreases attributes.len(),
{
    if attributes.len() == 0 {
        assert(encode_attributes(attributes, transaction_id) + rest =~= rest);
        match decode_attributes(rest, transaction_id) {
            Ok((a, d)) => {
                assert(attributes + a =~= a);
                assert(Seq::<StunError>::empty() + d =~= d);
            },
            Err(_) => {},
        }
    } else {
        let init = attributes.drop_last();
        let last = attributes.last();
        let tail = encode_attribute(last, transaction_id) + rest;
        assert(encode_attributes(attributes, transaction_id) + rest =~= encode_attributes(
            init,
            transaction_id,
        ) + tail);
        assert(encodable(attributes[attributes.len() - 1]));
        lemma_decode_tlv(last, rest, transaction_id);
        lemma_decode_encoded(init, tail, transaction_id);
        lemma_prepend_prepend(
            init,
            seq![],
            seq![last],
            seq![],
            decode_attributes(rest, transaction_id),
        );
        assert(init + seq![last] =~= attributes);
        assert(Seq::<StunError>::empty() + Seq::<StunError>::empty() =~= Seq::<StunError>::empty());
    }
}

/// Decoding the bytes that `Message::encode` writes gives back the message's
/// class, transaction id and attributes, with nothing skipped, whatever the
/// class and transaction id and for any attributes whose section fits the
/// 16-bit length field.
pub proof fn lemma_message_round_trip(
    class: MessageClass,
    transaction_id: Seq<u8>,
    attributes: Seq<AttributeView>,
)
    requires
        transaction_id.len() == 12,
        forall|i: int| 0 <= i < attributes.len() ==> encodable(#[trigger] attributes[i]),
        encode_attributes(attributes, transaction_id).len() <= 0xFFFF,
    ensures
        decode_message(
            header_bytes(
                class,
                MessageMethod::Binding,
                transaction_id,
                encode_attributes(attributes, transaction_id).len() as u16,
            ) + encode_attributes(attributes, transaction_id),
        ) == Ok::<_, StunError>((class, transaction_id, attributes, Seq::<StunError>::empty())),
{
    let body = encode_attributes(attributes, transaction_id);
    let h = header_bytes(class, MessageMethod::Binding, transaction_id, body.len() as u16);
    let e = h + body;
    lemma_header_round_trip(class, transaction_id, body.len() as u16);
    assert(e.subrange(0, 20) =~= h);
    assert(e.subrange(4, 8) =~= h.subrange(4, 8));
    assert(e.subrange(8, 20) =~= h.subrange(8, 20));
    assert(e[0] == h[0] && e[1] == h[1]);
    assert(e.subrange(20, e.len() as int) =~= body);
    lemma_decode_encoded(attributes, seq![], transaction_id);
    assert(body + Seq::<u8>::empty() =~= body);
    assert(decode_attributes(Seq::<u8>::empty(), transaction_id) == Ok::<_, StunError>(
        (Seq::<AttributeView>::empty(), Seq::<StunError>::empty()),
    ));
    assert(attributes + Seq::<AttributeView>::empty() =~= attributes);
}

/// A message with a valid header whose attribute section, after any run of
/// whole TLVs, ends in a truncated TLV or fragment fails with
/// `TruncatedAttribute`.
pub proof fn lemma_truncated_message(e: Seq<u8>, p: Seq<u8>, last: Seq<u8>)
    requires
        decode_header(e) is Ok,
        e.len() >= 20,
        e.subrange(20, e.len() as int) == p + last,
        complete_tlvs(p),
        0 < last.len() < 4 || (last.len() >= 4 && 4 + be16(last[2], last[3]) > last.len()),
    ensures
        decode_message(e) == Err::<
            (MessageClass, Seq<u8>, Seq<AttributeView>, Seq<StunError>),
            _,
        >(StunError::TruncatedAttribute),
{
    lemma_truncated_attribute(p, last, decode_header(e)->Ok_0.1);
}

/// A request encoded for any transaction id decodes as a Binding Request with
/// that same transaction id and no attributes.
pub proof fn lemma_request_round_trip(transaction_id: Seq<u8>)
    requires
        transaction_id.len() == 12,
    ensures
        decode_message(
            header_bytes(
                MessageClass::Request,
                MessageMethod::Binding,
                transaction_id,
                encode_attributes(Seq::<AttributeView>::empty(), transaction_id).len() as u16,
            ) + encode_attributes(Seq::<AttributeView>::empty(), transaction_id),
        ) == Ok::<_, StunError>(
            (MessageClass::Request, transaction_id, Seq::<AttributeView>::empty(), Seq::<
                StunError,
            >::empty()),
        ),
{
    lemma_message_round_trip(MessageClass::Request, transaction_id, Seq::<AttributeView>::empty());
}

} // verus!
