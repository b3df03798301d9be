use vstd::prelude::*;

use crate::bytes::{be16, be16_bytes, cookie_byte, lemma_be16_of_bytes, magic_cookie, push_be16, read_be16};
use crate::error::StunError;

verus! {

/// The bits of the message-type field that carry the class.
pub const CLASS_MASK: u16 = 0x0110;

/// Length of the fixed header in bytes.
pub const HEADER_LEN: usize = 20;

#[derive(Clone, Copy, Debug, PartialEq, Eq, Structural)]
pub enum MessageClass {
    Request,
    Indication,
    SuccessResponse,
    FailureResponse,
}

/// The class that a masked message-type pattern stands for, if any.
pub open spec fn class_of(bits: u16) -> Option<MessageClass> {
    if bits == 0x0000 {
        Some(MessageClass::Request)
    } else if bits == 0x0010 {
        Some(MessageClass::Indication)
    } else if bits == 0x0100 {
        Some(MessageClass::SuccessResponse)
    } else if bits == 0x0110 {
        Some(MessageClass::FailureResponse)
    } else {
        None
    }
}

impl MessageClass {
    /// The class's bit pattern within the message-type field.
    pub open spec fn spec_bits(self) -> u16 {
        match self {
            MessageClass::Request => 0x0000,
            MessageClass::Indication => 0x0010,
            MessageClass::SuccessResponse => 0x0100,
            MessageClass::FailureResponse => 0x0110,
        }
    }

    pub fn bits(&self) -> (r: u16)
        ensures
            r == self.spec_bits(),
    {
        match self {
            MessageClass::Request => 0x0000,
            MessageClass::Indication => 0x0010,
            MessageClass::SuccessResponse => 0x0100,
            MessageClass::FailureResponse => 0x0110,
        }
    }

    /// The class whose bit pattern is exactly `num`; `None` for any other pattern.
    pub fn from_u16(num: u16) -> (r: Option<MessageClass>)
        ensures
            r == class_of(num),
            forall|c: MessageClass| (r == Some(c)) <==> c.spec_bits() == num,
    {
        match num {
            0x0000 => Some(MessageClass::Request),
            0x0010 => Some(MessageClass::Indication),
            0x0100 => Some(MessageClass::SuccessResponse),
            0x0110 => Some(MessageClass::FailureResponse),
            _ => None,
        }
    }
}

#[derive(Clone, Copy, Debug, PartialEq, Eq, Structural)]
pub enum MessageMethod {
    Binding,
}

impl MessageMethod {
    pub open spec fn spec_bits(self) -> u16 {
        match self {
            MessageMethod::Binding => 0x0001,
        }
    }

    pub fn bits(&self) -> (r: u16)
        ensures
            r == self.spec_bits(),
    {
        match self {
            MessageMethod::Binding => 0x0001,
        }
    }
}

#[derive(Clone, Copy, Debug)]
pub struct Header {
    pub class: MessageClass,
    pub method: MessageMethod,
    pub transaction_id: [u8; 12],
}

/// The message-type field for a class and a method.
pub open spec fn message_type_of(class: MessageClass, method: MessageMethod) -> u16 {
    class.spec_bits() | method.spec_bits()
}

/// The 20 wire bytes of a header whose attribute section is `length` bytes long.
pub open spec fn header_bytes(
    class: MessageClass,
    method: MessageMethod,
    transaction_id: Seq<u8>,
    length: u16,
) -> Seq<u8> {
    be16_bytes(message_type_of(class, method)) + be16_bytes(length) + magic_cookie()
        + transaction_id
}

/// What decoding `e` as a header gives: its class and transaction id, or the error.
/// The method is always Binding, the only one defined.
pub open spec fn decode_header(e: Seq<u8>) -> Result<(MessageClass, Seq<u8>), StunError> {
    if e.len() < 20 || e.subrange(4, 8) != magic_cookie() {
        Err(StunError::MalformedHeader)
    } else {
        match class_of(be16(e[0], e[1]) & CLASS_MASK) {
            Some(c) => Ok((c, e.subrange(8, 20))),
            None => Err(StunError::MalformedHeader),
        }
    }
}

impl Header {
    /// Decodes the first 20 bytes of `encoded`.
    pub fn decode(encoded: &[u8]) -> (r: Result<Header, StunError>)
        ensures
            match r {
                Ok(h) => decode_header(encoded@) == Ok::<_, StunError>((h.class, h.transaction_id@))
                    && h.method == MessageMethod::Binding,
                Err(e) => decode_header(encoded@) == Err::<(MessageClass, Seq<u8>), _>(e),
            },
    {
        if encoded.len() < HEADER_LEN {
            return Err(StunError::MalformedHeader);
        }
        let mut i: usize = 0;
        while i < 4
            invariant
                0 <= i <= 4,
                encoded@.len() >= 20,
                forall|j: int| 0 <= j < i ==> encoded@[4 + j] == magic_cookie()[j],
            decreases 4 - i,
        {
            if encoded[4 + i] != cookie_byte(i) {
                assert(encoded@.subrange(4, 8)[i as int] != magic_cookie()[i as int]);
                return Err(StunError::MalformedHeader);
            }
            i = i + 1;
        }
        assert(encoded@.subrange(4, 8) =~= magic_cookie());
        let message_type = read_be16(encoded, 0);
        let class = match MessageClass::from_u16(message_type & CLASS_MASK) {
            Some(c) => c,
            None => {
                return Err(StunError::MalformedHeader);
            },
        };
        let transaction_id: [u8; 12] = [
            encoded[8],
            encoded[9],
            encoded[10],
            encoded[11],
            encoded[12],
            encoded[13],
            encoded[14],
            encoded[15],
            encoded[16],
            encoded[17],
            encoded[18],
            encoded[19],
        ];
        assert(transaction_id@ =~= encoded@.subrange(8, 20));
        Ok(Header { class, method: MessageMethod::Binding, transaction_id })
    }

    /// The 20 header bytes, announcing an attribute section of `message_length` bytes.
    pub fn encode(&self, message_length: u16) -> (r: Vec<u8>)
        ensures
            r@ == header_bytes(self.class, self.method, self.transaction_id@, message_length),
    {
        let mut bytes: Vec<u8> = Vec::new();
        push_be16(&mut bytes, self.message_type());
        push_be16(&mut bytes, message_length);
        let mut i: usize = 0;
        while i < 4
            invariant
                0 <= i <= 4,
                bytes@ == be16_bytes(message_type_of(self.class, self.method)) + be16_bytes(
                    message_length,
                ) + magic_cookie().subrange(0, i as int),
            decreases 4 - i,
        {
            bytes.push(cookie_byte(i));
            assert(magic_cookie().subrange(0, i + 1) =~= magic_cookie().subrange(0, i as int).push(
                magic_cookie()[i as int],
            ));
            i = i + 1;
        }
        assert(magic_cookie().subrange(0, 4) =~= magic_cookie());
        let mut j: usize = 0;
        while j < 12
            invariant
                0 <= j <= 12,
                self.transaction_id@.len() == 12,
                bytes@ == be16_bytes(message_type_of(self.class, self.method)) + be16_bytes(
                    message_length,
                ) + magic_cookie() + self.transaction_id@.subrange(0, j as int),
            decreases 12 - j,
        {
            bytes.push(self.transaction_id[j]);
            assert(self.transaction_id@.subrange(0, j + 1) =~= self.transaction_id@.subrange(
                0,
                j as int,
            ).push(self.transaction_id@[j as int]));
            j = j + 1;
        }
        assert(self.transaction_id@.subrange(0, 12) =~= self.transaction_id@);
        bytes
    }

    /// The message-type field: class bits OR method bits.
    pub fn message_type(&self) -> (r: u16)
        ensures
            r == message_type_of(self.class, self.method),
    {
        self.class.bits() | self.method.bits()
    }
}

/// Decoding the bytes that `Header::encode` writes gives back the header's class
/// and transaction id, whatever the class, the transaction id and the announced
/// length.
pub proof fn lemma_header_round_trip(
    class: MessageClass,
    transaction_id: Seq<u8>,
    length: u16,
)
    requires
        transaction_id.len() == 12,
    ensures
        decode_header(header_bytes(class, MessageMethod::Binding, transaction_id, length)) == Ok::<
            _,
            StunError,
        >((class, transaction_id)),
{
    let t = message_type_of(class, MessageMethod::Binding);
    let e = header_bytes(class, MessageMethod::Binding, transaction_id, length);
    lemma_be16_of_bytes(t);
    assert(e[0] == be16_bytes(t)[0] && e[1] == be16_bytes(t)[1]);
    assert(e.subrange(4, 8) =~= magic_cookie());
    assert(e.subrange(8, 20) =~= transaction_id);
    let c = class.spec_bits();
    assert(c == 0 || c == 0x10 || c == 0x100 || c == 0x110);
    assert((c == 0 || c == 0x10 || c == 0x100 || c == 0x110) ==> (c | 1u16) & 0x0110u16 == c)
        by (bit_vector);
}

} // verus!
