use vstd::prelude::*;

verus! {

/// What can go wrong while decoding a STUN message.
#[derive(Clone, Copy, Debug, PartialEq, Eq, Structural)]
pub enum StunError {
    /// Fewer than 20 header bytes, a wrong magic cookie, or class bits that
    /// name no message class. Fatal for the whole message.
    MalformedHeader,
    /// An attribute's type-length prefix, or its value, runs past the end of
    /// the buffer. Fatal for the rest of the attribute section.
    TruncatedAttribute,
    /// An attribute type code outside the registered set; that attribute is
    /// skipped.
    UnknownAttributeType(u16),
    /// An address attribute whose family byte is neither IPv4 nor IPv6. Within
    /// a message that attribute is skipped.
    UnsupportedAddressFamily(u8),
    /// An address attribute whose value is too short for its family. Within a
    /// message that attribute is skipped.
    MalformedAttribute,
}

} // verus!
