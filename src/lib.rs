//! A STUN Binding codec: the fixed 20-byte header, the attribute TLV section
//! and the XOR transform that hides the mapped address on the wire.

pub mod address;
pub mod attribute;
pub mod bytes;
pub mod error;
pub mod header;
pub mod message;
pub mod version;
