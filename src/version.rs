use vstd::prelude::*;
use vstd::string::{StringExecFns, StringSliceAdditionalSpecFns};

verus! {

/// Which IP version a client binds its local socket with.
#[derive(Clone, Copy, Debug, PartialEq, Eq, Structural)]
pub enum IpVersion {
    V4,
    V6,
}

/// Reads an IP version written as `4` or `6`. Any other text gives the error
/// message `Unknown IP version: ` followed by that text.
pub fn parse_ipver(src: &str) -> (r: Result<IpVersion, String>)
    ensures
        r == Ok::<_, String>(IpVersion::V4) <==> src.spec_bytes() == seq![0x34u8],
        r == Ok::<_, String>(IpVersion::V6) <==> src.spec_bytes() == seq![0x36u8],
        r is Err <==> src.spec_bytes() != seq![0x34u8] && src.spec_bytes() != seq![0x36u8],
        r matches Err(e) ==> e@ == "Unknown IP version: "@ + src@,
{
    let b = src.as_bytes();
    if b.len() == 1 && b[0] == 0x34u8 {
        assert(b@ =~= seq![0x34u8]);
        Ok(IpVersion::V4)
    } else if b.len() == 1 && b[0] == 0x36u8 {
        assert(b@ =~= seq![0x36u8]);
        Ok(IpVersion::V6)
    } else {
        let mut message = String::from_str("Unknown IP version: ");
        message.append(src);
        Err(message)
    }
}

} // verus!
