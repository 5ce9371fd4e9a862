use crate::bytes::{be32, read_u32_be};
use vstd::prelude::*;

verus! {

/// The path attribute types that are told apart when attributes are shown.
#[derive(Debug, Clone, Copy, PartialEq, Eq, Structural)]
pub enum PathAttrType {
    Origin,
    AsPath,
    NextHop,
    MultiExitDisc,
    LocalPref,
    AtomicAggregate,
    Aggregator,
    Community,
    MpReachNlri,
    Unknown(u8),
}

impl PathAttrType {
    /// The type code that stands for the type on the wire.
    pub open spec fn code(self) -> u8 {
        match self {
            PathAttrType::Origin => 1,
            PathAttrType::AsPath => 2,
            PathAttrType::NextHop => 3,
            PathAttrType::MultiExitDisc => 4,
            PathAttrType::LocalPref => 5,
            PathAttrType::AtomicAggregate => 6,
            PathAttrType::Aggregator => 7,
            PathAttrType::Community => 8,
            PathAttrType::MpReachNlri => 14,
            PathAttrType::Unknown(c) => c,
        }
    }

    /// The type that `code` stands for.
    pub fn from_code(code: u8) -> (r: PathAttrType)
        ensures
            r.code() == code,
            r is Unknown <==> !(1 <= code <= 8 || code == 14),
    {
        match code {
            1 => PathAttrType::Origin,
            2 => PathAttrType::AsPath,
            3 => PathAttrType::NextHop,
            4 => PathAttrType::MultiExitDisc,
            5 => PathAttrType::LocalPref,
            6 => PathAttrType::AtomicAggregate,
            7 => PathAttrType::Aggregator,
            8 => PathAttrType::Community,
            14 => PathAttrType::MpReachNlri,
            _ => PathAttrType::Unknown(code),
        }
    }
}

/// Where a route came from, as its ORIGIN attribute says.
#[derive(Debug, Clone, Copy, PartialEq, Eq, Structural)]
pub enum Origin {
    Igp,
    Egp,
    Incomplete,
    /// Any other value, or an empty payload.
    Unknown,
}

/// The origin that an ORIGIN payload names in its first byte.
pub open spec fn spec_origin(data: Seq<u8>) -> Origin {
    if data.len() == 0 {
        Origin::Unknown
    } else if data[0] == 0 {
        Origin::Igp
    } else if data[0] == 1 {
        Origin::Egp
    } else if data[0] == 2 {
        Origin::Incomplete
    } else {
        Origin::Unknown
    }
}

impl Origin {
    /// Reads the payload of an ORIGIN attribute.
    pub fn from_payload(data: &[u8]) -> (r: Origin)
        ensures
            r == spec_origin(data@),
    {
        if data.len() == 0 {
            return Origin::Unknown;
        }
        match data[0] {
            0 => Origin::Igp,
            1 => Origin::Egp,
            2 => Origin::Incomplete,
            _ => Origin::Unknown,
        }
    }
}

/// Reads the payload of a NEXT_HOP attribute: an IPv4 address, as its
/// big-endian value, where the payload holds exactly four bytes.
pub fn next_hop_address(data: &[u8]) -> (r: Option<u32>)
    ensures
        data@.len() == 4 ==> r == Some(be32(data@, 0)),
        data@.len() != 4 ==> r is None,
{
    if data.len() != 4 {
        return None;
    }
    Some(read_u32_be(data, 0))
}

/// The byte at `i`, or zero past the end of `s`.
pub open spec fn byte_or_zero(s: Seq<u8>, i: int) -> u8 {
    if i < s.len() {
        s[i]
    } else {
        0
    }
}

/// The IPv4 address that a prefix of up to four bytes opens: the bytes that
/// are missing are zero, and bytes past the fourth are not part of it.
pub open spec fn spec_prefix_address(prefix: Seq<u8>) -> u32 {
    (byte_or_zero(prefix, 0) as int * 0x100_0000 + byte_or_zero(prefix, 1) as int * 0x1_0000
        + byte_or_zero(prefix, 2) as int * 0x100 + byte_or_zero(prefix, 3) as int) as u32
}

/// The IPv4 address, as its big-endian value, that the prefix bytes of a RIB
/// record stand for.
pub fn make_addr(prefix: &[u8]) -> (r: u32)
    ensures
        r == spec_prefix_address(prefix@),
{
    let mut bytes: [u8; 4] = [0u8; 4];
    let mut i: usize = 0;
    while i < 4 && i < prefix.len()
        invariant
            i <= 4,
            forall|k: int| 0 <= k < i ==> bytes@[k] == byte_or_zero(prefix@, k),
            forall|k: int| i <= k < 4 ==> bytes@[k] == 0,
        decreases 4 - i,
    {
        bytes[i] = prefix[i];
        i = i + 1;
    }
    proof {
        assert forall|k: int| 0 <= k < 4 implies bytes@[k] == byte_or_zero(prefix@, k) by {
            if k >= i {
                assert(k >= prefix@.len());
            }
        }
    }
    (bytes[0] as u32) * 0x100_0000 + (bytes[1] as u32) * 0x1_0000 + (bytes[2] as u32) * 0x100
        + bytes[3] as u32
}

} // verus!
