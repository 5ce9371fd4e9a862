use crate::bytes::{be16, be32, read_u16_be, read_u32_be};
use crate::error::MrtError;
use vstd::prelude::*;

verus! {

/// Bytes in the fixed header that opens every MRT record.
pub const MRT_HEADER_LEN: usize = 12;

/// The fixed header of an MRT record. `length` is the number of body bytes
/// that follow it; the next header starts right after them.
#[derive(Debug, Clone, Copy, PartialEq, Eq, Structural)]
pub struct MRTHeader {
    pub timestamp: u32,
    pub mrt_type: u16,
    pub mrt_subtype: u16,
    pub length: u32,
}

/// The header at the front of `s`: timestamp, type, subtype and body length,
/// all big-endian.
pub open spec fn spec_header(s: Seq<u8>) -> Option<MRTHeader> {
    if s.len() < MRT_HEADER_LEN {
        None
    } else {
        Some(
            MRTHeader {
                timestamp: be32(s, 0),
                mrt_type: be16(s, 4),
                mrt_subtype: be16(s, 6),
                length: be32(s, 8),
            },
        )
    }
}

/// Decodes the header at the front of `input`.
pub fn parse_mrt_table_header<'a>(input: &'a [u8]) -> (r: Result<(&'a [u8], MRTHeader), MrtError>)
    ensures
        match spec_header(input@) {
            Some(h) => r matches Ok((rest, hh)) && hh == h && rest@ == input@.skip(
                MRT_HEADER_LEN as int,
            ),
            None => r == Err::<(&'a [u8], MRTHeader), MrtError>(MrtError::TruncatedInput),
        },
{
    if input.len() < MRT_HEADER_LEN {
        return Err(MrtError::TruncatedInput);
    }
    let header = MRTHeader {
        timestamp: read_u32_be(input, 0),
        mrt_type: read_u16_be(input, 4),
        mrt_subtype: read_u16_be(input, 6),
        length: read_u32_be(input, 8),
    };
    Ok((&input[MRT_HEADER_LEN..input.len()], header))
}

/// Whether `s` opens with a whole record: a header and all the body bytes it
/// declares.
pub open spec fn envelope_complete(s: Seq<u8>) -> bool {
    match spec_header(s) {
        Some(h) => MRT_HEADER_LEN + h.length <= s.len(),
        None => false,
    }
}

/// Splits the record at the front of `input` into its header, its body of
/// exactly the declared length, and the bytes after it.
pub fn read_envelope<'a>(input: &'a [u8]) -> (r: Result<(MRTHeader, &'a [u8], &'a [u8]), MrtError>)
    ensures
        if envelope_complete(input@) {
            &&& r matches Ok((h, body, rest))
            &&& Some(h) == spec_header(input@)
            &&& body@ == input@.subrange(MRT_HEADER_LEN as int, MRT_HEADER_LEN + h.length)
            &&& rest@ == input@.skip(MRT_HEADER_LEN + h.length)
        } else {
            r == Err::<(MRTHeader, &'a [u8], &'a [u8]), MrtError>(MrtError::TruncatedInput)
        },
{
    let (after, header) = match parse_mrt_table_header(input) {
        Ok(v) => v,
        Err(e) => return Err(e),
    };
    let len = header.length as usize;
    if after.len() < len {
        return Err(MrtError::TruncatedInput);
    }
    proof {
        assert(after@.subrange(0, len as int) =~= input@.subrange(
            MRT_HEADER_LEN as int,
            MRT_HEADER_LEN + len,
        ));
        assert(after@.subrange(len as int, after@.len() as int) =~= input@.skip(
            MRT_HEADER_LEN + len,
        ));
    }
    Ok((header, &after[0..len], &after[len..after.len()]))
}

/// The record types that MRT assigns.
#[derive(Debug, Clone, Copy, PartialEq, Eq, Structural)]
pub enum MrtType {
    Ospfv2,
    TableDump,
    TableDumpV2,
    Bgp4mp,
    Bgp4mpEt,
    Isis,
    IsisEt,
    Ospfv3,
    Ospfv3Et,
    Unknown(u16),
}

impl MrtType {
    /// The number that stands for the type on the wire.
    pub open spec fn code(self) -> u16 {
        match self {
            MrtType::Ospfv2 => 11,
            MrtType::TableDump => 12,
            MrtType::TableDumpV2 => 13,
            MrtType::Bgp4mp => 16,
            MrtType::Bgp4mpEt => 17,
            MrtType::Isis => 32,
            MrtType::IsisEt => 33,
            MrtType::Ospfv3 => 48,
            MrtType::Ospfv3Et => 49,
            MrtType::Unknown(c) => c,
        }
    }

    pub open spec fn is_assigned(c: u16) -> bool {
        c == 11 || c == 12 || c == 13 || c == 16 || c == 17 || c == 32 || c == 33 || c == 48
            || c == 49
    }

    /// The type that `v` stands for.
    pub fn from_u16(v: u16) -> (r: MrtType)
        ensures
            r.code() == v,
            r is Unknown <==> !Self::is_assigned(v),
    {
        match v {
            11 => MrtType::Ospfv2,
            12 => MrtType::TableDump,
            13 => MrtType::TableDumpV2,
            16 => MrtType::Bgp4mp,
            17 => MrtType::Bgp4mpEt,
            32 => MrtType::Isis,
            33 => MrtType::IsisEt,
            48 => MrtType::Ospfv3,
            49 => MrtType::Ospfv3Et,
            _ => MrtType::Unknown(v),
        }
    }
}

/// The subtypes of a TABLE_DUMP record: the address family of its prefix.
#[derive(Debug, Clone, Copy, PartialEq, Eq, Structural)]
pub enum TableDumpSubtype {
    AfiIpv4,
    AfiIpv6,
    Unknown(u16),
}

impl TableDumpSubtype {
    pub open spec fn code(self) -> u16 {
        match self {
            TableDumpSubtype::AfiIpv4 => 1,
            TableDumpSubtype::AfiIpv6 => 2,
            TableDumpSubtype::Unknown(c) => c,
        }
    }

    /// The subtype that `v` stands for.
    pub fn from_u16(v: u16) -> (r: TableDumpSubtype)
        ensures
            r.code() == v,
            r is Unknown <==> !(v == 1 || v == 2),
    {
        match v {
            1 => TableDumpSubtype::AfiIpv4,
            2 => TableDumpSubtype::AfiIpv6,
            _ => TableDumpSubtype::Unknown(v),
        }
    }
}

/// The subtypes of a TABLE_DUMP_V2 record.
#[derive(Debug, Clone, Copy, PartialEq, Eq, Structural)]
pub enum TableDumpV2Subtype {
    PeerIndexTable,
    RibIpv4Unicast,
    RibIpv4Multicast,
    RibIpv6Unicast,
    RibIpv6Multicast,
    RibGeneric,
    Unknown(u16),
}

impl TableDumpV2Subtype {
    pub open spec fn code(self) -> u16 {
        match self {
            TableDumpV2Subtype::PeerIndexTable => 1,
            TableDumpV2Subtype::RibIpv4Unicast => 2,
            TableDumpV2Subtype::RibIpv4Multicast => 3,
            TableDumpV2Subtype::RibIpv6Unicast => 4,
            TableDumpV2Subtype::RibIpv6Multicast => 5,
            TableDumpV2Subtype::RibGeneric => 6,
            TableDumpV2Subtype::Unknown(c) => c,
        }
    }

    /// The subtype that `v` stands for.
    pub fn from_u16(v: u16) -> (r: TableDumpV2Subtype)
        ensures
            r.code() == v,
            r is Unknown <==> !(1 <= v <= 6),
    {
        match v {
            1 => TableDumpV2Subtype::PeerIndexTable,
            2 => TableDumpV2Subtype::RibIpv4Unicast,
            3 => TableDumpV2Subtype::RibIpv4Multicast,
            4 => TableDumpV2Subtype::RibIpv6Unicast,
            5 => TableDumpV2Subtype::RibIpv6Multicast,
            6 => TableDumpV2Subtype::RibGeneric,
            _ => TableDumpV2Subtype::Unknown(v),
        }
    }
}

} // verus!
