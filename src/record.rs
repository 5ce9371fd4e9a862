use crate::error::MrtError;
use crate::mrt::{
    envelope_complete, read_envelope, spec_header, MRTHeader, MrtType, TableDumpSubtype,
    TableDumpV2Subtype, MRT_HEADER_LEN,
};
use crate::table_dump::{
    parse_mrt_table_dump_ipv4, parse_mrt_table_dump_ipv6, table_dump_error, MRTTableDumpIPv4,
    MRTTableDumpIPv6, IPV4_DUMP_FIXED_LEN, IPV6_DUMP_FIXED_LEN,
};
use crate::table_dump_v2::{
    parse_mrt_table_dump_v2_ipv4_unicast, parse_mrt_table_dump_v2_ipv6_unicast,
    parse_mrt_table_dump_v2_peer_index, peer_index_error, rib_record_error,
    MRTTableDumpV2IPv4Unicast, MRTTableDumpV2IPv6Unicast, MRTTableDumpV2PeerIndex,
};
use vstd::prelude::*;

verus! {

/// The body of one MRT record, decoded.
#[derive(Debug, PartialEq, Eq)]
pub enum MrtRecord {
    TableDumpIPv4(MRTTableDumpIPv4),
    TableDumpIPv6(MRTTableDumpIPv6),
    PeerIndex(MRTTableDumpV2PeerIndex),
    RibIPv4Unicast(MRTTableDumpV2IPv4Unicast),
    RibIPv6Unicast(MRTTableDumpV2IPv6Unicast),
}

/// `r` is what decoding the TABLE_DUMP body `s` of subtype `subtype` gives.
pub open spec fn table_dump_result(subtype: u16, s: Seq<u8>, r: Result<MrtRecord, MrtError>) -> bool {
    if subtype == 1 {
        match table_dump_error(s, IPV4_DUMP_FIXED_LEN as nat) {
            Some(e) => r == Err::<MrtRecord, MrtError>(e),
            None => r matches Ok(MrtRecord::TableDumpIPv4(rec)) && rec.decoded_from(s),
        }
    } else if subtype == 2 {
        match table_dump_error(s, IPV6_DUMP_FIXED_LEN as nat) {
            Some(e) => r == Err::<MrtRecord, MrtError>(e),
            None => r matches Ok(MrtRecord::TableDumpIPv6(rec)) && rec.decoded_from(s),
        }
    } else {
        r == Err::<MrtRecord, MrtError>(MrtError::UnsupportedSubtype(subtype))
    }
}

/// `r` is what decoding the TABLE_DUMP_V2 body `s` of subtype `subtype` gives.
/// Only the peer index table and the unicast RIB records are decoded.
pub open spec fn table_dump_v2_result(
    subtype: u16,
    s: Seq<u8>,
    r: Result<MrtRecord, MrtError>,
) -> bool {
    if subtype == 1 {
        match peer_index_error(s) {
            Some(e) => r == Err::<MrtRecord, MrtError>(e),
            None => r matches Ok(MrtRecord::PeerIndex(rec)) && rec.decoded_from(s),
        }
    } else if subtype == 2 {
        match rib_record_error(s) {
            Some(e) => r == Err::<MrtRecord, MrtError>(e),
            None => r matches Ok(MrtRecord::RibIPv4Unicast(rec)) && rec.decoded_from(s),
        }
    } else if subtype == 4 {
        match rib_record_error(s) {
            Some(e) => r == Err::<MrtRecord, MrtError>(e),
            None => r matches Ok(MrtRecord::RibIPv6Unicast(rec)) && rec.decoded_from(s),
        }
    } else {
        r == Err::<MrtRecord, MrtError>(MrtError::UnsupportedSubtype(subtype))
    }
}

/// `r` is what decoding the body `s` of a record with header `h` gives.
pub open spec fn record_result(h: MRTHeader, s: Seq<u8>, r: Result<MrtRecord, MrtError>) -> bool {
    if h.mrt_type == 12 {
        table_dump_result(h.mrt_subtype, s, r)
    } else if h.mrt_type == 13 {
        table_dump_v2_result(h.mrt_subtype, s, r)
    } else {
        r == Err::<MrtRecord, MrtError>(MrtError::UnsupportedType(h.mrt_type))
    }
}

/// Decodes the body of a TABLE_DUMP record by its subtype.
pub fn parse_mrt_table_dump(header: &MRTHeader, body: &[u8]) -> (r: Result<MrtRecord, MrtError>)
    ensures
        table_dump_result(header.mrt_subtype, body@, r),
{
    match TableDumpSubtype::from_u16(header.mrt_subtype) {
        TableDumpSubtype::AfiIpv4 => match parse_mrt_table_dump_ipv4(body) {
            Ok(rec) => Ok(MrtRecord::TableDumpIPv4(rec)),
            Err(e) => Err(e),
        },
        TableDumpSubtype::AfiIpv6 => match parse_mrt_table_dump_ipv6(body) {
            Ok(rec) => Ok(MrtRecord::TableDumpIPv6(rec)),
            Err(e) => Err(e),
        },
        TableDumpSubtype::Unknown(v) => Err(MrtError::UnsupportedSubtype(v)),
    }
}

/// Decodes the body of a TABLE_DUMP_V2 record by its subtype. The multicast
/// and generic RIB subtypes are not decoded: they fail with
/// `UnsupportedSubtype`, and the record can be skipped by its length.
pub fn parse_mrt_table_dump_v2(header: &MRTHeader, body: &[u8]) -> (r: Result<MrtRecord, MrtError>)
    ensures
        table_dump_v2_result(header.mrt_subtype, body@, r),
{
    match TableDumpV2Subtype::from_u16(header.mrt_subtype) {
        TableDumpV2Subtype::PeerIndexTable => match parse_mrt_table_dump_v2_peer_index(body) {
            Ok(rec) => Ok(MrtRecord::PeerIndex(rec)),
            Err(e) => Err(e),
        },
        TableDumpV2Subtype::RibIpv4Unicast => match parse_mrt_table_dump_v2_ipv4_unicast(body) {
            Ok(rec) => Ok(MrtRecord::RibIPv4Unicast(rec)),
            Err(e) => Err(e),
        },
        TableDumpV2Subtype::RibIpv6Unicast => match parse_mrt_table_dump_v2_ipv6_unicast(body) {
            Ok(rec) => Ok(MrtRecord::RibIPv6Unicast(rec)),
            Err(e) => Err(e),
        },
        _ => Err(MrtError::UnsupportedSubtype(header.mrt_subtype)),
    }
}

/// Decodes the body of a record by the type and subtype in its header.
pub fn parse_mrt_body(header: &MRTHeader, body: &[u8]) -> (r: Result<MrtRecord, MrtError>)
    ensures
        record_result(*header, body@, r),
{
    match MrtType::from_u16(header.mrt_type) {
        MrtType::TableDump => parse_mrt_table_dump(header, body),
        MrtType::TableDumpV2 => parse_mrt_table_dump_v2(header, body),
        _ => Err(MrtError::UnsupportedType(header.mrt_type)),
    }
}

/// Reads the record at the front of `input` and decodes its body.
///
/// The outer result fails only where `input` does not hold the whole record.
/// Otherwise the bytes after the record are handed back whatever became of
/// its body, so that a body that fails to decode never moves the stream off
/// the next record.
pub fn parse_mrt_record<'a>(input: &'a [u8]) -> (r: Result<
    (&'a [u8], MRTHeader, Result<MrtRecord, MrtError>),
    MrtError,
>)
    ensures
        if envelope_complete(input@) {
            &&& r matches Ok((rest, h, rec))
            &&& Some(h) == spec_header(input@)
            &&& rest@ == input@.skip(MRT_HEADER_LEN + h.length)
            &&& record_result(
                h,
                input@.subrange(MRT_HEADER_LEN as int, MRT_HEADER_LEN + h.length),
                rec,
            )
        } else {
            r == Err::<(&'a [u8], MRTHeader, Result<MrtRecord, MrtError>), MrtError>(
                MrtError::TruncatedInput,
            )
        },
{
    let (header, body, rest) = match read_envelope(input) {
        Ok(v) => v,
        Err(e) => return Err(e),
    };
    let record = parse_mrt_body(&header, body);
    Ok((rest, header, record))
}

} // verus!
