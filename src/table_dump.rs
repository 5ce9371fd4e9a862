use crate::bgp::{attrs_view, parse_bgp_path_attrs, spec_parse_attrs, BGPPathAttribute, PathAttrModel};
use crate::bytes::{be128, be16, be32, read_u128_be, read_u16_be, read_u32_be, read_u8};
use crate::error::MrtError;
use vstd::prelude::*;

verus! {

/// Bytes before the attributes of an IPv4 TABLE_DUMP record.
pub const IPV4_DUMP_FIXED_LEN: usize = 22;

/// Bytes before the attributes of an IPv6 TABLE_DUMP record.
pub const IPV6_DUMP_FIXED_LEN: usize = 46;

/// A TABLE_DUMP (version 1) record for an IPv4 prefix. Addresses are held as
/// their big-endian values. `as_path` keeps the raw attribute bytes;
/// `bgp_path_attrs` holds them decoded.
#[derive(Debug, PartialEq, Eq)]
pub struct MRTTableDumpIPv4 {
    pub view_number: u16,
    pub sequence_number: u16,
    pub prefix: u32,
    pub prefix_length: u8,
    pub status: u8,
    pub originated_time: u32,
    pub peer_address: u32,
    pub peer_asn: u16,
    pub attr_length: u16,
    pub as_path: Vec<u8>,
    pub bgp_path_attrs: Vec<BGPPathAttribute>,
}

/// A TABLE_DUMP (version 1) record for an IPv6 prefix, laid out as the IPv4
/// one with sixteen-byte addresses.
#[derive(Debug, PartialEq, Eq)]
pub struct MRTTableDumpIPv6 {
    pub view_number: u16,
    pub sequence_number: u16,
    pub prefix: u128,
    pub prefix_length: u8,
    pub status: u8,
    pub originated_time: u32,
    pub peer_address: u128,
    pub peer_asn: u16,
    pub attr_length: u16,
    pub as_path: Vec<u8>,
    pub bgp_path_attrs: Vec<BGPPathAttribute>,
}

/// Why decoding a TABLE_DUMP record whose attributes start at `fixed` fails,
/// if it does: the fixed fields are cut short, or the attributes do not fill
/// the attribute length.
pub open spec fn table_dump_error(s: Seq<u8>, fixed: nat) -> Option<MrtError> {
    if s.len() < fixed {
        Some(MrtError::TruncatedInput)
    } else {
        match spec_parse_attrs(s.skip(fixed as int), be16(s, fixed - 2) as nat) {
            Err(e) => Some(e),
            Ok(_) => None,
        }
    }
}

/// The raw and the decoded attributes of a TABLE_DUMP record are those that
/// follow its fixed fields in `s`.
pub open spec fn table_dump_attrs(
    s: Seq<u8>,
    fixed: nat,
    attr_length: u16,
    raw: Seq<u8>,
    attrs: Seq<PathAttrModel>,
) -> bool {
    &&& attr_length == be16(s, fixed - 2)
    &&& raw == s.subrange(fixed as int, fixed + attr_length)
    &&& spec_parse_attrs(s.skip(fixed as int), attr_length as nat) == Ok::<
        Seq<PathAttrModel>,
        MrtError,
    >(attrs)
}

impl MRTTableDumpIPv4 {
    pub open spec fn decoded_from(&self, s: Seq<u8>) -> bool {
        &&& self.view_number == be16(s, 0)
        &&& self.sequence_number == be16(s, 2)
        &&& self.prefix == be32(s, 4)
        &&& self.prefix_length == s[8]
        &&& self.status == s[9]
        &&& self.originated_time == be32(s, 10)
        &&& self.peer_address == be32(s, 14)
        &&& self.peer_asn == be16(s, 18)
        &&& table_dump_attrs(
            s,
            IPV4_DUMP_FIXED_LEN as nat,
            self.attr_length,
            self.as_path@,
            attrs_view(self.bgp_path_attrs@),
        )
    }
}

impl MRTTableDumpIPv6 {
    pub open spec fn decoded_from(&self, s: Seq<u8>) -> bool {
        &&& self.view_number == be16(s, 0)
        &&& self.sequence_number == be16(s, 2)
        &&& self.prefix == be128(s, 4)
        &&& self.prefix_length == s[20]
        &&& self.status == s[21]
        &&& self.originated_time == be32(s, 22)
        &&& self.peer_address == be128(s, 26)
        &&& self.peer_asn == be16(s, 42)
        &&& table_dump_attrs(
            s,
            IPV6_DUMP_FIXED_LEN as nat,
            self.attr_length,
            self.as_path@,
            attrs_view(self.bgp_path_attrs@),
        )
    }
}

/// Takes the attributes that follow the fixed fields of a TABLE_DUMP record:
/// their raw bytes and their decoded form.
fn table_dump_attributes(input: &[u8], fixed: usize) -> (r: Result<
    (u16, Vec<u8>, Vec<BGPPathAttribute>),
    MrtError,
>)
    requires
        2 <= fixed <= input@.len(),
    ensures
        match table_dump_error(input@, fixed as nat) {
            Some(e) => r == Err::<(u16, Vec<u8>, Vec<BGPPathAttribute>), MrtError>(e),
            None => r matches Ok((len, raw, attrs)) && table_dump_attrs(
                input@,
                fixed as nat,
                len,
                raw@,
                attrs_view(attrs@),
            ),
        },
{
    let attr_length = read_u16_be(input, fixed - 2);
    let after = &input[fixed..input.len()];
    let (_, attrs) = match parse_bgp_path_attrs(after, attr_length) {
        Ok(v) => v,
        Err(e) => return Err(e),
    };
    let raw = vstd::slice::slice_to_vec(&after[0..attr_length as usize]);
    proof {
        assert(raw@ =~= input@.subrange(fixed as int, fixed + attr_length));
    }
    Ok((attr_length, raw, attrs))
}

/// Decodes the body of an AFI_IPv4 TABLE_DUMP record.
pub fn parse_mrt_table_dump_ipv4(input: &[u8]) -> (r: Result<MRTTableDumpIPv4, MrtError>)
    ensures
        match table_dump_error(input@, IPV4_DUMP_FIXED_LEN as nat) {
            Some(e) => r == Err::<MRTTableDumpIPv4, MrtError>(e),
            None => r matches Ok(rec) && rec.decoded_from(input@),
        },
{
    if input.len() < IPV4_DUMP_FIXED_LEN {
        return Err(MrtError::TruncatedInput);
    }
    let (attr_length, as_path, bgp_path_attrs) = match table_dump_attributes(
        input,
        IPV4_DUMP_FIXED_LEN,
    ) {
        Ok(v) => v,
        Err(e) => return Err(e),
    };
    Ok(
        MRTTableDumpIPv4 {
            view_number: read_u16_be(input, 0),
            sequence_number: read_u16_be(input, 2),
            prefix: read_u32_be(input, 4),
            prefix_length: read_u8(input, 8),
            status: read_u8(input, 9),
            originated_time: read_u32_be(input, 10),
            peer_address: read_u32_be(input, 14),
            peer_asn: read_u16_be(input, 18),
            attr_length,
            as_path,
            bgp_path_attrs,
        },
    )
}

/// Decodes the body of an AFI_IPv6 TABLE_DUMP record.
pub fn parse_mrt_table_dump_ipv6(input: &[u8]) -> (r: Result<MRTTableDumpIPv6, MrtError>)
    ensures
        match table_dump_error(input@, IPV6_DUMP_FIXED_LEN as nat) {
            Some(e) => r == Err::<MRTTableDumpIPv6, MrtError>(e),
            None => r matches Ok(rec) && rec.decoded_from(input@),
        },
{
    if input.len() < IPV6_DUMP_FIXED_LEN {
        return Err(MrtError::TruncatedInput);
    }
    let (attr_length, as_path, bgp_path_attrs) = match table_dump_attributes(
        input,
        IPV6_DUMP_FIXED_LEN,
    ) {
        Ok(v) => v,
        Err(e) => return Err(e),
    };
    Ok(
        MRTTableDumpIPv6 {
            view_number: read_u16_be(input, 0),
            sequence_number: read_u16_be(input, 2),
            prefix: read_u128_be(input, 4),
            prefix_length: read_u8(input, 20),
            status: read_u8(input, 21),
            originated_time: read_u32_be(input, 22),
            peer_address: read_u128_be(input, 26),
            peer_asn: read_u16_be(input, 42),
            attr_length,
            as_path,
            bgp_path_attrs,
        },
    )
}

} // verus!
