use crate::bytes::{be16, be32, read_u16_be, read_u32_be, read_u8};
use crate::error::MrtError;
use crate::rib::{
    lemma_rib_entry_accounts_for_attr_length, parse_rib_entries, rib_entries_view,
    spec_parse_rib_entries, spec_parse_rib_entry, RibEntry, RibEntryModel, RIB_ENTRY_HEADER_LEN,
};
use vstd::prelude::*;

verus! {

/// Bytes that hold a prefix of `prefix_length` bits: the length rounded up to
/// whole octets.
pub open spec fn spec_prefix_octets(prefix_length: u8) -> nat {
    (prefix_length as nat + 7) / 8
}

/// Bytes that hold a prefix of `prefix_length` bits.
pub fn prefix_octet_count(prefix_length: u8) -> (r: u32)
    ensures
        r == spec_prefix_octets(prefix_length),
{
    (prefix_length as u32 + 7) / 8
}

/// The bytes that `count` RIB entries at the front of `s` declare for
/// themselves (a fixed header each, plus its attribute length), or `None`
/// where they reach past the end of `s`.
pub open spec fn rib_entries_span(s: Seq<u8>, count: nat) -> Option<nat>
    decreases count,
{
    if count == 0 {
        Some(0)
    } else if s.len() < RIB_ENTRY_HEADER_LEN {
        None
    } else {
        let n = RIB_ENTRY_HEADER_LEN + be16(s, 6);
        if s.len() < n {
            None
        } else {
            match rib_entries_span(s.skip(n), (count - 1) as nat) {
                Some(k) => Some((n + k) as nat),
                None => None,
            }
        }
    }
}

/// Bytes before the entries of a RIB record: sequence number, prefix length,
/// prefix and entry count; `None` where `s` is shorter than that.
pub open spec fn rib_fixed_len(s: Seq<u8>) -> Option<nat> {
    if s.len() < 5 {
        None
    } else {
        let h = 7 + spec_prefix_octets(s[4]);
        if s.len() < h {
            None
        } else {
            Some(h as nat)
        }
    }
}

/// The entry count of a RIB record whose entries start at `h`.
pub open spec fn rib_entry_count(s: Seq<u8>, h: nat) -> u16 {
    be16(s, h - 2)
}

/// The fixed fields of a RIB record and the lengths its entries declare add
/// up to exactly the bytes of the record.
pub open spec fn rib_lengths_match(s: Seq<u8>) -> bool {
    match rib_fixed_len(s) {
        None => false,
        Some(h) => rib_entries_span(s.skip(h as int), rib_entry_count(s, h) as nat) == Some(
            (s.len() - h) as nat,
        ),
    }
}

/// Why decoding the RIB record `s` fails, if it does. The lengths are checked
/// first, then the entries are decoded.
pub open spec fn rib_record_error(s: Seq<u8>) -> Option<MrtError> {
    if !rib_lengths_match(s) {
        Some(MrtError::RecordLengthMismatch)
    } else {
        let h = rib_fixed_len(s)->Some_0;
        match spec_parse_rib_entries(s.skip(h as int), rib_entry_count(s, h) as nat) {
            Err(e) => Some(e),
            Ok(_) => None,
        }
    }
}

/// The fields of a RIB record are those that `s` holds.
pub open spec fn rib_record_fields(
    s: Seq<u8>,
    sequence_number: u32,
    prefix_length: u8,
    prefix: Seq<u8>,
    entry_count: u16,
    entries: Seq<RibEntryModel>,
) -> bool {
    &&& rib_fixed_len(s) matches Some(h)
    &&& sequence_number == be32(s, 0)
    &&& prefix_length == s[4]
    &&& prefix == s.subrange(5, h - 2)
    &&& entry_count == rib_entry_count(s, h)
    &&& spec_parse_rib_entries(s.skip(h as int), entry_count as nat) == Ok::<
        (Seq<RibEntryModel>, nat),
        MrtError,
    >((entries, (s.len() - h) as nat))
}

/// A RIB record whose parts do not add up to its length fails with
/// `RecordLengthMismatch`, whatever its entries hold.
pub proof fn lemma_rib_length_mismatch(s: Seq<u8>)
    requires
        !rib_lengths_match(s),
    ensures
        rib_record_error(s) == Some(MrtError::RecordLengthMismatch),
{
}

/// Decoded entries take exactly the bytes that they declare.
proof fn lemma_entries_take_their_span(s: Seq<u8>, count: nat)
    ensures
        spec_parse_rib_entries(s, count) matches Ok((_, n)) ==> rib_entries_span(s, count) == Some(
            n,
        ),
    decreases count,
{
    if count > 0 {
        lemma_rib_entry_accounts_for_attr_length(s);
        if let Ok((_, n)) = spec_parse_rib_entry(s) {
            lemma_entries_take_their_span(s.skip(n as int), (count - 1) as nat);
        }
    }
}

/// Whether the entries at the front of `input` declare exactly its length.
fn rib_entries_fill(input: &[u8], entry_count: u16) -> (r: bool)
    ensures
        r == (rib_entries_span(input@, entry_count as nat) == Some(input@.len())),
{
    let mut rest = input;
    let mut k: u16 = 0;
    while k < entry_count
        invariant
            k <= entry_count,
            rest@.len() <= input@.len(),
            rest@ == input@.skip(input@.len() - rest@.len()),
            rib_entries_span(input@, entry_count as nat) == match rib_entries_span(
                rest@,
                (entry_count - k) as nat,
            ) {
                Some(m) => Some((m + input@.len() - rest@.len()) as nat),
                None => None::<nat>,
            },
        decreases entry_count - k,
    {
        if rest.len() < RIB_ENTRY_HEADER_LEN {
            return false;
        }
        let attr_length = read_u16_be(rest, 6);
        if rest.len() - RIB_ENTRY_HEADER_LEN < attr_length as usize {
            return false;
        }
        let n = RIB_ENTRY_HEADER_LEN + attr_length as usize;
        let next = &rest[n..rest.len()];
        proof {
            assert(next@ =~= rest@.skip(n as int));
            assert(next@ =~= input@.skip(input@.len() - next@.len()));
        }
        rest = next;
        k = k + 1;
    }
    rest.len() == 0
}

/// Decodes a unicast RIB record: its fixed fields, then its entries once
/// their lengths are known to fill the record exactly.
fn parse_rib_record(input: &[u8]) -> (r: Result<(u32, u8, Vec<u8>, u16, Vec<RibEntry>), MrtError>)
    ensures
        match rib_record_error(input@) {
            Some(e) => r == Err::<(u32, u8, Vec<u8>, u16, Vec<RibEntry>), MrtError>(e),
            None => r matches Ok((sn, pl, p, c, es)) && rib_record_fields(
                input@,
                sn,
                pl,
                p@,
                c,
                rib_entries_view(es@),
            ),
        },
{
    if input.len() < 5 {
        return Err(MrtError::RecordLengthMismatch);
    }
    let sequence_number = read_u32_be(input, 0);
    let prefix_length = read_u8(input, 4);
    let octets = prefix_octet_count(prefix_length) as usize;
    if input.len() - 5 < octets + 2 {
        return Err(MrtError::RecordLengthMismatch);
    }
    let h = 7 + octets;
    let prefix = vstd::slice::slice_to_vec(&input[5..5 + octets]);
    let entry_count = read_u16_be(input, 5 + octets);
    let entries = &input[h..input.len()];
    if !rib_entries_fill(entries, entry_count) {
        return Err(MrtError::RecordLengthMismatch);
    }
    let (_, rib_entries) = match parse_rib_entries(entries, entry_count) {
        Ok(v) => v,
        Err(e) => return Err(e),
    };
    proof {
        lemma_entries_take_their_span(entries@, entry_count as nat);
        assert(prefix@ =~= input@.subrange(5, h - 2));
    }
    Ok((sequence_number, prefix_length, prefix, entry_count, rib_entries))
}

/// A TABLE_DUMP_V2 RIB record for an IPv4 unicast prefix.
#[derive(Debug, PartialEq, Eq)]
pub struct MRTTableDumpV2IPv4Unicast {
    pub sequence_number: u32,
    pub prefix_length: u8,
    pub prefix: Vec<u8>,
    pub entry_count: u16,
    pub rib_entries: Vec<RibEntry>,
}

/// A TABLE_DUMP_V2 RIB record for an IPv6 unicast prefix.
#[derive(Debug, PartialEq, Eq)]
pub struct MRTTableDumpV2IPv6Unicast {
    pub sequence_number: u32,
    pub prefix_length: u8,
    pub prefix: Vec<u8>,
    pub entry_count: u16,
    pub rib_entries: Vec<RibEntry>,
}

impl MRTTableDumpV2IPv4Unicast {
    pub open spec fn decoded_from(&self, s: Seq<u8>) -> bool {
        rib_record_fields(
            s,
            self.sequence_number,
            self.prefix_length,
            self.prefix@,
            self.entry_count,
            rib_entries_view(self.rib_entries@),
        )
    }
}

impl MRTTableDumpV2IPv6Unicast {
    pub open spec fn decoded_from(&self, s: Seq<u8>) -> bool {
        rib_record_fields(
            s,
            self.sequence_number,
            self.prefix_length,
            self.prefix@,
            self.entry_count,
            rib_entries_view(self.rib_entries@),
        )
    }
}

/// Decodes the body of a RIB_IPV4_UNICAST record.
pub fn parse_mrt_table_dump_v2_ipv4_unicast(input: &[u8]) -> (r: Result<
    MRTTableDumpV2IPv4Unicast,
    MrtError,
>)
    ensures
        match rib_record_error(input@) {
            Some(e) => r == Err::<MRTTableDumpV2IPv4Unicast, MrtError>(e),
            None => r matches Ok(rec) && rec.decoded_from(input@),
        },
{
    match parse_rib_record(input) {
        Ok((sequence_number, prefix_length, prefix, entry_count, rib_entries)) => Ok(
            MRTTableDumpV2IPv4Unicast {
                sequence_number,
                prefix_length,
                prefix,
                entry_count,
                rib_entries,
            },
        ),
        Err(e) => Err(e),
    }
}

/// Decodes the body of a RIB_IPV6_UNICAST record.
pub fn parse_mrt_table_dump_v2_ipv6_unicast(input: &[u8]) -> (r: Result<
    MRTTableDumpV2IPv6Unicast,
    MrtError,
>)
    ensures
        match rib_record_error(input@) {
            Some(e) => r == Err::<MRTTableDumpV2IPv6Unicast, MrtError>(e),
            None => r matches Ok(rec) && rec.decoded_from(input@),
        },
{
    match parse_rib_record(input) {
        Ok((sequence_number, prefix_length, prefix, entry_count, rib_entries)) => Ok(
            MRTTableDumpV2IPv6Unicast {
                sequence_number,
                prefix_length,
                prefix,
                entry_count,
                rib_entries,
            },
        ),
        Err(e) => Err(e),
    }
}

/// The peer index table of a TABLE_DUMP_V2 dump. Its peer entries are kept as
/// bytes: all that follows the peer count up to the end of the record.
#[derive(Debug, PartialEq, Eq)]
pub struct MRTTableDumpV2PeerIndex {
    pub collector_bgp_id: u16,
    pub view_name_length: u8,
    pub view_name: Vec<u8>,
    pub peer_count: u8,
    pub peer_entries: Vec<u8>,
}

/// Why decoding the peer index table `s` fails, if it does.
pub open spec fn peer_index_error(s: Seq<u8>) -> Option<MrtError> {
    if s.len() < 3 || s.len() < 4 + s[2] {
        Some(MrtError::TruncatedInput)
    } else {
        None
    }
}

impl MRTTableDumpV2PeerIndex {
    pub open spec fn decoded_from(&self, s: Seq<u8>) -> bool {
        let n = self.view_name_length as int;
        &&& self.collector_bgp_id == be16(s, 0)
        &&& self.view_name_length == s[2]
        &&& self.view_name@ == s.subrange(3, 3 + n)
        &&& self.peer_count == s[3 + n]
        &&& self.peer_entries@ == s.skip(4 + n)
    }
}

/// Decodes the body of a PEER_INDEX_TABLE record.
pub fn parse_mrt_table_dump_v2_peer_index(input: &[u8]) -> (r: Result<
    MRTTableDumpV2PeerIndex,
    MrtError,
>)
    ensures
        match peer_index_error(input@) {
            Some(e) => r == Err::<MRTTableDumpV2PeerIndex, MrtError>(e),
            None => r matches Ok(rec) && rec.decoded_from(input@),
        },
{
    if input.len() < 3 {
        return Err(MrtError::TruncatedInput);
    }
    let view_name_length = read_u8(input, 2);
    let n = view_name_length as usize;
    if input.len() < 4 + n {
        return Err(MrtError::TruncatedInput);
    }
    Ok(
        MRTTableDumpV2PeerIndex {
            collector_bgp_id: read_u16_be(input, 0),
            view_name_length,
            view_name: vstd::slice::slice_to_vec(&input[3..3 + n]),
            peer_count: read_u8(input, 3 + n),
            peer_entries: vstd::slice::slice_to_vec(&input[4 + n..input.len()]),
        },
    )
}

} // verus!
