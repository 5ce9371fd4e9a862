//! Decoding of MRT routing-table dumps (TABLE_DUMP and TABLE_DUMP_V2) and of
//! the BGP path attributes they carry.
//!
//! Every decoder reads a byte slice, checks each length before it takes the
//! bytes, and returns a typed error instead of panicking. Each one is stated
//! against a spec function over the bytes it reads.

pub mod as_path;
pub mod attr_kind;
pub mod bgp;
pub mod bytes;
pub mod error;
pub mod mrt;
pub mod record;
pub mod rib;
pub mod table_dump;
pub mod table_dump_v2;

pub use as_path::{
    parse_as_path, parse_as_path_segment, parse_as_path_with_width, AsPathSegment, AsnWidth,
    SegmentKind,
};
pub use attr_kind::{make_addr, next_hop_address, Origin, PathAttrType};
pub use bgp::{
    lemma_attrs_fill_budget, lemma_attrs_round_trip, lemma_short_buffer_truncates,
    parse_bgp_path_attr, parse_bgp_path_attrs, read_path_attr_length, BGPPathAttribute,
    EXTENDED_LENGTH,
};
pub use bytes::{read_u128_be, read_u16_be, read_u32_be, read_u8};
pub use error::MrtError;
pub use mrt::{
    parse_mrt_table_header, read_envelope, MRTHeader, MrtType, TableDumpSubtype,
    TableDumpV2Subtype, MRT_HEADER_LEN,
};
pub use record::{
    parse_mrt_body, parse_mrt_record, parse_mrt_table_dump, parse_mrt_table_dump_v2, MrtRecord,
};
pub use rib::{
    lemma_rib_entry_accounts_for_attr_length, parse_rib_entries, parse_rib_entry, RibEntry,
};
pub use table_dump::{
    parse_mrt_table_dump_ipv4, parse_mrt_table_dump_ipv6, MRTTableDumpIPv4, MRTTableDumpIPv6,
};
pub use table_dump_v2::{
    lemma_rib_length_mismatch, parse_mrt_table_dump_v2_ipv4_unicast,
    parse_mrt_table_dump_v2_ipv6_unicast, parse_mrt_table_dump_v2_peer_index,
    prefix_octet_count, MRTTableDumpV2IPv4Unicast, MRTTableDumpV2IPv6Unicast,
    MRTTableDumpV2PeerIndex,
};
