use mrt_reader::{
    make_addr, next_hop_address, parse_mrt_body, parse_mrt_record, parse_mrt_table_dump,
    parse_mrt_table_dump_v2, parse_mrt_table_dump_v2_ipv4_unicast,
    parse_mrt_table_dump_v2_peer_index, parse_mrt_table_header, parse_rib_entry,
    prefix_octet_count, read_envelope, MRTHeader, MrtError, MrtRecord, MrtType, Origin,
    PathAttrType, TableDumpSubtype, TableDumpV2Subtype,
};

const ATTRS: &str = "400101005002001602050000a47d0000a3ed0000a3950000512300000d1c4003045b671802";

fn header_bytes(timestamp: u32, mrt_type: u16, subtype: u16, length: u32) -> Vec<u8> {
    let mut v = Vec::new();
    v.extend_from_slice(&timestamp.to_be_bytes());
    v.extend_from_slice(&mrt_type.to_be_bytes());
    v.extend_from_slice(&subtype.to_be_bytes());
    v.extend_from_slice(&length.to_be_bytes());
    v
}

fn rib_entry_bytes(peer_index: u16, ts: u32, attrs: &[u8]) -> Vec<u8> {
    let mut v = Vec::new();
    v.extend_from_slice(&peer_index.to_be_bytes());
    v.extend_from_slice(&ts.to_be_bytes());
    v.extend_from_slice(&(attrs.len() as u16).to_be_bytes());
    v.extend_from_slice(attrs);
    v
}

/// A RIB_IPV4_UNICAST body for 91.103.24.0/24 with one entry.
fn rib_body() -> Vec<u8> {
    let attrs = hex::decode(ATTRS).unwrap();
    let mut v = Vec::new();
    v.extend_from_slice(&42u32.to_be_bytes());
    v.push(24);
    v.extend_from_slice(&[91, 103, 24]);
    v.extend_from_slice(&1u16.to_be_bytes());
    v.extend(rib_entry_bytes(1, 0x4c39560a, &attrs));
    v
}

#[test]
fn prefix_octet_counts() {
    assert_eq!(prefix_octet_count(0), 0);
    assert_eq!(prefix_octet_count(1), 1);
    assert_eq!(prefix_octet_count(8), 1);
    assert_eq!(prefix_octet_count(9), 2);
    assert_eq!(prefix_octet_count(32), 4);
    assert_eq!(prefix_octet_count(128), 16);
    assert_eq!(prefix_octet_count(255), 32);
}

#[test]
fn header_fields_are_big_endian() {
    let bytes = header_bytes(1278892800, 13, 2, 300);
    let (rest, h) = parse_mrt_table_header(&bytes).unwrap();
    assert!(rest.is_empty());
    assert_eq!(h, MRTHeader { timestamp: 1278892800, mrt_type: 13, mrt_subtype: 2, length: 300 });
    assert_eq!(parse_mrt_table_header(&bytes[..11]).unwrap_err(), MrtError::TruncatedInput);
}

#[test]
fn envelope_splits_body_and_rest() {
    let mut bytes = header_bytes(1, 12, 1, 3);
    bytes.extend_from_slice(&[9, 8, 7, 6, 5]);
    let (h, body, rest) = read_envelope(&bytes).unwrap();
    assert_eq!(h.length, 3);
    assert_eq!(body, &[9, 8, 7]);
    assert_eq!(rest, &[6, 5]);
    let short = &bytes[..14];
    assert_eq!(read_envelope(short).unwrap_err(), MrtError::TruncatedInput);
}

#[test]
fn rib_entry_decodes_its_attributes() {
    let attrs = hex::decode(ATTRS).unwrap();
    let mut bytes = rib_entry_bytes(1, 0x4c39560a, &attrs);
    bytes.push(0xee);
    let (rest, e) = parse_rib_entry(&bytes).unwrap();
    assert_eq!(rest, &[0xee]);
    assert_eq!(e.peer_index, 1);
    assert_eq!(e.originated_timestamp, 0x4c39560a);
    assert_eq!(e.attr_length, 37);
    assert_eq!(e.bgp_path_attrs.len(), 3);
    assert_eq!(parse_rib_entry(&bytes[..7]).unwrap_err(), MrtError::TruncatedInput);
}

#[test]
fn rib_record_decodes() {
    let body = rib_body();
    let rec = parse_mrt_table_dump_v2_ipv4_unicast(&body).unwrap();
    assert_eq!(rec.sequence_number, 42);
    assert_eq!(rec.prefix_length, 24);
    assert_eq!(rec.prefix, vec![91, 103, 24]);
    assert_eq!(rec.entry_count, 1);
    assert_eq!(rec.rib_entries.len(), 1);
    assert_eq!(rec.rib_entries[0].bgp_path_attrs[2].data, vec![0x5b, 0x67, 0x18, 0x02]);
    assert_eq!(make_addr(&rec.prefix), 0x5b671800);
}

#[test]
fn rib_record_with_extra_byte_is_mismatch() {
    let mut body = rib_body();
    body.push(0);
    assert_eq!(
        parse_mrt_table_dump_v2_ipv4_unicast(&body).unwrap_err(),
        MrtError::RecordLengthMismatch
    );
}

#[test]
fn rib_record_with_entries_past_its_end_is_mismatch() {
    let mut body = rib_body();
    // Two entries declared, one present.
    body[8] = 0;
    body[9] = 2;
    assert_eq!(
        parse_mrt_table_dump_v2_ipv4_unicast(&body).unwrap_err(),
        MrtError::RecordLengthMismatch
    );
    // Fixed fields cut short.
    assert_eq!(
        parse_mrt_table_dump_v2_ipv4_unicast(&body[..6]).unwrap_err(),
        MrtError::RecordLengthMismatch
    );
}

#[test]
fn rib_record_with_overrunning_attribute() {
    let mut body = Vec::new();
    body.extend_from_slice(&7u32.to_be_bytes());
    body.push(0);
    body.extend_from_slice(&2u16.to_be_bytes());
    // The first entry declares three attribute bytes, but its attribute takes
    // four: the fourth is the first byte of the second entry.
    body.extend(rib_entry_bytes(0, 0, &[0x40, 0x01, 0x01]));
    body.extend(rib_entry_bytes(1, 0, &[0x40, 0x01, 0x01, 0x00]));
    assert_eq!(
        parse_mrt_table_dump_v2_ipv4_unicast(&body).unwrap_err(),
        MrtError::AttributeOverrun
    );
}

#[test]
fn peer_index_table() {
    let body = [0x12u8, 0x34, 3, b'r', b'v', b'1', 2, 0xaa, 0xbb, 0xcc];
    let p = parse_mrt_table_dump_v2_peer_index(&body).unwrap();
    assert_eq!(p.collector_bgp_id, 0x1234);
    assert_eq!(p.view_name_length, 3);
    assert_eq!(p.view_name, b"rv1".to_vec());
    assert_eq!(p.peer_count, 2);
    assert_eq!(p.peer_entries, vec![0xaa, 0xbb, 0xcc]);
    assert_eq!(parse_mrt_table_dump_v2_peer_index(&body[..5]).unwrap_err(), MrtError::TruncatedInput);
}

fn ipv4_dump_body() -> Vec<u8> {
    let attrs = hex::decode("4001010040020802030cb902bd0050400304c1940f55").unwrap();
    let mut v = Vec::new();
    v.extend_from_slice(&0u16.to_be_bytes());
    v.extend_from_slice(&5u16.to_be_bytes());
    v.extend_from_slice(&[3, 0, 0, 0]);
    v.push(8);
    v.push(1);
    v.extend_from_slice(&992216782u32.to_be_bytes());
    v.extend_from_slice(&[193, 148, 15, 85]);
    v.extend_from_slice(&3257u16.to_be_bytes());
    v.extend_from_slice(&(attrs.len() as u16).to_be_bytes());
    v.extend_from_slice(&attrs);
    v
}

#[test]
fn table_dump_ipv4_record() {
    let body = ipv4_dump_body();
    let h = MRTHeader { timestamp: 992216782, mrt_type: 12, mrt_subtype: 1, length: body.len() as u32 };
    match parse_mrt_table_dump(&h, &body).unwrap() {
        MrtRecord::TableDumpIPv4(r) => {
            assert_eq!(r.sequence_number, 5);
            assert_eq!(r.prefix, 0x03000000);
            assert_eq!(r.prefix_length, 8);
            assert_eq!(r.status, 1);
            assert_eq!(r.originated_time, 992216782);
            assert_eq!(r.peer_address, 0xc1940f55);
            assert_eq!(r.peer_asn, 3257);
            assert_eq!(r.attr_length, 22);
            assert_eq!(r.as_path.len(), 22);
            assert_eq!(r.bgp_path_attrs.len(), 3);
            assert_eq!(r.bgp_path_attrs[1].data, vec![0x02, 0x03, 0x0c, 0xb9, 0x02, 0xbd, 0x00, 0x50]);
        }
        other => panic!("unexpected record {:?}", other),
    }
    assert_eq!(parse_mrt_table_dump(&h, &body[..21]).unwrap_err(), MrtError::TruncatedInput);
    assert_eq!(parse_mrt_table_dump(&h, &body[..30]).unwrap_err(), MrtError::TruncatedAttribute);
}

#[test]
fn table_dump_ipv6_record() {
    let mut body = Vec::new();
    body.extend_from_slice(&1u16.to_be_bytes());
    body.extend_from_slice(&2u16.to_be_bytes());
    let prefix: u128 = 0x2001_0db8_0000_0000_0000_0000_0000_0000;
    body.extend_from_slice(&prefix.to_be_bytes());
    body.push(32);
    body.push(1);
    body.extend_from_slice(&1300475700u32.to_be_bytes());
    let peer: u128 = 0x2001_0db8_0000_0000_0000_0000_0000_0001;
    body.extend_from_slice(&peer.to_be_bytes());
    body.extend_from_slice(&64512u16.to_be_bytes());
    body.extend_from_slice(&4u16.to_be_bytes());
    body.extend_from_slice(&[0x40, 0x01, 0x01, 0x02]);
    let h = MRTHeader { timestamp: 0, mrt_type: 12, mrt_subtype: 2, length: body.len() as u32 };
    match parse_mrt_table_dump(&h, &body).unwrap() {
        MrtRecord::TableDumpIPv6(r) => {
            assert_eq!(r.prefix, prefix);
            assert_eq!(r.peer_address, peer);
            assert_eq!(r.prefix_length, 32);
            assert_eq!(r.peer_asn, 64512);
            assert_eq!(r.bgp_path_attrs[0].data, vec![0x02]);
        }
        other => panic!("unexpected record {:?}", other),
    }
}

#[test]
fn unsupported_subtypes_and_types() {
    let body = rib_body();
    for subtype in [3u16, 5, 6, 9] {
        let h = MRTHeader { timestamp: 0, mrt_type: 13, mrt_subtype: subtype, length: 0 };
        assert_eq!(
            parse_mrt_table_dump_v2(&h, &body).unwrap_err(),
            MrtError::UnsupportedSubtype(subtype)
        );
    }
    let h = MRTHeader { timestamp: 0, mrt_type: 12, mrt_subtype: 3, length: 0 };
    assert_eq!(parse_mrt_table_dump(&h, &body).unwrap_err(), MrtError::UnsupportedSubtype(3));
    let h = MRTHeader { timestamp: 0, mrt_type: 16, mrt_subtype: 4, length: 0 };
    assert_eq!(parse_mrt_body(&h, &body).unwrap_err(), MrtError::UnsupportedType(16));
}

#[test]
fn stream_resynchronises_after_bad_record() {
    let mut bad = rib_body();
    bad.push(0);
    let good = rib_body();
    let mut stream = header_bytes(1, 13, 2, bad.len() as u32);
    stream.extend_from_slice(&bad);
    stream.extend(header_bytes(2, 13, 2, good.len() as u32));
    stream.extend_from_slice(&good);

    let (rest, h, rec) = parse_mrt_record(&stream).unwrap();
    assert_eq!(h.timestamp, 1);
    assert_eq!(rec.unwrap_err(), MrtError::RecordLengthMismatch);
    let (rest, h, rec) = parse_mrt_record(rest).unwrap();
    assert_eq!(h.timestamp, 2);
    assert!(matches!(rec.unwrap(), MrtRecord::RibIPv4Unicast(_)));
    assert!(rest.is_empty());
    assert_eq!(parse_mrt_record(&stream[..20]).unwrap_err(), MrtError::TruncatedInput);
}

#[test]
fn type_codes() {
    assert_eq!(MrtType::from_u16(12), MrtType::TableDump);
    assert_eq!(MrtType::from_u16(13), MrtType::TableDumpV2);
    assert_eq!(MrtType::from_u16(49), MrtType::Ospfv3Et);
    assert_eq!(MrtType::from_u16(14), MrtType::Unknown(14));
    assert_eq!(TableDumpSubtype::from_u16(2), TableDumpSubtype::AfiIpv6);
    assert_eq!(TableDumpSubtype::from_u16(0), TableDumpSubtype::Unknown(0));
    assert_eq!(TableDumpV2Subtype::from_u16(6), TableDumpV2Subtype::RibGeneric);
    assert_eq!(TableDumpV2Subtype::from_u16(7), TableDumpV2Subtype::Unknown(7));
    assert_eq!(PathAttrType::from_code(2), PathAttrType::AsPath);
    assert_eq!(PathAttrType::from_code(14), PathAttrType::MpReachNlri);
    assert_eq!(PathAttrType::from_code(9), PathAttrType::Unknown(9));
}

#[test]
fn origin_and_next_hop() {
    assert_eq!(Origin::from_payload(&[0]), Origin::Igp);
    assert_eq!(Origin::from_payload(&[1]), Origin::Egp);
    assert_eq!(Origin::from_payload(&[2]), Origin::Incomplete);
    assert_eq!(Origin::from_payload(&[3]), Origin::Unknown);
    assert_eq!(Origin::from_payload(&[]), Origin::Unknown);
    assert_eq!(next_hop_address(&[0x5b, 0x67, 0x18, 0x02]), Some(0x5b671802));
    assert_eq!(next_hop_address(&[0x5b, 0x67, 0x18]), None);
}

#[test]
fn prefix_addresses() {
    assert_eq!(make_addr(&[]), 0);
    assert_eq!(make_addr(&[10]), 0x0a000000);
    assert_eq!(make_addr(&[192, 168, 1, 7]), 0xc0a80107);
    assert_eq!(make_addr(&[192, 168, 1, 7, 9]), 0xc0a80107);
}
