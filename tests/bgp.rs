use mrt_reader::{
    parse_as_path, parse_as_path_with_width, parse_bgp_path_attr, parse_bgp_path_attrs,
    read_path_attr_length, AsPathSegment, AsnWidth, BGPPathAttribute, MrtError, SegmentKind,
};

fn expected_attrs() -> Vec<BGPPathAttribute> {
    let mut res = Vec::new();
    res.push(BGPPathAttribute { flags: 0x40, code: 0x01, len: 0x01, data: vec![0x00] });
    res.push(BGPPathAttribute {
        flags: 0x50,
        code: 0x02,
        len: 0x16,
        data: vec![
            0x02, 0x05, 0x00, 0x00, 0xa4, 0x7d, 0x00, 0x00, 0xa3, 0xed, 0x00, 0x00, 0xa3, 0x95,
            0x00, 0x00, 0x51, 0x23, 0x00, 0x00, 0x0d, 0x1c,
        ],
    });
    res.push(BGPPathAttribute { flags: 0x40, code: 0x03, len: 0x04, data: vec![0x5b, 0x67, 0x18, 0x02] });
    res
}

#[test]
fn parse_good_test() {
    let buffer = hex::decode(
        "400101005002001602050000a47d0000a3ed0000a3950000512300000d1c4003045b671802",
    )
    .unwrap();
    let buffer = buffer.as_slice();
    println!("{:?}", buffer);

    let result = parse_bgp_path_attrs(buffer, 37).unwrap().1;

    let mut res = Vec::new();
    res.push(BGPPathAttribute { flags: 0x40, code: 0x01, len: 0x01, data: vec![0x00] });
    res.push(BGPPathAttribute {
        flags: 0x50,
        code: 0x02,
        len: 0x16,
        data: vec![
            0x02, 0x05, 0x00, 0x00, 0xa4, 0x7d, 0x00, 0x00, 0xa3, 0xed, 0x00, 0x00, 0xa3, 0x95,
            0x00, 0x00, 0x51, 0x23, 0x00, 0x00, 0x0d, 0x1c,
        ],
    });
    res.push(BGPPathAttribute { flags: 0x40, code: 0x03, len: 0x04, data: vec![0x5b, 0x67, 0x18, 0x02] });

    assert_eq!(result, res);
}

#[test]
fn parse_good_test_long_buffer() {
    let buffer = hex::decode(
        "400101005002001602050000a47d0000a3ed0000a3950000512300000d1c4003045b6718020000",
    )
    .unwrap();
    let buffer = buffer.as_slice();
    println!("{:?}", buffer);

    let result = parse_bgp_path_attrs(buffer, 37);
    let tmp = result.unwrap();
    println!("{:?} {:?}", buffer, tmp.0);

    let mut res = Vec::new();
    res.push(BGPPathAttribute { flags: 0x40, code: 0x01, len: 0x01, data: vec![0x00] });
    res.push(BGPPathAttribute {
        flags: 0x50,
        code: 0x02,
        len: 0x16,
        data: vec![
            0x02, 0x05, 0x00, 0x00, 0xa4, 0x7d, 0x00, 0x00, 0xa3, 0xed, 0x00, 0x00, 0xa3, 0x95,
            0x00, 0x00, 0x51, 0x23, 0x00, 0x00, 0x0d, 0x1c,
        ],
    });
    res.push(BGPPathAttribute { flags: 0x40, code: 0x03, len: 0x04, data: vec![0x5b, 0x67, 0x18, 0x02] });

    assert_eq!(tmp.1, res);
}

#[test]
fn exact_budget_leaves_nothing_behind() {
    let buffer = hex::decode(
        "400101005002001602050000a47d0000a3ed0000a3950000512300000d1c4003045b671802",
    )
    .unwrap();
    let (rest, attrs) = parse_bgp_path_attrs(&buffer, 37).unwrap();
    assert!(rest.is_empty());
    assert_eq!(attrs, expected_attrs());
}

#[test]
fn trailing_bytes_are_not_consumed() {
    let buffer = hex::decode(
        "400101005002001602050000a47d0000a3ed0000a3950000512300000d1c4003045b671802aabbcc",
    )
    .unwrap();
    let (rest, attrs) = parse_bgp_path_attrs(&buffer, 37).unwrap();
    assert_eq!(rest, &[0xaa, 0xbb, 0xcc]);
    assert_eq!(attrs, expected_attrs());
}

#[test]
fn wire_sizes_add_up_to_budget() {
    let buffer = hex::decode(
        "400101005002001602050000a47d0000a3ed0000a3950000512300000d1c4003045b671802",
    )
    .unwrap();
    let (_, attrs) = parse_bgp_path_attrs(&buffer, 37).unwrap();
    let total: usize = attrs
        .iter()
        .map(|a| a.len as usize + if a.flags & 0x10 == 0x10 { 4 } else { 3 })
        .sum();
    assert_eq!(total, 37);
    for a in &attrs {
        assert_eq!(a.data.len(), a.len as usize);
    }
}

#[test]
fn zero_budget_decodes_nothing() {
    let buffer = [0x40u8, 0x01, 0x01, 0x00];
    let (rest, attrs) = parse_bgp_path_attrs(&buffer, 0).unwrap();
    assert!(attrs.is_empty());
    assert_eq!(rest, &buffer[..]);
}

#[test]
fn short_buffer_is_truncated_attribute() {
    let buffer = hex::decode("400101005002001602050000a47d").unwrap();
    assert_eq!(parse_bgp_path_attrs(&buffer, 37).unwrap_err(), MrtError::TruncatedAttribute);
    assert_eq!(parse_bgp_path_attrs(&[], 5).unwrap_err(), MrtError::TruncatedAttribute);
    assert_eq!(parse_bgp_path_attrs(&[0x40], 3).unwrap_err(), MrtError::TruncatedAttribute);
}

#[test]
fn attribute_past_budget_is_overrun() {
    // A four-byte attribute under a budget of three, with the bytes at hand.
    let buffer = [0x40u8, 0x01, 0x01, 0x00, 0x00, 0x00];
    assert_eq!(parse_bgp_path_attrs(&buffer, 3).unwrap_err(), MrtError::AttributeOverrun);
    // The second attribute runs past a budget of six.
    let buffer = [0x40u8, 0x01, 0x01, 0x00, 0x40, 0x03, 0x04, 0x5b, 0x67, 0x18, 0x02];
    assert_eq!(parse_bgp_path_attrs(&buffer, 6).unwrap_err(), MrtError::AttributeOverrun);
}

#[test]
fn extended_length_is_two_bytes() {
    let mut buffer = vec![0x50u8, 0x02, 0x01, 0x02];
    buffer.extend(std::iter::repeat(7u8).take(0x102));
    let (rest, attr) = parse_bgp_path_attr(&buffer).unwrap();
    assert!(rest.is_empty());
    assert_eq!(attr.len, 0x102);
    assert_eq!(attr.data.len(), 0x102);
    let (rest, attrs) = parse_bgp_path_attrs(&buffer, 0x106).unwrap();
    assert!(rest.is_empty());
    assert_eq!(attrs.len(), 1);
}

#[test]
fn attribute_length_field() {
    let buffer = [0x01u8, 0x02, 0x03];
    let (rest, len) = read_path_attr_length(&buffer, 0x10).unwrap();
    assert_eq!(len, 0x0102);
    assert_eq!(rest, &[0x03]);
    let (rest, len) = read_path_attr_length(&buffer, 0x40).unwrap();
    assert_eq!(len, 0x01);
    assert_eq!(rest, &[0x02, 0x03]);
    assert_eq!(read_path_attr_length(&[0x01], 0x10).unwrap_err(), MrtError::TruncatedAttribute);
    assert_eq!(read_path_attr_length(&[], 0x40).unwrap_err(), MrtError::TruncatedAttribute);
}

#[test]
fn single_attribute_payload_past_end() {
    let buffer = [0x40u8, 0x03, 0x04, 0x5b, 0x67];
    assert_eq!(parse_bgp_path_attr(&buffer).unwrap_err(), MrtError::TruncatedAttribute);
}

#[test]
fn as_path_of_the_example() {
    let attrs = expected_attrs();
    let segments = parse_as_path(&attrs[1].data).unwrap();
    assert_eq!(
        segments,
        vec![AsPathSegment {
            kind: SegmentKind::AsSequence,
            asns: vec![42109, 41965, 41877, 20771, 3356],
        }]
    );
}

#[test]
fn as_path_set_then_sequence() {
    let payload = [1u8, 2, 0, 0, 0, 1, 0, 0, 0, 2, 2, 1, 0, 0, 0x0d, 0x1c];
    let segments = parse_as_path(&payload).unwrap();
    assert_eq!(
        segments,
        vec![
            AsPathSegment { kind: SegmentKind::AsSet, asns: vec![1, 2] },
            AsPathSegment { kind: SegmentKind::AsSequence, asns: vec![3356] },
        ]
    );
}

#[test]
fn as_path_unknown_segment_is_kept() {
    let payload = [9u8, 2, 1, 0, 0, 0, 7];
    let segments = parse_as_path(&payload).unwrap();
    assert_eq!(
        segments,
        vec![
            AsPathSegment { kind: SegmentKind::Unknown(9), asns: vec![] },
            AsPathSegment { kind: SegmentKind::AsSequence, asns: vec![7] },
        ]
    );
}

#[test]
fn as_path_truncated_segment() {
    assert_eq!(parse_as_path(&[2u8, 2, 0, 0, 0, 1, 0, 0]).unwrap_err(), MrtError::TruncatedAttribute);
    assert_eq!(parse_as_path(&[2u8]).unwrap_err(), MrtError::TruncatedAttribute);
    assert!(parse_as_path(&[]).unwrap().is_empty());
}

#[test]
fn as_path_two_byte_numbers() {
    let payload = [2u8, 3, 0xa4, 0x7d, 0x0d, 0x1c, 0x00, 0x01];
    let segments = parse_as_path_with_width(&payload, AsnWidth::Two).unwrap();
    assert_eq!(
        segments,
        vec![AsPathSegment { kind: SegmentKind::AsSequence, asns: vec![42109, 3356, 1] }]
    );
    assert_eq!(parse_as_path(&payload).unwrap_err(), MrtError::TruncatedAttribute);
}
