use laz_vlr::{
    CompressorType, LasZipError, LazItemRecordBuilder, LazItemType, LazVlr, LazVlrBuilder,
    PointFormat, HEAD_LEN,
};

/// The header for point format 0, no extra bytes, chunks of 60 000 points.
fn point0_header_bytes() -> Vec<u8> {
    let mut b = vec![2, 0, 0, 0, 2, 2, 0, 0, 0, 0, 0, 0, 0x60, 0xEA, 0, 0];
    b.extend_from_slice(&[0xFF; 16]);
    b.extend_from_slice(&[1, 0, 6, 0, 20, 0, 2, 0]);
    b
}

/// A header with two items and arbitrary values in every field.
fn two_item_header_bytes() -> Vec<u8> {
    let mut b = vec![3, 0, 0, 0, 2, 2, 0, 0, 1, 2, 3, 4, 0xFF, 0xFF, 0xFF, 0xFF];
    b.extend_from_slice(&[5, 0, 0, 0, 0, 0, 0, 0]);
    b.extend_from_slice(&[0x10, 0x20, 0x30, 0x40, 0x50, 0x60, 0x70, 0x80]);
    b.extend_from_slice(&[2, 0, 10, 0, 30, 0, 3, 0, 14, 0, 7, 0, 3, 0]);
    b
}

fn encode(vlr: &LazVlr) -> Vec<u8> {
    let mut out = Vec::new();
    vlr.write_to(&mut out);
    out
}

#[test]
fn fixed_chunk_size_for_point_format_0() {
    let vlr = LazVlrBuilder::default()
        .with_point_format(0, 0)
        .unwrap()
        .with_fixed_chunk_size(60_000)
        .build()
        .unwrap();
    assert_eq!(vlr.chunk_size(), 60_000);
    assert!(!vlr.uses_variable_size_chunks());
    assert_eq!(vlr.items_size(), 20);
}

#[test]
fn variable_chunk_size_reads_back() {
    let vlr = LazVlrBuilder::default()
        .with_point_format(1, 0)
        .unwrap()
        .with_variable_chunk_size()
        .build()
        .unwrap();
    assert_eq!(vlr.chunk_size(), 0xFFFF_FFFF);
    assert!(vlr.uses_variable_size_chunks());
}

#[test]
fn default_chunk_size_is_50000() {
    let vlr = LazVlrBuilder::default().with_point_format(6, 0).unwrap().build().unwrap();
    assert_eq!(vlr.chunk_size(), 50_000);
    assert!(!vlr.uses_variable_size_chunks());
}

#[test]
fn only_the_sentinel_means_variable_chunks() {
    for size in [0u32, 1, 50_000, 0xFFFF_FFFE] {
        let vlr = LazVlrBuilder::default()
            .with_point_format(0, 0)
            .unwrap()
            .with_chunk_size(size)
            .build()
            .unwrap();
        assert!(!vlr.uses_variable_size_chunks());
        assert_eq!(vlr.chunk_size(), size);
    }
}

#[test]
fn encodes_exact_layout() {
    let vlr = LazVlrBuilder::default()
        .with_point_format(0, 0)
        .unwrap()
        .with_fixed_chunk_size(60_000)
        .build()
        .unwrap();
    assert_eq!(encode(&vlr), point0_header_bytes());
}

#[test]
fn write_to_appends() {
    let vlr = LazVlr::from_buffer(&point0_header_bytes()).unwrap();
    let mut out = vec![9u8, 9];
    vlr.write_to(&mut out);
    assert_eq!(&out[..2], &[9, 9]);
    assert_eq!(&out[2..], &point0_header_bytes()[..]);
}

#[test]
fn decode_then_encode_gives_the_bytes() {
    for bytes in [point0_header_bytes(), two_item_header_bytes()] {
        let vlr = LazVlr::from_buffer(&bytes).unwrap();
        assert_eq!(encode(&vlr), bytes);
    }
}

#[test]
fn decodes_every_field() {
    let vlr = LazVlr::read_from(&two_item_header_bytes()).unwrap();
    assert!(vlr.uses_variable_size_chunks());
    assert_eq!(vlr.items().len(), 2);
    assert_eq!(vlr.items()[0].item_type(), LazItemType::Point14);
    assert_eq!(vlr.items()[0].size(), 30);
    assert_eq!(vlr.items()[0].version(), 3);
    assert_eq!(vlr.items()[1].item_type(), LazItemType::Byte14(7));
    assert_eq!(vlr.items()[1].size(), 7);
    assert_eq!(vlr.items_size(), 37);
    assert_eq!(vlr.compressor(), CompressorType::LayeredChunked);
    assert_eq!(vlr.coder(), 0);
    assert_eq!(vlr.version(), (2, 2, 0));
    assert_eq!(vlr.options(), 0x0403_0201);
    assert_eq!(vlr.number_of_special_evlrs(), 5);
    assert_eq!(vlr.offset_to_special_evlrs(), 0x8070_6050_4030_2010u64 as i64);
}

#[test]
fn builder_fills_the_fixed_fields() {
    let vlr = LazVlrBuilder::default().with_point_format(3, 5).unwrap().build().unwrap();
    assert_eq!(vlr.compressor(), CompressorType::PointWiseChunked);
    assert_eq!(vlr.coder(), 0);
    assert_eq!(vlr.version(), (2, 2, 0));
    assert_eq!(vlr.options(), 0);
    assert_eq!(vlr.number_of_special_evlrs(), -1);
    assert_eq!(vlr.offset_to_special_evlrs(), -1);
    assert_eq!(encode(&vlr).len(), 34 + 6 * vlr.items().len());
}

#[test]
fn header_len_counts_the_items() {
    assert_eq!(LazVlr::header_len(&two_item_header_bytes()), 46);
    assert_eq!(LazVlr::header_len(&point0_header_bytes()), 40);
    assert_eq!(HEAD_LEN, 34);
}

#[test]
fn trailing_bytes_are_ignored() {
    let mut bytes = point0_header_bytes();
    bytes.extend_from_slice(&[1, 2, 3]);
    let vlr = LazVlr::from_buffer(&bytes).unwrap();
    assert_eq!(encode(&vlr), point0_header_bytes());
}

#[test]
fn encode_then_decode_gives_the_header() {
    for id in [0u8, 1, 2, 3, 6, 7, 8] {
        for extra in [0u16, 3, 65535] {
            let vlr = LazVlrBuilder::default()
                .with_point_format(id, extra)
                .unwrap()
                .with_fixed_chunk_size(1234)
                .build()
                .unwrap();
            let decoded = LazVlr::from_buffer(&encode(&vlr)).unwrap();
            assert!(decoded == vlr);
            assert_eq!(decoded.items(), vlr.items());
        }
    }
}

#[test]
fn items_size_is_the_sum_of_sizes() {
    let vlr = LazVlrBuilder::default().with_point_format(3, 5).unwrap().build().unwrap();
    assert_eq!(vlr.items_size(), 20 + 8 + 6 + 5);
    let vlr = LazVlrBuilder::default().with_point_format(8, 0).unwrap().build().unwrap();
    assert_eq!(vlr.items_size(), 30 + 8);
    let sum: u64 = vlr.items().iter().map(|i| i.size() as u64).sum();
    assert_eq!(vlr.items_size(), sum);
}

#[test]
fn unknown_compressor_type_is_refused() {
    for code in [4u16, 5, 0xFFFF] {
        let mut bytes = point0_header_bytes();
        bytes[0] = code as u8;
        bytes[1] = (code >> 8) as u8;
        assert_eq!(
            LazVlr::from_buffer(&bytes).unwrap_err(),
            LasZipError::UnknownCompressorType(code)
        );
    }
}

#[test]
fn unknown_item_type_is_refused() {
    for code in [1u16, 5, 9, 13, 15, 0x0100] {
        let mut bytes = point0_header_bytes();
        bytes[34] = code as u8;
        bytes[35] = (code >> 8) as u8;
        assert_eq!(LazVlr::from_buffer(&bytes).unwrap_err(), LasZipError::UnknownLazItem(code));
    }
}

#[test]
fn short_buffers_are_refused() {
    let bytes = point0_header_bytes();
    for len in [0usize, 1, 2, 33, 34, 37, 39] {
        assert_eq!(LazVlr::from_buffer(&bytes[..len]).unwrap_err(), LasZipError::UnexpectedEof);
    }
    // The compressor code is checked before the rest is needed.
    assert_eq!(
        LazVlr::from_buffer(&[4, 0]).unwrap_err(),
        LasZipError::UnknownCompressorType(4)
    );
    // An unknown item code is seen before its version is needed.
    let mut bytes = point0_header_bytes();
    bytes[34] = 1;
    assert_eq!(LazVlr::from_buffer(&bytes[..38]).unwrap_err(), LasZipError::UnknownLazItem(1));
}

#[test]
fn default_items_of_each_point_format() {
    let expected: [(u8, u16, &[LazItemType]); 7] = [
        (0, 2, &[LazItemType::Point10]),
        (1, 2, &[LazItemType::Point10, LazItemType::GpsTime]),
        (2, 2, &[LazItemType::Point10, LazItemType::RGB12]),
        (3, 2, &[LazItemType::Point10, LazItemType::GpsTime, LazItemType::RGB12]),
        (6, 3, &[LazItemType::Point14]),
        (7, 3, &[LazItemType::Point14, LazItemType::RGB14]),
        (8, 3, &[LazItemType::Point14, LazItemType::RGBNIR14]),
    ];
    for (id, version, types) in expected {
        let items = LazItemRecordBuilder::default_for_point_format_id(id, 0).unwrap();
        assert!(!items.is_empty());
        assert_eq!(items.len(), types.len());
        for (item, t) in items.iter().zip(types) {
            assert_eq!(item.item_type(), *t);
            assert_eq!(item.version(), version);
        }
    }
}

#[test]
fn extra_bytes_item_is_appended() {
    let items = LazItemRecordBuilder::default_for_point_format_id(2, 4).unwrap();
    assert_eq!(items.len(), 3);
    assert_eq!(items[2].item_type(), LazItemType::Byte(4));
    assert_eq!(items[2].size(), 4);
    let items = LazItemRecordBuilder::default_for_point_format_id(7, 9).unwrap();
    assert_eq!(items[2].item_type(), LazItemType::Byte14(9));
    assert_eq!(items[2].version(), 3);
}

#[test]
fn unknown_point_format_id_is_refused() {
    for id in [4u8, 5, 9, 10, 255] {
        assert_eq!(
            LazItemRecordBuilder::default_for_point_format_id(id, 0).unwrap_err(),
            LasZipError::UnsupportedPointFormat(id)
        );
        assert!(LazVlrBuilder::default().with_point_format(id, 0).is_err());
    }
}

#[test]
fn versions_follow_the_point_format() {
    let items = LazItemRecordBuilder::version_1_of(PointFormat::Point3, 2).unwrap();
    assert_eq!(items.len(), 4);
    assert!(items.iter().all(|i| i.version() == 1));
    let items = LazItemRecordBuilder::version_2_of(PointFormat::Point0, 0).unwrap();
    assert_eq!(items[0].version(), 2);
    let items = LazItemRecordBuilder::version_3_of(PointFormat::Point8, 0).unwrap();
    assert_eq!(items[1].item_type(), LazItemType::RGBNIR14);
    assert_eq!(items[1].size(), 8);
    let items = LazItemRecordBuilder::default_version_of(PointFormat::Point6, 0);
    assert_eq!(items[0].version(), 3);
}

#[test]
fn unsupported_versions_are_refused() {
    assert_eq!(
        LazItemRecordBuilder::version_1_of(PointFormat::Point8, 0).unwrap_err(),
        LasZipError::UnsupportedLazVersion(8, 1)
    );
    assert_eq!(
        LazItemRecordBuilder::version_2_of(PointFormat::Point6, 0).unwrap_err(),
        LasZipError::UnsupportedLazVersion(6, 2)
    );
    assert_eq!(
        LazItemRecordBuilder::version_3_of(PointFormat::Point1, 0).unwrap_err(),
        LasZipError::UnsupportedLazVersion(1, 3)
    );
}

#[test]
fn from_laz_items_needs_items() {
    assert_eq!(LazVlr::from_laz_items(vec![]).unwrap_err(), LasZipError::NoLazItems);
    assert_eq!(LazVlrBuilder::new(vec![]).build().unwrap_err(), LasZipError::NoLazItems);
}

#[test]
fn from_laz_items_needs_a_known_version() {
    for version in [0u8, 5, 200] {
        let mut bytes = point0_header_bytes();
        bytes[38] = version;
        let items = LazVlr::from_buffer(&bytes).unwrap().items().clone();
        assert_eq!(
            LazVlr::from_laz_items(items).unwrap_err(),
            LasZipError::UnknownLazItemVersion(version as u16)
        );
    }
}

#[test]
fn from_laz_items_derives_the_compressor() {
    let items = LazItemRecordBuilder::version_1_of(PointFormat::Point0, 0).unwrap();
    let vlr = LazVlr::from_laz_items(items).unwrap();
    assert_eq!(encode(&vlr)[0], 2);
    let items = LazItemRecordBuilder::default_version_of(PointFormat::Point7, 0);
    let vlr = LazVlrBuilder::from_laz_items(items).build().unwrap();
    assert_eq!(encode(&vlr)[0], 3);
    assert_eq!(CompressorType::from_item_version(4), Some(CompressorType::LayeredChunked));
    assert_eq!(CompressorType::from_item_version(5), None);
    assert_eq!(CompressorType::from_u16(0), Some(CompressorType::NoCompression));
    assert_eq!(CompressorType::default(), CompressorType::PointWiseChunked);
}

#[test]
fn mixed_versions_take_the_first() {
    let mut items = LazItemRecordBuilder::version_1_of(PointFormat::Point0, 0).unwrap();
    items.extend(LazItemRecordBuilder::version_3_of(PointFormat::Point6, 0).unwrap());
    let vlr = LazVlrBuilder::default().with_laz_items(items).build().unwrap();
    assert_eq!(encode(&vlr)[0], 2);
    assert_eq!(vlr.items_size(), 50);
}

#[test]
fn record_builder_uses_inherent_sizes_and_default_versions() {
    let items = LazItemRecordBuilder::new()
        .add_item(LazItemType::Point10)
        .add_item(LazItemType::GpsTime)
        .add_item(LazItemType::Byte(3))
        .add_item(LazItemType::RGBNIR14)
        .build();
    let got: Vec<(LazItemType, u16, u16)> =
        items.iter().map(|i| (i.item_type(), i.size(), i.version())).collect();
    assert_eq!(
        got,
        vec![
            (LazItemType::Point10, 20, 2),
            (LazItemType::GpsTime, 8, 2),
            (LazItemType::Byte(3), 3, 2),
            (LazItemType::RGBNIR14, 8, 3),
        ]
    );
    assert!(LazItemRecordBuilder::new().build().is_empty());
}

#[test]
fn item_type_codes() {
    assert_eq!(u16::from(LazItemType::Byte(9)), 0);
    assert_eq!(u16::from(LazItemType::RGB14), 11);
    assert_eq!(u16::from(LazItemType::Byte14(1)), 14);
    assert_eq!(LazItemType::from_u16(12, 0), Some(LazItemType::RGBNIR14));
    assert_eq!(LazItemType::from_u16(0, 17), Some(LazItemType::Byte(17)));
    assert_eq!(LazItemType::from_u16(9, 0), None);
    assert_eq!(LazItemType::RGB12.default_version(), 2);
    assert_eq!(LazItemType::Point14.size(), 30);
}

#[test]
fn record_constants() {
    assert_eq!(LazVlr::USER_ID, "laszip encoded");
    assert_eq!(LazVlr::RECORD_ID, 22204);
    assert_eq!(LazVlr::DESCRIPTION, "https://laszip.org");
}
