use titlefetch::codec::{
    classify_meta_type, decode, decode_header, decode_tables, encode, encode_header,
    ContentRecord, DecodeError, Header, MetaRecord, MetaType,
};
use titlefetch::locator::type_label;

fn sample_header(table_offset: u16, contents: u16, metas: u16) -> Header {
    Header {
        title_id: 0x0123456789abcdef,
        title_version: 0xdeadbeef,
        title_type: 0x03,
        table_offset,
        content_entry_count: contents,
        meta_entry_count: metas,
    }
}

fn sample_content(seed: u8) -> ContentRecord {
    let mut hash = Vec::new();
    for i in 0..32u8 {
        hash.push(seed.wrapping_add(i));
    }
    let mut content_id = Vec::new();
    for i in 0..16u8 {
        content_id.push(seed.wrapping_mul(3).wrapping_add(i));
    }
    ContentRecord { hash, content_id, size: 0x1122334455667788 ^ seed as u64, ty: seed % 4 }
}

fn sample_meta(seed: u8) -> MetaRecord {
    MetaRecord {
        title_id: 0x0100000000000000 + seed as u64,
        title_version: 65796 + seed as u32,
        ty: 1 + (seed % 5),
        flag: seed,
    }
}

#[test]
fn classify_known_types() {
    assert_eq!(classify_meta_type(1), Ok(MetaType::SystemProgram));
    assert_eq!(classify_meta_type(2), Ok(MetaType::SystemData));
    assert_eq!(classify_meta_type(3), Ok(MetaType::SystemUpdate));
    assert_eq!(classify_meta_type(4), Ok(MetaType::BootImagePackage));
    assert_eq!(classify_meta_type(5), Ok(MetaType::BootImagePackageSafe));
}

#[test]
fn classify_unknown_type_is_reported_not_fatal() {
    assert_eq!(classify_meta_type(0x09), Err(DecodeError::UnknownType(9)));
    assert_eq!(classify_meta_type(0), Err(DecodeError::UnknownType(0)));
    assert_eq!(classify_meta_type(0xff), Err(DecodeError::UnknownType(0xff)));
}

#[test]
fn header_encodes_to_exact_layout() {
    let h = sample_header(0x0102, 0x0304, 0x0506);
    let bytes = encode_header(&h);
    let expected: Vec<u8> = vec![
        0xef, 0xcd, 0xab, 0x89, 0x67, 0x45, 0x23, 0x01, // title_id, little endian
        0xef, 0xbe, 0xad, 0xde, // title_version
        0x03, 0x00, // title_type, padding
        0x02, 0x01, // table_offset
        0x04, 0x03, // content_entry_count
        0x06, 0x05, // meta_entry_count
        0, 0, 0, 0, 0, 0, 0, 0, 0, 0, 0, 0, // padding
    ];
    assert_eq!(bytes, expected);
}

#[test]
fn header_decodes_back() {
    let h = sample_header(0, 0, 0);
    let bytes = encode_header(&h);
    assert_eq!(decode_header(&bytes), Ok(h));
}

#[test]
fn short_header_is_truncated() {
    let bytes = vec![0u8; 31];
    assert_eq!(decode_header(&bytes), Err(DecodeError::Truncated));
    assert_eq!(decode_header(&[]), Err(DecodeError::Truncated));
}

#[test]
fn table_offset_past_end_is_rejected() {
    let h = sample_header(1, 0, 0);
    let bytes = encode_header(&h); // exactly 32 bytes, but offset claims one more
    assert_eq!(decode_header(&bytes), Err(DecodeError::OffsetOutOfRange));
}

#[test]
fn under_length_tables_are_truncated_never_under_read() {
    let h = sample_header(4, 2, 3);
    let cs = vec![sample_content(1), sample_content(2)];
    let ms = vec![sample_meta(1), sample_meta(2), sample_meta(3)];
    let full = encode(&h, &cs, &ms);
    assert_eq!(full.len(), 32 + 4 + 2 * 59 + 3 * 14);
    // One byte short of table_offset + N*59 + M*14 past the header.
    let short = &full[..full.len() - 1];
    let hd = decode_header(short).expect("header itself is intact");
    assert_eq!(decode_tables(short, &hd), Err(DecodeError::Truncated));
    assert!(matches!(decode(short), Err(DecodeError::Truncated)));
    // The full buffer decodes.
    assert!(decode(&full).is_ok());
}

#[test]
fn round_trip_preserves_every_field() {
    let h = sample_header(7, 2, 2);
    let cs = vec![sample_content(10), sample_content(77)];
    let ms = vec![sample_meta(4), sample_meta(9)];
    let buf = encode(&h, &cs, &ms);
    let (h2, cs2, ms2) = decode(&buf).expect("round trip decodes");
    assert_eq!(h2, h);
    assert_eq!(cs2.len(), 2);
    assert_eq!(ms2.len(), 2);
    for (a, b) in cs.iter().zip(cs2.iter()) {
        assert_eq!(a.hash, b.hash);
        assert_eq!(a.content_id, b.content_id);
        assert_eq!(a.size, b.size);
        assert_eq!(a.ty, b.ty);
    }
    assert_eq!(ms, ms2);
}

#[test]
fn round_trip_at_the_largest_table_offset() {
    let h = sample_header(u16::MAX, 1, 1);
    let cs = vec![sample_content(5)];
    let ms = vec![sample_meta(6)];
    let buf = encode(&h, &cs, &ms);
    assert_eq!(buf.len(), 32 + 65535 + 59 + 14);
    let (h2, cs2, ms2) = decode(&buf).expect("decodes");
    assert_eq!(h2, h);
    assert_eq!(cs2[0].hash, cs[0].hash);
    assert_eq!(ms2, ms);
}

#[test]
fn round_trip_empty_tables() {
    let h = sample_header(0, 0, 0);
    let buf = encode(&h, &vec![], &vec![]);
    let (h2, cs2, ms2) = decode(&buf).expect("decodes");
    assert_eq!(h2, h);
    assert!(cs2.is_empty());
    assert!(ms2.is_empty());
}

#[test]
fn update_header_with_one_meta_decodes_end_to_end() {
    let h = Header {
        title_id: 0x0100000000000816,
        title_version: 0,
        title_type: 0x03,
        table_offset: 32,
        content_entry_count: 0,
        meta_entry_count: 1,
    };
    let m = MetaRecord { title_id: 0x0100000000000001, title_version: 65796, ty: 0x01, flag: 0 };
    let buf = encode(&h, &vec![], &vec![m]);
    assert_eq!(buf.len(), 32 + 32 + 14);
    let (h2, cs, ms) = decode(&buf).expect("decodes");
    assert_eq!(h2.title_id, 0x0100000000000816);
    assert!(cs.is_empty());
    assert_eq!(ms.len(), 1);
    assert_eq!(ms[0].title_id, 0x0100000000000001);
    assert_eq!(ms[0].title_version, 65796);
    let t = classify_meta_type(ms[0].ty).expect("known type");
    assert_eq!(t, MetaType::SystemProgram);
    assert_eq!(type_label(t), "SystemProgram");
}
