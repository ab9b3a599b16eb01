use membuffer::{
    MemBufferError, MemBufferReader, MemBufferSerialize, MemBufferTypes, MemBufferWriter,
};

const KEY: i32 = 0x7AFECAFE;

fn raw_buffer(count: i32, checksum: i32, entries: &[(i32, i32, i32)], payload: &[u8]) -> Vec<u8> {
    let mut out: Vec<u8> = Vec::new();
    MemBufferWriter::serialize_i32_to(count, &mut out);
    MemBufferWriter::serialize_i32_to(checksum, &mut out);
    for (start, end, tag) in entries {
        MemBufferWriter::serialize_i32_to(*start, &mut out);
        MemBufferWriter::serialize_i32_to(*end, &mut out);
        MemBufferWriter::serialize_i32_to(*tag, &mut out);
    }
    out.extend_from_slice(payload);
    out
}

#[test]
fn scenario_two_texts_and_u64_vector() {
    let mut writer = MemBufferWriter::new();
    writer.add_entry("Hello World");
    writer.add_entry("Hello second World");
    writer.add_entry::<&[u64]>(&[0, 1, 2, 3, 4, 5]);
    let result = writer.finalize();
    let reader = MemBufferReader::new(&result).unwrap();
    assert_eq!(reader.len(), 3);
    assert_eq!(reader.load_entry::<&str>(0).unwrap(), "Hello World");
    assert_eq!(reader.load_entry::<Vec<u64>>(2).unwrap(), vec![0, 1, 2, 3, 4, 5]);
    assert_eq!(
        reader.load_entry::<i32>(0).unwrap_err(),
        MemBufferError::FieldTypeError(MemBufferTypes::Text as i32, MemBufferTypes::Integer32 as i32)
    );
}

#[test]
fn scenario_empty_writer() {
    let result = MemBufferWriter::new().finalize();
    assert_eq!(result.len(), 8);
    let reader = MemBufferReader::new(&result).unwrap();
    assert_eq!(reader.len(), 0);
    assert_eq!(reader.payload_len(), 0);
}

#[test]
fn scenario_one_byte_slice() {
    let result = MemBufferWriter::new().finalize();
    assert_eq!(MemBufferReader::new(&result[0..1]).unwrap_err(), MemBufferError::WrongFormat);
}

#[test]
fn round_trip_each_type() {
    let text = String::from("Grüße, мир");
    let bytes: Vec<u8> = vec![0, 255, 7];
    let mut writer = MemBufferWriter::new();
    writer.add_entry(-123456789i32);
    writer.add_entry(0xDEAD_BEEF_0000_0001u64);
    writer.add_entry("визитной");
    writer.add_entry(&text);
    writer.add_entry(&bytes[..]);
    writer.add_entry::<&[u32]>(&[u32::MAX, 0, 17]);
    writer.add_entry(vec![u64::MAX, 3]);
    writer.add_entry(vec![9u32]);
    let result = writer.finalize();
    let reader = MemBufferReader::new(&result).unwrap();
    assert_eq!(reader.load_entry::<i32>(0).unwrap(), -123456789);
    assert_eq!(reader.load_entry::<u64>(1).unwrap(), 0xDEAD_BEEF_0000_0001);
    assert_eq!(reader.load_entry::<&str>(2).unwrap(), "визитной");
    assert_eq!(reader.load_entry::<&str>(3).unwrap(), text.as_str());
    assert_eq!(reader.load_entry::<&[u8]>(4).unwrap(), &bytes[..]);
    assert_eq!(reader.load_entry::<Vec<u32>>(5).unwrap(), vec![u32::MAX, 0, 17]);
    assert_eq!(reader.load_entry::<Vec<u64>>(6).unwrap(), vec![u64::MAX, 3]);
    assert_eq!(reader.load_entry::<Vec<u32>>(7).unwrap(), vec![9]);
}

#[test]
fn round_trip_empty_values() {
    let mut writer = MemBufferWriter::new();
    writer.add_entry("");
    writer.add_entry::<&[u8]>(&[]);
    writer.add_entry::<&[u64]>(&[]);
    let result = writer.finalize();
    let reader = MemBufferReader::new(&result).unwrap();
    assert_eq!(reader.load_entry::<&str>(0).unwrap(), "");
    assert_eq!(reader.load_entry::<&[u8]>(1).unwrap().len(), 0);
    assert_eq!(reader.load_entry::<Vec<u64>>(2).unwrap(), Vec::<u64>::new());
    assert_eq!(reader.payload_len(), 0);
}

#[test]
fn order_is_kept() {
    let mut writer = MemBufferWriter::new();
    for i in 0..20i32 {
        writer.add_entry(i * 3);
    }
    let result = writer.finalize();
    let reader = MemBufferReader::new(&result).unwrap();
    assert_eq!(reader.len(), 20);
    for i in 0..20usize {
        assert_eq!(reader.load_entry::<i32>(i).unwrap(), i as i32 * 3);
    }
}

#[test]
fn type_mismatch_reports_both_tags() {
    let mut writer = MemBufferWriter::new();
    writer.add_entry(5i32);
    writer.add_entry(5u64);
    writer.add_entry::<&[u32]>(&[1]);
    let result = writer.finalize();
    let reader = MemBufferReader::new(&result).unwrap();
    assert_eq!(reader.load_entry::<&str>(0).unwrap_err(), MemBufferError::FieldTypeError(1, 0));
    assert_eq!(reader.load_entry::<i32>(1).unwrap_err(), MemBufferError::FieldTypeError(1021, 1));
    assert_eq!(reader.load_entry::<Vec<u64>>(2).unwrap_err(), MemBufferError::FieldTypeError(3, 4));
    assert_eq!(reader.load_entry::<&[u8]>(2).unwrap_err(), MemBufferError::FieldTypeError(3, 2));
    assert_eq!(writer.load_entry::<u64>(0).unwrap_err(), MemBufferError::FieldTypeError(1, 1021));
}

#[test]
fn changed_count_byte_is_refused() {
    let mut writer = MemBufferWriter::new();
    writer.add_entry("Der moderne Prometheus");
    writer.add_entry(42i32);
    let result = writer.finalize();
    for j in 0..4 {
        for delta in [1u8, 2, 0x80, 0xff] {
            let mut bad = result.clone();
            bad[j] = bad[j].wrapping_add(delta);
            assert_eq!(MemBufferReader::new(&bad).unwrap_err(), MemBufferError::WrongFormat);
        }
    }
}

#[test]
fn truncated_header_is_refused() {
    let mut writer = MemBufferWriter::new();
    writer.add_entry("abc");
    writer.add_entry("de");
    let result = writer.finalize();
    let header = 8 + 12 * 2;
    for k in 0..header {
        assert_eq!(MemBufferReader::new(&result[..k]).unwrap_err(), MemBufferError::WrongFormat);
    }
    assert!(MemBufferReader::new(&result[..header]).is_err());
    assert!(MemBufferReader::new(&result).is_ok());
}

#[test]
fn finalize_twice_gives_same_bytes() {
    let mut writer = MemBufferWriter::new();
    writer.add_entry("x");
    writer.add_entry(7u64);
    assert!(writer.fits_format());
    let first = writer.finalize();
    let second = writer.finalize();
    assert_eq!(first, second);
}

#[test]
fn extension_adds_one_field() {
    let mut writer = MemBufferWriter::new();
    writer.add_entry("first");
    writer.add_entry(2i32);
    let result = writer.finalize();
    let mut extended = MemBufferWriter::from(&result).unwrap();
    assert_eq!(extended.len(), 2);
    extended.add_entry::<&[u64]>(&[10, 20]);
    let bytes = extended.finalize();
    let reader = MemBufferReader::new(&bytes).unwrap();
    assert_eq!(reader.len(), 3);
    assert_eq!(reader.load_entry::<&str>(0).unwrap(), "first");
    assert_eq!(reader.load_entry::<i32>(1).unwrap(), 2);
    assert_eq!(reader.load_entry::<Vec<u64>>(2).unwrap(), vec![10, 20]);
}

#[test]
fn writer_from_refuses_bad_buffer() {
    assert_eq!(MemBufferWriter::from(&[1, 2, 3]).err(), Some(MemBufferError::WrongFormat));
}

#[test]
fn from_then_finalize_is_unchanged() {
    let mut writer = MemBufferWriter::new();
    writer.add_entry("a");
    writer.add_entry(-1i32);
    let result = writer.finalize();
    let again = MemBufferWriter::from(&result).unwrap().finalize();
    assert_eq!(again, result);
}

#[test]
fn nested_buffers_read_independently() {
    let mut inner = MemBufferWriter::new();
    inner.add_entry(11i32);
    inner.add_entry("inner text");
    let mut outer = MemBufferWriter::new();
    outer.add_entry("outer text");
    outer.add_entry(inner);
    let result = outer.finalize();
    let reader = MemBufferReader::new(&result).unwrap();
    let nested = reader.load_recursive_reader(1).unwrap();
    assert_eq!(nested.len(), 2);
    assert_eq!(nested.load_entry::<i32>(0).unwrap(), 11);
    assert_eq!(nested.load_entry::<&str>(1).unwrap(), "inner text");
    assert_eq!(
        reader.load_recursive_reader(0).unwrap_err(),
        MemBufferError::FieldTypeError(MemBufferTypes::Text as i32, MemBufferTypes::MemBuffer as i32)
    );
}

#[test]
fn corrupt_nested_buffer_is_wrong_format() {
    let mut outer = MemBufferWriter::new();
    outer.add_entry(MemBufferWriter::new());
    let mut result = outer.finalize();
    let last = result.len() - 1;
    result[last] ^= 0x55;
    let reader = MemBufferReader::new(&result).unwrap();
    assert_eq!(reader.load_recursive_reader(0).unwrap_err(), MemBufferError::WrongFormat);
}

#[test]
fn set_entry_replaces_type_and_bytes() {
    let mut writer = MemBufferWriter::new();
    writer.add_entry(1i32);
    writer.add_entry(2i32);
    writer.set_entry("two", 1);
    assert_eq!(writer.len(), 2);
    let result = writer.finalize();
    let reader = MemBufferReader::new(&result).unwrap();
    assert_eq!(reader.load_entry::<i32>(0).unwrap(), 1);
    assert_eq!(reader.load_entry::<&str>(1).unwrap(), "two");
}

#[test]
fn layout_of_one_field() {
    let mut writer = MemBufferWriter::new();
    writer.add_entry(0x0102_0304i32);
    let result = writer.finalize();
    let mut expected: Vec<u8> = Vec::new();
    expected.extend_from_slice(&1i32.to_ne_bytes());
    expected.extend_from_slice(&(1i32 - KEY).to_ne_bytes());
    expected.extend_from_slice(&0i32.to_ne_bytes());
    expected.extend_from_slice(&4i32.to_ne_bytes());
    expected.extend_from_slice(&(MemBufferTypes::Integer32 as i32).to_ne_bytes());
    expected.extend_from_slice(&0x0102_0304i32.to_ne_bytes());
    assert_eq!(result, expected);
}

#[test]
fn numbers_are_stored_in_host_order() {
    assert_eq!(5u64.to_mem_buffer(), 5u64.to_ne_bytes().to_vec());
    assert_eq!((-2i32).to_mem_buffer(), (-2i32).to_ne_bytes().to_vec());
    let v: Vec<u32> = vec![0x0A0B0C0D, 1];
    let mut expected = 0x0A0B0C0Du32.to_ne_bytes().to_vec();
    expected.extend_from_slice(&1u32.to_ne_bytes());
    assert_eq!(v.to_mem_buffer(), expected);
    assert_eq!("hé".to_mem_buffer(), "hé".as_bytes().to_vec());
}

#[test]
fn i32_helpers_use_host_order() {
    let mut out: Vec<u8> = vec![9];
    MemBufferWriter::serialize_i32_to(0x0102_0304, &mut out);
    let mut expected = vec![9u8];
    expected.extend_from_slice(&0x0102_0304i32.to_ne_bytes());
    assert_eq!(out, expected);
    assert_eq!(MemBufferReader::deserialize_i32_from(&(-77i32).to_ne_bytes()), -77);
    assert_eq!(MemBufferReader::deserialize_i32_from(&[0x10, 0, 0, 0x10, 0xff]), i32::from_ne_bytes([0x10, 0, 0, 0x10]));
}

#[test]
fn negative_count_is_refused() {
    let buf = raw_buffer(-1, -1 - KEY, &[], &[]);
    assert_eq!(MemBufferReader::new(&buf).unwrap_err(), MemBufferError::WrongFormat);
}

#[test]
fn bad_checksum_is_refused() {
    let buf = raw_buffer(0, 0, &[], &[]);
    assert_eq!(MemBufferReader::new(&buf).unwrap_err(), MemBufferError::WrongFormat);
    let good = raw_buffer(0, -KEY, &[], &[1, 2]);
    let reader = MemBufferReader::new(&good).unwrap();
    assert_eq!(reader.payload_len(), 2);
}

#[test]
fn position_outside_payload_is_refused() {
    let past_end = raw_buffer(1, 1 - KEY, &[(0, 3, 2)], &[1, 2]);
    assert_eq!(MemBufferReader::new(&past_end).unwrap_err(), MemBufferError::WrongFormat);
    let reversed = raw_buffer(1, 1 - KEY, &[(2, 1, 2)], &[1, 2]);
    assert_eq!(MemBufferReader::new(&reversed).unwrap_err(), MemBufferError::WrongFormat);
    let negative = raw_buffer(1, 1 - KEY, &[(-1, 1, 2)], &[1, 2]);
    assert_eq!(MemBufferReader::new(&negative).unwrap_err(), MemBufferError::WrongFormat);
    let inside = raw_buffer(1, 1 - KEY, &[(1, 2, 2)], &[1, 2]);
    let reader = MemBufferReader::new(&inside).unwrap();
    assert_eq!(reader.load_entry::<&[u8]>(0).unwrap(), &[2u8][..]);
}

#[test]
fn field_of_wrong_size_is_wrong_format() {
    let buf = raw_buffer(3, 3 - KEY, &[(0, 3, 1), (0, 5, 1021), (0, 6, 4)], &[1, 2, 3, 4, 5, 6]);
    let reader = MemBufferReader::new(&buf).unwrap();
    assert_eq!(reader.load_entry::<i32>(0).unwrap_err(), MemBufferError::WrongFormat);
    assert_eq!(reader.load_entry::<u64>(1).unwrap_err(), MemBufferError::WrongFormat);
    assert_eq!(reader.load_entry::<Vec<u64>>(2).unwrap_err(), MemBufferError::WrongFormat);
}

#[test]
fn invalid_text_is_wrong_format() {
    let buf = raw_buffer(1, 1 - KEY, &[(0, 2, 0)], &[0xff, 0xfe]);
    let reader = MemBufferReader::new(&buf).unwrap();
    assert_eq!(reader.load_entry::<&str>(0).unwrap_err(), MemBufferError::WrongFormat);
}

#[test]
fn type_tags() {
    let tags: Vec<i32> = vec![
        MemBufferTypes::Text.into(),
        MemBufferTypes::Integer32.into(),
        MemBufferTypes::VectorU8.into(),
        MemBufferTypes::VectorU32.into(),
        MemBufferTypes::VectorU64.into(),
        MemBufferTypes::MemBuffer.into(),
        MemBufferTypes::LastPreDefienedValue.into(),
    ];
    assert_eq!(tags, vec![0, 1, 2, 3, 4, 5, 6]);
    assert_eq!(MemBufferTypes::VectorU32.tag(), 3);
    assert_eq!(<u64 as MemBufferSerialize>::get_mem_buffer_type(), 1021);
    assert_eq!(<Vec<u32> as MemBufferSerialize>::get_mem_buffer_type(), 3);
}
