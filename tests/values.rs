use tiff_reader::decode::{value_from_buffer, FieldValue, Rational, SRational};
use tiff_reader::error::{escaped_string_from_bytes, ParseError, TiffReadError};
use tiff_reader::field::FieldState;
use tiff_reader::subfile::Subfile;
use tiff_reader::types::{compute_value_buffer_size, Endianness, FieldType};

#[test]
fn type_codes_resolve() {
    assert_eq!(FieldType::from_u16(1), Some(FieldType::Byte));
    assert_eq!(FieldType::from_u16(5), Some(FieldType::Rational));
    assert_eq!(FieldType::from_u16(12), Some(FieldType::Double));
    assert_eq!(FieldType::from_u16(0), None);
    assert_eq!(FieldType::from_u16(13), None);
    assert_eq!(FieldType::from_u16(9999), None);
}

#[test]
fn element_sizes() {
    let sizes: Vec<usize> = (1..=12u16).map(|c| FieldType::from_u16(c).unwrap().size_of()).collect();
    assert_eq!(sizes, vec![1, 1, 2, 4, 8, 1, 1, 2, 4, 8, 4, 8]);
    assert_eq!(FieldType::SRational.name(), "SRATIONAL");
    assert_eq!(FieldType::Undefined.name(), "UNDEFINED");
}

#[test]
fn buffer_sizes() {
    assert_eq!(compute_value_buffer_size(FieldType::Short, 3), Some(6));
    assert_eq!(compute_value_buffer_size(FieldType::Rational, 0), Some(0));
    assert_eq!(compute_value_buffer_size(FieldType::Double, 2), Some(16));
    let largest = compute_value_buffer_size(FieldType::Double, u32::MAX);
    match (8u128 * u32::MAX as u128) <= usize::MAX as u128 {
        true => assert_eq!(largest, Some(8 * u32::MAX as usize)),
        false => assert_eq!(largest, None),
    }
}

#[test]
fn short_decodes_in_either_byte_order() {
    assert_eq!(value_from_buffer(FieldType::Short, 1, &[0x01, 0x00], Endianness::Little), Ok(FieldValue::Short(vec![1])));
    assert_eq!(value_from_buffer(FieldType::Short, 1, &[0x01, 0x00], Endianness::Big), Ok(FieldValue::Short(vec![256])));
}

#[test]
fn multi_byte_types_decode() {
    let b = [0x01, 0x02, 0x03, 0x04, 0xFF, 0xFF, 0xFF, 0xFE];
    assert_eq!(value_from_buffer(FieldType::Long, 2, &b, Endianness::Big), Ok(FieldValue::Long(vec![0x01020304, 0xFFFFFFFE])));
    assert_eq!(value_from_buffer(FieldType::SLong, 2, &b, Endianness::Big), Ok(FieldValue::SLong(vec![0x01020304, -2])));
    assert_eq!(value_from_buffer(FieldType::SShort, 4, &b, Endianness::Little), Ok(FieldValue::SShort(vec![0x0201, 0x0403, -1, -257])));
    assert_eq!(value_from_buffer(FieldType::Double, 1, &b, Endianness::Little), Ok(FieldValue::Double(vec![0xFEFFFFFF04030201])));
    assert_eq!(value_from_buffer(FieldType::SByte, 2, &[0x7F, 0x80], Endianness::Big), Ok(FieldValue::SByte(vec![127, -128])));
    assert_eq!(value_from_buffer(FieldType::Ascii, 3, b"ab\0", Endianness::Big), Ok(FieldValue::Ascii(b"ab\0".to_vec())));
}

#[test]
fn float_values_keep_their_bits() {
    let b = 1.5f32.to_le_bytes();
    let v = value_from_buffer(FieldType::Float, 1, &b, Endianness::Little).unwrap();
    match v {
        FieldValue::Float(bits) => assert_eq!(f32::from_bits(bits[0]), 1.5f32),
        other => panic!("unexpected {:?}", other),
    }
    let b = (-0.25f64).to_be_bytes();
    let v = value_from_buffer(FieldType::Double, 1, &b, Endianness::Big).unwrap();
    match v {
        FieldValue::Double(bits) => assert_eq!(f64::from_bits(bits[0]), -0.25f64),
        other => panic!("unexpected {:?}", other),
    }
}

#[test]
fn rationals_keep_zero_denominators() {
    let b = [0x00, 0x00, 0x00, 0x03, 0x00, 0x00, 0x00, 0x00];
    assert_eq!(
        value_from_buffer(FieldType::Rational, 1, &b, Endianness::Big),
        Ok(FieldValue::Rational(vec![Rational { numerator: 3, denominator: 0 }]))
    );
    let b = [0xFE, 0xFF, 0xFF, 0xFF, 0x04, 0x00, 0x00, 0x00];
    assert_eq!(
        value_from_buffer(FieldType::SRational, 1, &b, Endianness::Little),
        Ok(FieldValue::SRational(vec![SRational { numerator: -2, denominator: 4 }]))
    );
    let b = [0x02, 0x00, 0x00, 0x00, 0x04, 0x00, 0x00, 0x00];
    assert_eq!(
        value_from_buffer(FieldType::Rational, 1, &b, Endianness::Little),
        Ok(FieldValue::Rational(vec![Rational { numerator: 2, denominator: 4 }]))
    );
}

#[test]
fn buffer_of_wrong_length_is_refused() {
    assert_eq!(value_from_buffer(FieldType::Short, 2, &[1, 2, 3], Endianness::Little), Err(TiffReadError::BufferSizeMismatch));
    assert_eq!(value_from_buffer(FieldType::Byte, 2, &[1, 2, 3], Endianness::Little), Err(TiffReadError::BufferSizeMismatch));
    assert_eq!(value_from_buffer(FieldType::Long, 0, &[], Endianness::Little), Ok(FieldValue::Long(vec![])));
}

#[test]
fn inline_values_are_local() {
    let s = FieldState::from_ifd_entry_data(3, 2, [0x01, 0x00, 0x02, 0x00], Endianness::Little).unwrap();
    assert_eq!(s, FieldState::Local(FieldValue::Short(vec![1, 2])));
    let s = FieldState::from_ifd_entry_data(1, 0, [9, 9, 9, 9], Endianness::Little).unwrap();
    assert_eq!(s, FieldState::Local(FieldValue::Byte(vec![])));
    let s = FieldState::from_ifd_entry_data(11, 1, 2.0f32.to_be_bytes(), Endianness::Big).unwrap();
    assert_eq!(s, FieldState::Local(FieldValue::Float(vec![2.0f32.to_bits()])));
}

#[test]
fn large_values_are_not_loaded() {
    let s = FieldState::from_ifd_entry_data(5, 1, [0x00, 0x00, 0x01, 0x00], Endianness::Big).unwrap();
    assert_eq!(s, FieldState::NotLoaded { field_type: FieldType::Rational, count: 1, offset: 256 });
    let s = FieldState::from_ifd_entry_data(1, 5, [0x20, 0x00, 0x00, 0x00], Endianness::Little).unwrap();
    assert_eq!(s, FieldState::NotLoaded { field_type: FieldType::Byte, count: 5, offset: 32 });
}

#[test]
fn unknown_type_code_keeps_raw_bytes() {
    let s = FieldState::from_ifd_entry_data(9999, 70000, [1, 2, 3, 4], Endianness::Little).unwrap();
    assert_eq!(s, FieldState::Unknown { field_type_raw: 9999, count: 70000, value_offset_bytes: [1, 2, 3, 4] });
}

fn one_entry_directory(tag: u16, code: u16, count: u32, inline: [u8; 4]) -> Vec<u8> {
    let mut d = Vec::new();
    d.extend_from_slice(&tag.to_le_bytes());
    d.extend_from_slice(&code.to_le_bytes());
    d.extend_from_slice(&count.to_le_bytes());
    d.extend_from_slice(&inline);
    d.extend_from_slice(&[0, 0, 0, 0]);
    d
}

#[test]
fn unknown_field_is_never_decoded() {
    let d = one_entry_directory(700, 9999, 2, [0xAA, 0xBB, 0xCC, 0xDD]);
    let mut sf = Subfile::new(8, 1, &d, Endianness::Little).unwrap();
    let f = sf.get_field(700).unwrap();
    assert_eq!(f.field_type(), None);
    assert_eq!(f.count(), 2);
    assert_eq!(f.get_value_if_local(), None);
    assert_eq!(f.get_value(), None);
    assert_eq!(f.read_request(), None);
    assert_eq!(sf.field_read_request(700), None);
    assert_eq!(sf.load_field_value(700, &[1, 2, 3]), Ok(()));
    assert_eq!(
        sf.get_field(700).unwrap().state(),
        &FieldState::Unknown { field_type_raw: 9999, count: 2, value_offset_bytes: [0xAA, 0xBB, 0xCC, 0xDD] }
    );
}

#[test]
fn load_unload_load_gives_identical_values() {
    // A file whose one field holds three LONGs at offset 26.
    let mut file = b"II\x2A\x00\x08\x00\x00\x00\x01\x00".to_vec();
    file.extend_from_slice(&one_entry_directory(273, 4, 3, [26, 0, 0, 0]));
    file.extend_from_slice(&[1, 0, 0, 0, 2, 0, 0, 0, 3, 0, 0, 0]);
    let mut sf = Subfile::new(8, 1, &file[10..], Endianness::Little).unwrap();
    let f = sf.get_field(273).unwrap();
    assert_eq!(f.state(), &FieldState::NotLoaded { field_type: FieldType::Long, count: 3, offset: 26 });
    assert_eq!(f.field_type(), Some(FieldType::Long));
    assert_eq!(f.count(), 3);
    assert_eq!(f.get_value(), None);
    let (offset, len) = sf.field_read_request(273).unwrap();
    assert_eq!((offset, len), (26, 12));
    let bytes = &file[offset as usize..offset as usize + len];
    sf.load_field_value(273, bytes).unwrap();
    let first = sf.get_field(273).unwrap().state().clone();
    assert_eq!(first, FieldState::Loaded { value: FieldValue::Long(vec![1, 2, 3]), offset: 26 });
    assert_eq!(sf.get_field_value_if_local(273), None);
    assert_eq!(sf.get_field(273).unwrap().get_value(), Some(&FieldValue::Long(vec![1, 2, 3])));
    sf.unload_field_value(273);
    assert_eq!(sf.get_field(273).unwrap().state(), &FieldState::NotLoaded { field_type: FieldType::Long, count: 3, offset: 26 });
    sf.load_field_value(273, bytes).unwrap();
    assert_eq!(sf.get_field(273).unwrap().state(), &first);
    sf.unload_all_field_values();
    assert_eq!(sf.get_field(273).unwrap().state(), &FieldState::NotLoaded { field_type: FieldType::Long, count: 3, offset: 26 });
}

#[test]
fn loading_with_a_short_buffer_changes_nothing() {
    let d = one_entry_directory(273, 4, 3, [26, 0, 0, 0]);
    let mut sf = Subfile::new(8, 1, &d, Endianness::Little).unwrap();
    assert_eq!(sf.load_field_value(273, &[1, 2, 3]), Err(TiffReadError::BufferSizeMismatch));
    assert_eq!(sf.get_field(273).unwrap().state(), &FieldState::NotLoaded { field_type: FieldType::Long, count: 3, offset: 26 });
    assert_eq!(sf.load_field_value(1, &[1, 2, 3]), Ok(()));
    assert!(sf.get_field(1).is_none());
    assert_eq!(sf.get_field_value_if_local(1), None);
}

#[test]
fn duplicate_tags_keep_the_last_entry() {
    let mut d = Vec::new();
    d.extend_from_slice(&one_entry_directory(5, 3, 1, [7, 0, 0, 0])[..12]);
    d.extend_from_slice(&one_entry_directory(5, 3, 1, [9, 0, 0, 0])[..12]);
    d.extend_from_slice(&[0x20, 0, 0, 0]);
    let sf = Subfile::new(8, 2, &d, Endianness::Little).unwrap();
    assert_eq!(sf.tags(), vec![5]);
    assert_eq!(sf.get_field_value_if_local(5), Some(&FieldValue::Short(vec![9])));
    assert_eq!(sf.offset_to_next_ifd(), Some(32));
}

#[test]
fn directory_sizes_and_counts() {
    assert_eq!(Subfile::directory_size(0), 4);
    assert_eq!(Subfile::directory_size(3), 40);
    assert_eq!(Subfile::directory_size(u16::MAX), 12 * 65535 + 4);
    assert_eq!(Subfile::entry_count_from_bytes([0x02, 0x01], Endianness::Little), 0x0102);
    assert_eq!(Subfile::entry_count_from_bytes([0x02, 0x01], Endianness::Big), 0x0201);
}

#[test]
fn short_directory_is_unexpected_end() {
    let d = one_entry_directory(5, 3, 1, [7, 0, 0, 0]);
    assert_eq!(Subfile::new(8, 1, &d[..15], Endianness::Little).unwrap_err(), TiffReadError::UnexpectedEnd);
    assert_eq!(Subfile::new(8, 2, &d, Endianness::Little).unwrap_err(), TiffReadError::UnexpectedEnd);
}

#[test]
fn escaped_bytes_are_printable() {
    assert_eq!(escaped_string_from_bytes(b"ab"), "ab");
    assert_eq!(escaped_string_from_bytes(b"a\n\t\"'\\\x9d\x00"), "a\\n\\t\\\"\\'\\\\\\x9d\\x00");
    assert_eq!(escaped_string_from_bytes(b""), "");
}

#[test]
fn parse_error_keeps_its_message() {
    let e = ParseError::new("Required buffer size too big".to_string());
    assert_eq!(e.message(), "Required buffer size too big");
}
