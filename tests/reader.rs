use tiff_reader::decode::FieldValue;
use tiff_reader::error::TiffReadError;
use tiff_reader::subfile::Subfile;
use tiff_reader::types::Endianness;
use tiff_reader::{Header, TiffReader};

/// Follows the directory chain through an in-memory file.
fn read_all_ifds(reader: &mut TiffReader, bytes: &[u8]) -> Result<(), TiffReadError> {
    while let Some(offset) = reader.next_ifd_offset()? {
        let at = offset as usize;
        if bytes.len() < at + 2 {
            return Err(TiffReadError::UnexpectedEnd);
        }
        let count = Subfile::entry_count_from_bytes([bytes[at], bytes[at + 1]], reader.endianness);
        let subfile = Subfile::new(offset, count, &bytes[at + 2..], reader.endianness)?;
        reader.add_subfile(subfile)?;
    }
    Ok(())
}

#[test]
fn create_tiff_reader_from_le_header() {
    let header_bytes = b"II\x2A\x00\xD2\x02\x96\x49";
    let tiff_reader = TiffReader::new(header_bytes).unwrap();
    assert_eq!(tiff_reader.endianness, Endianness::Little);
    assert_eq!(tiff_reader.offset_to_first_ifd, 1234567890u32);
    println!("{:#?}", tiff_reader);
}

#[test]
fn create_tiff_reader_from_be_header() {
    let header_bytes = b"MM\x00\x2A\x49\x96\x02\xD2";
    let tiff_reader = TiffReader::new(header_bytes).unwrap();
    assert_eq!(tiff_reader.endianness, Endianness::Big);
    assert_eq!(tiff_reader.offset_to_first_ifd, 1234567890u32);
    println!("{:#?}", tiff_reader);
}

#[test]
#[should_panic]
fn fail_create_tiff_reader_with_first_offset_too_low() {
    let header_bytes = b"II\x2A\x00\x00\x00\x00\x00";
    let tiff_reader = TiffReader::new(header_bytes).unwrap();
    println!("{:#?}", tiff_reader);
}

#[test]
#[should_panic]
fn fail_create_tiff_reader_from_incomplete_header() {
    let header_bytes = b"II\x2A\x00";
    let tiff_reader = TiffReader::new(header_bytes).unwrap();
    println!("{:#?}", tiff_reader);
}

#[test]
#[should_panic]
fn fail_create_tiff_reader_from_invalid_data() {
    let header_bytes = b"Hello, World!";
    let tiff_reader = TiffReader::new(header_bytes).unwrap();
    println!("{:#?}", tiff_reader);
}

#[test]
fn read_ifd() {
    let tiff_bytes = [
        b"II\x2A\x00\x0D\x00\x00\x00".as_ref(), // header, first IFD at offset 13
        b"\x00\x00\x00\x00\x00".as_ref(),       // five bytes of padding
        b"\x01\x00".as_ref(),                   // one entry
        b"\x39\x05".as_ref(),                   // tag 1337
        b"\x01\x00".as_ref(),                   // type 1 = BYTE
        b"\x03\x00\x00\x00".as_ref(),           // three values
        b"\xCA\xFE\xBE\xEF".as_ref(),           // 202, 254, 190 and one unused byte
        b"\x00\x00\x00\x00".as_ref(),           // no next IFD
    ]
    .concat();
    let mut tiff_reader = TiffReader::new(&tiff_bytes).unwrap();
    println!("{:#?}", tiff_reader);
    assert_eq!(tiff_reader.endianness, Endianness::Little);
    assert_eq!(tiff_reader.offset_to_first_ifd, 13);
    read_all_ifds(&mut tiff_reader, &tiff_bytes).unwrap();
    assert_eq!(tiff_reader.subfiles.len(), 1);
    assert_eq!(
        tiff_reader.subfiles[0].get_field_value_if_local(1337),
        Some(&FieldValue::Byte(vec![202, 254, 190]))
    );
    assert_eq!(tiff_reader.subfiles[0].offset_to_next_ifd(), None);
    assert_eq!(tiff_reader.subfiles[0].tags(), vec![1337]);
    println!("{:#?}", tiff_reader);
}

#[test]
fn header_fields_come_from_the_eight_bytes() {
    let h = Header::from_bytes(b"MM\x00\x2A\x00\x00\x01\x00").unwrap();
    assert_eq!(h, Header { endianness: Endianness::Big, offset_to_first_ifd: 256 });
    let h = Header::from_bytes(b"II\x2A\x00\x00\x01\x00\x00").unwrap();
    assert_eq!(h, Header { endianness: Endianness::Little, offset_to_first_ifd: 256 });
}

#[test]
fn header_with_unknown_magic_is_refused() {
    assert_eq!(Header::from_bytes(b"IM\x2A\x00\x08\x00\x00\x00"), Err(TiffReadError::InvalidMagic));
    assert_eq!(Header::from_bytes(b"MM\x2A\x00\x08\x00\x00\x00"), Err(TiffReadError::InvalidMagic));
    assert_eq!(
        TiffReader::new(b"Hello, World!").unwrap_err(),
        TiffReadError::InvalidMagic
    );
}

#[test]
fn first_ifd_offset_below_eight_is_refused() {
    assert_eq!(
        TiffReader::new(b"II\x2A\x00\x07\x00\x00\x00").unwrap_err(),
        TiffReadError::FirstIfdOffsetTooLow
    );
    let reader = TiffReader::new(b"II\x2A\x00\x08\x00\x00\x00").unwrap();
    assert_eq!(reader.offset_to_first_ifd, 8);
    assert_eq!(reader.next_ifd_offset(), Ok(Some(8)));
}

#[test]
fn short_header_is_unexpected_end() {
    assert_eq!(TiffReader::new(b"II\x2A\x00\x08\x00\x00").unwrap_err(), TiffReadError::UnexpectedEnd);
    assert_eq!(TiffReader::new(b"").unwrap_err(), TiffReadError::UnexpectedEnd);
}

#[test]
fn ifd_chain_pointing_back_is_a_cycle() {
    let bytes = [
        b"II\x2A\x00\x08\x00\x00\x00".as_ref(), // first IFD at 8
        b"\x00\x00".as_ref(),                   // no entries
        b"\x0E\x00\x00\x00".as_ref(),           // next IFD at 14
        b"\x00\x00".as_ref(),                   // no entries
        b"\x08\x00\x00\x00".as_ref(),           // next IFD at 8 again
    ]
    .concat();
    let mut reader = TiffReader::new(&bytes).unwrap();
    assert_eq!(read_all_ifds(&mut reader, &bytes), Err(TiffReadError::IfdCycle));
    assert_eq!(reader.subfiles.len(), 2);
    assert_eq!(reader.subfiles[0].offset(), 8);
    assert_eq!(reader.subfiles[1].offset(), 14);
}

#[test]
fn ifd_pointing_at_itself_is_a_cycle() {
    let bytes = [b"MM\x00\x2A\x00\x00\x00\x08".as_ref(), b"\x00\x00".as_ref(), b"\x00\x00\x00\x08".as_ref()].concat();
    let mut reader = TiffReader::new(&bytes).unwrap();
    assert_eq!(read_all_ifds(&mut reader, &bytes), Err(TiffReadError::IfdCycle));
    assert_eq!(reader.subfiles.len(), 1);
}

#[test]
fn two_directories_are_read_in_file_order() {
    let bytes = [
        b"II\x2A\x00\x08\x00\x00\x00".as_ref(),
        b"\x01\x00\x00\x01\x03\x00\x01\x00\x00\x00\x40\x00\x00\x00".as_ref(), // tag 256, SHORT 64
        b"\x1A\x00\x00\x00".as_ref(),                                      // next IFD at 26
        b"\x01\x00\x01\x01\x04\x00\x01\x00\x00\x00\x10\x27\x00\x00".as_ref(), // tag 257, LONG 10000
        b"\x00\x00\x00\x00".as_ref(),
    ]
    .concat();
    let mut reader = TiffReader::new(&bytes).unwrap();
    read_all_ifds(&mut reader, &bytes).unwrap();
    assert_eq!(reader.subfiles.len(), 2);
    assert_eq!(reader.subfiles[0].offset_to_next_ifd(), Some(26));
    assert_eq!(reader.subfiles[0].get_field_value_if_local(256), Some(&FieldValue::Short(vec![64])));
    assert_eq!(reader.subfiles[1].get_field_value_if_local(257), Some(&FieldValue::Long(vec![10000])));
    assert_eq!(reader.next_ifd_offset(), Ok(None));
}

#[test]
fn subfile_read_elsewhere_is_refused() {
    let bytes = [b"II\x2A\x00\x08\x00\x00\x00".as_ref(), b"\x00\x00\x00\x00\x00\x00".as_ref()].concat();
    let mut reader = TiffReader::new(&bytes).unwrap();
    let stray = Subfile::new(9, 0, b"\x00\x00\x00\x00", Endianness::Little).unwrap();
    assert_eq!(reader.add_subfile(stray), Err(TiffReadError::UnexpectedSubfile));
    let other_order = Subfile::new(8, 0, b"\x00\x00\x00\x00", Endianness::Big).unwrap();
    assert_eq!(reader.add_subfile(other_order), Err(TiffReadError::UnexpectedSubfile));
    assert_eq!(reader.subfiles.len(), 0);
    let right = Subfile::new(8, 0, b"\x00\x00\x00\x00", Endianness::Little).unwrap();
    assert_eq!(reader.add_subfile(right), Ok(()));
    assert_eq!(reader.subfiles.len(), 1);
}
