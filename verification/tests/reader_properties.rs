use dvious::errors::DviousError;
use dvious::util::byte_reader::{ByteReader, Readable};
use dvious::util::num::{i24, u24};

#[test]
fn failing_read_leaves_position_unchanged() {
    let mut reader = ByteReader::new(vec![0x01, 0x02, 0x03]);
    reader.read_be::<u8>().unwrap();

    assert!(reader.read_be::<u32>().is_err());
    assert_eq!(reader.position(), 1);
    assert!(reader.read_be::<u24>().is_err());
    assert_eq!(reader.position(), 1);
    assert_eq!(reader.read_be::<u16>().unwrap(), 0x0203);
    assert_eq!(reader.position(), 3);
}

#[test]
fn failing_read_reports_index_out_of_bounds() {
    let mut reader = ByteReader::new(vec![0x01]);

    assert!(matches!(
        reader.read_be::<u16>(),
        Err(DviousError::IndexOutOfBoundsError)
    ));
    assert!(matches!(
        reader.peek_be::<u16>(),
        Err(DviousError::IndexOutOfBoundsError)
    ));
    assert!(matches!(
        reader.read_vector_be::<u8>(2),
        Err(DviousError::IndexOutOfBoundsError)
    ));
    assert!(matches!(
        reader.skip_bytes(2),
        Err(DviousError::IndexOutOfBoundsError)
    ));
}

#[test]
fn peek_agrees_with_read_and_does_not_advance() {
    let mut reader = ByteReader::new(vec![0xCA, 0xFE, 0xBA, 0xBE, 0x99]);

    let peeked = reader.peek_be::<u32>().unwrap();
    assert_eq!(reader.position(), 0);
    let peeked_again = reader.peek_be::<u32>().unwrap();
    assert_eq!(reader.position(), 0);
    let read = reader.read_be::<u32>().unwrap();

    assert_eq!(peeked, 0xCAFEBABE);
    assert_eq!(peeked_again, peeked);
    assert_eq!(read, peeked);
    assert_eq!(reader.position(), 4);
}

#[test]
fn read_advances_by_the_width_of_the_type() {
    let mut reader = ByteReader::new(vec![0; 20]);

    reader.read_be::<u8>().unwrap();
    assert_eq!(reader.position(), 1);
    reader.read_be::<i8>().unwrap();
    assert_eq!(reader.position(), 2);
    reader.read_be::<u16>().unwrap();
    assert_eq!(reader.position(), 4);
    reader.read_be::<i16>().unwrap();
    assert_eq!(reader.position(), 6);
    reader.read_be::<u24>().unwrap();
    assert_eq!(reader.position(), 9);
    reader.read_be::<i24>().unwrap();
    assert_eq!(reader.position(), 12);
    reader.read_be::<u32>().unwrap();
    assert_eq!(reader.position(), 16);
    reader.read_be::<i32>().unwrap();
    assert_eq!(reader.position(), 20);
    assert!(!reader.has_more());
}

#[test]
fn signed_reads_extend_the_sign() {
    assert_eq!(
        ByteReader::new(vec![0xD6]).read_be::<i8>().unwrap(),
        -42
    );
    assert_eq!(
        ByteReader::new(vec![0xEF, 0x98]).read_be::<i16>().unwrap(),
        -4200
    );
    assert_eq!(
        ByteReader::new(vec![0xFF, 0xFF, 0xFF])
            .read_be::<i24>()
            .unwrap(),
        i24::from(-1)
    );
    assert_eq!(
        ByteReader::new(vec![0x80, 0x00, 0x00])
            .read_be::<i24>()
            .unwrap(),
        i24::from(-8_388_608)
    );
    assert_eq!(
        ByteReader::new(vec![0x7F, 0xFF, 0xFF])
            .read_be::<i24>()
            .unwrap(),
        i24::from(8_388_607)
    );
    assert_eq!(
        ByteReader::new(vec![0xFF, 0xFF, 0xFF, 0xFE])
            .read_be::<i32>()
            .unwrap(),
        -2
    );
    assert_eq!(
        ByteReader::new(vec![0x80, 0x00, 0x00, 0x00])
            .read_be::<i32>()
            .unwrap(),
        i32::MIN
    );
}

#[test]
fn signed_reads_with_clear_top_bit_are_not_negative() {
    assert_eq!(ByteReader::new(vec![0x7F]).read_be::<i8>().unwrap(), 127);
    assert_eq!(
        ByteReader::new(vec![0x7F, 0xFF]).read_be::<i16>().unwrap(),
        32_767
    );
    assert_eq!(
        ByteReader::new(vec![0x7F, 0xFF, 0xFF, 0xFF])
            .read_be::<i32>()
            .unwrap(),
        i32::MAX
    );
}

#[test]
fn unsigned_reads_take_the_whole_range() {
    assert_eq!(ByteReader::new(vec![0xFF]).read_be::<u8>().unwrap(), 255);
    assert_eq!(
        ByteReader::new(vec![0xFF, 0xFF]).read_be::<u16>().unwrap(),
        65_535
    );
    assert_eq!(
        ByteReader::new(vec![0xFF, 0xFF, 0xFF])
            .read_be::<u24>()
            .unwrap(),
        u24::from(16_777_215_u32)
    );
    assert_eq!(
        ByteReader::new(vec![0xFF, 0xFF, 0xFF, 0xFF])
            .read_be::<u32>()
            .unwrap(),
        u32::MAX
    );
}

#[test]
fn from_u8_be_looks_at_the_leading_bytes_only() {
    assert_eq!(u16::from_u8_be(&[0x12, 0x34, 0x56]), 0x1234);
    assert_eq!(i8::from_u8_be(&[0xD6, 0x00]), -42);
    assert_eq!(u8::size_in_bytes(), 1);
    assert_eq!(i8::size_in_bytes(), 1);
    assert_eq!(u16::size_in_bytes(), 2);
    assert_eq!(i16::size_in_bytes(), 2);
    assert_eq!(u24::size_in_bytes(), 3);
    assert_eq!(i24::size_in_bytes(), 3);
    assert_eq!(u32::size_in_bytes(), 4);
    assert_eq!(i32::size_in_bytes(), 4);
}

#[test]
fn failing_vector_read_leaves_position_unchanged() {
    let mut reader = ByteReader::new(vec![1, 2, 3, 4, 5]);
    reader.read_be::<u8>().unwrap();

    assert!(reader.read_vector_be::<u16>(3).is_err());
    assert_eq!(reader.position(), 1);
    assert_eq!(
        reader.read_vector_be::<u16>(2).unwrap(),
        vec![0x0203, 0x0405]
    );
    assert_eq!(reader.position(), 5);
}

#[test]
fn vector_read_of_huge_count_fails_without_reading() {
    let mut reader = ByteReader::new(vec![1, 2, 3]);

    assert!(reader.read_vector_be::<u32>(usize::MAX).is_err());
    assert!(reader.read_vector_be::<u8>(usize::MAX).is_err());
    assert_eq!(reader.position(), 0);
}

#[test]
fn vector_read_of_nothing_succeeds_at_the_end() {
    let mut reader = ByteReader::new(vec![]);

    assert_eq!(reader.read_vector_be::<u32>(0).unwrap(), Vec::<u32>::new());
    assert_eq!(reader.position(), 0);
    assert!(!reader.has_more());
    assert_eq!(reader.len(), 0);
}

#[test]
fn failing_skip_leaves_position_unchanged() {
    let mut reader = ByteReader::new(vec![0xDE, 0xAD, 0xBE, 0xEF]);
    reader.skip_bytes(1).unwrap();

    assert!(reader.skip_bytes(4).is_err());
    assert_eq!(reader.position(), 1);
    reader.skip_bytes(3).unwrap();
    assert_eq!(reader.position(), 4);
    reader.skip_bytes(0).unwrap();
    assert_eq!(reader.position(), 4);
    assert!(reader.skip_bytes(1).is_err());
    assert_eq!(reader.position(), 4);
}

#[test]
fn length_does_not_change_with_reading() {
    let mut reader = ByteReader::new(vec![1, 2, 3]);

    assert_eq!(reader.len(), 3);
    reader.read_be::<u16>().unwrap();
    assert_eq!(reader.len(), 3);
    assert!(reader.has_more());
    reader.read_be::<u8>().unwrap();
    assert_eq!(reader.len(), 3);
    assert!(!reader.has_more());
}

#[test]
fn twenty_four_bit_carriers_convert_as_stored() {
    assert_eq!(u32::from(u24::from(0xABCDEF_u32)), 0xABCDEF);
    assert_eq!(i32::from(u24::from(0xABCDEF_u32)), 0xABCDEF);
    assert_eq!(u32::from(u24::from(-1_i32)), u32::MAX);
    assert_eq!(i32::from(i24::from(-4200)), -4200);
    assert_eq!(i32::from(u24::from(u32::MAX)), -1);
}
