use diskio::header::{
    copy_range, is_pad_byte, parse_header, parse_size, trim_bounds, Header, ProtocolError,
    DELIMITER, HEADER_LEN,
};

fn preamble(text: &[u8]) -> Vec<u8> {
    let mut bytes = text.to_vec();
    bytes.resize(256, 0);
    bytes
}

#[test]
fn header_constants() {
    assert_eq!(HEADER_LEN, 256);
    assert_eq!(DELIMITER, b'|');
}

#[test]
fn well_formed_header_is_parsed() {
    let header = parse_header(&preamble(b"data.bin|1048576")).unwrap();
    assert_eq!(
        header,
        Header { file_name: b"data.bin".to_vec(), declared_size: 1_048_576 }
    );
}

#[test]
fn header_missing_delimiter_is_refused() {
    assert_eq!(parse_header(&preamble(b"badheader")), Err(ProtocolError::FieldCount));
}

#[test]
fn header_with_two_delimiters_is_refused() {
    assert_eq!(parse_header(&preamble(b"a|b|3")), Err(ProtocolError::FieldCount));
    assert_eq!(parse_header(&preamble(b"a||3")), Err(ProtocolError::FieldCount));
}

#[test]
fn empty_header_is_refused() {
    assert_eq!(parse_header(&preamble(b"")), Err(ProtocolError::FieldCount));
}

#[test]
fn header_of_wrong_length_is_refused() {
    assert_eq!(parse_header(b"data.bin|16"), Err(ProtocolError::HeaderLength));
    let mut long = preamble(b"data.bin|16");
    long.push(0);
    assert_eq!(parse_header(&long), Err(ProtocolError::HeaderLength));
    assert_eq!(parse_header(&[]), Err(ProtocolError::HeaderLength));
}

#[test]
fn non_numeric_size_is_refused() {
    assert_eq!(parse_header(&preamble(b"data.bin|abc")), Err(ProtocolError::InvalidSize));
    assert_eq!(parse_header(&preamble(b"data.bin|12x")), Err(ProtocolError::InvalidSize));
    assert_eq!(parse_header(&preamble(b"data.bin|-5")), Err(ProtocolError::InvalidSize));
    assert_eq!(parse_header(&preamble(b"data.bin|1 2")), Err(ProtocolError::InvalidSize));
    assert_eq!(parse_header(&preamble(b"data.bin|")), Err(ProtocolError::InvalidSize));
    assert_eq!(parse_header(&preamble(b"data.bin|+")), Err(ProtocolError::InvalidSize));
    assert_eq!(parse_header(&preamble(b"data.bin|  ")), Err(ProtocolError::InvalidSize));
}

#[test]
fn size_that_exceeds_64_bits_is_refused() {
    assert_eq!(
        parse_header(&preamble(b"f|18446744073709551616")),
        Err(ProtocolError::InvalidSize)
    );
    assert_eq!(
        parse_header(&preamble(b"f|99999999999999999999999")),
        Err(ProtocolError::InvalidSize)
    );
    assert_eq!(
        parse_header(&preamble(b"f|18446744073709551615")).unwrap().declared_size,
        u64::MAX
    );
}

#[test]
fn size_may_have_spaces_a_plus_sign_and_leading_zeros() {
    assert_eq!(parse_header(&preamble(b"f| 42 ")).unwrap().declared_size, 42);
    assert_eq!(parse_header(&preamble(b"f|\t42\r\n")).unwrap().declared_size, 42);
    assert_eq!(parse_header(&preamble(b"f|+42")).unwrap().declared_size, 42);
    assert_eq!(parse_header(&preamble(b"f|00042")).unwrap().declared_size, 42);
    assert_eq!(parse_header(&preamble(b"f|0")).unwrap().declared_size, 0);
    assert_eq!(parse_header(&preamble(b"f|++42")), Err(ProtocolError::InvalidSize));
    assert_eq!(parse_header(&preamble(b"f|+ 42")), Err(ProtocolError::InvalidSize));
}

#[test]
fn padding_is_trimmed_at_both_ends() {
    let mut bytes = vec![0u8; 3];
    bytes.extend_from_slice(b"name|7");
    bytes.resize(256, 0);
    let header = parse_header(&bytes).unwrap();
    assert_eq!(header.file_name, b"name".to_vec());
    assert_eq!(header.declared_size, 7);
}

#[test]
fn padding_inside_the_header_is_kept() {
    let header = parse_header(&preamble(b"na\0me|7")).unwrap();
    assert_eq!(header.file_name, b"na\0me".to_vec());
    assert_eq!(parse_header(&preamble(b"name|7\x001")), Err(ProtocolError::InvalidSize));
}

#[test]
fn file_name_may_be_empty_or_fill_the_header() {
    assert_eq!(parse_header(&preamble(b"|5")).unwrap().file_name, Vec::<u8>::new());
    let mut text = vec![b'x'; 254];
    text.extend_from_slice(b"|9");
    let header = parse_header(&text).unwrap();
    assert_eq!(header.file_name, vec![b'x'; 254]);
    assert_eq!(header.declared_size, 9);
}

#[test]
fn file_name_keeps_its_spaces() {
    assert_eq!(parse_header(&preamble(b" a b |5")).unwrap().file_name, b" a b ".to_vec());
}

#[test]
fn parse_size_reads_a_field_in_place() {
    let bytes = b"xx 123 yy";
    assert_eq!(parse_size(bytes, 2, 7), Some(123));
    assert_eq!(parse_size(bytes, 3, 6), Some(123));
    assert_eq!(parse_size(bytes, 3, 5), Some(12));
    assert_eq!(parse_size(bytes, 0, 9), None);
    assert_eq!(parse_size(bytes, 4, 4), None);
}

#[test]
fn trim_bounds_finds_the_core() {
    assert_eq!(trim_bounds(b"\0\0ab\0c\0", 0, 7, false), (2, 6));
    assert_eq!(trim_bounds(b"  ab c ", 0, 7, true), (2, 6));
    assert_eq!(trim_bounds(b"  ab c ", 0, 7, false), (0, 7));
    assert_eq!(trim_bounds(b"\0\0\0", 0, 3, false), (3, 3));
    assert_eq!(trim_bounds(b"abc", 1, 1, true), (1, 1));
}

#[test]
fn pad_bytes() {
    assert!(is_pad_byte(0, false));
    assert!(!is_pad_byte(b' ', false));
    for b in [9u8, 10, 11, 12, 13, 32] {
        assert!(is_pad_byte(b, true));
    }
    assert!(!is_pad_byte(0, true));
    assert!(!is_pad_byte(b'a', true));
}

#[test]
fn copy_range_copies_the_range() {
    assert_eq!(copy_range(b"abcdef", 1, 4), b"bcd".to_vec());
    assert_eq!(copy_range(b"abcdef", 6, 6), Vec::<u8>::new());
}
