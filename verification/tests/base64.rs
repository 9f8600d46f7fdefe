use lazysql::kms::cloud::{base64_decode, base64_encode, decode_byte, encode, DecoderReader};

#[test]
fn encodes_with_padding() {
    assert_eq!(encode(b""), "");
    assert_eq!(encode(b"f"), "Zg==");
    assert_eq!(encode(b"fo"), "Zm8=");
    assert_eq!(encode(b"foo"), "Zm9v");
    assert_eq!(encode(b"foob"), "Zm9vYg==");
    assert_eq!(encode(b"fooba"), "Zm9vYmE=");
    assert_eq!(encode(b"foobar"), "Zm9vYmFy");
    assert_eq!(base64_encode(&[0xfb, 0xff, 0xfe]), "+//+");
    assert_eq!(encode(&[0, 0, 0]), "AAAA");
}

#[test]
fn decodes_what_it_encodes() {
    for n in 0..40usize {
        let data: Vec<u8> = (0..n).map(|i| (i * 37 + 11) as u8).collect();
        assert_eq!(base64_decode(&encode(&data)), data);
    }
    let key = [0xa5u8; 32];
    assert_eq!(base64_decode(&encode(&key)), key.to_vec());
}

#[test]
fn decoding_passes_over_what_is_no_symbol() {
    assert_eq!(base64_decode("Zm9v\nYmFy\r\n"), b"foobar".to_vec());
    assert_eq!(base64_decode(" Z g = = "), b"f".to_vec());
    assert_eq!(base64_decode("Zm9v!!YmE"), b"fooba".to_vec());
    assert_eq!(base64_decode("Z"), Vec::<u8>::new());
    assert_eq!(base64_decode(""), Vec::<u8>::new());
    assert_eq!(base64_decode("===="), Vec::<u8>::new());
    assert_eq!(base64_decode("+//+"), vec![0xfb, 0xff, 0xfe]);
}

#[test]
fn symbols_and_their_values() {
    assert_eq!(decode_byte(b'A'), Some(0));
    assert_eq!(decode_byte(b'Z'), Some(25));
    assert_eq!(decode_byte(b'a'), Some(26));
    assert_eq!(decode_byte(b'z'), Some(51));
    assert_eq!(decode_byte(b'0'), Some(52));
    assert_eq!(decode_byte(b'9'), Some(61));
    assert_eq!(decode_byte(b'+'), Some(62));
    assert_eq!(decode_byte(b'/'), Some(63));
    assert_eq!(decode_byte(b'='), None);
    assert_eq!(decode_byte(b' '), None);
    assert_eq!(decode_byte(b'-'), None);
    assert_eq!(decode_byte(0x80), None);
}

#[test]
fn reader_reads_to_the_end_once() {
    let mut reader = DecoderReader::new(b"Zm9vYg==");
    assert_eq!(reader.read_to_end(), b"foob".to_vec());
    assert_eq!(reader.read_to_end(), Vec::<u8>::new());
}
