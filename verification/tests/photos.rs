use base64::Engine;
use client_records::errors::{DecodeFault, RecordError};
use client_records::photo::{
    decode_payload, encode_data_uri, locate_photo, payload, PhotoLocation, PHOTOS_DIRECTORY,
};

#[test]
fn photo_location_follows_the_layout() {
    assert_eq!(PHOTOS_DIRECTORY, "photos");
    assert_eq!(
        locate_photo(12, "Ann", 3, "anterior"),
        PhotoLocation {
            client_directory: "12_Ann".to_string(),
            session_directory: "session_3".to_string(),
            file_name: "anterior_Ann.jpg".to_string(),
        }
    );
}

#[test]
fn photo_location_is_the_same_for_the_same_slot() {
    assert_eq!(
        locate_photo(7, "Bob", 21, "left_lateral"),
        locate_photo(7, "Bob", 21, "left_lateral")
    );
    assert_ne!(
        locate_photo(7, "Bob", 21, "left_lateral"),
        locate_photo(7, "Bob", 21, "right_lateral")
    );
    assert_ne!(
        locate_photo(7, "Bob", 21, "left_lateral"),
        locate_photo(7, "Bob", 22, "left_lateral")
    );
}

#[test]
fn photo_location_takes_names_and_numbers_as_they_are() {
    let location = locate_photo(-4, "", i32::MAX, "");
    assert_eq!(location.client_directory, "-4_");
    assert_eq!(location.session_directory, "session_2147483647");
    assert_eq!(location.file_name, "_.jpg");
    let location = locate_photo(i32::MIN, "Zoë Ann", 0, "posterior");
    assert_eq!(location.client_directory, "-2147483648_Zoë Ann");
    assert_eq!(location.session_directory, "session_0");
    assert_eq!(location.file_name, "posterior_Zoë Ann.jpg");
}

#[test]
fn payload_is_what_follows_the_last_comma() {
    assert_eq!(payload(b"data:image/jpeg;base64,AAAA"), b"AAAA");
    assert_eq!(payload(b"AAAA"), b"AAAA");
    assert_eq!(payload(b"a,b,c"), b"c");
    assert_eq!(payload(b"abc,"), b"");
    assert_eq!(payload(b","), b"");
    assert_eq!(payload(b""), b"");
    assert_eq!(payload(b",x"), b"x");
}

#[test]
fn data_uri_header_is_stripped_before_decoding() {
    assert_eq!(decode_payload("data:image/jpeg;base64,AAAA"), Ok(vec![0, 0, 0]));
    assert_eq!(decode_payload("AAAA"), Ok(vec![0, 0, 0]));
    assert_eq!(decode_payload("data:image/jpeg;base64,AAAA"), decode_payload("AAAA"));
    assert_eq!(decode_payload("data:image/png;base64,aGVsbG8="), Ok(b"hello".to_vec()));
    assert_eq!(decode_payload("x,y,aGVsbG8="), Ok(b"hello".to_vec()));
}

#[test]
fn empty_payload_decodes_to_no_bytes() {
    assert_eq!(decode_payload(""), Ok(vec![]));
    assert_eq!(decode_payload("data:image/jpeg;base64,"), Ok(vec![]));
}

#[test]
fn malformed_payload_is_a_decode_error() {
    assert_eq!(
        decode_payload("!AAA"),
        Err(RecordError::Decode(DecodeFault::InvalidByte { offset: 0, byte: 33 }))
    );
    assert_eq!(
        decode_payload("data:image/jpeg;base64,AA!A"),
        Err(RecordError::Decode(DecodeFault::InvalidByte { offset: 2, byte: 33 }))
    );
    assert_eq!(
        decode_payload("AAAAA"),
        Err(RecordError::Decode(DecodeFault::InvalidLength { length: 5 }))
    );
    assert_eq!(
        decode_payload("AB=="),
        Err(RecordError::Decode(DecodeFault::InvalidLastSymbol { offset: 1, byte: 66 }))
    );
    assert_eq!(decode_payload("AA"), Err(RecordError::Decode(DecodeFault::InvalidPadding)));
}

#[test]
fn decode_failures_read_as_the_decoder_words_them() {
    for text in ["!AAA", "AAAAA", "AB==", "AA", "AAA=AAAA", "=", "A", "AA=A"] {
        let expected = base64::engine::general_purpose::STANDARD.decode(text).unwrap_err().to_string();
        match decode_payload(text) {
            Err(error) => assert_eq!(error.message(), expected),
            Ok(bytes) => panic!("{text} decoded to {bytes:?}"),
        }
    }
}

#[test]
fn data_uri_is_the_jpeg_header_and_base64() {
    assert_eq!(encode_data_uri(&[0, 0, 0]), "data:image/jpeg;base64,AAAA");
    assert_eq!(encode_data_uri(b"hello"), "data:image/jpeg;base64,aGVsbG8=");
    assert_eq!(encode_data_uri(b""), "data:image/jpeg;base64,");
    assert_eq!(encode_data_uri(&[0xfb, 0xff]), "data:image/jpeg;base64,+/8=");
}

#[test]
fn saved_bytes_come_back_from_the_data_uri() {
    let mut bytes: Vec<u8> = Vec::new();
    for length in 0..200usize {
        let encoded = base64::engine::general_purpose::STANDARD.encode(&bytes);
        let saved = decode_payload(&encoded).unwrap();
        assert_eq!(saved, bytes);
        let uri = encode_data_uri(&saved);
        assert!(uri.starts_with("data:image/jpeg;base64,"));
        assert_eq!(decode_payload(&uri), Ok(bytes.clone()));
        bytes.push((length * 37 % 256) as u8);
    }
}

#[test]
fn every_byte_value_survives_the_round_trip() {
    let bytes: Vec<u8> = (0..=255).collect();
    assert_eq!(decode_payload(&encode_data_uri(&bytes)), Ok(bytes));
}
