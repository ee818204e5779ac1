use rtp::{decode, DecodeError, Version, VersionError, CSRC, SSRC};

/// The 12 fixed bytes of a well-formed version-2 header: sequence number 1,
/// timestamp 0, SSRC 0x12345678, no flags, no contributing sources.
const MINIMAL: [u8; 12] = [
    0x02, 0x00, 0x00, 0x01, 0x00, 0x00, 0x00, 0x00, 0x12, 0x34, 0x56, 0x78,
];

#[test]
fn minimal_header_decodes() {
    let header = decode(&MINIMAL).unwrap();
    assert_eq!(header.version, Version::RTP2);
    assert!(!header.has_padding);
    assert!(!header.has_extension);
    assert!(!header.has_marker);
    assert_eq!(header.payload_type, 0);
    assert_eq!(header.sequence_number, 1);
    assert_eq!(header.timestamp, 0);
    assert_eq!(header.ssrc, SSRC(0x12345678));
    assert!(header.csrcs.is_empty());
    assert!(header.extension.is_none());
}

#[test]
fn truncated_header_fails() {
    assert_eq!(decode(&MINIMAL[..11]).unwrap_err(), DecodeError::UnexpectedEOF);
}

#[test]
fn version_one_rejected() {
    let mut buffer = MINIMAL;
    buffer[0] = 0x01;
    assert_eq!(decode(&buffer).unwrap_err(), DecodeError::UnsupportedVersion);
}

#[test]
fn version_zero_rejected() {
    let mut buffer = MINIMAL;
    buffer[0] = 0x00;
    assert_eq!(decode(&buffer).unwrap_err(), DecodeError::UnsupportedVersion);
}

#[test]
fn reserved_version_fails() {
    let mut buffer = MINIMAL;
    buffer[0] = 0x03;
    assert_eq!(
        decode(&buffer).unwrap_err(),
        DecodeError::Version(VersionError::Unknown)
    );
    // The version field is examined before anything past the first byte.
    assert_eq!(
        decode(&[0x03]).unwrap_err(),
        DecodeError::Version(VersionError::Unknown)
    );
}

#[test]
fn empty_buffer_fails() {
    assert_eq!(decode(&[]).unwrap_err(), DecodeError::UnexpectedEOF);
}

#[test]
fn every_short_prefix_fails() {
    for len in 0..12 {
        assert_eq!(
            decode(&MINIMAL[..len]).unwrap_err(),
            DecodeError::UnexpectedEOF,
            "prefix of {len} bytes"
        );
    }
}

#[test]
fn flag_bits_and_payload_type() {
    let mut buffer = MINIMAL;
    buffer[0] = 0x06; // version 2 plus the padding flag
    buffer[1] = 0x03; // marker flag plus payload type 1
    let header = decode(&buffer).unwrap();
    assert!(header.has_padding);
    assert!(header.has_marker);
    assert_eq!(header.payload_type, 1);
}

#[test]
fn payload_type_uses_top_seven_bits() {
    let mut buffer = MINIMAL;
    buffer[1] = 0xFE; // payload type 127, marker clear
    let header = decode(&buffer).unwrap();
    assert!(!header.has_marker);
    assert_eq!(header.payload_type, 127);
}

#[test]
fn multi_byte_fields_are_big_endian() {
    let buffer = [
        0x02, 0x00, 0xAB, 0xCD, 0x01, 0x02, 0x03, 0x04, 0xDE, 0xAD, 0xBE, 0xEF,
    ];
    let header = decode(&buffer).unwrap();
    assert_eq!(header.sequence_number, 0xABCD);
    assert_eq!(header.timestamp, 0x01020304);
    assert_eq!(header.ssrc, SSRC(0xDEADBEEF));
}

#[test]
fn csrcs_decode_in_order() {
    let mut buffer = vec![
        0x22, 0x00, 0x00, 0x01, 0x00, 0x00, 0x00, 0x00, 0x12, 0x34, 0x56, 0x78,
    ];
    buffer.extend_from_slice(&[0x00, 0x00, 0x00, 0x0A, 0x00, 0x00, 0x00, 0x0B]);
    let header = decode(&buffer).unwrap();
    assert_eq!(header.csrcs, vec![CSRC(0x0A), CSRC(0x0B)]);
    assert!(header.extension.is_none());
}

#[test]
fn fifteen_csrcs_decode() {
    let mut buffer = vec![
        0xF2, 0x00, 0x00, 0x01, 0x00, 0x00, 0x00, 0x00, 0x12, 0x34, 0x56, 0x78,
    ];
    for i in 0..15u32 {
        buffer.extend_from_slice(&i.to_be_bytes());
    }
    let header = decode(&buffer).unwrap();
    assert_eq!(header.csrcs.len(), 15);
    for (i, csrc) in header.csrcs.iter().enumerate() {
        assert_eq!(*csrc, CSRC(i as u32));
    }
}

#[test]
fn truncated_csrc_list_fails() {
    // One contributing source advertised, none supplied.
    let mut buffer = MINIMAL;
    buffer[0] = 0x12;
    assert_eq!(decode(&buffer).unwrap_err(), DecodeError::UnexpectedEOF);
}

#[test]
fn extension_with_body_decodes() {
    let mut buffer = vec![
        0x0A, 0x00, 0x00, 0x01, 0x00, 0x00, 0x00, 0x00, 0x12, 0x34, 0x56, 0x78,
    ];
    buffer.extend_from_slice(&[0xAA, 0xBB, 0x00, 0x01, 0x01, 0x02, 0x03, 0x04]);
    let header = decode(&buffer).unwrap();
    assert!(header.has_extension);
    let extension = header.extension.unwrap();
    assert_eq!(extension.parameters, 0xAABB);
    assert_eq!(extension.body, vec![0x01, 0x02, 0x03, 0x04]);
}

#[test]
fn extension_with_empty_body_decodes() {
    let mut buffer = vec![
        0x0A, 0x00, 0x00, 0x01, 0x00, 0x00, 0x00, 0x00, 0x12, 0x34, 0x56, 0x78,
    ];
    buffer.extend_from_slice(&[0x00, 0x07, 0x00, 0x00]);
    let header = decode(&buffer).unwrap();
    let extension = header.extension.unwrap();
    assert_eq!(extension.parameters, 0x0007);
    assert!(extension.body.is_empty());
}

#[test]
fn extension_length_counts_words() {
    let mut buffer = vec![
        0x0A, 0x00, 0x00, 0x01, 0x00, 0x00, 0x00, 0x00, 0x12, 0x34, 0x56, 0x78,
    ];
    buffer.extend_from_slice(&[0x00, 0x00, 0x00, 0x02]);
    buffer.extend_from_slice(&[0; 8]);
    let header = decode(&buffer).unwrap();
    assert_eq!(header.extension.unwrap().body.len(), 8);
}

#[test]
fn truncated_extension_body_fails() {
    let mut buffer = vec![
        0x0A, 0x00, 0x00, 0x01, 0x00, 0x00, 0x00, 0x00, 0x12, 0x34, 0x56, 0x78,
    ];
    // Two words (8 bytes) advertised, only 4 supplied.
    buffer.extend_from_slice(&[0x00, 0x00, 0x00, 0x02, 0x01, 0x02, 0x03, 0x04]);
    assert_eq!(decode(&buffer).unwrap_err(), DecodeError::UnexpectedEOF);
}

#[test]
fn truncated_extension_header_fails() {
    let mut buffer = vec![
        0x0A, 0x00, 0x00, 0x01, 0x00, 0x00, 0x00, 0x00, 0x12, 0x34, 0x56, 0x78,
    ];
    buffer.extend_from_slice(&[0xAA, 0xBB]);
    assert_eq!(decode(&buffer).unwrap_err(), DecodeError::UnexpectedEOF);
}

#[test]
fn trailing_bytes_ignored() {
    let mut buffer = MINIMAL.to_vec();
    buffer.extend_from_slice(&[0xFF, 0x00, 0x99, 0x42]);
    let header = decode(&buffer).unwrap();
    assert_eq!(header.version, Version::RTP2);
    assert_eq!(header.sequence_number, 1);
    assert_eq!(header.ssrc, SSRC(0x12345678));
    assert!(header.csrcs.is_empty());
    assert!(header.extension.is_none());
}

#[test]
fn trailing_bytes_after_extension_ignored() {
    let mut buffer = vec![
        0x0A, 0x00, 0x00, 0x01, 0x00, 0x00, 0x00, 0x00, 0x12, 0x34, 0x56, 0x78,
    ];
    buffer.extend_from_slice(&[0xAA, 0xBB, 0x00, 0x01, 0x01, 0x02, 0x03, 0x04]);
    buffer.extend_from_slice(&[0xEE, 0xEE, 0xEE]);
    let header = decode(&buffer).unwrap();
    let extension = header.extension.unwrap();
    assert_eq!(extension.parameters, 0xAABB);
    assert_eq!(extension.body, vec![0x01, 0x02, 0x03, 0x04]);
}

#[test]
fn decode_error_messages() {
    assert_eq!(DecodeError::UnexpectedEOF.message(), "unexpected EOF");
    assert_eq!(
        DecodeError::UnsupportedVersion.message(),
        "unsupported version"
    );
    assert_eq!(
        DecodeError::Version(VersionError::Unknown).message(),
        "unknown version"
    );
    assert_eq!(
        DecodeError::Version(VersionError::Invalid).message(),
        "invalid version"
    );
}

#[test]
fn version_error_converts_into_decode_error() {
    assert_eq!(
        DecodeError::from(VersionError::Unknown),
        DecodeError::Version(VersionError::Unknown)
    );
}
