use imgviewer::protocol::{
    check_success_prefix, read_success_body, read_decode_response, read_header, read_helper_command, write_decode_error, write_decode_request,
    write_decode_success, write_header, write_shutdown, ByteReader, CodecFormat, DecodeError, DecodeRequest,
    DecodeResponse, DecodeSuccess, Header, HelperCommand, MessageKind, ProtocolError, WireErrorCode,
    CODEC_HELPER_DECODE_DEADLINE_MS, CODEC_HELPER_MEMORY_LIMIT_BYTES, DECODE_REQUEST_LEN,
    DECODE_SUCCESS_PREFIX_LEN, HEADER_LEN, MAX_CONTROL_PAYLOAD_BYTES, MAX_RENDER_PAYLOAD_BYTES,
    MAX_RENDER_SIDE, PROTOCOL_VERSION,
};

fn rgba(width: u32, height: u32) -> Vec<u8> {
    vec![0x5a; (width * height * 4) as usize]
}

#[test]
fn fixed_header_and_decode_request_round_trip_uses_explicit_fields() {
    let request = DecodeRequest {
        request_id: 42,
        duplicated_handle: 0x1234,
        expected_length: 9_876,
        format: CodecFormat::Tiff,
    };
    let mut bytes = Vec::new();
    write_decode_request(&mut bytes, request).unwrap();
    assert_eq!(bytes.len(), HEADER_LEN + DECODE_REQUEST_LEN as usize);
    assert_eq!(&bytes[8..10], &PROTOCOL_VERSION.to_le_bytes());
    assert_eq!(&bytes[10..12], &MessageKind::DecodeImage.code().to_le_bytes());
    assert_eq!(&bytes[HEADER_LEN + 24..HEADER_LEN + 26], &2_u16.to_le_bytes());
    assert_eq!(&bytes[HEADER_LEN + 26..HEADER_LEN + 32], &[0_u8; 6]);
    assert_eq!(
        read_helper_command(&mut ByteReader::new(bytes)).unwrap(),
        HelperCommand::DecodeImage(request)
    );
}

#[test]
fn codec_format_codes_are_stable_and_unknown_values_fail_closed() {
    assert_eq!(CODEC_HELPER_MEMORY_LIMIT_BYTES, 805_306_368);
    assert_eq!(CODEC_HELPER_DECODE_DEADLINE_MS, 30_000);
    assert_eq!(CodecFormat::Heif.code(), 1);
    assert_eq!(CodecFormat::Tiff.code(), 2);
    assert_eq!(CodecFormat::try_from(1), Ok(CodecFormat::Heif));
    assert_eq!(CodecFormat::try_from(2), Ok(CodecFormat::Tiff));
    assert_eq!(CodecFormat::try_from(0).unwrap_err(), ProtocolError::UnknownCodecFormat(0));

    let request = DecodeRequest {
        request_id: 7,
        duplicated_handle: 8,
        expected_length: 9,
        format: CodecFormat::Heif,
    };
    let mut bytes = Vec::new();
    write_decode_request(&mut bytes, request).unwrap();
    bytes[HEADER_LEN + 24..HEADER_LEN + 26].copy_from_slice(&u16::MAX.to_le_bytes());
    assert_eq!(
        read_helper_command(&mut ByteReader::new(bytes)).unwrap_err(),
        ProtocolError::UnknownCodecFormat(u16::MAX)
    );
}

#[test]
fn decode_request_reserved_bytes_and_non_v3_length_fail_closed() {
    let request = DecodeRequest {
        request_id: 7,
        duplicated_handle: 8,
        expected_length: 9,
        format: CodecFormat::Tiff,
    };
    let mut noncanonical = Vec::new();
    write_decode_request(&mut noncanonical, request).unwrap();
    noncanonical[HEADER_LEN + 31] = 1;
    assert_eq!(
        read_helper_command(&mut ByteReader::new(noncanonical)).unwrap_err(),
        ProtocolError::NonCanonicalReservedBytes
    );

    let mut v2_length = Header::new(MessageKind::DecodeImage, DECODE_REQUEST_LEN).unwrap().encode();
    v2_length[12..16].copy_from_slice(&24_u32.to_le_bytes());
    assert_eq!(
        read_helper_command(&mut ByteReader::new(v2_length.to_vec())).unwrap_err(),
        ProtocolError::InvalidPayloadLength {
            kind: MessageKind::DecodeImage,
            observed: 24,
            minimum: DECODE_REQUEST_LEN,
            maximum: DECODE_REQUEST_LEN,
        }
    );
}

#[test]
fn invalid_magic_version_and_kind_are_rejected() {
    let mut invalid_magic = Header::hello().encode();
    invalid_magic[0] ^= 0xff;
    assert_eq!(Header::decode(invalid_magic).unwrap_err(), ProtocolError::InvalidMagic);

    let mut invalid_version = Header::hello().encode();
    invalid_version[8..10].copy_from_slice(&(PROTOCOL_VERSION + 1).to_le_bytes());
    assert_eq!(
        Header::decode(invalid_version).unwrap_err(),
        ProtocolError::UnsupportedVersion(PROTOCOL_VERSION + 1)
    );

    let mut invalid_kind = Header::hello().encode();
    invalid_kind[10..12].copy_from_slice(&u16::MAX.to_le_bytes());
    assert_eq!(
        Header::decode(invalid_kind).unwrap_err(),
        ProtocolError::UnknownMessageKind(u16::MAX)
    );
}

#[test]
fn control_and_render_oversize_are_rejected_from_headers_before_allocation() {
    let mut control = Header::hello().encode();
    control[12..16].copy_from_slice(&(MAX_CONTROL_PAYLOAD_BYTES + 1).to_le_bytes());
    assert_eq!(
        Header::decode(control).unwrap_err(),
        ProtocolError::PayloadTooLarge {
            kind: MessageKind::Hello,
            observed: MAX_CONTROL_PAYLOAD_BYTES + 1,
            maximum: MAX_CONTROL_PAYLOAD_BYTES,
        }
    );

    let mut render = Header::new(MessageKind::DecodeSuccess, DECODE_SUCCESS_PREFIX_LEN).unwrap().encode();
    render[12..16].copy_from_slice(&(MAX_RENDER_PAYLOAD_BYTES + 1).to_le_bytes());
    assert_eq!(
        Header::decode(render).unwrap_err(),
        ProtocolError::PayloadTooLarge {
            kind: MessageKind::DecodeSuccess,
            observed: MAX_RENDER_PAYLOAD_BYTES + 1,
            maximum: MAX_RENDER_PAYLOAD_BYTES,
        }
    );
}

#[test]
fn truncated_header_and_payload_report_observed_lengths() {
    let header = Header::hello().encode();
    assert_eq!(
        read_header(&mut ByteReader::new(header[..HEADER_LEN - 1].to_vec())).unwrap_err(),
        ProtocolError::TruncatedHeader { bytes_read: HEADER_LEN - 1 }
    );

    let mut request = Vec::new();
    write_header(&mut request, Header::new(MessageKind::DecodeImage, DECODE_REQUEST_LEN).unwrap()).unwrap();
    request.extend_from_slice(&[0_u8; 5]);
    assert_eq!(
        read_helper_command(&mut ByteReader::new(request)).unwrap_err(),
        ProtocolError::TruncatedPayload { expected: DECODE_REQUEST_LEN as usize, bytes_read: 5 }
    );
}

#[test]
fn success_round_trip_validates_rgba_dimensions_length_and_request_id() {
    let rgba = rgba(3, 2);
    let mut response = Vec::new();
    write_decode_success(&mut response, 77, 3, 2, &rgba).unwrap();
    assert_eq!(
        read_decode_response(&mut ByteReader::new(response.clone()), 77).unwrap(),
        DecodeResponse::Success(DecodeSuccess { request_id: 77, width: 3, height: 2, rgba })
    );
    assert_eq!(
        read_decode_response(&mut ByteReader::new(response), 78).unwrap_err(),
        ProtocolError::RequestIdMismatch { expected: 78, observed: 77 }
    );
}

#[test]
fn mismatched_rgba_length_is_rejected_before_body_read_or_allocation() {
    assert_eq!(
        write_decode_success(&mut Vec::new(), 1, 1, 1, &[0_u8; 8]).unwrap_err(),
        ProtocolError::InvalidRgbaLength { expected: 4, observed: 8 }
    );

    let mut malicious_response = Vec::new();
    write_header(
        &mut malicious_response,
        Header::new(MessageKind::DecodeSuccess, DECODE_SUCCESS_PREFIX_LEN + 8).unwrap(),
    )
    .unwrap();
    let mut prefix = [0_u8; DECODE_SUCCESS_PREFIX_LEN as usize];
    prefix[..8].copy_from_slice(&1_u64.to_le_bytes());
    prefix[8..12].copy_from_slice(&1_u32.to_le_bytes());
    prefix[12..16].copy_from_slice(&1_u32.to_le_bytes());
    prefix[16..20].copy_from_slice(&8_u32.to_le_bytes());
    malicious_response.extend_from_slice(&prefix);
    assert_eq!(
        read_decode_response(&mut ByteReader::new(malicious_response), 1).unwrap_err(),
        ProtocolError::InvalidRgbaLength { expected: 4, observed: 8 }
    );
}

#[test]
fn request_id_and_reserved_bytes_are_checked_before_rgba_body_read() {
    let response = |request_id: u64, reserved: u32| {
        let mut bytes = Vec::new();
        write_header(
            &mut bytes,
            Header::new(MessageKind::DecodeSuccess, DECODE_SUCCESS_PREFIX_LEN + 4).unwrap(),
        )
        .unwrap();
        let mut prefix = [0_u8; DECODE_SUCCESS_PREFIX_LEN as usize];
        prefix[..8].copy_from_slice(&request_id.to_le_bytes());
        prefix[8..12].copy_from_slice(&1_u32.to_le_bytes());
        prefix[12..16].copy_from_slice(&1_u32.to_le_bytes());
        prefix[16..20].copy_from_slice(&4_u32.to_le_bytes());
        prefix[20..24].copy_from_slice(&reserved.to_le_bytes());
        bytes.extend_from_slice(&prefix);
        bytes
    };

    assert_eq!(
        read_decode_response(&mut ByteReader::new(response(8, 0)), 7).unwrap_err(),
        ProtocolError::RequestIdMismatch { expected: 7, observed: 8 }
    );
    assert_eq!(
        read_decode_response(&mut ByteReader::new(response(7, 1)), 7).unwrap_err(),
        ProtocolError::NonCanonicalReservedBytes
    );
}

#[test]
fn error_round_trip_uses_numeric_code_and_validates_request_id() {
    let error = DecodeError {
        request_id: 99,
        code: WireErrorCode::DecodeLimitExceeded,
        arg0: 600,
        arg1: 512,
    };
    let mut response = Vec::new();
    write_decode_error(&mut response, error).unwrap();
    assert_eq!(
        read_decode_response(&mut ByteReader::new(response.clone()), 99).unwrap(),
        DecodeResponse::Error(error)
    );
    assert_eq!(
        read_decode_response(&mut ByteReader::new(response), 100).unwrap_err(),
        ProtocolError::RequestIdMismatch { expected: 100, observed: 99 }
    );
}

#[test]
fn success_body_length_must_match_exact_rgba_length_before_allocation() {
    let mut bytes = Vec::new();
    write_header(
        &mut bytes,
        Header::new(MessageKind::DecodeSuccess, DECODE_SUCCESS_PREFIX_LEN + 100).unwrap(),
    )
    .unwrap();
    let mut prefix = [0_u8; DECODE_SUCCESS_PREFIX_LEN as usize];
    prefix[..8].copy_from_slice(&5_u64.to_le_bytes());
    prefix[8..12].copy_from_slice(&1_u32.to_le_bytes());
    prefix[12..16].copy_from_slice(&1_u32.to_le_bytes());
    prefix[16..20].copy_from_slice(&4_u32.to_le_bytes());
    bytes.extend_from_slice(&prefix);

    assert_eq!(
        read_decode_response(&mut ByteReader::new(bytes), 5).unwrap_err(),
        ProtocolError::InvalidPayloadLength {
            kind: MessageKind::DecodeSuccess,
            observed: DECODE_SUCCESS_PREFIX_LEN + 100,
            minimum: DECODE_SUCCESS_PREFIX_LEN + 4,
            maximum: DECODE_SUCCESS_PREFIX_LEN + 4,
        }
    );
}

#[test]
fn truncated_success_rgba_reports_body_length_without_accepting_partial_render() {
    let rgba = rgba(1, 1);
    let mut response = Vec::new();
    write_decode_success(&mut response, 5, 1, 1, &rgba).unwrap();
    response.truncate(response.len() - 1);
    assert_eq!(
        read_decode_response(&mut ByteReader::new(response), 5).unwrap_err(),
        ProtocolError::TruncatedPayload { expected: rgba.len(), bytes_read: rgba.len() - 1 }
    );
}

#[test]
fn invalid_dimensions_and_pixel_limit_are_rejected_before_rgba_body_read() {
    for (width, height) in [(0_u32, 1_u32), (MAX_RENDER_SIDE + 1, 1), (10_001, 10_000)] {
        let mut bytes = Vec::new();
        write_header(
            &mut bytes,
            Header::new(MessageKind::DecodeSuccess, DECODE_SUCCESS_PREFIX_LEN).unwrap(),
        )
        .unwrap();
        let mut prefix = [0_u8; DECODE_SUCCESS_PREFIX_LEN as usize];
        prefix[..8].copy_from_slice(&9_u64.to_le_bytes());
        prefix[8..12].copy_from_slice(&width.to_le_bytes());
        prefix[12..16].copy_from_slice(&height.to_le_bytes());
        bytes.extend_from_slice(&prefix);
        assert_eq!(
            read_decode_response(&mut ByteReader::new(bytes), 9).unwrap_err(),
            ProtocolError::InvalidRenderDimensions { width, height }
        );
    }
}

#[test]
fn shutdown_is_an_empty_fixed_command() {
    let mut bytes = Vec::new();
    write_shutdown(&mut bytes).unwrap();
    assert_eq!(read_helper_command(&mut ByteReader::new(bytes)).unwrap(), HelperCommand::Shutdown);
}

// Additional scenarios of the wire contract.

#[test]
fn protocol_errors_describe_numeric_facts_only() {
    assert_eq!(
        ProtocolError::TruncatedPayload { expected: 32, bytes_read: 5 }.to_string(),
        "truncated codec payload after 5 of 32 bytes"
    );
    assert_eq!(
        ProtocolError::InvalidPayloadLength {
            kind: MessageKind::DecodeImage,
            observed: 24,
            minimum: 32,
            maximum: 32,
        }
        .to_string(),
        "DecodeImage payload length 24 is outside 32..=32"
    );
    assert_eq!(
        ProtocolError::InvalidRenderDimensions { width: 10_001, height: 10_000 }.to_string(),
        "invalid render dimensions 10001x10000"
    );
    assert_eq!(
        ProtocolError::RequestIdMismatch { expected: 78, observed: 77 }.to_string(),
        "codec response request id 77 does not match 78"
    );
    assert_eq!(ProtocolError::InvalidMagic.to_string(), "invalid codec protocol magic");
    assert_eq!(
        ProtocolError::Io(std::io::ErrorKind::BrokenPipe).to_string(),
        "codec protocol I/O error: BrokenPipe"
    );
    assert_eq!(ProtocolError::UnsupportedVersion(0).to_string(), "unsupported codec protocol version 0");
}

#[test]
fn header_round_trip_preserves_kind_and_length() {
    let header = Header::new(MessageKind::DecodeError, 32).unwrap();
    let decoded = Header::decode(header.encode()).unwrap();
    assert_eq!(decoded.kind(), MessageKind::DecodeError);
    assert_eq!(decoded.payload_len(), 32);
}

#[test]
fn byte_reader_reports_consumed_position() {
    let mut bytes = Vec::new();
    write_shutdown(&mut bytes).unwrap();
    bytes.extend_from_slice(&[1, 2, 3]);
    let mut reader = ByteReader::new(bytes);
    read_helper_command(&mut reader).unwrap();
    assert_eq!(reader.position(), HEADER_LEN);
    assert_eq!(reader.get_ref().len(), HEADER_LEN + 3);
}

#[test]
fn a_refused_body_allocation_reads_nothing_and_a_granted_one_reads_the_body() {
    let mut reader = ByteReader::new(vec![1, 2, 3, 4, 9]);
    assert_eq!(
        read_success_body(&mut reader, 7, 1, 1, 4, false, Vec::new()).unwrap_err(),
        ProtocolError::AllocationFailed { requested: 4 }
    );
    assert_eq!(reader.position(), 0);
    match read_success_body(&mut reader, 7, 1, 1, 4, true, Vec::new()).unwrap() {
        DecodeResponse::Success(success) => {
            assert_eq!((success.request_id, success.width, success.height), (7, 1, 1));
            assert_eq!(success.rgba, vec![1, 2, 3, 4]);
        }
        DecodeResponse::Error(_) => panic!("expected a render"),
    }
    assert_eq!(reader.position(), 4);
}

#[test]
fn a_success_prefix_is_checked_before_its_body() {
    let mut prefix = [0u8; 24];
    prefix[0..8].copy_from_slice(&9u64.to_le_bytes());
    prefix[8..12].copy_from_slice(&2u32.to_le_bytes());
    prefix[12..16].copy_from_slice(&3u32.to_le_bytes());
    prefix[16..20].copy_from_slice(&24u32.to_le_bytes());
    assert_eq!(check_success_prefix(&prefix, 48, 9), Ok((2, 3, 24)));
    assert_eq!(
        check_success_prefix(&prefix, 48, 8),
        Err(ProtocolError::RequestIdMismatch { expected: 8, observed: 9 })
    );
    assert!(matches!(check_success_prefix(&prefix, 47, 9), Err(ProtocolError::InvalidPayloadLength { .. })));
    prefix[23] = 1;
    assert_eq!(check_success_prefix(&prefix, 48, 9), Err(ProtocolError::NonCanonicalReservedBytes));
}
