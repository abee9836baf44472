use imgviewer::error::ViewerError;
use imgviewer::format::helper_format;
use imgviewer::helper_client::{
    check_input_length, classify_transport_failure_with_exit_code, clear_active, helper_path_from_executable,
    map_protocol_error, needs_exit_code, quoted_command_line, remaining, render_checkpoint, response_to_rgba,
    session_reusable, settle_decode_attempt, transport_viewer_error, wire_viewer_error, ActiveRequest,
    RequestIds, TransportError, WindowsLauncher, DEFAULT_HARD_TIMEOUT_MS, HELPER_FAILURE_EXIT_CODE,
    HELPER_FILE_NAME, STILL_ACTIVE,
};
use imgviewer::model::{DecodedRender, DecodedRgba8, MAX_DECODE_BYTES};
use imgviewer::protocol::{
    read_decode_response, read_ready, write_decode_request, write_hello, write_shutdown, ByteReader, CodecFormat,
    DecodeError, DecodeRequest, DecodeResponse, DecodeSuccess, Header, MessageKind, ProtocolError, WireErrorCode,
    CODEC_HELPER_MEMORY_LIMIT_BYTES, DECODE_REQUEST_LEN, PROTOCOL_VERSION,
};
use imgviewer::helper_service::{
    check_file_type, check_handle_value, check_transferred_length, handle_failure, serve, validate_cli_arguments,
    wire_failure, write_decode_result, CliError, HandleError, HelperError, WireFailure,
};

#[test]
fn production_helper_timeout_is_exactly_thirty_seconds() {
    assert_eq!(DEFAULT_HARD_TIMEOUT_MS, 30 * 1000);
}

#[test]
fn command_line_contains_only_the_fixed_quoted_executable() {
    let path = r"C:\Portable Folder\ImgViewer.CodecHelper.exe";
    let command = String::from_utf16(
        &quoted_command_line(path).into_iter().take_while(|value| *value != 0).collect::<Vec<_>>(),
    )
    .unwrap();
    assert_eq!(command, r#""C:\Portable Folder\ImgViewer.CodecHelper.exe""#);
}

#[test]
fn helper_path_is_fixed_next_to_the_main_executable() {
    let executable = r"C:\Portable\ImgViewer.exe";
    assert_eq!(
        helper_path_from_executable(executable, HELPER_FILE_NAME).unwrap(),
        r"C:\Portable\ImgViewer.CodecHelper.exe"
    );
}

#[test]
fn job_contract_uses_exact_memory_and_process_limits() {
    let launcher = WindowsLauncher::production();
    assert_eq!(launcher.job_memory_limit_bytes, CODEC_HELPER_MEMORY_LIMIT_BYTES);
    assert_eq!(launcher.helper_file_name, HELPER_FILE_NAME);
}

#[test]
fn process_exit_classification_preserves_live_failures_and_maps_dead_children() {
    for error in [TransportError::Io, TransportError::Protocol] {
        assert_eq!(classify_transport_failure_with_exit_code(error, Some(STILL_ACTIVE)), error);
        assert_eq!(classify_transport_failure_with_exit_code(error, None), error);
        assert_eq!(
            classify_transport_failure_with_exit_code(error, Some(HELPER_FAILURE_EXIT_CODE)),
            TransportError::Disconnected
        );
    }
}

#[test]
fn wire_errors_map_to_stable_sanitized_viewer_errors() {
    let response = DecodeResponse::Error(DecodeError {
        request_id: 1,
        code: WireErrorCode::DecodeLimitExceeded,
        arg0: 600,
        arg1: 512,
    });
    let error = response_to_rgba(response).unwrap_err();
    assert_eq!(error.code, "decode_limit_exceeded");
    assert_eq!(error.parameter("observedBytes"), Some(600));
    assert_eq!(error.parameter("maxBytes"), Some(512));
    assert!(!error.message.contains('\\'));
    assert!(!error.message.contains('/'));
}

#[test]
fn heif_and_tiff_are_routed_to_the_codec_helper() {
    assert_eq!(helper_format("image.heic"), Some(CodecFormat::Heif));
    assert_eq!(helper_format("image.HEIF"), Some(CodecFormat::Heif));
    assert_eq!(helper_format("image.tif"), Some(CodecFormat::Tiff));
    assert_eq!(helper_format("image.TIFF"), Some(CodecFormat::Tiff));
    assert_eq!(helper_format("image.png"), None);
}

fn invalid_request(request_id: u64) -> DecodeRequest {
    DecodeRequest { request_id, duplicated_handle: 0, expected_length: 0, format: CodecFormat::Heif }
}

fn invalid_handle(_request: DecodeRequest) -> Result<DecodedRgba8, WireFailure> {
    Err(WireFailure::new(WireErrorCode::InvalidHandle, 0, 0))
}

#[test]
fn handshake_serves_multiple_decode_requests_until_shutdown() {
    let mut input = Vec::new();
    write_hello(&mut input).unwrap();
    write_decode_request(&mut input, invalid_request(17)).unwrap();
    write_decode_request(&mut input, invalid_request(18)).unwrap();
    write_shutdown(&mut input).unwrap();

    let mut output = Vec::new();
    serve(&mut ByteReader::new(input), &mut output, invalid_handle).unwrap();

    let mut output = ByteReader::new(output);
    read_ready(&mut output).unwrap();
    for request_id in [17, 18] {
        assert_eq!(
            read_decode_response(&mut output, request_id).unwrap(),
            DecodeResponse::Error(DecodeError {
                request_id,
                code: WireErrorCode::InvalidHandle,
                arg0: 0,
                arg1: 0,
            })
        );
    }
    assert_eq!(output.position(), output.get_ref().len());
}

#[test]
fn command_before_handshake_is_rejected_without_response() {
    let mut input = Vec::new();
    write_decode_request(&mut input, invalid_request(1)).unwrap();
    let mut output = Vec::new();
    assert_eq!(
        serve(&mut ByteReader::new(input), &mut output, invalid_handle).unwrap_err(),
        HelperError::Protocol(ProtocolError::UnexpectedMessage { observed: MessageKind::DecodeImage })
    );
    assert!(output.is_empty());
}

#[test]
fn handshake_payload_is_rejected_without_reading_or_allocating_it() {
    let mut hello = Header::hello().encode().to_vec();
    hello[12..16].copy_from_slice(&1_u32.to_le_bytes());
    let mut output = Vec::new();
    assert_eq!(
        serve(&mut ByteReader::new(hello), &mut output, invalid_handle).unwrap_err(),
        HelperError::Protocol(ProtocolError::InvalidPayloadLength {
            kind: MessageKind::Hello,
            observed: 1,
            minimum: 0,
            maximum: 0,
        })
    );
    assert!(output.is_empty());
}

#[test]
fn wrong_protocol_version_fails_before_ready_response() {
    let mut hello = Header::hello().encode();
    hello[8..10].copy_from_slice(&(PROTOCOL_VERSION + 1).to_le_bytes());
    let mut output = Vec::new();
    assert_eq!(
        serve(&mut ByteReader::new(hello.to_vec()), &mut output, invalid_handle).unwrap_err(),
        HelperError::Protocol(ProtocolError::UnsupportedVersion(PROTOCOL_VERSION + 1))
    );
    assert!(output.is_empty());
}

#[test]
fn truncated_request_after_ready_is_a_protocol_error() {
    let mut input = Vec::new();
    write_hello(&mut input).unwrap();
    let request_header = Header::new(MessageKind::DecodeImage, DECODE_REQUEST_LEN).unwrap();
    input.extend_from_slice(&request_header.encode());
    input.extend_from_slice(&[0_u8; 5]);
    let mut output = Vec::new();
    assert_eq!(
        serve(&mut ByteReader::new(input), &mut output, invalid_handle).unwrap_err(),
        HelperError::Protocol(ProtocolError::TruncatedPayload {
            expected: DECODE_REQUEST_LEN as usize,
            bytes_read: 5,
        })
    );
    assert_eq!(output, Header::ready().encode());
}

#[test]
fn shutdown_after_handshake_exits_without_response_body() {
    let mut input = Vec::new();
    write_hello(&mut input).unwrap();
    write_shutdown(&mut input).unwrap();
    let mut output = Vec::new();
    serve(&mut ByteReader::new(input), &mut output, invalid_handle).unwrap();
    assert_eq!(output, Header::ready().encode());
}

#[test]
fn viewer_errors_map_to_numeric_fields_without_private_text() {
    let private = ViewerError::corrupt("C:\\Users\\private\\secret.heic at 0x1234 contains confidential bytes");
    assert_eq!(WireFailure::from(private), WireFailure::new(WireErrorCode::CorruptImage, 0, 0));

    let limited = ViewerError::limit("decode_limit_exceeded", "private details")
        .with_parameter("estimatedBytes", 600_u64)
        .with_parameter("maxBytes", MAX_DECODE_BYTES);
    assert_eq!(
        WireFailure::from(limited),
        WireFailure::new(WireErrorCode::DecodeLimitExceeded, 600, MAX_DECODE_BYTES)
    );

    let dimensions = ViewerError::limit("dimensions_exceeded", "private details")
        .with_parameter("width", 32_769_u64)
        .with_parameter("height", 7_u64)
        .with_parameter("maxSide", 32_768_u64);
    assert_eq!(WireFailure::from(dimensions), WireFailure::new(WireErrorCode::DimensionsExceeded, 32_769, 7));
}

#[test]
fn helper_rejects_missing_or_extra_cli_arguments() {
    assert_eq!(validate_cli_arguments(&Vec::<String>::new()).unwrap_err(), CliError::MissingExecutableName);
    validate_cli_arguments(&vec![String::from("imgviewer-codec-helper.exe")]).unwrap();
    assert_eq!(
        validate_cli_arguments(&vec![
            String::from("imgviewer-codec-helper.exe"),
            String::from("C:\\private\\photo.heic"),
        ])
        .unwrap_err(),
        CliError::UnexpectedArgument
    );
}

// Additional scenarios.

#[test]
fn a_successful_decode_is_answered_with_its_pixels() {
    let mut input = Vec::new();
    write_hello(&mut input).unwrap();
    write_decode_request(&mut input, invalid_request(5)).unwrap();
    write_shutdown(&mut input).unwrap();
    let mut output = Vec::new();
    serve(&mut ByteReader::new(input), &mut output, |_request: DecodeRequest| {
        Ok(DecodedRgba8 { rgba: vec![1, 2, 3, 4], width: 1, height: 1 })
    })
    .unwrap();
    let mut output = ByteReader::new(output);
    read_ready(&mut output).unwrap();
    assert_eq!(
        read_decode_response(&mut output, 5).unwrap(),
        DecodeResponse::Success(DecodeSuccess { request_id: 5, width: 1, height: 1, rgba: vec![1, 2, 3, 4] })
    );
}

#[test]
fn an_invalid_render_is_refused_before_anything_is_written() {
    let mut output = Vec::new();
    let error = write_decode_result(
        &mut output,
        3,
        Ok(DecodedRgba8 { rgba: vec![0; 8], width: 1, height: 1 }),
    )
    .unwrap_err();
    assert_eq!(error, HelperError::Protocol(ProtocolError::InvalidRgbaLength { expected: 4, observed: 8 }));
    assert!(output.is_empty());
}

#[test]
fn unknown_and_fallback_wire_failures() {
    assert_eq!(
        wire_failure(ViewerError::new("something_else", "x")),
        WireFailure::internal_decoder_error()
    );
    assert_eq!(
        wire_failure(ViewerError::limit("file_too_large", "x").with_parameter("observedBytes", 9)),
        WireFailure::new(WireErrorCode::FileTooLarge, 9, 268_435_456)
    );
    assert_eq!(wire_failure(ViewerError::new("heic_unavailable", "x")).code, WireErrorCode::NotImplemented);
    assert_eq!(WireFailure::new(WireErrorCode::IoError, 1, 2).into_decode_error(7).request_id, 7);
}

#[test]
fn helper_error_text() {
    assert_eq!(CliError::MissingExecutableName.to_string(), "missing helper executable name");
    assert_eq!(
        HelperError::Protocol(ProtocolError::InvalidMagic).to_string(),
        "invalid codec protocol magic"
    );
    assert_eq!(
        HelperError::Io(std::io::ErrorKind::UnexpectedEof).to_string(),
        "codec helper I/O error: UnexpectedEof"
    );
}

#[test]
fn oversized_input_is_refused_before_the_helper() {
    assert!(check_input_length(268_435_456).is_ok());
    let error = check_input_length(268_435_457).unwrap_err();
    assert_eq!(error.code, "file_too_large");
    assert_eq!(error.parameter("maxBytes"), Some(268_435_456));
    assert_eq!(error.parameter("observedBytes"), Some(268_435_457));
}

#[test]
fn remaining_budget_and_checkpoints() {
    assert_eq!(remaining(100, 40).unwrap(), 60);
    let error = remaining(100, 100).unwrap_err();
    assert_eq!(error.code, "decode_deadline_exceeded");
    assert_eq!(error.parameter("limitMs"), Some(100));
    assert!(render_checkpoint(false, 100, 99).is_ok());
    assert_eq!(render_checkpoint(true, 100, 0).unwrap_err().code, "decode_cancelled");
    assert_eq!(render_checkpoint(false, 250, 250).unwrap_err().parameter("limitMs"), Some(250));
}

fn render() -> DecodedRender {
    DecodedRender { bytes: vec![1], mime_type: "image/png", width: 1, height: 1, animated: false }
}

#[test]
fn cancellation_wins_over_timeout_and_both_discard_the_session() {
    let cancelled = settle_decode_attempt(Ok(render()), true, true, false, false, 100);
    assert_eq!(cancelled.result.unwrap_err().code, "decode_cancelled");
    assert!(cancelled.discard_session);

    let timed_out = settle_decode_attempt(Ok(render()), false, true, false, false, 100);
    let error = timed_out.result.unwrap_err();
    assert_eq!(error.code, "decode_deadline_exceeded");
    assert_eq!(error.parameter("limitMs"), Some(100));
    assert!(timed_out.discard_session);

    let crashed = settle_decode_attempt(
        Err(transport_viewer_error(TransportError::Disconnected, 100)),
        false,
        false,
        true,
        false,
        100,
    );
    assert_eq!(crashed.result.unwrap_err().code, "codec_helper_crashed");
    assert!(crashed.discard_session);

    let fine = settle_decode_attempt(Ok(render()), false, false, false, false, 100);
    assert_eq!(fine.result.unwrap().bytes, vec![1]);
    assert!(!fine.discard_session);
}

#[test]
fn killed_sessions_are_never_reused() {
    assert!(session_reusable(true, false));
    assert!(!session_reusable(true, true));
    assert!(!session_reusable(false, false));
}

#[test]
fn request_ids_skip_zero() {
    let mut ids = RequestIds::new();
    assert_eq!(ids.next_request_id(), 1);
    assert_eq!(ids.next_request_id(), 2);
}

#[test]
fn only_the_owning_request_clears_the_active_slot() {
    let mut active = Some(ActiveRequest { request_id: 4, killer: "job" });
    clear_active(&mut active, 3);
    assert!(active.is_some());
    clear_active(&mut active, 4);
    assert!(active.is_none());
}

#[test]
fn transport_errors_are_classified() {
    assert_eq!(map_protocol_error(ProtocolError::Io(std::io::ErrorKind::BrokenPipe)), TransportError::Io);
    assert_eq!(map_protocol_error(ProtocolError::InvalidMagic), TransportError::Protocol);
    assert!(needs_exit_code(TransportError::Disconnected));
    assert!(!needs_exit_code(TransportError::Timeout));
    assert_eq!(transport_viewer_error(TransportError::Unavailable, 1).code, "codec_helper_unavailable");
    assert_eq!(wire_viewer_error(WireErrorCode::UnsupportedBitDepth, 16, 0).parameter("bitDepth"), Some(16));
    assert_eq!(wire_viewer_error(WireErrorCode::InvalidHandle, 0, 0).code, "codec_helper_invalid_handle");
}

#[test]
fn surrogate_pairs_are_encoded_in_the_command_line() {
    assert_eq!(quoted_command_line("a\u{1F600}"), vec![34, 97, 0xD83D, 0xDE00, 34, 0]);
}

#[test]
fn rejects_null_and_invalid_sentinel_without_claiming_them() {
    assert_eq!(check_handle_value(0).unwrap_err(), HandleError::InvalidHandle);
    assert_eq!(check_handle_value(u64::MAX).unwrap_err(), HandleError::InvalidHandle);
    assert_eq!(check_handle_value(0x1234).unwrap(), 0x1234);
}

#[test]
fn transferred_file_checks_and_their_wire_form() {
    assert_eq!(check_file_type(1), Ok(()));
    assert_eq!(check_file_type(3).unwrap_err(), HandleError::NotDisk { file_type: 3 });
    assert_eq!(
        check_transferred_length(11, 10).unwrap_err(),
        HandleError::LengthMismatch { expected: 11, observed: 10 }
    );
    assert_eq!(
        check_transferred_length(268_435_457, 10).unwrap_err(),
        HandleError::FileTooLarge { observed: 268_435_457, maximum: 268_435_456 }
    );
    assert_eq!(check_transferred_length(10, 10), Ok(()));
    assert_eq!(
        handle_failure(HandleError::NotDisk { file_type: 3 }),
        WireFailure::new(WireErrorCode::InvalidHandle, 3, 1)
    );
    assert_eq!(
        WireFailure::from(HandleError::Metadata(std::io::ErrorKind::NotFound)),
        WireFailure::new(WireErrorCode::IoError, 0, 0)
    );
}

#[test]
fn error_codes_survive_the_wire() {
    let dimensions = ViewerError::limit("dimensions_exceeded", "private").with_parameter("width", 40_000).with_parameter(
        "height",
        3,
    );
    let failure = wire_failure(dimensions);
    let seen = wire_viewer_error(failure.code, failure.arg0, failure.arg1);
    assert_eq!(seen.code, "dimensions_exceeded");
    assert_eq!(seen.parameter("width"), Some(40_000));
    assert_eq!(seen.parameter("height"), Some(3));
    for code in ["corrupt_image", "format_mismatch", "unsupported_color_profile", "io_error"] {
        let failure = wire_failure(ViewerError::new(code, "private"));
        assert_eq!(wire_viewer_error(failure.code, failure.arg0, failure.arg1).code, code);
    }
}

#[test]
fn length_mismatch_and_limit_errors_close_transferred_handle() {
    let length: u64 = 4_096;
    assert_eq!(
        check_transferred_length(length + 1, length).unwrap_err(),
        HandleError::LengthMismatch { expected: length + 1, observed: length }
    );
    let max_input_bytes: u64 = 256 * 1024 * 1024;
    assert_eq!(
        check_transferred_length(max_input_bytes + 1, length).unwrap_err(),
        HandleError::FileTooLarge { observed: max_input_bytes + 1, maximum: max_input_bytes }
    );
}

#[test]
fn non_disk_handle_is_rejected_and_closed() {
    assert_eq!(check_file_type(3).unwrap_err(), HandleError::NotDisk { file_type: 3 });
}

#[test]
fn helper_path_needs_a_parent_folder() {
    assert_eq!(helper_path_from_executable(r"C:\", HELPER_FILE_NAME), Err(TransportError::Unavailable));
    assert_eq!(helper_path_from_executable("C:", HELPER_FILE_NAME), Err(TransportError::Unavailable));
    assert_eq!(helper_path_from_executable(r"\\server\share", HELPER_FILE_NAME), Err(TransportError::Unavailable));
    assert_eq!(helper_path_from_executable("", HELPER_FILE_NAME), Err(TransportError::Unavailable));
    assert_eq!(
        helper_path_from_executable(r"C:\Tools\..", HELPER_FILE_NAME).unwrap(),
        r"C:\Tools\ImgViewer.CodecHelper.exe"
    );
    assert_eq!(
        helper_path_from_executable(r"C:\Tools\bin\.", HELPER_FILE_NAME).unwrap(),
        r"C:\Tools\ImgViewer.CodecHelper.exe"
    );
    assert_eq!(
        helper_path_from_executable(r"C:\ImgViewer.exe", HELPER_FILE_NAME).unwrap(),
        r"C:\ImgViewer.CodecHelper.exe"
    );
    assert_eq!(
        helper_path_from_executable(r"\\server\share\ImgViewer.exe", HELPER_FILE_NAME).unwrap(),
        r"\\server\share\ImgViewer.CodecHelper.exe"
    );
    assert_eq!(helper_path_from_executable("ImgViewer.exe", HELPER_FILE_NAME).unwrap(), HELPER_FILE_NAME);
}
