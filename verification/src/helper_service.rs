//! The codec helper process's side of the protocol: its argument check, the
//! numeric form of decoder failures, and the session it serves: one
//! handshake, then decode requests until an explicit shutdown.
use vstd::prelude::*;

use crate::code;
use crate::error::ViewerError;
use crate::model::{DecodedRgba8, MAX_DECODE_BYTES, MAX_INPUT_BYTES};
use crate::protocol::{
    read_hello, read_helper_command, spec_error_message, spec_header_bytes, spec_header_decode, Header, spec_read_command,
    spec_read_control, spec_success_check, spec_success_message, spec_write_outcome, write_decode_error,
    write_decode_success, write_ready, ByteSink, ByteSource, DecodeError, DecodeRequest, HeaderView,
    HelperCommand, MessageKind, ProtocolError, WireErrorCode,
};
use crate::helper_client::spec_wire_viewer_error;
use crate::snapshot::ErrorView;
use crate::text::str_eq;

verus! {

#[derive(Clone, Copy, Debug, PartialEq, Eq, Structural)]
pub enum CliError {
    MissingExecutableName,
    UnexpectedArgument,
}

impl CliError {
    /// The text shown for the error.
    pub fn to_string(&self) -> (s: String)
        ensures
            s@ == (match self {
                CliError::MissingExecutableName => "missing helper executable name"@,
                CliError::UnexpectedArgument => "codec helper does not accept command-line arguments"@,
            }),
    {
        match self {
            CliError::MissingExecutableName => "missing helper executable name".to_owned(),
            CliError::UnexpectedArgument => "codec helper does not accept command-line arguments".to_owned(),
        }
    }
}

/// The helper takes its executable name and nothing else: every input
/// arrives over the authenticated pipe, never on the command line.
pub fn validate_cli_arguments(arguments: &Vec<String>) -> (r: Result<(), CliError>)
    ensures
        arguments@.len() == 0 ==> r == Err::<(), CliError>(CliError::MissingExecutableName),
        arguments@.len() == 1 ==> r is Ok,
        arguments@.len() > 1 ==> r == Err::<(), CliError>(CliError::UnexpectedArgument),
{
    if arguments.len() == 0 {
        return Err(CliError::MissingExecutableName);
    }
    if arguments.len() > 1 {
        return Err(CliError::UnexpectedArgument);
    }
    Ok(())
}

#[derive(Clone, Copy, Debug, PartialEq, Eq)]
pub enum HelperError {
    Protocol(ProtocolError),
    Io(std::io::ErrorKind),
}

impl From<ProtocolError> for HelperError {
    fn from(error: ProtocolError) -> (r: Self) {
        HelperError::Protocol(error)
    }
}

impl vstd::std_specs::convert::FromSpecImpl<ProtocolError> for HelperError {
    open spec fn obeys_from_spec() -> bool {
        true
    }

    open spec fn from_spec(error: ProtocolError) -> Self {
        HelperError::Protocol(error)
    }
}

/// A decoder failure as it crosses the pipe: a wire code and two numbers.
#[derive(Clone, Copy, Debug, PartialEq, Eq, Structural)]
pub struct WireFailure {
    pub code: WireErrorCode,
    pub arg0: u64,
    pub arg1: u64,
}

impl WireFailure {
    pub fn new(code: WireErrorCode, arg0: u64, arg1: u64) -> (f: Self)
        ensures
            f == (WireFailure { code, arg0, arg1 }),
    {
        WireFailure { code, arg0, arg1 }
    }

    pub fn internal_decoder_error() -> (f: Self)
        ensures
            f == (WireFailure { code: WireErrorCode::InternalDecoderError, arg0: 0, arg1: 0 }),
    {
        Self::new(WireErrorCode::InternalDecoderError, 0, 0)
    }

    pub open spec fn spec_decode_error(self, request_id: u64) -> DecodeError {
        DecodeError { request_id, code: self.code, arg0: self.arg0, arg1: self.arg1 }
    }

    /// The failure as the answer to request `request_id`.
    pub fn into_decode_error(self, request_id: u64) -> (e: DecodeError)
        ensures
            e == self.spec_decode_error(request_id),
    {
        DecodeError { request_id, code: self.code, arg0: self.arg0, arg1: self.arg1 }
    }
}

/// Why a transferred file handle was refused.
#[derive(Clone, Copy, Debug, PartialEq, Eq)]
pub enum HandleError {
    InvalidHandle,
    NotDisk { file_type: u32 },
    Metadata(std::io::ErrorKind),
    FileTooLarge { observed: u64, maximum: u64 },
    LengthMismatch { expected: u64, observed: u64 },
}

/// The file type of a disk file.
pub const FILE_TYPE_DISK: u32 = 1;

/// A transferred handle value: it must fit the platform's handles and be
/// neither null nor the invalid-handle sentinel.
pub fn check_handle_value(duplicated_handle: u64) -> (r: Result<usize, HandleError>)
    ensures
        match r {
            Ok(v) => v == duplicated_handle && v != 0 && v != usize::MAX,
            Err(e) => e == HandleError::InvalidHandle && (duplicated_handle > usize::MAX || duplicated_handle == 0
                || duplicated_handle == usize::MAX),
        },
{
    if duplicated_handle > usize::MAX as u64 {
        return Err(HandleError::InvalidHandle);
    }
    let value = duplicated_handle as usize;
    if value == 0 || value == usize::MAX {
        return Err(HandleError::InvalidHandle);
    }
    Ok(value)
}

/// Only a disk file is adopted.
pub fn check_file_type(file_type: u32) -> (r: Result<(), HandleError>)
    ensures
        file_type == FILE_TYPE_DISK <==> r is Ok,
        r is Err ==> r == Err::<(), HandleError>(HandleError::NotDisk { file_type }),
{
    if file_type != FILE_TYPE_DISK {
        return Err(HandleError::NotDisk { file_type });
    }
    Ok(())
}

/// The adopted file must be within the input limit and exactly as long as
/// the viewer said; the limit is checked first.
pub fn check_transferred_length(expected_length: u64, observed_length: u64) -> (r: Result<(), HandleError>)
    ensures
        observed_length > MAX_INPUT_BYTES || expected_length > MAX_INPUT_BYTES ==> r == Err::<(), HandleError>(
            HandleError::FileTooLarge {
                observed: if observed_length >= expected_length {
                    observed_length
                } else {
                    expected_length
                },
                maximum: MAX_INPUT_BYTES,
            },
        ),
        observed_length <= MAX_INPUT_BYTES && expected_length <= MAX_INPUT_BYTES && observed_length
            != expected_length ==> r == Err::<(), HandleError>(
            HandleError::LengthMismatch { expected: expected_length, observed: observed_length },
        ),
        observed_length <= MAX_INPUT_BYTES && expected_length <= MAX_INPUT_BYTES && observed_length
            == expected_length ==> r is Ok,
{
    if observed_length > MAX_INPUT_BYTES || expected_length > MAX_INPUT_BYTES {
        return Err(
            HandleError::FileTooLarge {
                observed: if observed_length >= expected_length {
                    observed_length
                } else {
                    expected_length
                },
                maximum: MAX_INPUT_BYTES,
            },
        );
    }
    if observed_length != expected_length {
        return Err(HandleError::LengthMismatch { expected: expected_length, observed: observed_length });
    }
    Ok(())
}

/// The wire form of a refused handle.
pub open spec fn spec_handle_failure(error: HandleError) -> WireFailure {
    match error {
        HandleError::InvalidHandle => WireFailure { code: WireErrorCode::InvalidHandle, arg0: 0, arg1: 0 },
        HandleError::NotDisk { file_type } => WireFailure {
            code: WireErrorCode::InvalidHandle,
            arg0: file_type as u64,
            arg1: 1,
        },
        HandleError::Metadata(_) => WireFailure { code: WireErrorCode::IoError, arg0: 0, arg1: 0 },
        HandleError::FileTooLarge { observed, maximum } => WireFailure {
            code: WireErrorCode::FileTooLarge,
            arg0: observed,
            arg1: maximum,
        },
        HandleError::LengthMismatch { expected, observed } => WireFailure {
            code: WireErrorCode::InvalidHandle,
            arg0: expected,
            arg1: observed,
        },
    }
}

impl From<HandleError> for WireFailure {
    fn from(error: HandleError) -> (f: Self) {
        match error {
            HandleError::InvalidHandle => WireFailure::new(WireErrorCode::InvalidHandle, 0, 0),
            HandleError::NotDisk { file_type } => WireFailure::new(WireErrorCode::InvalidHandle, file_type as u64, 1),
            HandleError::Metadata(_) => WireFailure::new(WireErrorCode::IoError, 0, 0),
            HandleError::FileTooLarge { observed, maximum } => WireFailure::new(
                WireErrorCode::FileTooLarge,
                observed,
                maximum,
            ),
            HandleError::LengthMismatch { expected, observed } => WireFailure::new(
                WireErrorCode::InvalidHandle,
                expected,
                observed,
            ),
        }
    }
}

impl vstd::std_specs::convert::FromSpecImpl<HandleError> for WireFailure {
    open spec fn obeys_from_spec() -> bool {
        true
    }

    open spec fn from_spec(error: HandleError) -> Self {
        spec_handle_failure(error)
    }
}

/// The wire form of a refused handle.
pub fn handle_failure(error: HandleError) -> (f: WireFailure)
    ensures
        f == spec_handle_failure(error),
{
    WireFailure::from(error)
}

/// A numeric parameter of an error, 0 when absent.
pub open spec fn param_or_zero(e: ErrorView, name: Seq<char>) -> u64 {
    if e.parameters.contains_key(name) {
        e.parameters[name]
    } else {
        0
    }
}

/// A numeric parameter of an error, `fallback` when absent or 0.
pub open spec fn param_or(e: ErrorView, name: Seq<char>, fallback: u64) -> u64 {
    if param_or_zero(e, name) == 0 {
        fallback
    } else {
        param_or_zero(e, name)
    }
}

/// The wire form of a viewer error: its code picks the wire code, and only
/// the numeric parameters that code defines travel; messages never do.
pub open spec fn spec_wire_failure(e: ErrorView) -> WireFailure {
    if e.code == code::CORRUPT_IMAGE@ {
        WireFailure { code: WireErrorCode::CorruptImage, arg0: 0, arg1: 0 }
    } else if e.code == "format_mismatch"@ {
        WireFailure { code: WireErrorCode::FormatMismatch, arg0: 0, arg1: 0 }
    } else if e.code == "file_too_large"@ {
        WireFailure {
            code: WireErrorCode::FileTooLarge,
            arg0: param_or_zero(e, "observedBytes"@),
            arg1: param_or(e, "maxBytes"@, MAX_INPUT_BYTES),
        }
    } else if e.code == "dimensions_exceeded"@ {
        WireFailure {
            code: WireErrorCode::DimensionsExceeded,
            arg0: param_or_zero(e, "width"@),
            arg1: param_or_zero(e, "height"@),
        }
    } else if e.code == "decode_limit_exceeded"@ {
        WireFailure {
            code: WireErrorCode::DecodeLimitExceeded,
            arg0: if param_or_zero(e, "observedBytes"@) >= param_or_zero(e, "estimatedBytes"@) {
                param_or_zero(e, "observedBytes"@)
            } else {
                param_or_zero(e, "estimatedBytes"@)
            },
            arg1: param_or(e, "maxBytes"@, MAX_DECODE_BYTES),
        }
    } else if e.code == "unsupported_bit_depth"@ {
        WireFailure { code: WireErrorCode::UnsupportedBitDepth, arg0: param_or_zero(e, "bitDepth"@), arg1: 0 }
    } else if e.code == "unsupported_color_profile"@ || e.code == "color_profile_too_large"@ {
        WireFailure {
            code: WireErrorCode::UnsupportedColorProfile,
            arg0: param_or_zero(e, "observedBytes"@),
            arg1: param_or_zero(e, "maxBytes"@),
        }
    } else if e.code == code::IO_ERROR@ {
        WireFailure { code: WireErrorCode::IoError, arg0: 0, arg1: 0 }
    } else if e.code == "heic_unavailable"@ {
        WireFailure { code: WireErrorCode::NotImplemented, arg0: 0, arg1: 0 }
    } else {
        WireFailure { code: WireErrorCode::InternalDecoderError, arg0: 0, arg1: 0 }
    }
}

fn param_zero(error: &ViewerError, name: &str) -> (v: u64)
    ensures
        v == param_or_zero(error@, name@),
{
    match error.parameter(name) {
        Some(v) => v,
        None => 0,
    }
}

fn param_fallback(error: &ViewerError, name: &str, fallback: u64) -> (v: u64)
    ensures
        v == param_or(error@, name@, fallback),
{
    let v = param_zero(error, name);
    if v == 0 {
        fallback
    } else {
        v
    }
}

impl From<ViewerError> for WireFailure {
    fn from(error: ViewerError) -> (f: Self) {
        let c = error.code.as_str();
        if str_eq(c, code::CORRUPT_IMAGE) {
            WireFailure::new(WireErrorCode::CorruptImage, 0, 0)
        } else if str_eq(c, "format_mismatch") {
            WireFailure::new(WireErrorCode::FormatMismatch, 0, 0)
        } else if str_eq(c, "file_too_large") {
            WireFailure::new(
                WireErrorCode::FileTooLarge,
                param_zero(&error, "observedBytes"),
                param_fallback(&error, "maxBytes", MAX_INPUT_BYTES),
            )
        } else if str_eq(c, "dimensions_exceeded") {
            WireFailure::new(WireErrorCode::DimensionsExceeded, param_zero(&error, "width"), param_zero(&error, "height"))
        } else if str_eq(c, "decode_limit_exceeded") {
            let observed = param_zero(&error, "observedBytes");
            let estimated = param_zero(&error, "estimatedBytes");
            WireFailure::new(
                WireErrorCode::DecodeLimitExceeded,
                if observed >= estimated {
                    observed
                } else {
                    estimated
                },
                param_fallback(&error, "maxBytes", MAX_DECODE_BYTES),
            )
        } else if str_eq(c, "unsupported_bit_depth") {
            WireFailure::new(WireErrorCode::UnsupportedBitDepth, param_zero(&error, "bitDepth"), 0)
        } else if str_eq(c, "unsupported_color_profile") || str_eq(c, "color_profile_too_large") {
            WireFailure::new(
                WireErrorCode::UnsupportedColorProfile,
                param_zero(&error, "observedBytes"),
                param_zero(&error, "maxBytes"),
            )
        } else if str_eq(c, code::IO_ERROR) {
            WireFailure::new(WireErrorCode::IoError, 0, 0)
        } else if str_eq(c, "heic_unavailable") {
            WireFailure::new(WireErrorCode::NotImplemented, 0, 0)
        } else {
            WireFailure::internal_decoder_error()
        }
    }
}

impl vstd::std_specs::convert::FromSpecImpl<ViewerError> for WireFailure {
    open spec fn obeys_from_spec() -> bool {
        true
    }

    open spec fn from_spec(error: ViewerError) -> Self {
        spec_wire_failure(error@)
    }
}

/// The wire form of a viewer error.
pub fn wire_failure(error: ViewerError) -> (f: WireFailure)
    ensures
        f == spec_wire_failure(error@),
{
    WireFailure::from(error)
}

/// Decoder errors with a stable wire code keep their code when the viewer
/// turns the wire failure back into an error, and a too-large image keeps
/// its reported dimensions.
pub proof fn lemma_error_codes_survive_the_wire(e: ErrorView)
    requires
        e.code == code::CORRUPT_IMAGE@ || e.code == "format_mismatch"@ || e.code == "file_too_large"@ || e.code
            == "dimensions_exceeded"@ || e.code == "decode_limit_exceeded"@ || e.code == "unsupported_bit_depth"@
            || e.code == "unsupported_color_profile"@ || e.code == code::IO_ERROR@,
    ensures
        ({
            let f = spec_wire_failure(e);
            spec_wire_viewer_error(f.code, f.arg0, f.arg1).code == e.code
        }),
        e.code == code::CORRUPT_IMAGE@ ==> spec_wire_failure(e).code == WireErrorCode::CorruptImage,
        e.code == "format_mismatch"@ ==> spec_wire_failure(e).code == WireErrorCode::FormatMismatch,
        e.code == "file_too_large"@ ==> spec_wire_failure(e).code == WireErrorCode::FileTooLarge,
        e.code == "dimensions_exceeded"@ ==> spec_wire_failure(e).code == WireErrorCode::DimensionsExceeded,
        e.code == "decode_limit_exceeded"@ ==> spec_wire_failure(e).code == WireErrorCode::DecodeLimitExceeded,
        e.code == "unsupported_bit_depth"@ ==> spec_wire_failure(e).code == WireErrorCode::UnsupportedBitDepth,
        e.code == "unsupported_color_profile"@ ==> spec_wire_failure(e).code
            == WireErrorCode::UnsupportedColorProfile,
        e.code == code::IO_ERROR@ ==> spec_wire_failure(e).code == WireErrorCode::IoError,
        e.code == "dimensions_exceeded"@ ==> ({
            let f = spec_wire_failure(e);
            spec_wire_viewer_error(f.code, f.arg0, f.arg1).parameters == map![
                "width"@ => param_or_zero(e, "width"@),
                "height"@ => param_or_zero(e, "height"@),
            ]
        }),
{
    reveal_strlit("corrupt_image");
    reveal_strlit("format_mismatch");
    reveal_strlit("file_too_large");
    reveal_strlit("dimensions_exceeded");
    reveal_strlit("decode_limit_exceeded");
    reveal_strlit("unsupported_bit_depth");
    reveal_strlit("unsupported_color_profile");
    reveal_strlit("color_profile_too_large");
    reveal_strlit("io_error");
    reveal_strlit("heic_unavailable");
    assert(code::CORRUPT_IMAGE@ == "corrupt_image"@);
    assert(code::IO_ERROR@ == "io_error"@);
    assert("corrupt_image"@.len() == 13);
    assert("format_mismatch"@.len() == 15);
    assert("file_too_large"@.len() == 14);
    assert("dimensions_exceeded"@.len() == 19);
    assert("decode_limit_exceeded"@.len() == 21);
    assert("unsupported_bit_depth"@.len() == 21);
    assert("unsupported_color_profile"@.len() == 25);
    assert("color_profile_too_large"@.len() == 23);
    assert("io_error"@.len() == 8);
    assert("decode_limit_exceeded"@[0] == 'd');
    assert("unsupported_bit_depth"@[0] == 'u');
    let f = spec_wire_failure(e);
    if e.code == "dimensions_exceeded"@ {
        assert(spec_wire_viewer_error(f.code, f.arg0, f.arg1).parameters =~= map![
            "width"@ => param_or_zero(e, "width"@),
            "height"@ => param_or_zero(e, "height"@),
        ]);
    }
}

/// What answering request `request_id` with `result` puts on the wire: the
/// render (if it passes the render checks) or the numeric failure.
pub open spec fn spec_result_message(request_id: u64, result: Result<DecodedRgba8, WireFailure>) -> Result<Seq<u8>, ProtocolError> {
    match result {
        Ok(render) => match spec_success_check(render.width, render.height, render.rgba@.len()) {
            Err(e) => Err(e),
            Ok(_) => Ok(spec_success_message(request_id, render.width, render.height, render.rgba@)),
        },
        Err(failure) => Ok(spec_error_message(failure.spec_decode_error(request_id))),
    }
}

/// Pushes everything written to its destination; a failed flush is reported
/// as an I/O error of the kind the sink gave.
fn flush_output<W: ByteSink>(output: &mut W) -> (r: Result<(), HelperError>)
    ensures
        final(output).accepts_all() == old(output).accepts_all(),
        final(output).failure_kind() == old(output).failure_kind(),
        final(output).written() == old(output).written(),
        r matches Err(HelperError::Io(k)) ==> k == old(output).failure_kind(),
        r == (match old(output).flush_outcome() {
            Ok(()) => Ok::<(), HelperError>(()),
            Err(kind) => Err::<(), HelperError>(HelperError::Io(kind)),
        }),
        old(output).accepts_all() ==> r is Ok,
{
    match output.flush_bytes() {
        Ok(()) => Ok(()),
        Err(kind) => Err(HelperError::Io(kind)),
    }
}

/// Answers request `request_id` with `result` and flushes.
pub fn write_decode_result<W: ByteSink>(output: &mut W, request_id: u64, result: Result<DecodedRgba8, WireFailure>) -> (r: Result<(), HelperError>)
    ensures
        final(output).accepts_all() == old(output).accepts_all(),
        final(output).failure_kind() == old(output).failure_kind(),
        r matches Err(HelperError::Io(k)) ==> k == old(output).failure_kind(),
        r matches Err(HelperError::Protocol(ProtocolError::Io(k))) ==> k == old(output).failure_kind(),
        match spec_result_message(request_id, result) {
            Err(e) => r == Err::<(), HelperError>(HelperError::Protocol(e)) && final(output).written() == old(
                output,
            ).written(),
            Ok(message) => {
                &&& old(output).accepts_all() ==> r is Ok
                &&& r is Ok ==> final(output).written() == old(output).written() + message
                &&& r matches Err(HelperError::Io(_)) ==> final(output).written() == old(output).written() + message
                &&& r matches Err(HelperError::Protocol(e)) ==> spec_write_outcome(
                    old(output).written(),
                    final(output).written(),
                    message,
                    Err(e),
                )
            },
        },
{
    match result {
        Ok(render) => {
            match write_decode_success(output, request_id, render.width, render.height, render.rgba.as_slice()) {
                Ok(()) => {},
                Err(e) => return Err(HelperError::Protocol(e)),
            }
        },
        Err(failure) => {
            match write_decode_error(output, failure.into_decode_error(request_id)) {
                Ok(()) => {},
                Err(e) => return Err(HelperError::Protocol(e)),
            }
        },
    }
    flush_output(output)
}

/// The bytes of the helper's Ready answer.
pub open spec fn spec_ready_bytes() -> Seq<u8> {
    spec_header_bytes(HeaderView { kind: MessageKind::Ready, payload_len: 0 })
}

/// How many payload bytes follow a command header: a decode request's
/// payload, nothing for any other (or any invalid) header, so that a stream
/// reader never pulls the body of a message the session refuses.
pub fn command_payload_len(header: [u8; 16]) -> (n: usize)
    ensures
        n == (match spec_header_decode(header@) {
            Ok(h) => if h.kind == MessageKind::DecodeImage {
                h.payload_len as usize
            } else {
                0
            },
            Err(_) => 0,
        }),
{
    match Header::decode(header) {
        Ok(h) => if h.kind() == MessageKind::DecodeImage {
            h.payload_len() as usize
        } else {
            0
        },
        Err(_) => 0,
    }
}

proof fn lemma_prefix_of_concat(a: Seq<u8>, b: Seq<u8>)
    ensures
        a.is_prefix_of(a + b),
{
    assert((a + b).subrange(0, a.len() as int) =~= a);
}

proof fn lemma_prefix_trans(a: Seq<u8>, b: Seq<u8>, c: Seq<u8>)
    requires
        a.is_prefix_of(b),
        b.is_prefix_of(c),
    ensures
        a.is_prefix_of(c),
{
    assert(c.subrange(0, a.len() as int) =~= b.subrange(0, a.len() as int));
}

/// A failure of the output sink: an I/O error of the sink's own kind, from a
/// write or from a flush.
pub open spec fn sink_failed<T>(r: Result<T, HelperError>, kind: std::io::ErrorKind) -> bool {
    r matches Err(e) && (e == HelperError::Io(kind) || e == HelperError::Protocol(ProtocolError::Io(kind)))
}

/// What one command of the session does: `Ok(true)` to go on, `Ok(false)`
/// after a shutdown.
pub fn serve_command<R: ByteSource, W: ByteSink, F: Fn(DecodeRequest) -> Result<DecodedRgba8, WireFailure>>(
    input: &mut R,
    output: &mut W,
    decode: &F,
) -> (r: Result<bool, HelperError>)
    requires
        forall|request: DecodeRequest| decode.requires((request,)),
    ensures
        final(input).end_error() == old(input).end_error(),
        final(output).accepts_all() == old(output).accepts_all(),
        final(output).failure_kind() == old(output).failure_kind(),
        final(input).pending() == spec_read_command(old(input).pending(), old(input).end_error()).1,
        old(output).written().is_prefix_of(final(output).written()),
        match spec_read_command(old(input).pending(), old(input).end_error()).0 {
            Err(e) => r == Err::<bool, HelperError>(HelperError::Protocol(e)) && final(output).written() == old(
                output,
            ).written(),
            Ok(HelperCommand::Shutdown) => r == Ok::<bool, HelperError>(false) && final(output).written() == old(
                output,
            ).written(),
            Ok(HelperCommand::DecodeImage(request)) => exists|result: Result<DecodedRgba8, WireFailure>| #[trigger]
                decode.ensures((request,), result) && match spec_result_message(request.request_id, result) {
                    Err(e) => r == Err::<bool, HelperError>(HelperError::Protocol(e)) && final(output).written()
                        == old(output).written(),
                    Ok(message) => {
                        &&& old(output).accepts_all() ==> r == Ok::<bool, HelperError>(true)
                        &&& r is Ok ==> r == Ok::<bool, HelperError>(true) && final(output).written() == old(
                            output,
                        ).written() + message
                        &&& r is Err ==> sink_failed(r, old(output).failure_kind())
                    },
                },
        },
{
    let ghost before = output.written();
    let command = match read_helper_command(input) {
        Ok(command) => command,
        Err(e) => return Err(HelperError::Protocol(e)),
    };
    match command {
        HelperCommand::DecodeImage(request) => {
            let result = decode(request);
            let written = write_decode_result(output, request.request_id, result);
            proof {
                match spec_result_message(request.request_id, result) {
                    Err(_) => {},
                    Ok(message) => {
                        if written is Ok || written matches Err(HelperError::Io(_)) {
                            assert(before.is_prefix_of(before + message));
                        } else {
                            let e = written->Err_0->Protocol_0;
                            match e {
                                ProtocolError::Io(_) => {
                                    let n = choose|n: int| 0 <= n <= message.len() && output.written() == before + message.take(n);
                                    assert(before.is_prefix_of(before + message.take(n)));
                                },
                                _ => {},
                            }
                        }
                    },
                }
            }
            match written {
                Ok(()) => Ok(true),
                Err(e) => Err(e),
            }
        },
        HelperCommand::Shutdown => Ok(false),
    }
}

/// The session after its handshake, given the decoder's outcomes in order:
/// whether `outcomes` are exactly the decoder's own answers to the decode
/// requests read, the bytes written, and how the session ends. Each decode
/// request is answered in order; a shutdown ends the session cleanly; a
/// malformed message or a render that fails its checks ends it with that
/// error.
pub open spec fn spec_session<F: Fn(DecodeRequest) -> Result<DecodedRgba8, WireFailure>>(
    decode: F,
    stream: Seq<u8>,
    end: Option<std::io::ErrorKind>,
    outcomes: Seq<Result<DecodedRgba8, WireFailure>>,
) -> (bool, Seq<u8>, Result<(), HelperError>)
    decreases stream.len(),
{
    let (command, rest) = spec_read_command(stream, end);
    match command {
        Err(e) => (outcomes.len() == 0, Seq::empty(), Err(HelperError::Protocol(e))),
        Ok(HelperCommand::Shutdown) => (outcomes.len() == 0, Seq::empty(), Ok(())),
        Ok(HelperCommand::DecodeImage(request)) => if outcomes.len() == 0 || rest.len() >= stream.len() {
            (false, Seq::empty(), Ok(()))
        } else {
            let valid = decode.ensures((request,), outcomes[0]);
            match spec_result_message(request.request_id, outcomes[0]) {
                Err(e) => (valid && outcomes.len() == 1, Seq::empty(), Err(HelperError::Protocol(e))),
                Ok(message) => {
                    let (v, more, r) = spec_session(decode, rest, end, outcomes.drop_first());
                    (valid && v, message + more, r)
                },
            }
        },
    }
}

/// Serves one session: the Hello handshake, the Ready answer, then each
/// decode request in order until an explicit Shutdown. A decode failure is a
/// numeric answer and does not end the session; a malformed message does.
/// Nothing is written before a valid handshake.
pub fn serve<R: ByteSource, W: ByteSink, F: Fn(DecodeRequest) -> Result<DecodedRgba8, WireFailure>>(
    input: &mut R,
    output: &mut W,
    decode: F,
) -> (r: Result<(), HelperError>)
    requires
        forall|request: DecodeRequest| decode.requires((request,)),
    ensures
        final(input).end_error() == old(input).end_error(),
        final(output).accepts_all() == old(output).accepts_all(),
        final(output).failure_kind() == old(output).failure_kind(),
        spec_read_control(old(input).pending(), old(input).end_error(), MessageKind::Hello).0 is Ok ==> {
            ||| exists|outcomes: Seq<Result<DecodedRgba8, WireFailure>>|
                #![trigger spec_session(decode, spec_read_control(old(input).pending(), old(input).end_error(), MessageKind::Hello).1, old(input).end_error(), outcomes)]
            {
                let session = spec_session(
                    decode,
                    spec_read_control(old(input).pending(), old(input).end_error(), MessageKind::Hello).1,
                    old(input).end_error(),
                    outcomes,
                );
                &&& session.0
                &&& final(output).written() == old(output).written() + spec_ready_bytes() + session.1
                &&& r == session.2
            }
            ||| sink_failed(r, old(output).failure_kind()) && old(output).written().is_prefix_of(final(output).written())
        },
        spec_read_control(old(input).pending(), old(input).end_error(), MessageKind::Hello).0 matches Err(e) ==> r
            == Err::<(), HelperError>(HelperError::Protocol(e)) && final(output).written() == old(output).written(),
        spec_read_control(old(input).pending(), old(input).end_error(), MessageKind::Hello).0 is Ok && old(
            output,
        ).accepts_all() ==> exists|outcomes: Seq<Result<DecodedRgba8, WireFailure>>|
            #![trigger spec_session(decode, spec_read_control(old(input).pending(), old(input).end_error(), MessageKind::Hello).1, old(input).end_error(), outcomes)]
        {
            let session = spec_session(
                decode,
                spec_read_control(old(input).pending(), old(input).end_error(), MessageKind::Hello).1,
                old(input).end_error(),
                outcomes,
            );
            &&& session.0
            &&& final(output).written() == old(output).written() + spec_ready_bytes() + session.1
            &&& r == session.2
        },
{
    match read_hello(input) {
        Ok(()) => {},
        Err(e) => return Err(HelperError::Protocol(e)),
    }
    let ghost start = output.written();
    let ghost s0 = input.pending();
    let ghost end = input.end_error();
    match write_ready(output) {
        Ok(()) => {},
        Err(e) => {
            proof {
                let n = choose|n: int| 0 <= n <= spec_ready_bytes().len() && output.written() == start + spec_ready_bytes().take(n);
                lemma_prefix_of_concat(start, spec_ready_bytes().take(n));
            }
            return Err(HelperError::Protocol(e));
        },
    }
    match flush_output(output) {
        Ok(()) => {},
        Err(e) => {
            proof {
                lemma_prefix_of_concat(start, spec_ready_bytes());
            }
            return Err(e);
        },
    }
    let ghost mut done: Seq<Result<DecodedRgba8, WireFailure>> = Seq::empty();
    let ghost mut tail: Seq<u8> = Seq::empty();
    proof {
        assert forall|fut: Seq<Result<DecodedRgba8, WireFailure>>| #[trigger]
            spec_session(decode, s0, end, done + fut) == {
                let rest = spec_session(decode, s0, end, fut);
                (rest.0, tail + rest.1, rest.2)
            } by {
            assert(done + fut =~= fut);
            assert(tail + spec_session(decode, s0, end, fut).1 =~= spec_session(decode, s0, end, fut).1);
        }
    }
    loop
        invariant
            input.end_error() == end,
            end == old(input).end_error(),
            output.accepts_all() == old(output).accepts_all(),
            output.failure_kind() == old(output).failure_kind(),
            forall|request: DecodeRequest| decode.requires((request,)),
            start == old(output).written(),
            s0 == spec_read_control(old(input).pending(), old(input).end_error(), MessageKind::Hello).1,
            spec_read_control(old(input).pending(), old(input).end_error(), MessageKind::Hello).0 is Ok,
            output.written() == start + spec_ready_bytes() + tail,
            forall|fut: Seq<Result<DecodedRgba8, WireFailure>>| #[trigger]
                spec_session(decode, s0, end, done + fut) == {
                    let rest = spec_session(decode, input.pending(), end, fut);
                    (rest.0, tail + rest.1, rest.2)
                },
        decreases input.pending().len(),
    {
        let ghost pending_before = input.pending();
        let ghost written_before = output.written();
        let step = serve_command(input, output, &decode);
        match step {
            Ok(true) => {
                proof {
                    assert(input.pending().len() < pending_before.len());
                    {
                        let (command, rest) = spec_read_command(pending_before, end);
                        let request = command->Ok_0->DecodeImage_0;
                        let o = choose|result: Result<DecodedRgba8, WireFailure>| #[trigger]
                            decode.ensures((request,), result) && match spec_result_message(request.request_id, result) {
                                Err(e) => step == Err::<bool, HelperError>(HelperError::Protocol(e)) && output.written()
                                    == written_before,
                                Ok(message) => {
                                    &&& old(output).accepts_all() ==> step == Ok::<bool, HelperError>(true)
                                    &&& step is Ok ==> step == Ok::<bool, HelperError>(true) && output.written()
                                        == written_before + message
                                },
                            };
                        let message = spec_result_message(request.request_id, o)->Ok_0;
                        let old_done = done;
                        let old_tail = tail;
                        done = done.push(o);
                        tail = tail + message;
                        assert(output.written() =~= start + spec_ready_bytes() + tail);
                        assert forall|fut: Seq<Result<DecodedRgba8, WireFailure>>| #[trigger]
                            spec_session(decode, s0, end, done + fut) == {
                                let r2 = spec_session(decode, input.pending(), end, fut);
                                (r2.0, tail + r2.1, r2.2)
                            } by {
                            let whole = seq![o] + fut;
                            assert(done + fut =~= old_done + whole);
                            assert(whole.drop_first() =~= fut);
                            assert(whole[0] == o);
                            let r2 = spec_session(decode, input.pending(), end, fut);
                            assert(spec_session(decode, pending_before, end, whole) == (
                                decode.ensures((request,), o) && r2.0,
                                message + r2.1,
                                r2.2,
                            ));
                            assert(old_tail + (message + r2.1) =~= tail + r2.1);
                        }
                    }
                }
            },
            Ok(false) => {
                proof {
                    {
                        let fut = Seq::<Result<DecodedRgba8, WireFailure>>::empty();
                        assert(done + fut =~= done);
                        assert(tail + Seq::<u8>::empty() =~= tail);
                        assert(spec_session(decode, s0, end, done).0);
                    }
                }
                return Ok(());
            },
            Err(e) => {
                proof {
                    {
                        let (command, rest) = spec_read_command(pending_before, end);
                        if command is Err {
                            let fut = Seq::<Result<DecodedRgba8, WireFailure>>::empty();
                            assert(done + fut =~= done);
                            assert(tail + Seq::<u8>::empty() =~= tail);
                            assert(spec_session(decode, s0, end, done).0);
                        } else {
                            let request = command->Ok_0->DecodeImage_0;
                            let o = choose|result: Result<DecodedRgba8, WireFailure>| #[trigger]
                                decode.ensures((request,), result) && match spec_result_message(request.request_id, result) {
                                    Err(e2) => step == Err::<bool, HelperError>(HelperError::Protocol(e2)) && output.written()
                                        == written_before,
                                    Ok(message) => {
                                        &&& old(output).accepts_all() ==> step == Ok::<bool, HelperError>(true)
                                        &&& step is Ok ==> step == Ok::<bool, HelperError>(true) && output.written()
                                            == written_before + message
                                        &&& step is Err ==> sink_failed(step, old(output).failure_kind())
                                    },
                                };
                            if spec_result_message(request.request_id, o) is Ok {
                                lemma_prefix_of_concat(start, spec_ready_bytes() + tail);
                                assert(start + (spec_ready_bytes() + tail) =~= written_before);
                                lemma_prefix_trans(start, written_before, output.written());
                            } else {
                                let fut = seq![o];
                                assert(fut.len() == 1 && fut[0] == o);
                                assert(tail + Seq::<u8>::empty() =~= tail);
                                assert(spec_session(decode, s0, end, done + fut).0);
                                assert(spec_session(decode, s0, end, done + fut).1 == tail);
                            }
                        }
                    }
                }
                return Err(e);
            },
        }
    }
}

} // verus!
