//! The viewer side of the codec helper: what a decode request may send, how
//! transport and wire failures become viewer errors, when a helper session
//! must be thrown away, and the fixed launch contract of the helper process.
//!
//! The caller launches the process, moves bytes over its pipes, and reads
//! the clock; each decision in between is taken here.
use vstd::prelude::*;

use crate::code;
use crate::error::ViewerError;
use crate::model::{DecodedRender, DecodedRgba8, MAX_INPUT_BYTES};
use crate::policy::deadline_error_view;
use crate::protocol::{
    DecodeResponse, ProtocolError, WireErrorCode, CODEC_HELPER_DECODE_DEADLINE_MS,
    CODEC_HELPER_MEMORY_LIMIT_BYTES,
};
use crate::snapshot::ErrorView;
use crate::cli::{join_path, spec_join};
use crate::text::{chars_of, parent_of, parent_text};

verus! {

/// The helper's hard decode deadline, launch included.
pub const DEFAULT_HARD_TIMEOUT_MS: u64 = CODEC_HELPER_DECODE_DEADLINE_MS;

/// The file name of the helper executable, next to the viewer executable.
pub const HELPER_FILE_NAME: &'static str = "ImgViewer.CodecHelper.exe";

/// The exit code given to a helper that is terminated on purpose.
pub const HELPER_FAILURE_EXIT_CODE: u32 = 70;

/// The exit code a process reports while it is still running.
pub const STILL_ACTIVE: u32 = 259;

#[derive(Clone, Copy, Debug, PartialEq, Eq, Structural)]
pub enum TransportError {
    Unavailable,
    Io,
    Protocol,
    Disconnected,
    Timeout,
    Cancelled,
}

/// The largest source file sent to the helper: larger files are refused
/// before any helper is involved.
pub fn check_input_length(expected_length: u64) -> (r: Result<(), ViewerError>)
    ensures
        r is Ok <==> expected_length <= MAX_INPUT_BYTES,
        r matches Err(e) ==> e@ == (ErrorView {
            code: "file_too_large"@,
            message: "檔案超過 256 MiB 上限。"@,
            parameters: map!["maxBytes"@ => MAX_INPUT_BYTES, "observedBytes"@ => expected_length],
        }),
{
    if expected_length > MAX_INPUT_BYTES {
        let e = ViewerError::limit("file_too_large", "檔案超過 256 MiB 上限。").with_parameter(
            "maxBytes",
            MAX_INPUT_BYTES,
        ).with_parameter("observedBytes", expected_length);
        proof {
            reveal_strlit("maxBytes");
            reveal_strlit("observedBytes");
        }
        assert(e@.parameters =~= map!["maxBytes"@ => MAX_INPUT_BYTES, "observedBytes"@ => expected_length]);
        return Err(e);
    }
    Ok(())
}

/// The time left of a budget of `limit_ms` after `elapsed_ms`; none left is
/// the deadline error.
pub fn remaining(limit_ms: u64, elapsed_ms: u64) -> (r: Result<u64, ViewerError>)
    ensures
        elapsed_ms < limit_ms ==> r == Ok::<u64, ViewerError>((limit_ms - elapsed_ms) as u64),
        elapsed_ms >= limit_ms ==> (r matches Err(e) && deadline_error_view(e, limit_ms)),
{
    if elapsed_ms < limit_ms {
        Ok(limit_ms - elapsed_ms)
    } else {
        Err(ViewerError::deadline_exceeded(limit_ms))
    }
}

/// The viewer error of a numeric helper failure: a stable code, a fixed
/// message, and only the numeric facts the code defines.
pub open spec fn spec_wire_viewer_error(code: WireErrorCode, arg0: u64, arg1: u64) -> ErrorView {
    match code {
        WireErrorCode::CorruptImage => ErrorView {
            code: code::CORRUPT_IMAGE@,
            message: "圖片資料已損毀。"@,
            parameters: Map::empty(),
        },
        WireErrorCode::FormatMismatch => ErrorView {
            code: "format_mismatch"@,
            message: "檔案內容與指定的圖片格式不符。"@,
            parameters: Map::empty(),
        },
        WireErrorCode::FileTooLarge => ErrorView {
            code: "file_too_large"@,
            message: "檔案超過安全輸入上限。"@,
            parameters: map!["observedBytes"@ => arg0, "maxBytes"@ => arg1],
        },
        WireErrorCode::DimensionsExceeded => ErrorView {
            code: "dimensions_exceeded"@,
            message: "圖片超過安全尺寸或像素上限。"@,
            parameters: map!["width"@ => arg0, "height"@ => arg1],
        },
        WireErrorCode::DecodeLimitExceeded => ErrorView {
            code: "decode_limit_exceeded"@,
            message: "圖片解碼超過安全記憶體上限。"@,
            parameters: map!["observedBytes"@ => arg0, "maxBytes"@ => arg1],
        },
        WireErrorCode::UnsupportedBitDepth => ErrorView {
            code: "unsupported_bit_depth"@,
            message: "不支援這張圖片的位元深度。"@,
            parameters: map!["bitDepth"@ => arg0],
        },
        WireErrorCode::UnsupportedColorProfile => ErrorView {
            code: "unsupported_color_profile"@,
            message: "不支援這張圖片的色彩描述。"@,
            parameters: Map::empty(),
        },
        WireErrorCode::IoError => ErrorView {
            code: code::IO_ERROR@,
            message: "圖片解碼 helper 無法讀取已開啟的檔案。"@,
            parameters: Map::empty(),
        },
        WireErrorCode::InternalDecoderError => ErrorView {
            code: "codec_helper_internal_error"@,
            message: "圖片解碼 helper 發生內部錯誤。"@,
            parameters: Map::empty(),
        },
        WireErrorCode::NotImplemented => ErrorView {
            code: "codec_helper_not_ready"@,
            message: "圖片解碼 helper 尚未提供這種格式的解碼功能。"@,
            parameters: Map::empty(),
        },
        WireErrorCode::InvalidHandle => ErrorView {
            code: "codec_helper_invalid_handle"@,
            message: "圖片解碼 helper 拒絕無效的唯讀檔案控制代碼。"@,
            parameters: Map::empty(),
        },
    }
}

pub fn wire_viewer_error(code: WireErrorCode, arg0: u64, arg1: u64) -> (e: ViewerError)
    ensures
        e@ == spec_wire_viewer_error(code, arg0, arg1),
{
    proof {
        reveal_strlit("observedBytes");
        reveal_strlit("maxBytes");
        reveal_strlit("width");
        reveal_strlit("height");
        reveal_strlit("bitDepth");
    }
    match code {
        WireErrorCode::CorruptImage => ViewerError::corrupt("圖片資料已損毀。"),
        WireErrorCode::FormatMismatch => ViewerError::new("format_mismatch", "檔案內容與指定的圖片格式不符。"),
        WireErrorCode::FileTooLarge => {
            let e = ViewerError::limit("file_too_large", "檔案超過安全輸入上限。").with_parameter(
                "observedBytes",
                arg0,
            ).with_parameter("maxBytes", arg1);
            assert(e@.parameters =~= map!["observedBytes"@ => arg0, "maxBytes"@ => arg1]);
            e
        },
        WireErrorCode::DimensionsExceeded => {
            let e = ViewerError::limit("dimensions_exceeded", "圖片超過安全尺寸或像素上限。").with_parameter(
                "width",
                arg0,
            ).with_parameter("height", arg1);
            assert(e@.parameters =~= map!["width"@ => arg0, "height"@ => arg1]);
            e
        },
        WireErrorCode::DecodeLimitExceeded => {
            let e = ViewerError::limit("decode_limit_exceeded", "圖片解碼超過安全記憶體上限。").with_parameter(
                "observedBytes",
                arg0,
            ).with_parameter("maxBytes", arg1);
            assert(e@.parameters =~= map!["observedBytes"@ => arg0, "maxBytes"@ => arg1]);
            e
        },
        WireErrorCode::UnsupportedBitDepth => {
            let e = ViewerError::new("unsupported_bit_depth", "不支援這張圖片的位元深度。").with_parameter(
                "bitDepth",
                arg0,
            );
            assert(e@.parameters =~= map!["bitDepth"@ => arg0]);
            e
        },
        WireErrorCode::UnsupportedColorProfile => ViewerError::new(
            "unsupported_color_profile",
            "不支援這張圖片的色彩描述。",
        ),
        WireErrorCode::IoError => ViewerError::io("圖片解碼 helper 無法讀取已開啟的檔案。"),
        WireErrorCode::InternalDecoderError => ViewerError::new(
            "codec_helper_internal_error",
            "圖片解碼 helper 發生內部錯誤。",
        ),
        WireErrorCode::NotImplemented => ViewerError::new(
            "codec_helper_not_ready",
            "圖片解碼 helper 尚未提供這種格式的解碼功能。",
        ),
        WireErrorCode::InvalidHandle => ViewerError::new(
            "codec_helper_invalid_handle",
            "圖片解碼 helper 拒絕無效的唯讀檔案控制代碼。",
        ),
    }
}

/// The viewer error of a transport failure; a timeout reports the hard
/// deadline.
pub open spec fn spec_transport_viewer_error(error: TransportError, hard_timeout_ms: u64) -> ErrorView {
    match error {
        TransportError::Unavailable => ErrorView {
            code: "codec_helper_unavailable"@,
            message: "找不到或無法啟動圖片解碼 helper。"@,
            parameters: Map::empty(),
        },
        TransportError::Io => ErrorView {
            code: "codec_helper_io_error"@,
            message: "無法與圖片解碼 helper 通訊。"@,
            parameters: Map::empty(),
        },
        TransportError::Protocol => ErrorView {
            code: "codec_helper_protocol_error"@,
            message: "圖片解碼 helper 回傳無效資料。"@,
            parameters: Map::empty(),
        },
        TransportError::Disconnected => ErrorView {
            code: "codec_helper_crashed"@,
            message: "圖片解碼 helper 已意外終止。"@,
            parameters: Map::empty(),
        },
        TransportError::Timeout => ErrorView {
            code: code::DECODE_DEADLINE_EXCEEDED@,
            message: "圖片解碼超過安全期限。"@,
            parameters: map!["limitMs"@ => hard_timeout_ms],
        },
        TransportError::Cancelled => ErrorView {
            code: "decode_cancelled"@,
            message: "圖片解碼已由較新的選取取代。"@,
            parameters: Map::empty(),
        },
    }
}

pub fn transport_viewer_error(error: TransportError, hard_timeout_ms: u64) -> (e: ViewerError)
    ensures
        e@ == spec_transport_viewer_error(error, hard_timeout_ms),
{
    match error {
        TransportError::Unavailable => ViewerError::new(
            "codec_helper_unavailable",
            "找不到或無法啟動圖片解碼 helper。",
        ),
        TransportError::Io => ViewerError::new("codec_helper_io_error", "無法與圖片解碼 helper 通訊。"),
        TransportError::Protocol => ViewerError::new(
            "codec_helper_protocol_error",
            "圖片解碼 helper 回傳無效資料。",
        ),
        TransportError::Disconnected => ViewerError::new("codec_helper_crashed", "圖片解碼 helper 已意外終止。"),
        TransportError::Timeout => ViewerError::deadline_exceeded(hard_timeout_ms),
        TransportError::Cancelled => ViewerError::new("decode_cancelled", "圖片解碼已由較新的選取取代。"),
    }
}

/// A helper response as pixels to render, or as the viewer error of its
/// numeric failure.
pub fn response_to_rgba(response: DecodeResponse) -> (r: Result<DecodedRgba8, ViewerError>)
    ensures
        match response {
            DecodeResponse::Success(s) => r matches Ok(d) && d.rgba@ == s.rgba@ && d.width == s.width
                && d.height == s.height,
            DecodeResponse::Error(e) => r matches Err(v) && v@ == spec_wire_viewer_error(e.code, e.arg0, e.arg1),
        },
{
    match response {
        DecodeResponse::Success(success) => Ok(
            DecodedRgba8 { rgba: success.rgba, width: success.width, height: success.height },
        ),
        DecodeResponse::Error(error) => Err(wire_viewer_error(error.code, error.arg0, error.arg1)),
    }
}

/// A stream failure of a helper that has exited is a crash; while the
/// process is alive (or its state is unknown) the failure stands.
pub fn classify_transport_failure_with_exit_code(error: TransportError, exit_code: Option<u32>) -> (r: TransportError)
    ensures
        r == (match exit_code {
            Some(c) => if c != STILL_ACTIVE {
                TransportError::Disconnected
            } else {
                error
            },
            None => error,
        }),
{
    match exit_code {
        Some(c) => if c != STILL_ACTIVE {
            TransportError::Disconnected
        } else {
            error
        },
        None => error,
    }
}

/// Only failures of the pipes themselves are worth asking the process about.
pub fn needs_exit_code(error: TransportError) -> (b: bool)
    ensures
        b == (error == TransportError::Io || error == TransportError::Protocol || error
            == TransportError::Disconnected),
{
    match error {
        TransportError::Io | TransportError::Protocol | TransportError::Disconnected => true,
        _ => false,
    }
}

/// A failure classified with the helper's exit code: pipe failures of a
/// helper that has exited are crashes; other failures stand as they are.
pub open spec fn spec_classify(error: TransportError, exit_code: Option<u32>) -> TransportError {
    if error == TransportError::Io || error == TransportError::Protocol || error == TransportError::Disconnected {
        match exit_code {
            Some(c) => if c != STILL_ACTIVE {
                TransportError::Disconnected
            } else {
                error
            },
            None => error,
        }
    } else {
        error
    }
}

pub fn classify_transport_failure(error: TransportError, exit_code: Option<u32>) -> (r: TransportError)
    ensures
        r == spec_classify(error, exit_code),
{
    if needs_exit_code(error) {
        classify_transport_failure_with_exit_code(error, exit_code)
    } else {
        error
    }
}

/// How waiting for the helper's reply on the reader thread ended.
#[derive(Debug)]
pub enum ReplyWait<T> {
    /// The reader finished with the reply or a protocol failure.
    Received(Result<T, ProtocolError>),
    /// The reader thread itself failed.
    ReaderFailed,
    /// The deadline passed; `reader_failed` tells whether joining the
    /// cancelled reader failed.
    TimedOut { reader_failed: bool },
    /// The reader went away without a reply.
    Disconnected,
}

/// The outcome of a reply wait, and whether the helper's job must be killed.
#[derive(Debug)]
pub struct ReplyResolution<T> {
    pub result: Result<T, TransportError>,
    pub kill: bool,
}

/// Resolves a reply wait: a reply passes through; protocol and reader
/// failures are classified by the exit code; a timeout kills the job and
/// reports the timeout (or the failed reader); a vanished reader kills the
/// job too.
pub fn resolve_reply<T>(wait: ReplyWait<T>, exit_code: Option<u32>) -> (r: ReplyResolution<T>)
    ensures
        match wait {
            ReplyWait::Received(Ok(v)) => r.result == Ok::<T, TransportError>(v) && !r.kill,
            ReplyWait::Received(Err(e)) => r.result == Err::<T, TransportError>(
                spec_classify(
                    match e {
                        ProtocolError::Io(_) => TransportError::Io,
                        _ => TransportError::Protocol,
                    },
                    exit_code,
                ),
            ) && !r.kill,
            ReplyWait::ReaderFailed => r.result == Err::<T, TransportError>(
                spec_classify(TransportError::Protocol, exit_code),
            ) && !r.kill,
            ReplyWait::TimedOut { reader_failed } => r.result == Err::<T, TransportError>(
                if reader_failed {
                    TransportError::Disconnected
                } else {
                    TransportError::Timeout
                },
            ) && r.kill,
            ReplyWait::Disconnected => r.result == Err::<T, TransportError>(
                spec_classify(TransportError::Protocol, exit_code),
            ) && r.kill,
        },
{
    match wait {
        ReplyWait::Received(Ok(v)) => ReplyResolution { result: Ok(v), kill: false },
        ReplyWait::Received(Err(e)) => ReplyResolution {
            result: Err(classify_transport_failure(map_protocol_error(e), exit_code)),
            kill: false,
        },
        ReplyWait::ReaderFailed => ReplyResolution {
            result: Err(classify_transport_failure(TransportError::Protocol, exit_code)),
            kill: false,
        },
        ReplyWait::TimedOut { reader_failed } => ReplyResolution {
            result: Err(
                if reader_failed {
                    TransportError::Disconnected
                } else {
                    TransportError::Timeout
                },
            ),
            kill: true,
        },
        ReplyWait::Disconnected => ReplyResolution {
            result: Err(classify_transport_failure(TransportError::Protocol, exit_code)),
            kill: true,
        },
    }
}

/// A job that was already killed takes no new transaction.
pub fn transaction_precheck(killed: bool) -> (r: Result<(), TransportError>)
    ensures
        killed <==> r == Err::<(), TransportError>(TransportError::Cancelled),
        !killed <==> r is Ok,
{
    if killed {
        Err(TransportError::Cancelled)
    } else {
        Ok(())
    }
}

/// A protocol failure on the pipes: I/O stays I/O, anything else is a
/// protocol violation.
pub fn map_protocol_error(error: ProtocolError) -> (r: TransportError)
    ensures
        r == (match error {
            ProtocolError::Io(_) => TransportError::Io,
            _ => TransportError::Protocol,
        }),
{
    match error {
        ProtocolError::Io(_) => TransportError::Io,
        _ => TransportError::Protocol,
    }
}

/// The path of the helper: the executable's parent joined with the helper
/// name. An executable path without a parent (a drive or share root, or an
/// empty path) has no folder to use.
pub open spec fn spec_helper_path(executable: Seq<char>, helper_file_name: Seq<char>) -> Option<Seq<char>> {
    match parent_of(executable) {
        None => None,
        Some(directory) => Some(spec_join(directory, helper_file_name)),
    }
}

pub fn helper_path_from_executable(executable: &str, helper_file_name: &str) -> (r: Result<String, TransportError>)
    ensures
        match spec_helper_path(executable@, helper_file_name@) {
            Some(p) => r matches Ok(s) && s@ == p,
            None => r == Err::<String, TransportError>(TransportError::Unavailable),
        },
{
    match parent_text(executable) {
        None => Err(TransportError::Unavailable),
        Some(directory) => Ok(join_path(directory.as_str(), helper_file_name)),
    }
}

/// The UTF-16 code units of one character.
pub open spec fn utf16_units(c: char) -> Seq<u16> {
    if (c as u32) < 0x10000 {
        seq![(c as u32) as u16]
    } else {
        seq![
            (0xD800 + ((c as u32) - 0x10000) / 1024) as u16,
            (0xDC00 + ((c as u32) - 0x10000) % 1024) as u16,
        ]
    }
}

/// The UTF-16 encoding of a text.
pub open spec fn utf16_of(s: Seq<char>) -> Seq<u16>
    decreases s.len(),
{
    if s.len() == 0 {
        Seq::empty()
    } else {
        utf16_of(s.drop_last()) + utf16_units(s.last())
    }
}

/// The helper's command line: only its quoted path, NUL-terminated UTF-16.
pub open spec fn spec_command_line(path: Seq<char>) -> Seq<u16> {
    seq![34u16] + utf16_of(path) + seq![34u16, 0u16]
}

fn push_utf16(out: &mut Vec<u16>, c: char)
    ensures
        final(out)@ == old(out)@ + utf16_units(c),
{
    let v = c as u32;
    if v < 0x10000 {
        out.push(v as u16);
        assert(final(out)@ =~= old(out)@ + utf16_units(c));
    } else {
        let u = v - 0x10000;
        assert(u < 0x100000);
        out.push((0xD800 + u / 1024) as u16);
        out.push((0xDC00 + u % 1024) as u16);
        assert(final(out)@ =~= old(out)@ + utf16_units(c));
    }
}

pub fn quoted_command_line(path: &str) -> (command: Vec<u16>)
    ensures
        command@ == spec_command_line(path@),
{
    let chars = chars_of(path);
    let mut command: Vec<u16> = Vec::new();
    command.push(34u16);
    let mut i: usize = 0;
    while i < chars.len()
        invariant
            chars@ == path@,
            i <= chars@.len(),
            command@ == seq![34u16] + utf16_of(chars@.take(i as int)),
        decreases chars@.len() - i,
    {
        assert(chars@.take(i + 1).drop_last() =~= chars@.take(i as int));
        push_utf16(&mut command, chars[i]);
        assert(command@ =~= seq![34u16] + utf16_of(chars@.take(i + 1)));
        i = i + 1;
    }
    assert(chars@.take(chars@.len() as int) =~= chars@);
    command.push(34u16);
    command.push(0u16);
    assert(command@ =~= spec_command_line(path@));
    command
}

/// Where the helper executable lives and how much memory its job may use.
#[derive(Clone, Copy, Debug)]
pub struct WindowsLauncher {
    pub helper_file_name: &'static str,
    pub job_memory_limit_bytes: usize,
}

impl WindowsLauncher {
    /// The shipped helper under the production memory limit.
    pub fn production() -> (l: Self)
        ensures
            l.helper_file_name@ == HELPER_FILE_NAME@,
            l.job_memory_limit_bytes == CODEC_HELPER_MEMORY_LIMIT_BYTES,
    {
        WindowsLauncher { helper_file_name: HELPER_FILE_NAME, job_memory_limit_bytes: CODEC_HELPER_MEMORY_LIMIT_BYTES }
    }

    pub fn for_test(helper_file_name: &'static str, job_memory_limit_bytes: usize) -> (l: Self)
        ensures
            l.helper_file_name@ == helper_file_name@,
            l.job_memory_limit_bytes == job_memory_limit_bytes,
    {
        WindowsLauncher { helper_file_name, job_memory_limit_bytes }
    }
}

/// Request identifiers: consecutive, wrapping past the top, never 0.
#[derive(Debug)]
pub struct RequestIds {
    next: u64,
}

impl RequestIds {
    pub closed spec fn spec_next(&self) -> u64 {
        self.next
    }

    /// Identifiers starting at 1.
    pub fn new() -> (r: Self)
        ensures
            r.spec_next() == 1,
    {
        RequestIds { next: 1 }
    }

    /// The next identifier; 0 is skipped.
    pub fn next_request_id(&mut self) -> (id: u64)
        ensures
            id != 0,
            old(self).spec_next() != 0 ==> id == old(self).spec_next(),
            old(self).spec_next() == 0 ==> id == 1,
            final(self).spec_next() == (id as int + 1) % 0x1_0000_0000_0000_0000,
    {
        let id = self.next;
        self.next = self.next.wrapping_add(1);
        if id == 0 {
            let again = self.next;
            self.next = self.next.wrapping_add(1);
            again
        } else {
            id
        }
    }
}

/// The slot of the request the helper is working on, with what stops it.
#[derive(Debug)]
pub struct ActiveRequest<K> {
    pub request_id: u64,
    pub killer: K,
}

/// Clears the active slot only when it still holds `request_id`: a newer
/// request's kill switch is never dropped by an older one.
pub fn clear_active<K>(active: &mut Option<ActiveRequest<K>>, request_id: u64)
    ensures
        match *old(active) {
            Some(a) => if a.request_id == request_id {
                *final(active) is None
            } else {
                *final(active) == *old(active)
            },
            None => *final(active) is None,
        },
{
    let matches = match active {
        Some(a) => a.request_id == request_id,
        None => false,
    };
    if matches {
        *active = None;
    }
}

/// Whether an existing session can take a new image: a session whose job
/// was killed (for example by a cancellation racing a completed request) is
/// never handed a newer selection.
pub fn session_reusable(present: bool, killed: bool) -> (b: bool)
    ensures
        b == (present && !killed),
{
    present && !killed
}

/// A checkpoint during rendering: a cancellation or a spent budget stops it.
pub fn render_checkpoint(cancelled: bool, hard_timeout_ms: u64, elapsed_ms: u64) -> (r: Result<(), ViewerError>)
    ensures
        cancelled ==> (r matches Err(e) && e@ == spec_transport_viewer_error(TransportError::Cancelled, hard_timeout_ms)),
        !cancelled && elapsed_ms < hard_timeout_ms ==> r is Ok,
        !cancelled && elapsed_ms >= hard_timeout_ms ==> (r matches Err(e) && deadline_error_view(e, hard_timeout_ms)),
{
    if cancelled {
        return Err(transport_viewer_error(TransportError::Cancelled, hard_timeout_ms));
    }
    match remaining(hard_timeout_ms, elapsed_ms) {
        Ok(_) => Ok(()),
        Err(e) => Err(e),
    }
}

/// The check between a session's launch and its transaction: a
/// cancellation that landed meanwhile fails the request as cancelled; on
/// that error the session (which may hold the request) is killed and
/// dropped.
pub fn launch_checkpoint(cancelled: bool, hard_timeout_ms: u64) -> (r: Result<(), ViewerError>)
    ensures
        cancelled ==> (r matches Err(e) && e@ == spec_transport_viewer_error(TransportError::Cancelled, hard_timeout_ms)),
        !cancelled ==> r is Ok,
{
    if cancelled {
        return Err(transport_viewer_error(TransportError::Cancelled, hard_timeout_ms));
    }
    Ok(())
}

/// The end of a decode attempt: the render result, and whether the session
/// must be killed and dropped.
#[derive(Debug)]
pub struct Settlement {
    pub result: Result<DecodedRender, ViewerError>,
    pub discard_session: bool,
}

/// How a decode attempt ends. A cancellation wins over a timeout, which wins
/// over whatever the renderer produced; after any of them, a transport
/// failure or a killed job, the session is never used again.
pub fn settle_decode_attempt(
    render_result: Result<DecodedRender, ViewerError>,
    cancelled: bool,
    timed_out: bool,
    transport_failed: bool,
    session_killed: bool,
    hard_timeout_ms: u64,
) -> (s: Settlement)
    ensures
        s.discard_session == (cancelled || timed_out || transport_failed || session_killed),
        cancelled ==> (s.result matches Err(e) && e@ == spec_transport_viewer_error(
            TransportError::Cancelled,
            hard_timeout_ms,
        )),
        !cancelled && timed_out ==> (s.result matches Err(e) && e@ == spec_transport_viewer_error(
            TransportError::Timeout,
            hard_timeout_ms,
        )),
        !cancelled && !timed_out ==> s.result == render_result,
{
    let discard_session = cancelled || timed_out || transport_failed || session_killed;
    let result = if cancelled {
        Err(transport_viewer_error(TransportError::Cancelled, hard_timeout_ms))
    } else if timed_out {
        Err(transport_viewer_error(TransportError::Timeout, hard_timeout_ms))
    } else {
        render_result
    };
    Settlement { result, discard_session }
}

} // verus!
