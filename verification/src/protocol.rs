//! The fixed binary protocol between the viewer and its codec helper process.
//!
//! Every message starts with a 16-byte header: the magic `IMGVC001`, the
//! protocol version and the message kind as little-endian `u16`, and the
//! payload length as a little-endian `u32`. Payload lengths are validated per
//! kind before any payload byte is read or any buffer is allocated.
use vstd::bytes::*;
use vstd::prelude::*;

verus! {

pub const PROTOCOL_MAGIC: [u8; 8] = [73u8, 77u8, 71u8, 86u8, 67u8, 48u8, 48u8, 49u8];

pub const PROTOCOL_VERSION: u16 = 3;

pub const CODEC_HELPER_MEMORY_LIMIT_BYTES: usize = 805_306_368;

pub const CODEC_HELPER_DECODE_DEADLINE_MS: u64 = 30_000;

pub const HEADER_LEN: usize = 16;

pub const MAX_CONTROL_PAYLOAD_BYTES: u32 = 65_536;

pub const MAX_RENDER_BYTES: u32 = 536_870_912;

pub const MAX_RENDER_SIDE: u32 = 32_768;

pub const MAX_RENDER_PIXELS: u64 = 100_000_000;

pub const DECODE_REQUEST_LEN: u32 = 32;

pub const DECODE_SUCCESS_PREFIX_LEN: u32 = 24;

pub const DECODE_ERROR_LEN: u32 = 32;

pub const MAX_RENDER_PAYLOAD_BYTES: u32 = 536_870_936;

/// The magic bytes `IMGVC001` that open every header.
pub open spec fn spec_magic() -> Seq<u8> {
    seq![73u8, 77u8, 71u8, 86u8, 67u8, 48u8, 48u8, 49u8]
}

#[verifier::external_type_specification]
#[verifier::external_body]
pub struct ExIoErrorKind(std::io::ErrorKind);

#[derive(Clone, Copy, Debug, PartialEq, Eq, Structural)]
pub enum MessageKind {
    Hello,
    Ready,
    DecodeImage,
    DecodeSuccess,
    DecodeError,
    Shutdown,
}

pub open spec fn spec_kind_code(kind: MessageKind) -> u16 {
    match kind {
        MessageKind::Hello => 1,
        MessageKind::Ready => 2,
        MessageKind::DecodeImage => 3,
        MessageKind::DecodeSuccess => 4,
        MessageKind::DecodeError => 5,
        MessageKind::Shutdown => 6,
    }
}

pub open spec fn spec_kind_from_code(value: u16) -> Result<MessageKind, ProtocolError> {
    if value == 1 {
        Ok(MessageKind::Hello)
    } else if value == 2 {
        Ok(MessageKind::Ready)
    } else if value == 3 {
        Ok(MessageKind::DecodeImage)
    } else if value == 4 {
        Ok(MessageKind::DecodeSuccess)
    } else if value == 5 {
        Ok(MessageKind::DecodeError)
    } else if value == 6 {
        Ok(MessageKind::Shutdown)
    } else {
        Err(ProtocolError::UnknownMessageKind(value))
    }
}

impl MessageKind {
    pub fn code(self) -> (c: u16)
        ensures
            c == spec_kind_code(self),
    {
        match self {
            MessageKind::Hello => 1,
            MessageKind::Ready => 2,
            MessageKind::DecodeImage => 3,
            MessageKind::DecodeSuccess => 4,
            MessageKind::DecodeError => 5,
            MessageKind::Shutdown => 6,
        }
    }
}

impl TryFrom<u16> for MessageKind {
    type Error = ProtocolError;

    fn try_from(value: u16) -> (r: Result<Self, Self::Error>) {
        match value {
            1 => Ok(MessageKind::Hello),
            2 => Ok(MessageKind::Ready),
            3 => Ok(MessageKind::DecodeImage),
            4 => Ok(MessageKind::DecodeSuccess),
            5 => Ok(MessageKind::DecodeError),
            6 => Ok(MessageKind::Shutdown),
            _ => Err(ProtocolError::UnknownMessageKind(value)),
        }
    }
}

impl vstd::std_specs::convert::TryFromSpecImpl<u16> for MessageKind {
    open spec fn obeys_try_from_spec() -> bool {
        true
    }

    open spec fn try_from_spec(value: u16) -> Result<Self, ProtocolError> {
        spec_kind_from_code(value)
    }
}

/// Everything that can go wrong on the wire. Each variant carries only
/// numeric facts, never paths or decoder text.
#[derive(Clone, Copy, Debug, PartialEq, Eq)]
#[allow(inconsistent_fields)]
pub enum ProtocolError {
    Io(std::io::ErrorKind),
    TruncatedHeader { bytes_read: usize },
    TruncatedPayload { expected: usize, bytes_read: usize },
    InvalidMagic,
    UnsupportedVersion(u16),
    UnknownMessageKind(u16),
    UnknownCodecFormat(u16),
    UnknownWireErrorCode(u16),
    UnexpectedMessage { observed: MessageKind },
    PayloadTooLarge { kind: MessageKind, observed: u32, maximum: u32 },
    InvalidPayloadLength { kind: MessageKind, observed: u32, minimum: u32, maximum: u32 },
    RequestIdMismatch { expected: u64, observed: u64 },
    AllocationFailed { requested: u32 },
    InvalidRenderDimensions { width: u32, height: u32 },
    InvalidRgbaLength { expected: u32, observed: u32 },
    NonCanonicalReservedBytes,
}

/// The payload length rules of each message kind, checked in order: the
/// control or render size cap first, then the exact length range of the kind.
pub open spec fn spec_validate_header_payload(kind: MessageKind, payload_len: u32) -> Result<(), ProtocolError> {
    if kind != MessageKind::DecodeSuccess && payload_len > MAX_CONTROL_PAYLOAD_BYTES {
        Err(ProtocolError::PayloadTooLarge { kind, observed: payload_len, maximum: MAX_CONTROL_PAYLOAD_BYTES })
    } else if kind == MessageKind::DecodeSuccess && payload_len > MAX_RENDER_PAYLOAD_BYTES {
        Err(ProtocolError::PayloadTooLarge { kind, observed: payload_len, maximum: MAX_RENDER_PAYLOAD_BYTES })
    } else {
        let (minimum, maximum) = spec_payload_range(kind);
        if payload_len < minimum || payload_len > maximum {
            Err(ProtocolError::InvalidPayloadLength { kind, observed: payload_len, minimum, maximum })
        } else {
            Ok(())
        }
    }
}

/// The inclusive payload length range of each message kind.
pub open spec fn spec_payload_range(kind: MessageKind) -> (u32, u32) {
    match kind {
        MessageKind::Hello | MessageKind::Ready | MessageKind::Shutdown => (0, 0),
        MessageKind::DecodeImage => (DECODE_REQUEST_LEN, DECODE_REQUEST_LEN),
        MessageKind::DecodeError => (DECODE_ERROR_LEN, DECODE_ERROR_LEN),
        MessageKind::DecodeSuccess => (DECODE_SUCCESS_PREFIX_LEN, MAX_RENDER_PAYLOAD_BYTES),
    }
}

fn validate_header_payload(kind: MessageKind, payload_len: u32) -> (r: Result<(), ProtocolError>)
    ensures
        r == spec_validate_header_payload(kind, payload_len),
{
    if kind != MessageKind::DecodeSuccess && payload_len > MAX_CONTROL_PAYLOAD_BYTES {
        return Err(
            ProtocolError::PayloadTooLarge {
                kind,
                observed: payload_len,
                maximum: MAX_CONTROL_PAYLOAD_BYTES,
            },
        );
    }
    if kind == MessageKind::DecodeSuccess && payload_len > MAX_RENDER_PAYLOAD_BYTES {
        return Err(
            ProtocolError::PayloadTooLarge {
                kind,
                observed: payload_len,
                maximum: MAX_RENDER_PAYLOAD_BYTES,
            },
        );
    }
    let (minimum, maximum) = match kind {
        MessageKind::Hello | MessageKind::Ready | MessageKind::Shutdown => (0, 0),
        MessageKind::DecodeImage => (DECODE_REQUEST_LEN, DECODE_REQUEST_LEN),
        MessageKind::DecodeError => (DECODE_ERROR_LEN, DECODE_ERROR_LEN),
        MessageKind::DecodeSuccess => (DECODE_SUCCESS_PREFIX_LEN, MAX_RENDER_PAYLOAD_BYTES),
    };
    if payload_len < minimum || payload_len > maximum {
        return Err(ProtocolError::InvalidPayloadLength { kind, observed: payload_len, minimum, maximum });
    }
    Ok(())
}

/// A message header whose payload length is valid for its kind.
#[derive(Clone, Copy, Debug, PartialEq, Eq, Structural)]
pub struct Header {
    kind: MessageKind,
    payload_len: u32,
}

/// The mathematical content of a header: its kind and payload length.
pub struct HeaderView {
    pub kind: MessageKind,
    pub payload_len: u32,
}

impl View for Header {
    type V = HeaderView;

    closed spec fn view(&self) -> HeaderView {
        HeaderView { kind: self.kind, payload_len: self.payload_len }
    }
}

/// The view of a header result.
pub open spec fn header_result_view(r: Result<Header, ProtocolError>) -> Result<HeaderView, ProtocolError> {
    match r {
        Ok(h) => Ok(h@),
        Err(e) => Err(e),
    }
}

impl HeaderView {
    /// The payload length satisfies the rules of the kind.
    pub open spec fn wf(self) -> bool {
        spec_validate_header_payload(self.kind, self.payload_len) is Ok
    }
}

/// Two headers with the same view are the same header.
pub proof fn lemma_header_view_injective(a: Header, b: Header)
    requires
        a@ == b@,
    ensures
        a == b,
{
}

/// The 16 bytes of a header with the given kind and payload length.
pub open spec fn spec_header_bytes(h: HeaderView) -> Seq<u8> {
    spec_magic() + spec_u16_to_le_bytes(PROTOCOL_VERSION) + spec_u16_to_le_bytes(
        spec_kind_code(h.kind),
    ) + spec_u32_to_le_bytes(h.payload_len)
}

/// What decoding 16 header bytes yields: magic, then version, then kind, then
/// the payload rules.
pub open spec fn spec_header_decode(bytes: Seq<u8>) -> Result<HeaderView, ProtocolError> {
    if bytes.subrange(0, 8) != spec_magic() {
        Err(ProtocolError::InvalidMagic)
    } else if spec_u16_from_le_bytes(bytes.subrange(8, 10)) != PROTOCOL_VERSION {
        Err(ProtocolError::UnsupportedVersion(spec_u16_from_le_bytes(bytes.subrange(8, 10))))
    } else {
        match spec_kind_from_code(spec_u16_from_le_bytes(bytes.subrange(10, 12))) {
            Err(e) => Err(e),
            Ok(kind) => {
                let payload_len = spec_u32_from_le_bytes(bytes.subrange(12, 16));
                match spec_validate_header_payload(kind, payload_len) {
                    Err(e) => Err(e),
                    Ok(_) => Ok(HeaderView { kind, payload_len }),
                }
            },
        }
    }
}

impl Header {
    pub fn new(kind: MessageKind, payload_len: u32) -> (r: Result<Self, ProtocolError>)
        ensures
            header_result_view(r) == (match spec_validate_header_payload(kind, payload_len) {
                Ok(_) => Ok(HeaderView { kind, payload_len }),
                Err(e) => Err(e),
            }),
    {
        validate_header_payload(kind, payload_len)?;
        Ok(Header { kind, payload_len })
    }

    pub fn hello() -> (h: Self)
        ensures
            h@ == (HeaderView { kind: MessageKind::Hello, payload_len: 0 }),
            h@.wf(),
    {
        Header { kind: MessageKind::Hello, payload_len: 0 }
    }

    pub fn ready() -> (h: Self)
        ensures
            h@ == (HeaderView { kind: MessageKind::Ready, payload_len: 0 }),
            h@.wf(),
    {
        Header { kind: MessageKind::Ready, payload_len: 0 }
    }

    pub fn shutdown() -> (h: Self)
        ensures
            h@ == (HeaderView { kind: MessageKind::Shutdown, payload_len: 0 }),
            h@.wf(),
    {
        Header { kind: MessageKind::Shutdown, payload_len: 0 }
    }

    pub fn kind(self) -> (k: MessageKind)
        ensures
            k == self@.kind,
    {
        self.kind
    }

    pub fn payload_len(self) -> (n: u32)
        ensures
            n == self@.payload_len,
    {
        self.payload_len
    }

    pub fn encode(self) -> (bytes: [u8; 16])
        ensures
            bytes@ == spec_header_bytes(self@),
    {
        let version = u16_to_le_bytes(PROTOCOL_VERSION);
        let kind = u16_to_le_bytes(self.kind.code());
        let len = u32_to_le_bytes(self.payload_len);
        let bytes: [u8; 16] = [
            73u8,
            77u8,
            71u8,
            86u8,
            67u8,
            48u8,
            48u8,
            49u8,
            version[0],
            version[1],
            kind[0],
            kind[1],
            len[0],
            len[1],
            len[2],
            len[3],
        ];
        assert(bytes@ =~= spec_header_bytes(self@));
        bytes
    }

    pub fn decode(bytes: [u8; 16]) -> (r: Result<Self, ProtocolError>)
        ensures
            header_result_view(r) == spec_header_decode(bytes@),
    {
        if bytes[0] != 73u8 || bytes[1] != 77u8 || bytes[2] != 71u8 || bytes[3] != 86u8 || bytes[4]
            != 67u8 || bytes[5] != 48u8 || bytes[6] != 48u8 || bytes[7] != 49u8 {
            proof {
                if bytes@.subrange(0, 8) == spec_magic() {
                    assert(bytes@.subrange(0, 8)[0] == bytes@[0]);
                }
            }
            return Err(ProtocolError::InvalidMagic);
        }
        assert(bytes@.subrange(0, 8) =~= spec_magic());
        let version_bytes: [u8; 2] = [bytes[8], bytes[9]];
        assert(version_bytes@ =~= bytes@.subrange(8, 10));
        let version = u16_from_le_bytes(&version_bytes);
        if version != PROTOCOL_VERSION {
            return Err(ProtocolError::UnsupportedVersion(version));
        }
        let kind_bytes: [u8; 2] = [bytes[10], bytes[11]];
        assert(kind_bytes@ =~= bytes@.subrange(10, 12));
        let kind = MessageKind::try_from(u16_from_le_bytes(&kind_bytes))?;
        let len_bytes: [u8; 4] = [bytes[12], bytes[13], bytes[14], bytes[15]];
        assert(len_bytes@ =~= bytes@.subrange(12, 16));
        let payload_len = u32_from_le_bytes(&len_bytes);
        Self::new(kind, payload_len)
    }
}

#[derive(Clone, Copy, Debug, PartialEq, Eq, Structural)]
pub enum CodecFormat {
    Heif,
    Tiff,
}

pub open spec fn spec_format_code(format: CodecFormat) -> u16 {
    match format {
        CodecFormat::Heif => 1,
        CodecFormat::Tiff => 2,
    }
}

pub open spec fn spec_format_from_code(value: u16) -> Result<CodecFormat, ProtocolError> {
    if value == 1 {
        Ok(CodecFormat::Heif)
    } else if value == 2 {
        Ok(CodecFormat::Tiff)
    } else {
        Err(ProtocolError::UnknownCodecFormat(value))
    }
}

impl CodecFormat {
    pub fn code(self) -> (c: u16)
        ensures
            c == spec_format_code(self),
    {
        match self {
            CodecFormat::Heif => 1,
            CodecFormat::Tiff => 2,
        }
    }
}

impl TryFrom<u16> for CodecFormat {
    type Error = ProtocolError;

    fn try_from(value: u16) -> (r: Result<Self, Self::Error>) {
        match value {
            1 => Ok(CodecFormat::Heif),
            2 => Ok(CodecFormat::Tiff),
            _ => Err(ProtocolError::UnknownCodecFormat(value)),
        }
    }
}

impl vstd::std_specs::convert::TryFromSpecImpl<u16> for CodecFormat {
    open spec fn obeys_try_from_spec() -> bool {
        true
    }

    open spec fn try_from_spec(value: u16) -> Result<Self, ProtocolError> {
        spec_format_from_code(value)
    }
}

/// Asks the helper to decode the file behind a duplicated read-only handle.
#[derive(Clone, Copy, Debug, PartialEq, Eq, Structural)]
pub struct DecodeRequest {
    pub request_id: u64,
    pub duplicated_handle: u64,
    pub expected_length: u64,
    pub format: CodecFormat,
}

/// Six zero bytes: the reserved tail of requests and the reserved middle of
/// error responses.
pub open spec fn spec_zeros(n: nat) -> Seq<u8> {
    Seq::new(n, |i: int| 0u8)
}

/// The 32 payload bytes of a decode request.
pub open spec fn spec_request_bytes(r: DecodeRequest) -> Seq<u8> {
    spec_u64_to_le_bytes(r.request_id) + spec_u64_to_le_bytes(r.duplicated_handle)
        + spec_u64_to_le_bytes(r.expected_length) + spec_u16_to_le_bytes(spec_format_code(r.format))
        + spec_zeros(6)
}

/// What decoding 32 request bytes yields: reserved bytes first, then the format.
pub open spec fn spec_request_decode(bytes: Seq<u8>) -> Result<DecodeRequest, ProtocolError> {
    if bytes.subrange(26, 32) != spec_zeros(6) {
        Err(ProtocolError::NonCanonicalReservedBytes)
    } else {
        match spec_format_from_code(spec_u16_from_le_bytes(bytes.subrange(24, 26))) {
            Err(e) => Err(e),
            Ok(format) => Ok(
                DecodeRequest {
                    request_id: spec_u64_from_le_bytes(bytes.subrange(0, 8)),
                    duplicated_handle: spec_u64_from_le_bytes(bytes.subrange(8, 16)),
                    expected_length: spec_u64_from_le_bytes(bytes.subrange(16, 24)),
                    format,
                },
            ),
        }
    }
}

/// Reads the little-endian `u64` at `start` of a byte array.
fn u64_at<const N: usize>(bytes: &[u8; N], start: usize) -> (v: u64)
    requires
        start + 8 <= N,
    ensures
        v == spec_u64_from_le_bytes(bytes@.subrange(start as int, start + 8)),
{
    let part: [u8; 8] = [
        bytes[start],
        bytes[start + 1],
        bytes[start + 2],
        bytes[start + 3],
        bytes[start + 4],
        bytes[start + 5],
        bytes[start + 6],
        bytes[start + 7],
    ];
    assert(part@ =~= bytes@.subrange(start as int, start + 8));
    u64_from_le_bytes(&part)
}

/// Reads the little-endian `u32` at `start` of a byte array.
fn u32_at<const N: usize>(bytes: &[u8; N], start: usize) -> (v: u32)
    requires
        start + 4 <= N,
    ensures
        v == spec_u32_from_le_bytes(bytes@.subrange(start as int, start + 4)),
{
    let part: [u8; 4] = [bytes[start], bytes[start + 1], bytes[start + 2], bytes[start + 3]];
    assert(part@ =~= bytes@.subrange(start as int, start + 4));
    u32_from_le_bytes(&part)
}

/// Reads the little-endian `u16` at `start` of a byte array.
fn u16_at<const N: usize>(bytes: &[u8; N], start: usize) -> (v: u16)
    requires
        start + 2 <= N,
    ensures
        v == spec_u16_from_le_bytes(bytes@.subrange(start as int, start + 2)),
{
    let part: [u8; 2] = [bytes[start], bytes[start + 1]];
    assert(part@ =~= bytes@.subrange(start as int, start + 2));
    u16_from_le_bytes(&part)
}

/// Whether the bytes in `start..end` are all zero.
fn all_zero<const N: usize>(bytes: &[u8; N], start: usize, end: usize) -> (z: bool)
    requires
        start <= end <= N,
    ensures
        z == (bytes@.subrange(start as int, end as int) == spec_zeros((end - start) as nat)),
{
    let mut i = start;
    while i < end
        invariant
            start <= i <= end <= N,
            forall|j: int| start <= j < i ==> bytes@[j] == 0,
        decreases end - i,
    {
        if bytes[i] != 0 {
            proof {
                if bytes@.subrange(start as int, end as int) == spec_zeros((end - start) as nat) {
                    assert(bytes@.subrange(start as int, end as int)[i - start] == bytes@[i as int]);
                }
            }
            return false;
        }
        i = i + 1;
    }
    assert(bytes@.subrange(start as int, end as int) =~= spec_zeros((end - start) as nat));
    true
}

impl DecodeRequest {
    pub fn encode(self) -> (bytes: [u8; 32])
        ensures
            bytes@ == spec_request_bytes(self),
    {
        let id = u64_to_le_bytes(self.request_id);
        let handle = u64_to_le_bytes(self.duplicated_handle);
        let length = u64_to_le_bytes(self.expected_length);
        let format = u16_to_le_bytes(self.format.code());
        let bytes: [u8; 32] = [
            id[0],
            id[1],
            id[2],
            id[3],
            id[4],
            id[5],
            id[6],
            id[7],
            handle[0],
            handle[1],
            handle[2],
            handle[3],
            handle[4],
            handle[5],
            handle[6],
            handle[7],
            length[0],
            length[1],
            length[2],
            length[3],
            length[4],
            length[5],
            length[6],
            length[7],
            format[0],
            format[1],
            0u8,
            0u8,
            0u8,
            0u8,
            0u8,
            0u8,
        ];
        assert(bytes@ =~= spec_request_bytes(self));
        bytes
    }

    pub fn decode(bytes: [u8; 32]) -> (r: Result<Self, ProtocolError>)
        ensures
            r == spec_request_decode(bytes@),
    {
        if !all_zero(&bytes, 26, 32) {
            return Err(ProtocolError::NonCanonicalReservedBytes);
        }
        let format = CodecFormat::try_from(u16_at(&bytes, 24))?;
        Ok(
            DecodeRequest {
                request_id: u64_at(&bytes, 0),
                duplicated_handle: u64_at(&bytes, 8),
                expected_length: u64_at(&bytes, 16),
                format,
            },
        )
    }
}

#[derive(Clone, Copy, Debug, PartialEq, Eq, Structural)]
pub enum WireErrorCode {
    CorruptImage,
    FormatMismatch,
    FileTooLarge,
    DimensionsExceeded,
    DecodeLimitExceeded,
    UnsupportedBitDepth,
    UnsupportedColorProfile,
    IoError,
    InternalDecoderError,
    NotImplemented,
    InvalidHandle,
}

pub open spec fn spec_wire_code(code: WireErrorCode) -> u16 {
    match code {
        WireErrorCode::CorruptImage => 1,
        WireErrorCode::FormatMismatch => 2,
        WireErrorCode::FileTooLarge => 3,
        WireErrorCode::DimensionsExceeded => 4,
        WireErrorCode::DecodeLimitExceeded => 5,
        WireErrorCode::UnsupportedBitDepth => 6,
        WireErrorCode::UnsupportedColorProfile => 7,
        WireErrorCode::IoError => 8,
        WireErrorCode::InternalDecoderError => 9,
        WireErrorCode::NotImplemented => 10,
        WireErrorCode::InvalidHandle => 11,
    }
}

pub open spec fn spec_wire_code_from(value: u16) -> Result<WireErrorCode, ProtocolError> {
    if value == 1 {
        Ok(WireErrorCode::CorruptImage)
    } else if value == 2 {
        Ok(WireErrorCode::FormatMismatch)
    } else if value == 3 {
        Ok(WireErrorCode::FileTooLarge)
    } else if value == 4 {
        Ok(WireErrorCode::DimensionsExceeded)
    } else if value == 5 {
        Ok(WireErrorCode::DecodeLimitExceeded)
    } else if value == 6 {
        Ok(WireErrorCode::UnsupportedBitDepth)
    } else if value == 7 {
        Ok(WireErrorCode::UnsupportedColorProfile)
    } else if value == 8 {
        Ok(WireErrorCode::IoError)
    } else if value == 9 {
        Ok(WireErrorCode::InternalDecoderError)
    } else if value == 10 {
        Ok(WireErrorCode::NotImplemented)
    } else if value == 11 {
        Ok(WireErrorCode::InvalidHandle)
    } else {
        Err(ProtocolError::UnknownWireErrorCode(value))
    }
}

impl WireErrorCode {
    pub fn code(self) -> (c: u16)
        ensures
            c == spec_wire_code(self),
    {
        match self {
            WireErrorCode::CorruptImage => 1,
            WireErrorCode::FormatMismatch => 2,
            WireErrorCode::FileTooLarge => 3,
            WireErrorCode::DimensionsExceeded => 4,
            WireErrorCode::DecodeLimitExceeded => 5,
            WireErrorCode::UnsupportedBitDepth => 6,
            WireErrorCode::UnsupportedColorProfile => 7,
            WireErrorCode::IoError => 8,
            WireErrorCode::InternalDecoderError => 9,
            WireErrorCode::NotImplemented => 10,
            WireErrorCode::InvalidHandle => 11,
        }
    }
}

impl TryFrom<u16> for WireErrorCode {
    type Error = ProtocolError;

    fn try_from(value: u16) -> (r: Result<Self, Self::Error>) {
        match value {
            1 => Ok(WireErrorCode::CorruptImage),
            2 => Ok(WireErrorCode::FormatMismatch),
            3 => Ok(WireErrorCode::FileTooLarge),
            4 => Ok(WireErrorCode::DimensionsExceeded),
            5 => Ok(WireErrorCode::DecodeLimitExceeded),
            6 => Ok(WireErrorCode::UnsupportedBitDepth),
            7 => Ok(WireErrorCode::UnsupportedColorProfile),
            8 => Ok(WireErrorCode::IoError),
            9 => Ok(WireErrorCode::InternalDecoderError),
            10 => Ok(WireErrorCode::NotImplemented),
            11 => Ok(WireErrorCode::InvalidHandle),
            _ => Err(ProtocolError::UnknownWireErrorCode(value)),
        }
    }
}

impl vstd::std_specs::convert::TryFromSpecImpl<u16> for WireErrorCode {
    open spec fn obeys_try_from_spec() -> bool {
        true
    }

    open spec fn try_from_spec(value: u16) -> Result<Self, ProtocolError> {
        spec_wire_code_from(value)
    }
}

/// A numeric decode failure reported by the helper.
#[derive(Clone, Copy, Debug, PartialEq, Eq, Structural)]
pub struct DecodeError {
    pub request_id: u64,
    pub code: WireErrorCode,
    pub arg0: u64,
    pub arg1: u64,
}

/// The 32 payload bytes of a decode error.
pub open spec fn spec_error_bytes(e: DecodeError) -> Seq<u8> {
    spec_u64_to_le_bytes(e.request_id) + spec_u16_to_le_bytes(spec_wire_code(e.code)) + spec_zeros(
        6,
    ) + spec_u64_to_le_bytes(e.arg0) + spec_u64_to_le_bytes(e.arg1)
}

/// What decoding 32 error bytes yields: reserved bytes first, then the code.
pub open spec fn spec_error_decode(bytes: Seq<u8>) -> Result<DecodeError, ProtocolError> {
    if bytes.subrange(10, 16) != spec_zeros(6) {
        Err(ProtocolError::NonCanonicalReservedBytes)
    } else {
        match spec_wire_code_from(spec_u16_from_le_bytes(bytes.subrange(8, 10))) {
            Err(e) => Err(e),
            Ok(code) => Ok(
                DecodeError {
                    request_id: spec_u64_from_le_bytes(bytes.subrange(0, 8)),
                    code,
                    arg0: spec_u64_from_le_bytes(bytes.subrange(16, 24)),
                    arg1: spec_u64_from_le_bytes(bytes.subrange(24, 32)),
                },
            ),
        }
    }
}

impl DecodeError {
    pub fn encode(self) -> (bytes: [u8; 32])
        ensures
            bytes@ == spec_error_bytes(self),
    {
        let id = u64_to_le_bytes(self.request_id);
        let code = u16_to_le_bytes(self.code.code());
        let arg0 = u64_to_le_bytes(self.arg0);
        let arg1 = u64_to_le_bytes(self.arg1);
        let bytes: [u8; 32] = [
            id[0],
            id[1],
            id[2],
            id[3],
            id[4],
            id[5],
            id[6],
            id[7],
            code[0],
            code[1],
            0u8,
            0u8,
            0u8,
            0u8,
            0u8,
            0u8,
            arg0[0],
            arg0[1],
            arg0[2],
            arg0[3],
            arg0[4],
            arg0[5],
            arg0[6],
            arg0[7],
            arg1[0],
            arg1[1],
            arg1[2],
            arg1[3],
            arg1[4],
            arg1[5],
            arg1[6],
            arg1[7],
        ];
        assert(bytes@ =~= spec_error_bytes(self));
        bytes
    }

    pub fn decode(bytes: [u8; 32]) -> (r: Result<Self, ProtocolError>)
        ensures
            r == spec_error_decode(bytes@),
    {
        if !all_zero(&bytes, 10, 16) {
            return Err(ProtocolError::NonCanonicalReservedBytes);
        }
        let code = WireErrorCode::try_from(u16_at(&bytes, 8))?;
        Ok(
            DecodeError {
                request_id: u64_at(&bytes, 0),
                code,
                arg0: u64_at(&bytes, 16),
                arg1: u64_at(&bytes, 24),
            },
        )
    }
}

/// A decoded RGBA8 render returned by the helper.
#[derive(Clone, Debug, PartialEq, Eq)]
pub struct DecodeSuccess {
    pub request_id: u64,
    pub width: u32,
    pub height: u32,
    pub rgba: Vec<u8>,
}

#[derive(Clone, Debug, PartialEq, Eq)]
pub enum DecodeResponse {
    Success(DecodeSuccess),
    Error(DecodeError),
}

/// The mathematical content of a decode response.
pub enum ResponseView {
    Success { request_id: u64, width: u32, height: u32, rgba: Seq<u8> },
    Error(DecodeError),
}

impl View for DecodeResponse {
    type V = ResponseView;

    open spec fn view(&self) -> ResponseView {
        match self {
            DecodeResponse::Success(s) => ResponseView::Success {
                request_id: s.request_id,
                width: s.width,
                height: s.height,
                rgba: s.rgba@,
            },
            DecodeResponse::Error(e) => ResponseView::Error(*e),
        }
    }
}

#[derive(Clone, Copy, Debug, PartialEq, Eq, Structural)]
pub enum HelperCommand {
    DecodeImage(DecodeRequest),
    Shutdown,
}

/// A stream of bytes read in chunks.
///
/// The model of a source is the sequence of bytes it will still deliver,
/// followed by how it ends: cleanly, or with an I/O error once those bytes are
/// exhausted. A read never reports an interrupted call.
pub trait ByteSource {
    /// The bytes the source will still deliver.
    spec fn pending(&self) -> Seq<u8>;

    /// How the source ends once `pending` is exhausted (`None`: end of stream).
    spec fn end_error(&self) -> Option<std::io::ErrorKind>;

    /// Appends at least one and at most `max` pending bytes to `buf`; reports
    /// `Ok(0)` at the end of the stream and the final error after it.
    fn read_some(&mut self, buf: &mut Vec<u8>, max: usize) -> (r: Result<usize, std::io::ErrorKind>)
        requires
            max > 0,
        ensures
            final(self).end_error() == old(self).end_error(),
            old(self).pending().len() == 0 && old(self).end_error() is None ==> {
                &&& r == Ok::<usize, std::io::ErrorKind>(0)
                &&& final(buf)@ == old(buf)@
                &&& final(self).pending().len() == 0
            },
            old(self).pending().len() == 0 && old(self).end_error() is Some ==> {
                &&& r == Err::<usize, std::io::ErrorKind>(old(self).end_error()->0)
                &&& final(buf)@ == old(buf)@
                &&& final(self).pending().len() == 0
            },
            old(self).pending().len() > 0 ==> {
                &&& r is Ok
                &&& 0 < r->Ok_0 <= max
                &&& r->Ok_0 <= old(self).pending().len()
                &&& final(buf)@ == old(buf)@ + old(self).pending().take(r->Ok_0 as int)
                &&& final(self).pending() == old(self).pending().skip(r->Ok_0 as int)
            },
    ;
}

/// A sink that accepts whole byte strings.
///
/// The model of a sink is what it has accepted so far, and whether it accepts
/// every write (an in-memory buffer does; a pipe may fail).
pub trait ByteSink {
    spec fn written(&self) -> Seq<u8>;

    spec fn accepts_all(&self) -> bool;

    /// What the next flush reports in the sink's current state.
    spec fn flush_outcome(&self) -> Result<(), std::io::ErrorKind>;

    /// The kind of error the sink reports when a write or flush fails.
    spec fn failure_kind(&self) -> std::io::ErrorKind;

    /// Writes all of `bytes`; on failure some prefix of them was written.
    fn write_all_bytes(&mut self, bytes: &[u8]) -> (r: Result<(), std::io::ErrorKind>)
        ensures
            final(self).accepts_all() == old(self).accepts_all(),
            final(self).failure_kind() == old(self).failure_kind(),
            old(self).accepts_all() ==> r is Ok,
            r matches Err(k) ==> k == old(self).failure_kind(),
            r is Ok ==> final(self).written() == old(self).written() + bytes@,
            r is Err ==> exists|n: int|
                0 <= n <= bytes@.len() && final(self).written() == old(self).written() + bytes@.take(n),
    ;

    /// Pushes buffered bytes to their destination.
    fn flush_bytes(&mut self) -> (r: Result<(), std::io::ErrorKind>)
        ensures
            final(self).accepts_all() == old(self).accepts_all(),
            final(self).failure_kind() == old(self).failure_kind(),
            final(self).written() == old(self).written(),
            r == old(self).flush_outcome(),
            r matches Err(k) ==> k == old(self).failure_kind(),
            old(self).accepts_all() ==> r is Ok,
    ;
}

impl ByteSink for Vec<u8> {
    open spec fn written(&self) -> Seq<u8> {
        self@
    }

    open spec fn accepts_all(&self) -> bool {
        true
    }

    open spec fn flush_outcome(&self) -> Result<(), std::io::ErrorKind> {
        Ok(())
    }

    /// An in-memory buffer never fails, so its failure kind is immaterial.
    open spec fn failure_kind(&self) -> std::io::ErrorKind {
        vstd::pervasive::arbitrary()
    }

    fn write_all_bytes(&mut self, bytes: &[u8]) -> (r: Result<(), std::io::ErrorKind>) {
        self.extend_from_slice(bytes);
        assert(self@ =~= old(self)@ + bytes@);
        Ok(())
    }

    fn flush_bytes(&mut self) -> (r: Result<(), std::io::ErrorKind>) {
        Ok(())
    }
}

/// An in-memory byte source over an owned buffer.
pub struct ByteReader {
    data: Vec<u8>,
    position: usize,
}

impl ByteReader {
    #[verifier::type_invariant]
    spec fn position_in_bounds(self) -> bool {
        self.position <= self.data@.len()
    }

    pub closed spec fn data(&self) -> Seq<u8> {
        self.data@
    }

    pub closed spec fn spec_position(&self) -> nat {
        self.position as nat
    }

    pub fn new(data: Vec<u8>) -> (r: Self)
        ensures
            r.pending() == data@,
            r.end_error() is None,
            r.data() == data@,
            r.spec_position() == 0,
    {
        let r = ByteReader { data, position: 0 };
        assert(r.data@.skip(0) =~= r.data@);
        r
    }

    /// How many bytes have been read so far.
    pub fn position(&self) -> (p: usize)
        ensures
            p == self.spec_position(),
    {
        self.position
    }

    /// The whole underlying buffer.
    pub fn get_ref(&self) -> (d: &Vec<u8>)
        ensures
            d@ == self.data(),
    {
        &self.data
    }
}

impl ByteSource for ByteReader {
    closed spec fn pending(&self) -> Seq<u8> {
        if self.position <= self.data@.len() {
            self.data@.skip(self.position as int)
        } else {
            Seq::empty()
        }
    }

    open spec fn end_error(&self) -> Option<std::io::ErrorKind> {
        None
    }

    fn read_some(&mut self, buf: &mut Vec<u8>, max: usize) -> (r: Result<usize, std::io::ErrorKind>) {
        proof {
            use_type_invariant(&*self);
        }
        let start = self.position;
        let available = self.data.len() - start;
        let n = if available < max {
            available
        } else {
            max
        };
        let ghost before = buf@;
        let ghost pending = self.pending();
        let mut i: usize = 0;
        while i < n
            invariant
                n <= available,
                available == self.data.len() - start,
                start == self.position,
                start <= self.data@.len(),
                pending == self.data@.skip(start as int),
                i <= n,
                buf@ == before + pending.take(i as int),
            decreases n - i,
        {
            buf.push(self.data[start + i]);
            assert(pending.take(i + 1) =~= pending.take(i as int).push(self.data@[start + i]));
            i = i + 1;
        }
        self.position = self.position + n;
        assert(self.data@.skip(self.position as int) =~= pending.skip(n as int));
        Ok(n)
    }
}

/// Reading exactly `len` bytes from a stream with `stream` pending that ends
/// with `end`: the bytes, or the truncation (or I/O) error.
pub open spec fn spec_read_exact(stream: Seq<u8>, end: Option<std::io::ErrorKind>, len: nat, header: bool) -> Result<Seq<u8>, ProtocolError> {
    if stream.len() >= len {
        Ok(stream.take(len as int))
    } else {
        match end {
            Some(kind) => Err(ProtocolError::Io(kind)),
            None => if header {
                Err(ProtocolError::TruncatedHeader { bytes_read: stream.len() as usize })
            } else {
                Err(ProtocolError::TruncatedPayload { expected: len as usize, bytes_read: stream.len() as usize })
            },
        }
    }
}

/// The stream left after reading `len` bytes (nothing, when it was too short).
pub open spec fn spec_after_read(stream: Seq<u8>, len: nat) -> Seq<u8> {
    if stream.len() >= len {
        stream.skip(len as int)
    } else {
        Seq::empty()
    }
}

/// Appends exactly `len` bytes from `reader` to `bytes`, reporting how many
/// were available when the stream ended early.
pub fn read_exact_counted<R: ByteSource>(reader: &mut R, bytes: &mut Vec<u8>, len: usize, header: bool) -> (r: Result<(), ProtocolError>)
    ensures
        final(reader).end_error() == old(reader).end_error(),
        final(reader).pending() == spec_after_read(old(reader).pending(), len as nat),
        match spec_read_exact(old(reader).pending(), old(reader).end_error(), len as nat, header) {
            Ok(read) => r is Ok && final(bytes)@ == old(bytes)@ + read,
            Err(e) => r == Err::<(), ProtocolError>(e),
        },
{
    let ghost initial = bytes@;
    let ghost stream = reader.pending();
    let ghost end = reader.end_error();
    let mut bytes_read: usize = 0;
    let mut failure: Option<ProtocolError> = None;
    while bytes_read < len && failure.is_none()
        invariant
            bytes_read <= len,
            bytes_read <= stream.len(),
            bytes@ == initial + stream.take(bytes_read as int),
            reader.end_error() == end,
            failure is None ==> reader.pending() == stream.skip(bytes_read as int),
            failure is Some ==> {
                &&& reader.pending().len() == 0
                &&& stream.len() == bytes_read
                &&& bytes_read < len
                &&& failure == Some(spec_read_exact(stream, end, len as nat, header)->Err_0)
                &&& spec_read_exact(stream, end, len as nat, header) is Err
            },
        decreases len - bytes_read, (if failure is None { 1int } else { 0int }),
    {
        match reader.read_some(bytes, len - bytes_read) {
            Ok(0) => {
                if header {
                    failure = Some(ProtocolError::TruncatedHeader { bytes_read });
                } else {
                    failure = Some(ProtocolError::TruncatedPayload { expected: len, bytes_read });
                }
            },
            Ok(count) => {
                assert(stream.take(bytes_read + count) =~= stream.take(bytes_read as int)
                    + stream.skip(bytes_read as int).take(count as int));
                assert(stream.skip(bytes_read as int).skip(count as int) =~= stream.skip(bytes_read + count));
                bytes_read = bytes_read + count;
            },
            Err(kind) => {
                failure = Some(ProtocolError::Io(kind));
            },
        }
    }
    match failure {
        Some(e) => Err(e),
        None => {
            assert(stream.skip(bytes_read as int) =~= stream.skip(len as int));
            assert(stream.take(bytes_read as int) =~= stream.take(len as int));
            Ok(())
        },
    }
}

/// Reading one header from a stream: the header (or the error) and the
/// stream left.
pub open spec fn spec_read_header(stream: Seq<u8>, end: Option<std::io::ErrorKind>) -> (Result<HeaderView, ProtocolError>, Seq<u8>) {
    (
        match spec_read_exact(stream, end, 16, true) {
            Ok(bytes) => spec_header_decode(bytes),
            Err(e) => Err(e),
        },
        spec_after_read(stream, 16),
    )
}

pub fn read_header<R: ByteSource>(reader: &mut R) -> (r: Result<Header, ProtocolError>)
    ensures
        final(reader).end_error() == old(reader).end_error(),
        (header_result_view(r), final(reader).pending()) == spec_read_header(old(reader).pending(), old(reader).end_error()),
{
    let mut buffer: Vec<u8> = Vec::with_capacity(HEADER_LEN);
    read_exact_counted(reader, &mut buffer, HEADER_LEN, true)?;
    let bytes: [u8; 16] = [
        buffer[0],
        buffer[1],
        buffer[2],
        buffer[3],
        buffer[4],
        buffer[5],
        buffer[6],
        buffer[7],
        buffer[8],
        buffer[9],
        buffer[10],
        buffer[11],
        buffer[12],
        buffer[13],
        buffer[14],
        buffer[15],
    ];
    assert(bytes@ =~= buffer@);
    Header::decode(bytes)
}

/// What a write of `message` did to a sink that held `before` and now holds
/// `after`: everything on success, a prefix on an I/O failure.
pub open spec fn spec_write_outcome(before: Seq<u8>, after: Seq<u8>, message: Seq<u8>, r: Result<(), ProtocolError>) -> bool {
    match r {
        Ok(_) => after == before + message,
        Err(ProtocolError::Io(_)) => exists|n: int| 0 <= n <= message.len() && after == before + message.take(n),
        Err(_) => false,
    }
}

/// A successful write of `a` followed by a write of `b` is a write of `a + b`.
proof fn lemma_write_outcome_concat(before: Seq<u8>, middle: Seq<u8>, after: Seq<u8>, a: Seq<u8>, b: Seq<u8>, r: Result<(), ProtocolError>)
    requires
        middle == before + a,
        spec_write_outcome(middle, after, b, r),
    ensures
        spec_write_outcome(before, after, a + b, r),
{
    match r {
        Ok(_) => {
            assert(after =~= before + (a + b));
        },
        Err(ProtocolError::Io(_)) => {
            let n = choose|n: int| 0 <= n <= b.len() && after == middle + b.take(n);
            assert((a + b).take(a.len() + n) =~= a + b.take(n));
            assert(after =~= before + (a + b).take(a.len() + n));
        },
        Err(_) => {},
    }
}

/// A failed first write of `a` is a failed write of `a + b`.
proof fn lemma_write_outcome_prefix(before: Seq<u8>, after: Seq<u8>, a: Seq<u8>, b: Seq<u8>, r: Result<(), ProtocolError>)
    requires
        r is Err,
        spec_write_outcome(before, after, a, r),
    ensures
        spec_write_outcome(before, after, a + b, r),
{
    let n = choose|n: int| 0 <= n <= a.len() && after == before + a.take(n);
    assert((a + b).take(n) =~= a.take(n));
}

fn write_bytes<W: ByteSink>(writer: &mut W, bytes: &[u8]) -> (r: Result<(), ProtocolError>)
    ensures
        final(writer).accepts_all() == old(writer).accepts_all(),
        final(writer).failure_kind() == old(writer).failure_kind(),
        r matches Err(ProtocolError::Io(k)) ==> k == old(writer).failure_kind(),
        old(writer).accepts_all() ==> r is Ok,
        spec_write_outcome(old(writer).written(), final(writer).written(), bytes@, r),
{
    match writer.write_all_bytes(bytes) {
        Ok(()) => Ok(()),
        Err(kind) => Err(ProtocolError::Io(kind)),
    }
}

/// Writes `a` and then `b`, stopping at the first failure.
fn write_both<W: ByteSink>(writer: &mut W, a: &[u8], b: &[u8]) -> (r: Result<(), ProtocolError>)
    ensures
        final(writer).accepts_all() == old(writer).accepts_all(),
        final(writer).failure_kind() == old(writer).failure_kind(),
        r matches Err(ProtocolError::Io(k)) ==> k == old(writer).failure_kind(),
        old(writer).accepts_all() ==> r is Ok,
        spec_write_outcome(old(writer).written(), final(writer).written(), a@ + b@, r),
{
    let ghost before = writer.written();
    let first = write_bytes(writer, a);
    if first.is_err() {
        proof {
            lemma_write_outcome_prefix(before, writer.written(), a@, b@, first);
        }
        return first;
    }
    let ghost middle = writer.written();
    let second = write_bytes(writer, b);
    proof {
        lemma_write_outcome_concat(before, middle, writer.written(), a@, b@, second);
    }
    second
}

pub fn write_header<W: ByteSink>(writer: &mut W, header: Header) -> (r: Result<(), ProtocolError>)
    ensures
        final(writer).accepts_all() == old(writer).accepts_all(),
        final(writer).failure_kind() == old(writer).failure_kind(),
        r matches Err(ProtocolError::Io(k)) ==> k == old(writer).failure_kind(),
        old(writer).accepts_all() ==> r is Ok,
        spec_write_outcome(old(writer).written(), final(writer).written(), spec_header_bytes(header@), r),
{
    write_bytes(writer, &header.encode())
}

pub fn write_hello<W: ByteSink>(writer: &mut W) -> (r: Result<(), ProtocolError>)
    ensures
        final(writer).accepts_all() == old(writer).accepts_all(),
        final(writer).failure_kind() == old(writer).failure_kind(),
        r matches Err(ProtocolError::Io(k)) ==> k == old(writer).failure_kind(),
        old(writer).accepts_all() ==> r is Ok,
        spec_write_outcome(
            old(writer).written(),
            final(writer).written(),
            spec_header_bytes(HeaderView { kind: MessageKind::Hello, payload_len: 0 }),
            r,
        ),
{
    write_header(writer, Header::hello())
}

pub fn write_ready<W: ByteSink>(writer: &mut W) -> (r: Result<(), ProtocolError>)
    ensures
        final(writer).accepts_all() == old(writer).accepts_all(),
        final(writer).failure_kind() == old(writer).failure_kind(),
        r matches Err(ProtocolError::Io(k)) ==> k == old(writer).failure_kind(),
        old(writer).accepts_all() ==> r is Ok,
        spec_write_outcome(
            old(writer).written(),
            final(writer).written(),
            spec_header_bytes(HeaderView { kind: MessageKind::Ready, payload_len: 0 }),
            r,
        ),
{
    write_header(writer, Header::ready())
}

pub fn write_shutdown<W: ByteSink>(writer: &mut W) -> (r: Result<(), ProtocolError>)
    ensures
        final(writer).accepts_all() == old(writer).accepts_all(),
        final(writer).failure_kind() == old(writer).failure_kind(),
        r matches Err(ProtocolError::Io(k)) ==> k == old(writer).failure_kind(),
        old(writer).accepts_all() ==> r is Ok,
        spec_write_outcome(
            old(writer).written(),
            final(writer).written(),
            spec_header_bytes(HeaderView { kind: MessageKind::Shutdown, payload_len: 0 }),
            r,
        ),
{
    write_header(writer, Header::shutdown())
}

/// The bytes of a decode-request message.
pub open spec fn spec_request_message(request: DecodeRequest) -> Seq<u8> {
    spec_header_bytes(HeaderView { kind: MessageKind::DecodeImage, payload_len: DECODE_REQUEST_LEN })
        + spec_request_bytes(request)
}

pub fn write_decode_request<W: ByteSink>(writer: &mut W, request: DecodeRequest) -> (r: Result<(), ProtocolError>)
    ensures
        final(writer).accepts_all() == old(writer).accepts_all(),
        final(writer).failure_kind() == old(writer).failure_kind(),
        r matches Err(ProtocolError::Io(k)) ==> k == old(writer).failure_kind(),
        old(writer).accepts_all() ==> r is Ok,
        spec_write_outcome(old(writer).written(), final(writer).written(), spec_request_message(request), r),
{
    let header = Header::new(MessageKind::DecodeImage, DECODE_REQUEST_LEN)?;
    write_both(writer, &header.encode(), &request.encode())
}

/// The bytes of a decode-error message.
pub open spec fn spec_error_message(error: DecodeError) -> Seq<u8> {
    spec_header_bytes(HeaderView { kind: MessageKind::DecodeError, payload_len: DECODE_ERROR_LEN })
        + spec_error_bytes(error)
}

pub fn write_decode_error<W: ByteSink>(writer: &mut W, error: DecodeError) -> (r: Result<(), ProtocolError>)
    ensures
        final(writer).accepts_all() == old(writer).accepts_all(),
        final(writer).failure_kind() == old(writer).failure_kind(),
        r matches Err(ProtocolError::Io(k)) ==> k == old(writer).failure_kind(),
        old(writer).accepts_all() ==> r is Ok,
        spec_write_outcome(old(writer).written(), final(writer).written(), spec_error_message(error), r),
{
    let header = Header::new(MessageKind::DecodeError, DECODE_ERROR_LEN)?;
    write_both(writer, &header.encode(), &error.encode())
}

fn require_message(header: Header, expected: MessageKind) -> (r: Result<(), ProtocolError>)
    ensures
        r == (if header@.kind != expected {
            Err(ProtocolError::UnexpectedMessage { observed: header@.kind })
        } else {
            Ok(())
        }),
{
    if header.kind() != expected {
        return Err(ProtocolError::UnexpectedMessage { observed: header.kind() });
    }
    Ok(())
}

/// Reading a header that must be of kind `expected` and carries no payload.
pub open spec fn spec_read_control(stream: Seq<u8>, end: Option<std::io::ErrorKind>, expected: MessageKind) -> (Result<(), ProtocolError>, Seq<u8>) {
    let (header, rest) = spec_read_header(stream, end);
    (
        match header {
            Err(e) => Err(e),
            Ok(h) => if h.kind != expected {
                Err(ProtocolError::UnexpectedMessage { observed: h.kind })
            } else {
                Ok(())
            },
        },
        rest,
    )
}

pub fn read_hello<R: ByteSource>(reader: &mut R) -> (r: Result<(), ProtocolError>)
    ensures
        final(reader).end_error() == old(reader).end_error(),
        (r, final(reader).pending()) == spec_read_control(old(reader).pending(), old(reader).end_error(), MessageKind::Hello),
{
    require_message(read_header(reader)?, MessageKind::Hello)
}

pub fn read_ready<R: ByteSource>(reader: &mut R) -> (r: Result<(), ProtocolError>)
    ensures
        final(reader).end_error() == old(reader).end_error(),
        (r, final(reader).pending()) == spec_read_control(old(reader).pending(), old(reader).end_error(), MessageKind::Ready),
{
    require_message(read_header(reader)?, MessageKind::Ready)
}

/// Reading one command from the viewer: a decode request with its payload, or
/// a shutdown.
pub open spec fn spec_read_command(stream: Seq<u8>, end: Option<std::io::ErrorKind>) -> (Result<HelperCommand, ProtocolError>, Seq<u8>) {
    let (header, rest) = spec_read_header(stream, end);
    match header {
        Err(e) => (Err(e), rest),
        Ok(h) => match h.kind {
            MessageKind::DecodeImage => (
                match spec_read_exact(rest, end, DECODE_REQUEST_LEN as nat, false) {
                    Err(e) => Err(e),
                    Ok(bytes) => match spec_request_decode(bytes) {
                        Err(e) => Err(e),
                        Ok(request) => Ok(HelperCommand::DecodeImage(request)),
                    },
                },
                spec_after_read(rest, DECODE_REQUEST_LEN as nat),
            ),
            MessageKind::Shutdown => (Ok(HelperCommand::Shutdown), rest),
            observed => (Err(ProtocolError::UnexpectedMessage { observed }), rest),
        },
    }
}

/// Copies the first 32 bytes of a buffer into an array.
fn prefix_array32(buffer: &Vec<u8>) -> (bytes: [u8; 32])
    requires
        buffer@.len() >= 32,
    ensures
        bytes@ == buffer@.take(32),
{
    let bytes: [u8; 32] = [
        buffer[0],
        buffer[1],
        buffer[2],
        buffer[3],
        buffer[4],
        buffer[5],
        buffer[6],
        buffer[7],
        buffer[8],
        buffer[9],
        buffer[10],
        buffer[11],
        buffer[12],
        buffer[13],
        buffer[14],
        buffer[15],
        buffer[16],
        buffer[17],
        buffer[18],
        buffer[19],
        buffer[20],
        buffer[21],
        buffer[22],
        buffer[23],
        buffer[24],
        buffer[25],
        buffer[26],
        buffer[27],
        buffer[28],
        buffer[29],
        buffer[30],
        buffer[31],
    ];
    assert(bytes@ =~= buffer@.take(32));
    bytes
}

pub fn read_helper_command<R: ByteSource>(reader: &mut R) -> (r: Result<HelperCommand, ProtocolError>)
    ensures
        final(reader).end_error() == old(reader).end_error(),
        (r, final(reader).pending()) == spec_read_command(old(reader).pending(), old(reader).end_error()),
{
    let header = read_header(reader)?;
    match header.kind() {
        MessageKind::DecodeImage => {
            let mut buffer: Vec<u8> = Vec::with_capacity(32);
            read_exact_counted(reader, &mut buffer, 32, false)?;
            assert(buffer@ =~= buffer@.take(32));
            let bytes = prefix_array32(&buffer);
            Ok(HelperCommand::DecodeImage(DecodeRequest::decode(bytes)?))
        },
        MessageKind::Shutdown => Ok(HelperCommand::Shutdown),
        observed => Err(ProtocolError::UnexpectedMessage { observed }),
    }
}

fn validate_request_id(expected: u64, observed: u64) -> (r: Result<(), ProtocolError>)
    ensures
        r == (if observed != expected {
            Err(ProtocolError::RequestIdMismatch { expected, observed })
        } else {
            Ok(())
        }),
{
    if observed != expected {
        return Err(ProtocolError::RequestIdMismatch { expected, observed });
    }
    Ok(())
}

/// The RGBA8 length of a render of `width` x `height`, when both sides are
/// positive and within the side, pixel and byte limits.
pub open spec fn spec_render_dimensions(width: u32, height: u32) -> Result<u32, ProtocolError> {
    if width == 0 || height == 0 || width > MAX_RENDER_SIDE || height > MAX_RENDER_SIDE || width
        * height > MAX_RENDER_PIXELS || 4 * width * height > MAX_RENDER_BYTES {
        Err(ProtocolError::InvalidRenderDimensions { width, height })
    } else {
        Ok((4 * width * height) as u32)
    }
}

fn validate_render_dimensions(width: u32, height: u32) -> (r: Result<u32, ProtocolError>)
    ensures
        r == spec_render_dimensions(width, height),
{
    let pixels = match (width as u64).checked_mul(height as u64) {
        Some(pixels) => pixels,
        None => {
            return Err(ProtocolError::InvalidRenderDimensions { width, height });
        },
    };
    if width == 0 || height == 0 || width > MAX_RENDER_SIDE || height > MAX_RENDER_SIDE || pixels
        > MAX_RENDER_PIXELS {
        return Err(ProtocolError::InvalidRenderDimensions { width, height });
    }
    let rgba_len = match pixels.checked_mul(4) {
        Some(length) => length,
        None => {
            return Err(ProtocolError::InvalidRenderDimensions { width, height });
        },
    };
    if rgba_len > MAX_RENDER_BYTES as u64 {
        return Err(ProtocolError::InvalidRenderDimensions { width, height });
    }
    assert(rgba_len == 4 * width * height) by (nonlinear_arith)
        requires
            pixels == width * height,
            rgba_len == pixels * 4,
    ;
    Ok(rgba_len as u32)
}

/// The checks of a render before it is sent: dimensions, then the length cap,
/// then the exact RGBA8 length. On success, the RGBA length as `u32`.
pub open spec fn spec_success_check(width: u32, height: u32, rgba_len: nat) -> Result<u32, ProtocolError> {
    match spec_render_dimensions(width, height) {
        Err(e) => Err(e),
        Ok(expected) => if rgba_len > u32::MAX {
            Err(ProtocolError::PayloadTooLarge { kind: MessageKind::DecodeSuccess, observed: u32::MAX, maximum: MAX_RENDER_BYTES })
        } else if rgba_len > MAX_RENDER_BYTES {
            Err(ProtocolError::PayloadTooLarge { kind: MessageKind::DecodeSuccess, observed: rgba_len as u32, maximum: MAX_RENDER_BYTES })
        } else if rgba_len != expected {
            Err(ProtocolError::InvalidRgbaLength { expected, observed: rgba_len as u32 })
        } else {
            Ok(rgba_len as u32)
        },
    }
}

/// The 24-byte prefix of a success payload: request id, width, height, RGBA
/// length and four reserved zero bytes.
pub open spec fn spec_success_prefix_bytes(request_id: u64, width: u32, height: u32, rgba_len: u32) -> Seq<u8> {
    spec_u64_to_le_bytes(request_id) + spec_u32_to_le_bytes(width) + spec_u32_to_le_bytes(height)
        + spec_u32_to_le_bytes(rgba_len) + spec_zeros(4)
}

/// The bytes of a decode-success message carrying `rgba`.
pub open spec fn spec_success_message(request_id: u64, width: u32, height: u32, rgba: Seq<u8>) -> Seq<u8> {
    spec_header_bytes(
        HeaderView { kind: MessageKind::DecodeSuccess, payload_len: (DECODE_SUCCESS_PREFIX_LEN + rgba.len()) as u32 },
    ) + spec_success_prefix_bytes(request_id, width, height, rgba.len() as u32) + rgba
}

pub fn write_decode_success<W: ByteSink>(writer: &mut W, request_id: u64, width: u32, height: u32, rgba: &[u8]) -> (r: Result<(), ProtocolError>)
    ensures
        final(writer).accepts_all() == old(writer).accepts_all(),
        final(writer).failure_kind() == old(writer).failure_kind(),
        r matches Err(ProtocolError::Io(k)) ==> k == old(writer).failure_kind(),
        match spec_success_check(width, height, rgba@.len()) {
            Err(e) => r == Err::<(), ProtocolError>(e) && final(writer).written() == old(writer).written(),
            Ok(_) => {
                &&& old(writer).accepts_all() ==> r is Ok
                &&& spec_write_outcome(
                    old(writer).written(),
                    final(writer).written(),
                    spec_success_message(request_id, width, height, rgba@),
                    r,
                )
            },
        },
{
    let expected_rgba_len = validate_render_dimensions(width, height)?;
    if rgba.len() > u32::MAX as usize {
        return Err(
            ProtocolError::PayloadTooLarge {
                kind: MessageKind::DecodeSuccess,
                observed: u32::MAX,
                maximum: MAX_RENDER_BYTES,
            },
        );
    }
    let rgba_len = rgba.len() as u32;
    if rgba_len > MAX_RENDER_BYTES {
        return Err(
            ProtocolError::PayloadTooLarge {
                kind: MessageKind::DecodeSuccess,
                observed: rgba_len,
                maximum: MAX_RENDER_BYTES,
            },
        );
    }
    if rgba_len != expected_rgba_len {
        return Err(ProtocolError::InvalidRgbaLength { expected: expected_rgba_len, observed: rgba_len });
    }
    let payload_len = DECODE_SUCCESS_PREFIX_LEN + rgba_len;
    let header = Header::new(MessageKind::DecodeSuccess, payload_len)?;
    let id = u64_to_le_bytes(request_id);
    let w = u32_to_le_bytes(width);
    let h = u32_to_le_bytes(height);
    let n = u32_to_le_bytes(rgba_len);
    let prefix: [u8; 24] = [
        id[0],
        id[1],
        id[2],
        id[3],
        id[4],
        id[5],
        id[6],
        id[7],
        w[0],
        w[1],
        w[2],
        w[3],
        h[0],
        h[1],
        h[2],
        h[3],
        n[0],
        n[1],
        n[2],
        n[3],
        0u8,
        0u8,
        0u8,
        0u8,
    ];
    assert(prefix@ =~= spec_success_prefix_bytes(request_id, width, height, rgba_len));
    let ghost before = writer.written();
    let first = write_both(writer, &header.encode(), &prefix);
    let ghost head = spec_header_bytes(header@) + prefix@;
    assert(spec_success_message(request_id, width, height, rgba@) =~= head + rgba@);
    if first.is_err() {
        proof {
            lemma_write_outcome_prefix(before, writer.written(), head, rgba@, first);
        }
        return first;
    }
    let ghost middle = writer.written();
    let second = write_bytes(writer, rgba);
    proof {
        lemma_write_outcome_concat(before, middle, writer.written(), head, rgba@, second);
    }
    second
}

/// The checks of a success prefix against its header, in order: reserved
/// bytes, request id, dimensions, length cap, exact RGBA8 length, and the
/// payload length of the header. On success, width, height and RGBA length.
pub open spec fn spec_success_prefix_check(prefix: Seq<u8>, payload_len: u32, expected_id: u64) -> Result<(u32, u32, u32), ProtocolError> {
    let request_id = spec_u64_from_le_bytes(prefix.subrange(0, 8));
    let width = spec_u32_from_le_bytes(prefix.subrange(8, 12));
    let height = spec_u32_from_le_bytes(prefix.subrange(12, 16));
    let rgba_len = spec_u32_from_le_bytes(prefix.subrange(16, 20));
    if prefix.subrange(20, 24) != spec_zeros(4) {
        Err(ProtocolError::NonCanonicalReservedBytes)
    } else if request_id != expected_id {
        Err(ProtocolError::RequestIdMismatch { expected: expected_id, observed: request_id })
    } else {
        match spec_render_dimensions(width, height) {
            Err(e) => Err(e),
            Ok(expected_len) => if rgba_len > MAX_RENDER_BYTES {
                Err(ProtocolError::PayloadTooLarge { kind: MessageKind::DecodeSuccess, observed: rgba_len, maximum: MAX_RENDER_BYTES })
            } else if rgba_len != expected_len {
                Err(ProtocolError::InvalidRgbaLength { expected: expected_len, observed: rgba_len })
            } else if payload_len != DECODE_SUCCESS_PREFIX_LEN + rgba_len {
                Err(
                    ProtocolError::InvalidPayloadLength {
                        kind: MessageKind::DecodeSuccess,
                        observed: payload_len,
                        minimum: (DECODE_SUCCESS_PREFIX_LEN + rgba_len) as u32,
                        maximum: (DECODE_SUCCESS_PREFIX_LEN + rgba_len) as u32,
                    },
                )
            } else {
                Ok((width, height, rgba_len))
            },
        }
    }
}

/// Reading one decode response for request `expected_id`: the response (or
/// error) and the stream left, assuming the RGBA buffer can be allocated.
pub open spec fn spec_read_response(stream: Seq<u8>, end: Option<std::io::ErrorKind>, expected_id: u64) -> (Result<ResponseView, ProtocolError>, Seq<u8>) {
    let (header, rest) = spec_read_header(stream, end);
    match header {
        Err(e) => (Err(e), rest),
        Ok(h) => match h.kind {
            MessageKind::DecodeError => (
                match spec_read_exact(rest, end, DECODE_ERROR_LEN as nat, false) {
                    Err(e) => Err(e),
                    Ok(bytes) => match spec_error_decode(bytes) {
                        Err(e) => Err(e),
                        Ok(error) => if error.request_id != expected_id {
                            Err(ProtocolError::RequestIdMismatch { expected: expected_id, observed: error.request_id })
                        } else {
                            Ok(ResponseView::Error(error))
                        },
                    },
                },
                spec_after_read(rest, DECODE_ERROR_LEN as nat),
            ),
            MessageKind::DecodeSuccess => {
                let body = spec_after_read(rest, DECODE_SUCCESS_PREFIX_LEN as nat);
                match spec_read_exact(rest, end, DECODE_SUCCESS_PREFIX_LEN as nat, false) {
                    Err(e) => (Err(e), body),
                    Ok(prefix) => match spec_success_prefix_check(prefix, h.payload_len, expected_id) {
                        Err(e) => (Err(e), body),
                        Ok((width, height, rgba_len)) => (
                            match spec_read_exact(body, end, rgba_len as nat, false) {
                                Err(e) => Err(e),
                                Ok(rgba) => Ok(ResponseView::Success { request_id: expected_id, width, height, rgba }),
                            },
                            spec_after_read(body, rgba_len as nat),
                        ),
                    },
                }
            },
            observed => (Err(ProtocolError::UnexpectedMessage { observed }), rest),
        },
    }
}

/// Where reading a success response allocates its RGBA buffer: the length it
/// requests and the stream left at that point.
pub open spec fn spec_response_allocation(stream: Seq<u8>, end: Option<std::io::ErrorKind>, expected_id: u64) -> Option<(u32, Seq<u8>)> {
    let (header, rest) = spec_read_header(stream, end);
    match header {
        Ok(h) => if h.kind == MessageKind::DecodeSuccess {
            match spec_read_exact(rest, end, DECODE_SUCCESS_PREFIX_LEN as nat, false) {
                Ok(prefix) => match spec_success_prefix_check(prefix, h.payload_len, expected_id) {
                    Ok((_, _, rgba_len)) => Some((rgba_len, spec_after_read(rest, DECODE_SUCCESS_PREFIX_LEN as nat))),
                    Err(_) => None,
                },
                Err(_) => None,
            }
        } else {
            None
        },
        Err(_) => None,
    }
}

/// The view of a response result.
pub open spec fn response_result_view(r: Result<DecodeResponse, ProtocolError>) -> Result<ResponseView, ProtocolError> {
    match r {
        Ok(response) => Ok(response@),
        Err(e) => Err(e),
    }
}

/// `Vec::try_reserve_exact` (std): asks the allocator for room for exactly
/// `additional` more bytes and reports whether it was granted. Whether the
/// allocator grants it depends on the machine; the contents never change.
#[verifier::external_body]
fn try_reserve_exact_bytes(buffer: &mut Vec<u8>, additional: usize) -> (granted: bool)
    ensures
        final(buffer)@ == old(buffer)@,
{
    buffer.try_reserve_exact(additional).is_ok()
}

/// Copies the first 24 bytes of a buffer into an array.
fn prefix_array24(buffer: &Vec<u8>) -> (bytes: [u8; 24])
    requires
        buffer@.len() >= 24,
    ensures
        bytes@ == buffer@.take(24),
{
    let bytes: [u8; 24] = [
        buffer[0],
        buffer[1],
        buffer[2],
        buffer[3],
        buffer[4],
        buffer[5],
        buffer[6],
        buffer[7],
        buffer[8],
        buffer[9],
        buffer[10],
        buffer[11],
        buffer[12],
        buffer[13],
        buffer[14],
        buffer[15],
        buffer[16],
        buffer[17],
        buffer[18],
        buffer[19],
        buffer[20],
        buffer[21],
        buffer[22],
        buffer[23],
    ];
    assert(bytes@ =~= buffer@.take(24));
    bytes
}

pub fn read_decode_response<R: ByteSource>(reader: &mut R, expected_request_id: u64) -> (r: Result<DecodeResponse, ProtocolError>)
    ensures
        final(reader).end_error() == old(reader).end_error(),
        match spec_response_allocation(old(reader).pending(), old(reader).end_error(), expected_request_id) {
            Some((requested, rest)) => {
                ||| (r == Err::<DecodeResponse, ProtocolError>(ProtocolError::AllocationFailed { requested })
                    && final(reader).pending() == rest)
                ||| (response_result_view(r), final(reader).pending()) == spec_read_response(
                    old(reader).pending(),
                    old(reader).end_error(),
                    expected_request_id,
                )
            },
            None => (response_result_view(r), final(reader).pending()) == spec_read_response(
                old(reader).pending(),
                old(reader).end_error(),
                expected_request_id,
            ),
        },
{
    let header = read_header(reader)?;
    match header.kind() {
        MessageKind::DecodeError => {
            let mut buffer: Vec<u8> = Vec::with_capacity(32);
            read_exact_counted(reader, &mut buffer, 32, false)?;
            assert(buffer@ =~= buffer@.take(32));
            let error = DecodeError::decode(prefix_array32(&buffer))?;
            validate_request_id(expected_request_id, error.request_id)?;
            Ok(DecodeResponse::Error(error))
        },
        MessageKind::DecodeSuccess => {
            let mut buffer: Vec<u8> = Vec::with_capacity(24);
            read_exact_counted(reader, &mut buffer, 24, false)?;
            assert(buffer@ =~= buffer@.take(24));
            let prefix = prefix_array24(&buffer);
            let (width, height, rgba_len) = check_success_prefix(&prefix, header.payload_len(), expected_request_id)?;
            let request_id = expected_request_id;
            let mut rgba: Vec<u8> = Vec::new();
            let granted = try_reserve_exact_bytes(&mut rgba, rgba_len as usize);
            read_success_body(reader, request_id, width, height, rgba_len, granted, rgba)
        },
        observed => Err(ProtocolError::UnexpectedMessage { observed }),
    }
}

/// The checks on a success response's prefix, before its body is read or
/// allocated: the reserved bytes, the request id, the dimensions, the RGBA
/// length and the header's payload length. Gives the width, height and RGBA
/// length to read.
pub fn check_success_prefix(prefix: &[u8; 24], payload_len: u32, expected_id: u64) -> (r: Result<(u32, u32, u32), ProtocolError>)
    ensures
        r == spec_success_prefix_check(prefix@, payload_len, expected_id),
{
    if !all_zero(prefix, 20, 24) {
        return Err(ProtocolError::NonCanonicalReservedBytes);
    }
    let request_id = u64_at(prefix, 0);
    validate_request_id(expected_id, request_id)?;
    let width = u32_at(prefix, 8);
    let height = u32_at(prefix, 12);
    let expected_rgba_len = validate_render_dimensions(width, height)?;
    let rgba_len = u32_at(prefix, 16);
    if rgba_len > MAX_RENDER_BYTES {
        return Err(
            ProtocolError::PayloadTooLarge {
                kind: MessageKind::DecodeSuccess,
                observed: rgba_len,
                maximum: MAX_RENDER_BYTES,
            },
        );
    }
    if rgba_len != expected_rgba_len {
        return Err(
            ProtocolError::InvalidRgbaLength { expected: expected_rgba_len, observed: rgba_len },
        );
    }
    let expected_payload_len = DECODE_SUCCESS_PREFIX_LEN + rgba_len;
    if payload_len != expected_payload_len {
        return Err(
            ProtocolError::InvalidPayloadLength {
                kind: MessageKind::DecodeSuccess,
                observed: payload_len,
                minimum: expected_payload_len,
                maximum: expected_payload_len,
            },
        );
    }
    Ok((width, height, rgba_len))
}

/// The RGBA body of a success response, once its prefix passed the checks
/// and the allocator answered for a buffer of `rgba_len` bytes: refused,
/// the allocation failure; granted, exactly `rgba_len` bytes read into
/// `rgba`, or the stream's error.
pub fn read_success_body<R: ByteSource>(
    reader: &mut R,
    request_id: u64,
    width: u32,
    height: u32,
    rgba_len: u32,
    granted: bool,
    rgba: Vec<u8>,
) -> (r: Result<DecodeResponse, ProtocolError>)
    requires
        rgba@.len() == 0,
    ensures
        final(reader).end_error() == old(reader).end_error(),
        !granted ==> r == Err::<DecodeResponse, ProtocolError>(ProtocolError::AllocationFailed { requested: rgba_len })
            && final(reader).pending() == old(reader).pending(),
        granted ==> final(reader).pending() == spec_after_read(old(reader).pending(), rgba_len as nat)
            && response_result_view(r) == match spec_read_exact(
            old(reader).pending(),
            old(reader).end_error(),
            rgba_len as nat,
            false,
        ) {
            Err(e) => Err(e),
            Ok(bytes) => Ok(ResponseView::Success { request_id, width, height, rgba: bytes }),
        },
{
    if !granted {
        return Err(ProtocolError::AllocationFailed { requested: rgba_len });
    }
    let mut rgba = rgba;
    read_exact_counted(reader, &mut rgba, rgba_len as usize, false)?;
    assert(rgba@ =~= spec_read_exact(old(reader).pending(), old(reader).end_error(), rgba_len as nat, false)->Ok_0);
    Ok(DecodeResponse::Success(DecodeSuccess { request_id, width, height, rgba }))
}

/// Message kind codes and their decoding are inverse to each other.
pub proof fn lemma_kind_code_roundtrip(kind: MessageKind, value: u16)
    ensures
        spec_kind_from_code(spec_kind_code(kind)) == Ok::<MessageKind, ProtocolError>(kind),
        spec_kind_from_code(value) matches Ok(k) ==> spec_kind_code(k) == value,
{
}

/// Codec format codes and their decoding are inverse to each other.
pub proof fn lemma_format_code_roundtrip(format: CodecFormat, value: u16)
    ensures
        spec_format_from_code(spec_format_code(format)) == Ok::<CodecFormat, ProtocolError>(format),
        spec_format_from_code(value) matches Ok(f) ==> spec_format_code(f) == value,
{
}

/// Wire error codes and their decoding are inverse to each other.
pub proof fn lemma_wire_code_roundtrip(code: WireErrorCode, value: u16)
    ensures
        spec_wire_code_from(spec_wire_code(code)) == Ok::<WireErrorCode, ProtocolError>(code),
        spec_wire_code_from(value) matches Ok(c) ==> spec_wire_code(c) == value,
{
}

/// Decoding the bytes of a valid header gives the header back, and a header is
/// decoded only from exactly its own bytes.
pub proof fn lemma_header_roundtrip(h: HeaderView, bytes: Seq<u8>)
    ensures
        h.wf() ==> spec_header_decode(spec_header_bytes(h)) == Ok::<HeaderView, ProtocolError>(h),
        spec_header_bytes(h).len() == HEADER_LEN,
        bytes.len() == HEADER_LEN && spec_header_decode(bytes) == Ok::<HeaderView, ProtocolError>(h)
            ==> spec_header_bytes(h) == bytes,
{
    lemma_auto_spec_u16_to_from_le_bytes();
    lemma_auto_spec_u32_to_from_le_bytes();
    let b = spec_header_bytes(h);
    assert(b.subrange(0, 8) =~= spec_magic());
    assert(b.subrange(8, 10) =~= spec_u16_to_le_bytes(PROTOCOL_VERSION));
    assert(b.subrange(10, 12) =~= spec_u16_to_le_bytes(spec_kind_code(h.kind)));
    assert(b.subrange(12, 16) =~= spec_u32_to_le_bytes(h.payload_len));
    if bytes.len() == HEADER_LEN && spec_header_decode(bytes) == Ok::<HeaderView, ProtocolError>(h) {
        let code = spec_u16_from_le_bytes(bytes.subrange(10, 12));
        lemma_kind_code_roundtrip(h.kind, code);
        assert(spec_u16_to_le_bytes(spec_u16_from_le_bytes(bytes.subrange(8, 10))) == bytes.subrange(8, 10));
        assert(spec_u16_to_le_bytes(code) == bytes.subrange(10, 12));
        assert(spec_u32_to_le_bytes(spec_u32_from_le_bytes(bytes.subrange(12, 16))) == bytes.subrange(12, 16));
        assert(bytes =~= bytes.subrange(0, 8) + bytes.subrange(8, 10) + bytes.subrange(10, 12)
            + bytes.subrange(12, 16));
    }
}

/// Decoding the bytes of a request gives the request back, and a request is
/// decoded only from exactly its own bytes.
pub proof fn lemma_request_roundtrip(r: DecodeRequest, bytes: Seq<u8>)
    ensures
        spec_request_decode(spec_request_bytes(r)) == Ok::<DecodeRequest, ProtocolError>(r),
        spec_request_bytes(r).len() == DECODE_REQUEST_LEN,
        bytes.len() == DECODE_REQUEST_LEN && spec_request_decode(bytes) == Ok::<DecodeRequest, ProtocolError>(r)
            ==> spec_request_bytes(r) == bytes,
{
    lemma_auto_spec_u16_to_from_le_bytes();
    lemma_auto_spec_u64_to_from_le_bytes();
    let b = spec_request_bytes(r);
    assert(b.subrange(0, 8) =~= spec_u64_to_le_bytes(r.request_id));
    assert(b.subrange(8, 16) =~= spec_u64_to_le_bytes(r.duplicated_handle));
    assert(b.subrange(16, 24) =~= spec_u64_to_le_bytes(r.expected_length));
    assert(b.subrange(24, 26) =~= spec_u16_to_le_bytes(spec_format_code(r.format)));
    assert(b.subrange(26, 32) =~= spec_zeros(6));
    if bytes.len() == DECODE_REQUEST_LEN && spec_request_decode(bytes) == Ok::<DecodeRequest, ProtocolError>(r) {
        let code = spec_u16_from_le_bytes(bytes.subrange(24, 26));
        lemma_format_code_roundtrip(r.format, code);
        assert(spec_u64_to_le_bytes(spec_u64_from_le_bytes(bytes.subrange(0, 8))) == bytes.subrange(0, 8));
        assert(spec_u64_to_le_bytes(spec_u64_from_le_bytes(bytes.subrange(8, 16))) == bytes.subrange(8, 16));
        assert(spec_u64_to_le_bytes(spec_u64_from_le_bytes(bytes.subrange(16, 24))) == bytes.subrange(16, 24));
        assert(spec_u16_to_le_bytes(code) == bytes.subrange(24, 26));
        assert(bytes =~= bytes.subrange(0, 8) + bytes.subrange(8, 16) + bytes.subrange(16, 24)
            + bytes.subrange(24, 26) + bytes.subrange(26, 32));
    }
}

/// Decoding the bytes of a decode error gives it back, and an error is decoded
/// only from exactly its own bytes.
pub proof fn lemma_error_roundtrip(e: DecodeError, bytes: Seq<u8>)
    ensures
        spec_error_decode(spec_error_bytes(e)) == Ok::<DecodeError, ProtocolError>(e),
        spec_error_bytes(e).len() == DECODE_ERROR_LEN,
        bytes.len() == DECODE_ERROR_LEN && spec_error_decode(bytes) == Ok::<DecodeError, ProtocolError>(e)
            ==> spec_error_bytes(e) == bytes,
{
    lemma_auto_spec_u16_to_from_le_bytes();
    lemma_auto_spec_u64_to_from_le_bytes();
    let b = spec_error_bytes(e);
    assert(b.subrange(0, 8) =~= spec_u64_to_le_bytes(e.request_id));
    assert(b.subrange(8, 10) =~= spec_u16_to_le_bytes(spec_wire_code(e.code)));
    assert(b.subrange(10, 16) =~= spec_zeros(6));
    assert(b.subrange(16, 24) =~= spec_u64_to_le_bytes(e.arg0));
    assert(b.subrange(24, 32) =~= spec_u64_to_le_bytes(e.arg1));
    if bytes.len() == DECODE_ERROR_LEN && spec_error_decode(bytes) == Ok::<DecodeError, ProtocolError>(e) {
        let code = spec_u16_from_le_bytes(bytes.subrange(8, 10));
        lemma_wire_code_roundtrip(e.code, code);
        assert(spec_u64_to_le_bytes(spec_u64_from_le_bytes(bytes.subrange(0, 8))) == bytes.subrange(0, 8));
        assert(spec_u16_to_le_bytes(code) == bytes.subrange(8, 10));
        assert(spec_u64_to_le_bytes(spec_u64_from_le_bytes(bytes.subrange(16, 24))) == bytes.subrange(16, 24));
        assert(spec_u64_to_le_bytes(spec_u64_from_le_bytes(bytes.subrange(24, 32))) == bytes.subrange(24, 32));
        assert(bytes =~= bytes.subrange(0, 8) + bytes.subrange(8, 10) + bytes.subrange(10, 16)
            + bytes.subrange(16, 24) + bytes.subrange(24, 32));
    }
}

/// Reading a header from a stream that starts with a valid header's bytes
/// yields that header and leaves the rest of the stream.
pub proof fn lemma_read_header_of_written(h: HeaderView, rest: Seq<u8>, end: Option<std::io::ErrorKind>)
    requires
        h.wf(),
    ensures
        spec_read_header(spec_header_bytes(h) + rest, end) == (Ok::<HeaderView, ProtocolError>(h), rest),
{
    lemma_header_roundtrip(h, spec_header_bytes(h));
    let stream = spec_header_bytes(h) + rest;
    assert(stream.take(16) =~= spec_header_bytes(h));
    assert(stream.skip(16) =~= rest);
}

/// What the helper reads back of a written hello, ready or shutdown header.
pub proof fn lemma_control_roundtrip(kind: MessageKind, rest: Seq<u8>, end: Option<std::io::ErrorKind>)
    requires
        kind == MessageKind::Hello || kind == MessageKind::Ready || kind == MessageKind::Shutdown,
    ensures
        spec_read_control(spec_header_bytes(HeaderView { kind, payload_len: 0 }) + rest, end, kind)
            == (Ok::<(), ProtocolError>(()), rest),
        kind == MessageKind::Shutdown ==> spec_read_command(
            spec_header_bytes(HeaderView { kind, payload_len: 0 }) + rest,
            end,
        ) == (Ok::<HelperCommand, ProtocolError>(HelperCommand::Shutdown), rest),
{
    lemma_read_header_of_written(HeaderView { kind, payload_len: 0 }, rest, end);
}

/// A written decode request is read back as the same command, leaving the
/// rest of the stream.
pub proof fn lemma_request_message_roundtrip(request: DecodeRequest, rest: Seq<u8>, end: Option<std::io::ErrorKind>)
    ensures
        spec_read_command(spec_request_message(request) + rest, end) == (
            Ok::<HelperCommand, ProtocolError>(HelperCommand::DecodeImage(request)),
            rest,
        ),
{
    let h = HeaderView { kind: MessageKind::DecodeImage, payload_len: DECODE_REQUEST_LEN };
    let body = spec_request_bytes(request) + rest;
    assert(spec_request_message(request) + rest =~= spec_header_bytes(h) + body);
    lemma_read_header_of_written(h, body, end);
    lemma_request_roundtrip(request, spec_request_bytes(request));
    assert(body.take(32) =~= spec_request_bytes(request));
    assert(body.skip(32) =~= rest);
}

/// A written decode error is read back as the same response by the request it
/// answers, and as a request-id mismatch by any other request.
pub proof fn lemma_error_message_roundtrip(error: DecodeError, expected_id: u64, rest: Seq<u8>, end: Option<std::io::ErrorKind>)
    ensures
        spec_response_allocation(spec_error_message(error) + rest, end, expected_id) is None,
        spec_read_response(spec_error_message(error) + rest, end, expected_id) == (
            if expected_id == error.request_id {
                Ok::<ResponseView, ProtocolError>(ResponseView::Error(error))
            } else {
                Err(ProtocolError::RequestIdMismatch { expected: expected_id, observed: error.request_id })
            },
            rest,
        ),
{
    let h = HeaderView { kind: MessageKind::DecodeError, payload_len: DECODE_ERROR_LEN };
    let body = spec_error_bytes(error) + rest;
    assert(spec_error_message(error) + rest =~= spec_header_bytes(h) + body);
    lemma_read_header_of_written(h, body, end);
    lemma_error_roundtrip(error, spec_error_bytes(error));
    assert(body.take(32) =~= spec_error_bytes(error));
    assert(body.skip(32) =~= rest);
}

/// A render that passes the sender's checks is read back whole by the request
/// it answers (the buffer it allocates has exactly the RGBA length), and as a
/// request-id mismatch by any other request.
pub proof fn lemma_success_message_roundtrip(request_id: u64, width: u32, height: u32, rgba: Seq<u8>, expected_id: u64, rest: Seq<u8>, end: Option<std::io::ErrorKind>)
    requires
        spec_success_check(width, height, rgba.len()) is Ok,
    ensures
        spec_read_response(spec_success_message(request_id, width, height, rgba) + rest, end, expected_id)
            == (if expected_id == request_id {
            (Ok::<ResponseView, ProtocolError>(ResponseView::Success { request_id, width, height, rgba }), rest)
        } else {
            (
                Err::<ResponseView, ProtocolError>(
                    ProtocolError::RequestIdMismatch { expected: expected_id, observed: request_id },
                ),
                rgba + rest,
            )
        }),
        spec_response_allocation(spec_success_message(request_id, width, height, rgba) + rest, end, expected_id)
            == (if expected_id == request_id {
            Some((rgba.len() as u32, rgba + rest))
        } else {
            None
        }),
{
    lemma_auto_spec_u64_to_from_le_bytes();
    lemma_auto_spec_u32_to_from_le_bytes();
    let n = rgba.len() as u32;
    let h = HeaderView { kind: MessageKind::DecodeSuccess, payload_len: (DECODE_SUCCESS_PREFIX_LEN + n) as u32 };
    let prefix = spec_success_prefix_bytes(request_id, width, height, n);
    let body = prefix + rgba + rest;
    assert(spec_success_message(request_id, width, height, rgba) + rest =~= spec_header_bytes(h) + body);
    lemma_read_header_of_written(h, body, end);
    assert(body.take(24) =~= prefix);
    assert(body.skip(24) =~= rgba + rest);
    assert(prefix.subrange(0, 8) =~= spec_u64_to_le_bytes(request_id));
    assert(prefix.subrange(8, 12) =~= spec_u32_to_le_bytes(width));
    assert(prefix.subrange(12, 16) =~= spec_u32_to_le_bytes(height));
    assert(prefix.subrange(16, 20) =~= spec_u32_to_le_bytes(n));
    assert(prefix.subrange(20, 24) =~= spec_zeros(4));
    assert((rgba + rest).take(rgba.len() as int) =~= rgba);
    assert((rgba + rest).skip(rgba.len() as int) =~= rest);
}


/// A whole written command, read from a stream that holds only it, is the
/// same command and leaves nothing behind: a decode request and a shutdown.
pub proof fn lemma_command_read_back(request: DecodeRequest, end: Option<std::io::ErrorKind>)
    ensures
        spec_read_command(spec_request_message(request), end) == (
            Ok::<HelperCommand, ProtocolError>(HelperCommand::DecodeImage(request)),
            Seq::<u8>::empty(),
        ),
        spec_read_command(spec_header_bytes(HeaderView { kind: MessageKind::Shutdown, payload_len: 0 }), end) == (
            Ok::<HelperCommand, ProtocolError>(HelperCommand::Shutdown),
            Seq::<u8>::empty(),
        ),
{
    let shutdown = spec_header_bytes(HeaderView { kind: MessageKind::Shutdown, payload_len: 0 });
    lemma_request_message_roundtrip(request, Seq::empty(), end);
    lemma_control_roundtrip(MessageKind::Shutdown, Seq::empty(), end);
    assert(spec_request_message(request) + Seq::<u8>::empty() =~= spec_request_message(request));
    assert(shutdown + Seq::<u8>::empty() =~= shutdown);
}

/// A whole written error answer, read from a stream that holds only it, is
/// the same error for the request it answers (a mismatch for any other),
/// needs no allocation, and leaves nothing behind.
pub proof fn lemma_error_read_back(error: DecodeError, expected_id: u64, end: Option<std::io::ErrorKind>)
    ensures
        spec_response_allocation(spec_error_message(error), end, expected_id) is None,
        spec_read_response(spec_error_message(error), end, expected_id) == (
            if expected_id == error.request_id {
                Ok::<ResponseView, ProtocolError>(ResponseView::Error(error))
            } else {
                Err(ProtocolError::RequestIdMismatch { expected: expected_id, observed: error.request_id })
            },
            Seq::<u8>::empty(),
        ),
{
    lemma_error_message_roundtrip(error, expected_id, Seq::empty(), end);
    assert(spec_error_message(error) + Seq::<u8>::empty() =~= spec_error_message(error));
}

/// A whole written render, read from a stream that holds only it by the
/// request it answers, is the same render, allocates exactly its RGBA
/// length, and leaves nothing behind.
pub proof fn lemma_success_read_back(request_id: u64, width: u32, height: u32, rgba: Seq<u8>, end: Option<std::io::ErrorKind>)
    requires
        spec_success_check(width, height, rgba.len()) is Ok,
    ensures
        spec_response_allocation(spec_success_message(request_id, width, height, rgba), end, request_id)
            == Some((rgba.len() as u32, rgba)),
        spec_read_response(spec_success_message(request_id, width, height, rgba), end, request_id) == (
            Ok::<ResponseView, ProtocolError>(ResponseView::Success { request_id, width, height, rgba }),
            Seq::<u8>::empty(),
        ),
{
    lemma_success_message_roundtrip(request_id, width, height, rgba, request_id, Seq::empty(), end);
    assert(spec_success_message(request_id, width, height, rgba) + Seq::<u8>::empty() =~= spec_success_message(
        request_id,
        width,
        height,
        rgba,
    ));
    assert(rgba + Seq::<u8>::empty() =~= rgba);
}

} // verus!
