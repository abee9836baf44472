//! The human-readable text of the library's errors: numbers in decimal,
//! message kinds by name, never a path or decoder detail.
use vstd::prelude::*;

use crate::error::ViewerError;
use crate::helper_service::HelperError;
use crate::protocol::{MessageKind, ProtocolError};

verus! {

/// The name of an I/O error kind as the standard library prints it.
pub uninterp spec fn io_error_kind_name(kind: std::io::ErrorKind) -> Seq<char>;

/// `<std::io::ErrorKind as Debug>::fmt` (std): the kind's name. Nothing else
/// is claimed of the text than that it is a function of the kind.
#[verifier::external_body]
fn io_kind_text(kind: std::io::ErrorKind) -> (s: String)
    ensures
        s@ == io_error_kind_name(kind),
{
    format!("{kind:?}")
}

/// The decimal digits of `n`, most significant first, without leading zeros.
pub open spec fn decimal(n: nat) -> Seq<char>
    decreases n,
{
    if n < 10 {
        seq![digit_char(n)]
    } else {
        decimal(n / 10).push(digit_char(n % 10))
    }
}

pub open spec fn digit_char(d: nat) -> char {
    if d == 0 {
        '0'
    } else if d == 1 {
        '1'
    } else if d == 2 {
        '2'
    } else if d == 3 {
        '3'
    } else if d == 4 {
        '4'
    } else if d == 5 {
        '5'
    } else if d == 6 {
        '6'
    } else if d == 7 {
        '7'
    } else if d == 8 {
        '8'
    } else {
        '9'
    }
}

fn digit_str(d: u64) -> (s: &'static str)
    requires
        d < 10,
    ensures
        s@ == seq![digit_char(d as nat)],
{
    proof {
        reveal_strlit("0");
        reveal_strlit("1");
        reveal_strlit("2");
        reveal_strlit("3");
        reveal_strlit("4");
        reveal_strlit("5");
        reveal_strlit("6");
        reveal_strlit("7");
        reveal_strlit("8");
        reveal_strlit("9");
    }
    if d == 0 {
        "0"
    } else if d == 1 {
        "1"
    } else if d == 2 {
        "2"
    } else if d == 3 {
        "3"
    } else if d == 4 {
        "4"
    } else if d == 5 {
        "5"
    } else if d == 6 {
        "6"
    } else if d == 7 {
        "7"
    } else if d == 8 {
        "8"
    } else {
        "9"
    }
}

/// Appends the decimal digits of `n`.
pub fn push_decimal(out: &mut String, n: u64)
    ensures
        final(out)@ == old(out)@ + decimal(n as nat),
    decreases n,
{
    if n >= 10 {
        push_decimal(out, n / 10);
    }
    out.append(digit_str(n % 10));
    proof {
        if n >= 10 {
            assert(old(out)@ + decimal(n as nat) =~= old(out)@ + decimal((n / 10) as nat) + seq![digit_char((n % 10) as nat)]);
        } else {
            assert(decimal(n as nat) =~= seq![digit_char((n % 10) as nat)]);
        }
    }
}

/// The name of a message kind as it is printed.
pub open spec fn kind_name(kind: MessageKind) -> Seq<char> {
    match kind {
        MessageKind::Hello => "Hello"@,
        MessageKind::Ready => "Ready"@,
        MessageKind::DecodeImage => "DecodeImage"@,
        MessageKind::DecodeSuccess => "DecodeSuccess"@,
        MessageKind::DecodeError => "DecodeError"@,
        MessageKind::Shutdown => "Shutdown"@,
    }
}

fn kind_str(kind: MessageKind) -> (s: &'static str)
    ensures
        s@ == kind_name(kind),
{
    match kind {
        MessageKind::Hello => "Hello",
        MessageKind::Ready => "Ready",
        MessageKind::DecodeImage => "DecodeImage",
        MessageKind::DecodeSuccess => "DecodeSuccess",
        MessageKind::DecodeError => "DecodeError",
        MessageKind::Shutdown => "Shutdown",
    }
}

/// The text of a protocol error.
pub open spec fn protocol_error_text(e: ProtocolError) -> Seq<char> {
    match e {
        ProtocolError::Io(kind) => "codec protocol I/O error: "@ + io_error_kind_name(kind),
        ProtocolError::TruncatedHeader { bytes_read } => "truncated codec header after "@ + decimal(
            bytes_read as nat,
        ) + " bytes"@,
        ProtocolError::TruncatedPayload { expected, bytes_read } => "truncated codec payload after "@ + decimal(
            bytes_read as nat,
        ) + " of "@ + decimal(expected as nat) + " bytes"@,
        ProtocolError::InvalidMagic => "invalid codec protocol magic"@,
        ProtocolError::UnsupportedVersion(v) => "unsupported codec protocol version "@ + decimal(v as nat),
        ProtocolError::UnknownMessageKind(k) => "unknown codec protocol message kind "@ + decimal(k as nat),
        ProtocolError::UnknownCodecFormat(f) => "unknown codec format "@ + decimal(f as nat),
        ProtocolError::UnknownWireErrorCode(c) => "unknown codec wire error code "@ + decimal(c as nat),
        ProtocolError::UnexpectedMessage { observed } => "unexpected codec message "@ + kind_name(observed),
        ProtocolError::PayloadTooLarge { kind, observed, maximum } => kind_name(kind) + " payload length "@
            + decimal(observed as nat) + " exceeds "@ + decimal(maximum as nat),
        ProtocolError::InvalidPayloadLength { kind, observed, minimum, maximum } => kind_name(kind)
            + " payload length "@ + decimal(observed as nat) + " is outside "@ + decimal(minimum as nat) + "..="@
            + decimal(maximum as nat),
        ProtocolError::RequestIdMismatch { expected, observed } => "codec response request id "@ + decimal(
            observed as nat,
        ) + " does not match "@ + decimal(expected as nat),
        ProtocolError::AllocationFailed { requested } => "unable to allocate bounded "@ + decimal(
            requested as nat,
        ) + "-byte payload"@,
        ProtocolError::InvalidRenderDimensions { width, height } => "invalid render dimensions "@ + decimal(
            width as nat,
        ) + "x"@ + decimal(height as nat),
        ProtocolError::InvalidRgbaLength { expected, observed } => "RGBA8 payload length "@ + decimal(
            observed as nat,
        ) + " does not match expected "@ + decimal(expected as nat),
        ProtocolError::NonCanonicalReservedBytes => "non-zero reserved protocol bytes"@,
    }
}

impl ProtocolError {
    /// The text of the error.
    pub fn to_string(&self) -> (s: String)
        ensures
            s@ == protocol_error_text(*self),
    {
        let mut s = String::new();
        match *self {
            ProtocolError::Io(kind) => {
                s.append("codec protocol I/O error: ");
                let k = io_kind_text(kind);
                s.append(k.as_str());
            },
            ProtocolError::TruncatedHeader { bytes_read } => {
                s.append("truncated codec header after ");
                push_decimal(&mut s, bytes_read as u64);
                s.append(" bytes");
            },
            ProtocolError::TruncatedPayload { expected, bytes_read } => {
                s.append("truncated codec payload after ");
                push_decimal(&mut s, bytes_read as u64);
                s.append(" of ");
                push_decimal(&mut s, expected as u64);
                s.append(" bytes");
            },
            ProtocolError::InvalidMagic => {
                s.append("invalid codec protocol magic");
            },
            ProtocolError::UnsupportedVersion(v) => {
                s.append("unsupported codec protocol version ");
                push_decimal(&mut s, v as u64);
            },
            ProtocolError::UnknownMessageKind(k) => {
                s.append("unknown codec protocol message kind ");
                push_decimal(&mut s, k as u64);
            },
            ProtocolError::UnknownCodecFormat(f) => {
                s.append("unknown codec format ");
                push_decimal(&mut s, f as u64);
            },
            ProtocolError::UnknownWireErrorCode(c) => {
                s.append("unknown codec wire error code ");
                push_decimal(&mut s, c as u64);
            },
            ProtocolError::UnexpectedMessage { observed } => {
                s.append("unexpected codec message ");
                s.append(kind_str(observed));
            },
            ProtocolError::PayloadTooLarge { kind, observed, maximum } => {
                s.append(kind_str(kind));
                s.append(" payload length ");
                push_decimal(&mut s, observed as u64);
                s.append(" exceeds ");
                push_decimal(&mut s, maximum as u64);
            },
            ProtocolError::InvalidPayloadLength { kind, observed, minimum, maximum } => {
                s.append(kind_str(kind));
                s.append(" payload length ");
                push_decimal(&mut s, observed as u64);
                s.append(" is outside ");
                push_decimal(&mut s, minimum as u64);
                s.append("..=");
                push_decimal(&mut s, maximum as u64);
            },
            ProtocolError::RequestIdMismatch { expected, observed } => {
                s.append("codec response request id ");
                push_decimal(&mut s, observed);
                s.append(" does not match ");
                push_decimal(&mut s, expected);
            },
            ProtocolError::AllocationFailed { requested } => {
                s.append("unable to allocate bounded ");
                push_decimal(&mut s, requested as u64);
                s.append("-byte payload");
            },
            ProtocolError::InvalidRenderDimensions { width, height } => {
                s.append("invalid render dimensions ");
                push_decimal(&mut s, width as u64);
                s.append("x");
                push_decimal(&mut s, height as u64);
            },
            ProtocolError::InvalidRgbaLength { expected, observed } => {
                s.append("RGBA8 payload length ");
                push_decimal(&mut s, observed as u64);
                s.append(" does not match expected ");
                push_decimal(&mut s, expected as u64);
            },
            ProtocolError::NonCanonicalReservedBytes => {
                s.append("non-zero reserved protocol bytes");
            },
        }
        s
    }
}

impl HelperError {
    /// The text of the error.
    pub fn to_string(&self) -> (s: String)
        ensures
            s@ == (match *self {
                HelperError::Protocol(e) => protocol_error_text(e),
                HelperError::Io(kind) => "codec helper I/O error: "@ + io_error_kind_name(kind),
            }),
    {
        match *self {
            HelperError::Protocol(e) => e.to_string(),
            HelperError::Io(kind) => {
                let mut s = String::new();
                s.append("codec helper I/O error: ");
                let k = io_kind_text(kind);
                s.append(k.as_str());
                s
            },
        }
    }
}

impl ViewerError {
    /// The error as `code: message`.
    pub fn to_string(&self) -> (s: String)
        ensures
            s@ == self.code@ + ": "@ + self.message@,
    {
        let mut s = String::new();
        s.append(self.code.as_str());
        s.append(": ");
        s.append(self.message.as_str());
        s
    }
}

} // verus!
