use vstd::prelude::*;

verus! {

/// Errors raised by the protocol layer.
#[derive(Debug)]
pub enum ServoError {
    /// No reply from servo `id` within the read timeout.
    Timeout { id: u8 },
    /// The reply's checksum byte does not match the computed checksum.
    ChecksumMismatch { id: u8, expected: u8, actual: u8 },
    /// Malformed packet or unsupported request.
    Protocol(String),
    /// The servo reported a hardware fault in its status byte.
    HardwareError { id: u8, status_byte: u8, msg: String },
}

/// The mathematical content of a [`ServoError`]: strings replaced by their characters.
pub enum ServoErrorView {
    Timeout { id: u8 },
    ChecksumMismatch { id: u8, expected: u8, actual: u8 },
    Protocol(Seq<char>),
    HardwareError { id: u8, status_byte: u8, msg: Seq<char> },
}

impl View for ServoError {
    type V = ServoErrorView;

    open spec fn view(&self) -> ServoErrorView {
        match self {
            ServoError::Timeout { id } => ServoErrorView::Timeout { id: *id },
            ServoError::ChecksumMismatch { id, expected, actual } => ServoErrorView::ChecksumMismatch {
                id: *id,
                expected: *expected,
                actual: *actual,
            },
            ServoError::Protocol(m) => ServoErrorView::Protocol(m@),
            ServoError::HardwareError { id, status_byte, msg } => ServoErrorView::HardwareError {
                id: *id,
                status_byte: *status_byte,
                msg: msg@,
            },
        }
    }
}

/// The view of a result whose success value is a byte vector.
pub open spec fn bytes_result_view(r: Result<Vec<u8>, ServoError>) -> Result<Seq<u8>, ServoErrorView> {
    match r {
        Ok(v) => Ok(v@),
        Err(e) => Err(e@),
    }
}

} // verus!
