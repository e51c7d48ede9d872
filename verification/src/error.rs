//! The ways a transfer can fail.

use vstd::prelude::*;

verus! {

/// Why an operation was abandoned. Every failure is final: nothing is retried
/// and nothing already done on the remote host is undone.
#[derive(Debug, Clone, Copy, PartialEq, Eq, Structural)]
pub enum TransferError {
    /// A local file could not be opened, read or written.
    LocalIo,
    /// The remote host answered a request with a status outside 200..=299.
    RemoteRequestFailed { status: u16 },
    /// The remote host's answer lacked the identifier or the single attachment.
    MalformedRemoteResponse,
    /// The index document is not a structurally valid index.
    CorruptIndex,
    /// The answer did not carry the quota headers that pacing depends on.
    MissingRateLimitHeaders,
}

/// The text that tells the user of a failure.
pub open spec fn failure_text(error: TransferError) -> Seq<char> {
    match error {
        TransferError::LocalIo => "local file could not be read or written"@,
        TransferError::RemoteRequestFailed { status } => "remote request failed with status "@
            + crate::decimal::decimal(status as nat),
        TransferError::MalformedRemoteResponse => "remote response is malformed"@,
        TransferError::CorruptIndex => "index document is corrupt"@,
        TransferError::MissingRateLimitHeaders => "rate limit headers are missing"@,
    }
}

impl TransferError {
    /// The text that tells the user of the failure.
    pub fn message(&self) -> (r: String)
        ensures
            r@ == failure_text(*self),
    {
        match self {
            TransferError::LocalIo => "local file could not be read or written".to_owned(),
            TransferError::RemoteRequestFailed { status } => {
                let mut text = "remote request failed with status ".to_owned();
                crate::decimal::push_decimal(&mut text, *status as u64);
                text
            },
            TransferError::MalformedRemoteResponse => "remote response is malformed".to_owned(),
            TransferError::CorruptIndex => "index document is corrupt".to_owned(),
            TransferError::MissingRateLimitHeaders => "rate limit headers are missing".to_owned(),
        }
    }
}

} // verus!
