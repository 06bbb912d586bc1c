use vstd::prelude::*;
use crate::proto::Reply;

verus! {

/// A host that produced an error, with the command that failed on it.
#[derive(Clone, Debug)]
pub struct ErrorDetails {
    pub entity: Vec<u8>,
    pub details: Vec<u8>,
}

/// A host identifier paired with the raw SMTP reply it produced.
#[derive(Clone, Debug)]
pub struct HostResponse<H> {
    pub hostname: H,
    pub response: Reply,
}

/// Why a delivery attempt failed.
#[derive(Clone, Debug)]
pub enum Error {
    UnexpectedResponse(HostResponse<ErrorDetails>),
    Io(Vec<u8>),
    TlsError(ErrorDetails),
    Timeout(ErrorDetails),
}

/// Delivery lifecycle of a recipient or of a whole message.
/// Once `Completed` or `PermanentFailure`, a recipient never transitions again.
#[derive(Clone, Debug)]
pub enum Status<T, E> {
    Scheduled,
    Completed(T),
    TemporaryFailure(E),
    PermanentFailure(E),
}

impl<T, E> Status<T, E> {
    /// A status that no delivery session may change any more.
    pub open spec fn is_terminal(&self) -> bool {
        match self {
            Status::Completed(_) => true,
            Status::PermanentFailure(_) => true,
            _ => false,
        }
    }

    pub fn terminal(&self) -> (r: bool)
        ensures
            r == self.is_terminal(),
    {
        match self {
            Status::Completed(_) => true,
            Status::PermanentFailure(_) => true,
            _ => false,
        }
    }
}

/// A recipient of a queued message.
#[derive(Clone, Debug)]
pub struct Recipient {
    pub address: Vec<u8>,
    pub status: Status<HostResponse<Vec<u8>>, HostResponse<ErrorDetails>>,
    pub flags: u64,
}

/// A queued message: envelope data plus a handle to the stored body.
#[derive(Clone, Debug)]
pub struct Message {
    pub return_path: Vec<u8>,
    pub size: u64,
    pub flags: u64,
    pub env_id: Option<Vec<u8>>,
    pub priority: i16,
}

} // verus!
