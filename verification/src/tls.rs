use vstd::prelude::*;
use vstd::slice::slice_to_vec;
use crate::proto::{Reply, EXT_START_TLS};
use crate::queue::{Error, ErrorDetails, Status};

verus! {

/// Whether a security mechanism must be used, may be used, or is off.
#[derive(Clone, Copy, PartialEq, Eq, Structural, Debug)]
pub enum RequireOptional {
    Optional,
    Require,
    Disable,
}

/// How to negotiate TLS toward a remote host: DANE, MTA-STS, STARTTLS.
#[derive(Clone, Copy, Debug)]
pub struct TlsStrategy {
    pub dane: RequireOptional,
    pub mta_sts: RequireOptional,
    pub tls: RequireOptional,
}

impl TlsStrategy {
    pub fn try_dane(&self) -> (r: bool)
        ensures
            r == (self.dane == RequireOptional::Require || self.dane == RequireOptional::Optional),
    {
        matches!(self.dane, RequireOptional::Require | RequireOptional::Optional)
    }

    pub fn is_dane_required(&self) -> (r: bool)
        ensures
            r == (self.dane == RequireOptional::Require),
    {
        matches!(self.dane, RequireOptional::Require)
    }

    pub fn try_mta_sts(&self) -> (r: bool)
        ensures
            r == (self.mta_sts == RequireOptional::Require || self.mta_sts
                == RequireOptional::Optional),
    {
        matches!(self.mta_sts, RequireOptional::Require | RequireOptional::Optional)
    }

    pub fn is_mta_sts_required(&self) -> (r: bool)
        ensures
            r == (self.mta_sts == RequireOptional::Require),
    {
        matches!(self.mta_sts, RequireOptional::Require)
    }

    pub fn is_tls_required(&self) -> (r: bool)
        ensures
            r == (self.tls == RequireOptional::Require || self.dane == RequireOptional::Require
                || self.mta_sts == RequireOptional::Require),
    {
        matches!(self.tls, RequireOptional::Require) || self.is_dane_required()
            || self.is_mta_sts_required()
    }
}

/// How a TLS handshake toward a remote host failed.
#[derive(Clone, Debug)]
pub enum TlsFailure {
    InvalidName,
    Timeout,
    Io(Vec<u8>),
    Other,
}

impl TlsFailure {
    /// A failed handshake keeps the message queued unless the failure can
    /// never heal: an invalid TLS name is permanent; every other
    /// handshake failure - a timeout, an I/O fault, or anything else -
    /// is temporary.
    pub fn into_status(self, hostname: &[u8]) -> (r: Status<(), Error>)
        ensures
            match self {
                TlsFailure::InvalidName => r is PermanentFailure,
                TlsFailure::Timeout => r is TemporaryFailure,
                TlsFailure::Io(_) => r is TemporaryFailure,
                TlsFailure::Other => r is TemporaryFailure,
            },
            (r is PermanentFailure || r is TemporaryFailure),
            match r {
                Status::PermanentFailure(e) => e is TlsError,
                Status::TemporaryFailure(e) => e is TlsError,
                _ => true,
            },
    {
        match self {
            TlsFailure::InvalidName => Status::PermanentFailure(
                Error::TlsError(
                    ErrorDetails {
                        entity: slice_to_vec(hostname),
                        details: slice_to_vec("Invalid hostname".as_bytes()),
                    },
                ),
            ),
            TlsFailure::Timeout => Status::TemporaryFailure(
                Error::TlsError(
                    ErrorDetails {
                        entity: slice_to_vec(hostname),
                        details: slice_to_vec("TLS handshake timed out".as_bytes()),
                    },
                ),
            ),
            TlsFailure::Io(detail) => Status::TemporaryFailure(
                Error::TlsError(ErrorDetails { entity: slice_to_vec(hostname), details: detail }),
            ),
            TlsFailure::Other => Status::TemporaryFailure(
                Error::TlsError(
                    ErrorDetails {
                        entity: slice_to_vec(hostname),
                        details: slice_to_vec("Other TLS error".as_bytes()),
                    },
                ),
            ),
        }
    }
}

/// What an outbound session should do about STARTTLS, given the advertised
/// capabilities: only a server that advertises the extension is asked.
pub fn should_try_starttls(capabilities: u32) -> (r: bool)
    ensures
        r == (capabilities & EXT_START_TLS != 0),
{
    capabilities & EXT_START_TLS != 0
}

/// Whether the reply to a STARTTLS command permits the handshake to begin.
pub fn starttls_accepted(reply: &Reply) -> (r: bool)
    ensures
        r == (reply.code == 220),
{
    reply.code == 220
}

} // verus!
