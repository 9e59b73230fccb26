//! The failures the proxy core can report.

use vstd::prelude::*;

verus! {

/// What can go wrong in the core.
///
/// The first two kinds belong to one request and are answered to its caller;
/// the last two stay inside the reconciler and never reach a caller.
#[derive(Debug, Clone, Copy, PartialEq, Eq, Structural)]
pub enum Error {
    /// The registry held no backend when a target was selected.
    NoBackendsAvailable,
    /// The chosen backend could not be reached or did not answer properly.
    BackendUnreachable,
    /// The membership subscription failed or came to an end.
    MembershipStreamError,
    /// A membership record lacked a required field.
    MalformedMembershipEvent,
}

impl Error {
    /// Whether this kind belongs to a single request.
    pub open spec fn request_scoped(self) -> bool {
        self == Error::NoBackendsAvailable || self == Error::BackendUnreachable
    }

    /// The HTTP status a caller sees for this kind, if it is ever shown to a
    /// caller: service unavailable when there is no backend, bad gateway when
    /// the backend failed.
    pub open spec fn status_of(self) -> Option<u16> {
        match self {
            Error::NoBackendsAvailable => Some(503u16),
            Error::BackendUnreachable => Some(502u16),
            Error::MembershipStreamError => None,
            Error::MalformedMembershipEvent => None,
        }
    }

    /// The HTTP status to answer with, or `None` for the kinds that are
    /// handled inside the reconciler.
    pub fn status_code(&self) -> (status: Option<u16>)
        ensures
            status == self.status_of(),
            status.is_some() == self.request_scoped(),
    {
        match self {
            Error::NoBackendsAvailable => Some(503),
            Error::BackendUnreachable => Some(502),
            Error::MembershipStreamError => None,
            Error::MalformedMembershipEvent => None,
        }
    }
}

} // verus!
