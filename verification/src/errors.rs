//! Failure taxonomy.  Client-side errors are specific, to let a front end
//! explain what went wrong; the issuer answers every bad request with the
//! single uniform `VerificationFailure`, to avoid side channels.
use vstd::prelude::*;

verus! {

#[derive(Clone, Copy, Debug, PartialEq, Eq)]
pub enum LoxError {
    /// Linkage attributes of the supplied credentials disagree (detected
    /// client-side before a request is emitted).
    CredentialMismatch,
    /// An out-of-range scalar or bad date: the field's name and the reason.
    InvalidField(&'static str, &'static str),
    /// The shown credential has no invitations left to give out.
    NoInvitationsRemaining,
    /// A promotion was requested too early: how many days are missing.
    TimeThresholdNotMet(u32),
    /// The shown credential carries more blockages than its level admits.
    ExceededBlockagesThreshold,
    /// The shown credential is past its validity window.
    CredentialExpired,
    /// The single uniform issuer-side failure.
    VerificationFailure,
}

} // verus!
