use vstd::prelude::*;

verus! {

/// Every failure the library can report.
///
/// The first five arise while validating inputs, before any state is
/// mutated. `UnknownCredential`, `UnknownCampaign`, `UnknownDrop`,
/// `DuplicateDrop` and `Unauthorized` guard the administrative and claim
/// surfaces. `AlreadyClaimed` is the store refusing to mark a drop claimed
/// twice. `RemoteSigningFailure` is the one error surfaced after the
/// asynchronous signing boundary; when it occurs the credential has already
/// been consumed and stays consumed.
#[derive(Clone, Copy, Debug, PartialEq, Eq, Structural)]
pub enum Error {
    MalformedInput,
    MalformedAddress,
    InvalidAddress,
    PayloadTooLarge,
    AmountOutOfRange,
    Unauthorized,
    UnknownCredential,
    UnknownCampaign,
    UnknownDrop,
    DuplicateDrop,
    AlreadyClaimed,
    RemoteSigningFailure,
}

impl Error {
    /// A short human-readable label for the error.
    pub fn describe(&self) -> (r: &'static str)
        ensures
            r@.len() > 0,
    {
        proof {
            reveal_strlit("malformed input");
            reveal_strlit("malformed address");
            reveal_strlit("invalid address");
            reveal_strlit("payload too large");
            reveal_strlit("amount out of range");
            reveal_strlit("unauthorized");
            reveal_strlit("unknown credential");
            reveal_strlit("unknown campaign");
            reveal_strlit("unknown drop");
            reveal_strlit("duplicate drop");
            reveal_strlit("already claimed");
            reveal_strlit("remote signing failure");
        }
        match self {
            Error::MalformedInput => "malformed input",
            Error::MalformedAddress => "malformed address",
            Error::InvalidAddress => "invalid address",
            Error::PayloadTooLarge => "payload too large",
            Error::AmountOutOfRange => "amount out of range",
            Error::Unauthorized => "unauthorized",
            Error::UnknownCredential => "unknown credential",
            Error::UnknownCampaign => "unknown campaign",
            Error::UnknownDrop => "unknown drop",
            Error::DuplicateDrop => "duplicate drop",
            Error::AlreadyClaimed => "already claimed",
            Error::RemoteSigningFailure => "remote signing failure",
        }
    }
}

} // verus!
