//! The ways in which a transaction fails the script checks.

use crate::ledger::{
    views, OutputRef, RedeemersKey, ScriptHash, ScriptPurpose, ScriptPurposeView,
};
use vstd::prelude::*;

verus! {

/// A redeemer that the transaction owes and its witness set lacks: the
/// pointer, and the purpose and script that ask for it.
#[derive(Debug, PartialEq, Eq)]
pub struct MissingRedeemer {
    pub key: RedeemersKey,
    pub purpose: ScriptPurpose,
    pub hash: ScriptHash,
}

/// The mathematical value of a [`MissingRedeemer`].
pub struct MissingRedeemerView {
    pub key: RedeemersKey,
    pub purpose: ScriptPurposeView,
    pub hash: ScriptHash,
}

impl View for MissingRedeemer {
    type V = MissingRedeemerView;

    open spec fn view(&self) -> MissingRedeemerView {
        MissingRedeemerView { key: self.key, purpose: self.purpose@, hash: self.hash }
    }
}

/// Why a transaction fails the script checks.
#[derive(Debug)]
#[allow(inconsistent_fields)]
pub enum PhaseOneError {
    /// No resolved input was supplied for this input of the transaction.
    ResolvedInputNotFound(OutputRef),
    /// The bytes of an address are malformed.
    AddressDecode(pallas_addresses::Error),
    /// The key of a withdrawal is no stake address.
    BadWithdrawalAddress,
    /// The transaction holds proposal or voting procedures.
    GovernanceUnsupported,
    /// The scripts supplied are not the scripts needed.
    ScriptSetMismatch { missing: Vec<ScriptHash>, extra: Vec<ScriptHash> },
    /// The redeemers supplied are not the redeemers needed.
    RequiredRedeemersMismatch { missing: Vec<MissingRedeemer>, extra: Vec<RedeemersKey> },
}

/// The mathematical value of a [`PhaseOneError`]. Of a decoder's error only the
/// fact is kept.
#[allow(inconsistent_fields)]
pub enum ErrorView {
    ResolvedInputNotFound(OutputRef),
    AddressDecode,
    BadWithdrawalAddress,
    GovernanceUnsupported,
    ScriptSetMismatch { missing: Seq<ScriptHash>, extra: Seq<ScriptHash> },
    RequiredRedeemersMismatch { missing: Seq<MissingRedeemerView>, extra: Seq<RedeemersKey> },
}

impl View for PhaseOneError {
    type V = ErrorView;

    open spec fn view(&self) -> ErrorView {
        match *self {
            PhaseOneError::ResolvedInputNotFound(r) => ErrorView::ResolvedInputNotFound(r),
            PhaseOneError::AddressDecode(_) => ErrorView::AddressDecode,
            PhaseOneError::BadWithdrawalAddress => ErrorView::BadWithdrawalAddress,
            PhaseOneError::GovernanceUnsupported => ErrorView::GovernanceUnsupported,
            PhaseOneError::ScriptSetMismatch { missing, extra } => ErrorView::ScriptSetMismatch {
                missing: missing@,
                extra: extra@,
            },
            PhaseOneError::RequiredRedeemersMismatch {
                missing,
                extra,
            } => ErrorView::RequiredRedeemersMismatch { missing: views(missing@), extra: extra@ },
        }
    }
}

/// The value of a check's outcome.
pub open spec fn outcome(r: Result<(), PhaseOneError>) -> Result<(), ErrorView> {
    match r {
        Ok(_) => Ok(()),
        Err(e) => Err(e@),
    }
}

} // verus!
