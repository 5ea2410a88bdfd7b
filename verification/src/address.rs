//! Decoding of address bytes, which is left to `pallas_addresses`.

use crate::error::{ErrorView, PhaseOneError};
use crate::ledger::{ScriptHash, StakeCredential};
use pallas_addresses::Address as Decoded;
use pallas_addresses::{ShelleyPaymentPart, StakePayload};
use vstd::prelude::*;

verus! {

/// What the script checks read of a decoded address: its era, and for the
/// eras that have one the hash that controls it.
#[derive(Clone, Copy, Debug, PartialEq, Eq, Hash)]
pub enum Address {
    /// A Byron address.
    Byron,
    /// A Shelley address whose payment part is a key.
    ShelleyKey([u8; 28]),
    /// A Shelley address whose payment part is a script.
    ShelleyScript([u8; 28]),
    /// A stake address whose payload is a key.
    StakeKey([u8; 28]),
    /// A stake address whose payload is a script.
    StakeScript([u8; 28]),
}

/// The script that controls the payment part of an address: of a Shelley
/// address whose payment part is a script, and of no other.
pub open spec fn payment_script_of(address: Address) -> Option<ScriptHash> {
    match address {
        Address::ShelleyScript(h) => Some(h),
        _ => None,
    }
}

/// The stake credential that an address stands for as the account of a
/// withdrawal, if a script controls it. An address that is no stake address
/// is no such account.
pub open spec fn stake_credential_of(address: Address) -> Result<
    Option<StakeCredential>,
    ErrorView,
> {
    match address {
        Address::StakeScript(h) => Ok(Some(StakeCredential::Scripthash(h))),
        Address::StakeKey(_) => Ok(None),
        _ => Err(ErrorView::BadWithdrawalAddress),
    }
}

impl Address {
    /// The script that controls the payment part of the address, if one does.
    pub fn payment_script(&self) -> (r: Option<ScriptHash>)
        ensures
            r == payment_script_of(*self),
    {
        match self {
            Address::ShelleyScript(h) => Some(*h),
            _ => None,
        }
    }

    /// The stake credential that the address stands for as the account of a
    /// withdrawal, if a script controls it.
    pub fn stake_credential(&self) -> (r: Result<Option<StakeCredential>, PhaseOneError>)
        ensures
            match r {
                Ok(c) => stake_credential_of(*self) == Ok::<Option<StakeCredential>, ErrorView>(c),
                Err(e) => stake_credential_of(*self) == Err::<Option<StakeCredential>, ErrorView>(
                    e@,
                ),
            },
    {
        match self {
            Address::StakeScript(h) => Ok(Some(StakeCredential::Scripthash(*h))),
            Address::StakeKey(_) => Ok(None),
            _ => Err(PhaseOneError::BadWithdrawalAddress),
        }
    }
}

/// The error with which `pallas_addresses` refuses address bytes.
#[verifier::external_type_specification]
#[verifier::external_body]
pub struct ExAddressError(pallas_addresses::Error);

/// What `pallas_addresses::Address::from_bytes` makes of `bytes`: the decoded
/// address, or `None` where it refuses them.
pub uninterp spec fn decoded_address(bytes: Seq<u8>) -> Option<Address>;

/// The stake credential that the bytes of a reward account stand for, if a
/// script controls it. Bytes that are no address, or no stake address, are an
/// error.
pub open spec fn account_credential(account: Seq<u8>) -> Result<
    Option<StakeCredential>,
    ErrorView,
> {
    match decoded_address(account) {
        None => Err(ErrorView::AddressDecode),
        Some(address) => stake_credential_of(address),
    }
}

/// Decodes address bytes with `pallas_addresses::Address::from_bytes`, and
/// reads the payment part of a Shelley address and the payload of a stake
/// address. Trusted: the outcome depends on the bytes alone, so that it is
/// `decoded_address` of them.
#[verifier::external_body]
pub(crate) fn decode_address(bytes: &[u8]) -> (r: Result<Address, pallas_addresses::Error>)
    ensures
        match r {
            Ok(a) => decoded_address(bytes@) == Some(a),
            Err(_) => decoded_address(bytes@) is None,
        },
{
    match Decoded::from_bytes(bytes)? {
        Decoded::Byron(_) => Ok(Address::Byron),
        Decoded::Shelley(a) => match a.payment() {
            ShelleyPaymentPart::Key(h) => Ok(Address::ShelleyKey(**h)),
            ShelleyPaymentPart::Script(h) => Ok(Address::ShelleyScript(**h)),
        },
        Decoded::Stake(a) => match a.payload() {
            StakePayload::Stake(h) => Ok(Address::StakeKey(**h)),
            StakePayload::Script(h) => Ok(Address::StakeScript(**h)),
        },
    }
}

} // verus!
