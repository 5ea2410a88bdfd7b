//! The redeemer pointer of a script purpose: its tag, and its place in the
//! canonical order of its container.

use crate::address::{account_credential, decode_address};
use crate::bytes::{lemma_lex_order_total, lex_order};
use crate::error::{ErrorView, PhaseOneError};
use crate::ledger::{
    hash_eq, views, Certificate, OutputRef, PolicyId, RedeemerTag, RedeemersKey, ScriptPurpose,
    ScriptPurposeView, StakeCredential, Transaction, TransactionView,
};
use crate::order::{
    canonical_accounts, canonical_inputs, canonical_policies, hash_order, lemma_hash_order_total,
    lemma_ref_order_total, lemma_sorted_is_canonical, ref_order, sorted_accounts, sorted_inputs,
    sorted_policies,
};
use crate::seqs::{
    fails_first_at, first_failure, first_position, is_last_position, last_position,
    lemma_first_failure_absent, lemma_first_failure_found, lemma_first_position_absent,
    lemma_first_position_found, lemma_last_position_absent, lemma_last_position_found,
};
use vstd::prelude::*;
use vstd::relations::sorted_by;
use vstd::seq_lib::to_multiset_len;

verus! {

/// The pointer with this tag to this place, if there is a place.
pub open spec fn pointer(tag: RedeemerTag, place: Option<int>) -> Option<RedeemersKey> {
    match place {
        Some(i) => Some(RedeemersKey { tag, index: i as u32 }),
        None => None,
    }
}

/// Reads the credential of a reward account.
pub open spec fn credential_reader() -> spec_fn(Seq<u8>) -> Result<
    Option<StakeCredential>,
    ErrorView,
> {
    |account: Seq<u8>| account_credential(account)
}

/// What each of the accounts stands for.
pub open spec fn credentials(accounts: Seq<Seq<u8>>) -> Seq<
    Result<Option<StakeCredential>, ErrorView>,
> {
    Seq::new(accounts.len(), |i: int| account_credential(accounts[i]))
}

/// The place of a stake credential among reward accounts that are in
/// canonical order: the last account that stands for it. The error of the
/// first account that stands for nothing comes before any place.
pub open spec fn reward_place(accounts: Seq<Seq<u8>>, credential: StakeCredential) -> Result<
    Option<int>,
    ErrorView,
> {
    match first_failure(accounts, credential_reader()) {
        Some(e) => Err(e),
        None => Ok(last_position(credentials(accounts), Ok(Some(credential)))),
    }
}

/// The redeemer pointer of a purpose of the transaction: `None` where the
/// purpose's container does not hold what the purpose is about.
pub open spec fn redeemer_key(tx: TransactionView, purpose: ScriptPurposeView) -> Result<
    Option<RedeemersKey>,
    ErrorView,
> {
    match purpose {
        ScriptPurposeView::Minting(policy) => Ok(
            pointer(RedeemerTag::Mint, first_position(canonical_policies(tx.mint), policy)),
        ),
        ScriptPurposeView::Spending(input) => Ok(
            pointer(RedeemerTag::Spend, first_position(canonical_inputs(tx.inputs), input)),
        ),
        ScriptPurposeView::Rewarding(credential) => match reward_place(
            canonical_accounts(tx.withdrawals),
            credential,
        ) {
            Ok(place) => Ok(pointer(RedeemerTag::Reward, place)),
            Err(e) => Err(e),
        },
        ScriptPurposeView::Certifying(certificate) => Ok(
            pointer(RedeemerTag::Cert, first_position(tx.certificates, certificate)),
        ),
    }
}

/// The first place of a policy id among `ids`.
pub fn place_of_policy(ids: &Vec<PolicyId>, policy: &PolicyId) -> (r: Option<usize>)
    ensures
        match r {
            Some(k) => first_position(ids@, *policy) == Some(k as int) && k < ids@.len(),
            None => first_position(ids@, *policy) is None,
        },
{
    let mut k: usize = 0;
    while k < ids.len()
        invariant
            k <= ids@.len(),
            forall|j: int| 0 <= j < k ==> ids@[j] != *policy,
        decreases ids@.len() - k,
    {
        if hash_eq(&ids[k], policy) {
            proof {
                lemma_first_position_found(ids@, *policy, k as int);
            }
            return Some(k);
        }
        k += 1;
    }
    proof {
        lemma_first_position_absent(ids@, *policy);
    }
    None
}

/// The first place of an input among `inputs`.
pub fn place_of_input(inputs: &Vec<OutputRef>, input: &OutputRef) -> (r: Option<usize>)
    ensures
        match r {
            Some(k) => first_position(inputs@, *input) == Some(k as int) && k < inputs@.len(),
            None => first_position(inputs@, *input) is None,
        },
{
    let mut k: usize = 0;
    while k < inputs.len()
        invariant
            k <= inputs@.len(),
            forall|j: int| 0 <= j < k ==> inputs@[j] != *input,
        decreases inputs@.len() - k,
    {
        if inputs[k].same(input) {
            proof {
                lemma_first_position_found(inputs@, *input, k as int);
            }
            return Some(k);
        }
        k += 1;
    }
    proof {
        lemma_first_position_absent(inputs@, *input);
    }
    None
}

/// The first place of a certificate among `certificates`.
pub fn place_of_certificate(certificates: &Vec<Certificate>, certificate: &Certificate) -> (r:
    Option<usize>)
    ensures
        match r {
            Some(k) => first_position(views(certificates@), certificate@) == Some(k as int) && k
                < certificates@.len(),
            None => first_position(views(certificates@), certificate@) is None,
        },
{
    let mut k: usize = 0;
    while k < certificates.len()
        invariant
            k <= certificates@.len(),
            forall|j: int| 0 <= j < k ==> views(certificates@)[j] != certificate@,
        decreases certificates@.len() - k,
    {
        if certificates[k].same(certificate) {
            proof {
                lemma_first_position_found(views(certificates@), certificate@, k as int);
            }
            return Some(k);
        }
        k += 1;
    }
    proof {
        lemma_first_position_absent(views(certificates@), certificate@);
    }
    None
}

/// The place of a stake credential among reward accounts that are in
/// canonical order.
pub fn place_of_credential(accounts: &Vec<&Vec<u8>>, credential: &StakeCredential) -> (r: Result<
    Option<usize>,
    PhaseOneError,
>)
    ensures
        match r {
            Ok(Some(k)) => reward_place(views(accounts@), *credential) == Ok::<
                Option<int>,
                ErrorView,
            >(Some(k as int)) && k < accounts@.len(),
            Ok(None) => reward_place(views(accounts@), *credential) == Ok::<
                Option<int>,
                ErrorView,
            >(None),
            Err(e) => reward_place(views(accounts@), *credential) == Err::<
                Option<int>,
                ErrorView,
            >(e@),
        },
{
    let ghost bytes = views(accounts@);
    let ghost read = credential_reader();
    let ghost wanted: Result<Option<StakeCredential>, ErrorView> = Ok(Some(*credential));
    let mut found: Option<usize> = None;
    let mut i: usize = 0;
    while i < accounts.len()
        invariant
            i <= accounts@.len(),
            bytes == views(accounts@),
            read == credential_reader(),
            wanted == Ok::<Option<StakeCredential>, ErrorView>(Some(*credential)),
            forall|j: int| 0 <= j < i ==> read(bytes[j]) is Ok,
            match found {
                Some(k) => {
                    &&& k < i
                    &&& credentials(bytes)[k as int] == wanted
                    &&& forall|j: int| k < j < i ==> credentials(bytes)[j] != wanted
                },
                None => forall|j: int| 0 <= j < i ==> credentials(bytes)[j] != wanted,
            },
        decreases accounts@.len() - i,
    {
        match decode_address(accounts[i].as_slice()) {
            Err(e) => {
                proof {
                    assert(fails_first_at(bytes, read, i as int));
                    lemma_first_failure_found(bytes, read, i as int);
                }
                return Err(PhaseOneError::AddressDecode(e));
            },
            Ok(address) => match address.stake_credential() {
                Err(e) => {
                    proof {
                        assert(fails_first_at(bytes, read, i as int));
                        lemma_first_failure_found(bytes, read, i as int);
                    }
                    return Err(e);
                },
                Ok(Some(c)) => {
                    if c.same(credential) {
                        found = Some(i);
                    }
                },
                Ok(None) => {},
            },
        }
        i += 1;
    }
    proof {
        lemma_first_failure_absent(bytes, read);
        match found {
            Some(k) => {
                assert(is_last_position(credentials(bytes), wanted, k as int));
                lemma_last_position_found(credentials(bytes), wanted, k as int);
            },
            None => {
                lemma_last_position_absent(credentials(bytes), wanted);
            },
        }
    }
    Ok(found)
}

/// Builds the redeemer pointer of a script purpose: the tag goes by the kind
/// of the purpose, the index by the place of what the purpose is about in
/// the canonical order of its container.
pub fn build_redeemer_key(tx: &Transaction, script_purpose: &ScriptPurpose) -> (r: Result<
    Option<RedeemersKey>,
    PhaseOneError,
>)
    requires
        tx.indexable(),
    ensures
        match r {
            Ok(key) => redeemer_key(tx@, script_purpose@) == Ok::<Option<RedeemersKey>, ErrorView>(
                key,
            ),
            Err(e) => redeemer_key(tx@, script_purpose@) == Err::<Option<RedeemersKey>, ErrorView>(
                e@,
            ),
        },
{
    match script_purpose {
        ScriptPurpose::Minting(policy) => {
            let ids: Vec<PolicyId> = match &tx.mint {
                Some(m) => sorted_policies(m),
                None => Vec::new(),
            };
            proof {
                lemma_hash_order_total();
                assert(ids@.to_multiset() == tx@.mint.to_multiset());
                assert(sorted_by(ids@, hash_order()));
                lemma_sorted_is_canonical(tx@.mint, ids@, hash_order());
                to_multiset_len(ids@);
                to_multiset_len(tx@.mint);
            }
            match place_of_policy(&ids, policy) {
                Some(k) => Ok(Some(RedeemersKey { tag: RedeemerTag::Mint, index: k as u32 })),
                None => Ok(None),
            }
        },
        ScriptPurpose::Spending(input) => {
            let inputs = sorted_inputs(&tx.inputs);
            proof {
                lemma_ref_order_total();
                lemma_sorted_is_canonical(tx@.inputs, inputs@, ref_order());
                to_multiset_len(inputs@);
                to_multiset_len(tx@.inputs);
            }
            match place_of_input(&inputs, input) {
                Some(k) => Ok(Some(RedeemersKey { tag: RedeemerTag::Spend, index: k as u32 })),
                None => Ok(None),
            }
        },
        ScriptPurpose::Rewarding(credential) => {
            let accounts: Vec<&Vec<u8>> = match &tx.withdrawals {
                Some(w) => sorted_accounts(w),
                None => Vec::new(),
            };
            proof {
                lemma_lex_order_total();
                if tx.withdrawals is None {
                    assert(views(accounts@) =~= tx@.withdrawals);
                }
                assert(views(accounts@).to_multiset() == tx@.withdrawals.to_multiset());
                assert(sorted_by(views(accounts@), lex_order()));
                lemma_sorted_is_canonical(tx@.withdrawals, views(accounts@), lex_order());
                to_multiset_len(views(accounts@));
                to_multiset_len(tx@.withdrawals);
            }
            match place_of_credential(&accounts, credential) {
                Ok(Some(k)) => Ok(
                    Some(RedeemersKey { tag: RedeemerTag::Reward, index: k as u32 }),
                ),
                Ok(None) => Ok(None),
                Err(e) => Err(e),
            }
        },
        ScriptPurpose::Certifying(certificate) => {
            let place = match &tx.certificates {
                Some(c) => place_of_certificate(c, certificate),
                None => {
                    proof {
                        lemma_first_position_absent(tx@.certificates, certificate@);
                    }
                    None
                },
            };
            match place {
                Some(k) => Ok(Some(RedeemersKey { tag: RedeemerTag::Cert, index: k as u32 })),
                None => Ok(None),
            }
        },
    }
}

} // verus!
