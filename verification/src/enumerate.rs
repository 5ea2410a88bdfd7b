//! Which scripts a transaction needs: one pass over each container of the
//! transaction body.

use crate::address::{
    account_credential, decode_address, decoded_address, payment_script_of,
};
use crate::error::{ErrorView, PhaseOneError};
use crate::ledger::{
    views, Certificate, CertificateView, OutputRef, PolicyId, ResolvedInput, ResolvedInputView,
    ScriptHash, ScriptPurpose, ScriptPurposeView, StakeCredential,
};
use crate::seqs::{
    collect, fails_first_at, first_position, is_first_position, keeper,
    lemma_first_failure_absent, lemma_first_failure_found, lemma_first_position_absent,
    lemma_first_position_found,
};
use vstd::prelude::*;

verus! {

/// A script purpose with the hash of the script that it needs.
pub type Needed = (ScriptPurposeView, ScriptHash);

/// The values of the entries of a list of needed scripts.
pub open spec fn needed_view(needed: Seq<(ScriptPurpose, ScriptHash)>) -> Seq<Needed> {
    Seq::new(needed.len(), |i: int| (needed[i].0@, needed[i].1))
}

/// The inputs that the resolved inputs are for, in their order.
pub open spec fn resolved_refs(utxos: Seq<ResolvedInputView>) -> Seq<OutputRef> {
    Seq::new(utxos.len(), |i: int| utxos[i].input)
}

/// The address bytes of the first resolved input that is for `input`.
pub open spec fn resolved_address(utxos: Seq<ResolvedInputView>, input: OutputRef) -> Option<
    Seq<u8>,
> {
    match first_position(resolved_refs(utxos), input) {
        Some(k) => Some(utxos[k].address),
        None => None,
    }
}

/// What one input asks for: a script where the output that it spends is at a
/// Shelley address whose payment part is a script.
pub open spec fn spend_step(utxos: Seq<ResolvedInputView>, input: OutputRef) -> Result<
    Option<Needed>,
    ErrorView,
> {
    match resolved_address(utxos, input) {
        None => Err(ErrorView::ResolvedInputNotFound(input)),
        Some(address) => match decoded_address(address) {
            None => Err(ErrorView::AddressDecode),
            Some(decoded) => match payment_script_of(decoded) {
                Some(h) => Ok(Some((ScriptPurposeView::Spending(input), h))),
                None => Ok(None),
            },
        },
    }
}

/// The step of the pass over the inputs.
pub open spec fn spend_stepper(utxos: Seq<ResolvedInputView>) -> spec_fn(OutputRef) -> Result<
    Option<Needed>,
    ErrorView,
> {
    |input: OutputRef| spend_step(utxos, input)
}

/// What one withdrawal asks for: a script where its account is a stake
/// address whose payload is a script. An account that is no stake address is
/// an error.
pub open spec fn reward_step(account: Seq<u8>) -> Result<Option<Needed>, ErrorView> {
    match account_credential(account) {
        Err(e) => Err(e),
        Ok(Some(StakeCredential::Scripthash(h))) => Ok(
            Some((ScriptPurposeView::Rewarding(StakeCredential::Scripthash(h)), h)),
        ),
        Ok(_) => Ok(None),
    }
}

/// The step of the pass over the withdrawals.
pub open spec fn reward_stepper() -> spec_fn(Seq<u8>) -> Result<Option<Needed>, ErrorView> {
    |account: Seq<u8>| reward_step(account)
}

/// What one certificate asks for: a script where it takes a stake out of
/// registration or delegates it, and a script controls the stake.
pub open spec fn cert_step(certificate: CertificateView) -> Option<Needed> {
    match certificate {
        CertificateView::StakeDeregistration(StakeCredential::Scripthash(h)) => Some(
            (ScriptPurposeView::Certifying(certificate), h),
        ),
        CertificateView::StakeDelegation(StakeCredential::Scripthash(h), _) => Some(
            (ScriptPurposeView::Certifying(certificate), h),
        ),
        _ => None,
    }
}

/// The step of the pass over the certificates.
pub open spec fn cert_stepper() -> spec_fn(CertificateView) -> Option<Needed> {
    |certificate: CertificateView| cert_step(certificate)
}

/// What one minting policy asks for: its own script.
pub open spec fn mint_step(policy: PolicyId) -> Needed {
    (ScriptPurposeView::Minting(policy), policy)
}

/// The scripts that the inputs need, in the order of the inputs.
pub open spec fn spending_needed(inputs: Seq<OutputRef>, utxos: Seq<ResolvedInputView>) -> Result<
    Seq<Needed>,
    ErrorView,
> {
    collect(inputs, spend_stepper(utxos))
}

/// The scripts that the withdrawals need, in the order of the withdrawals.
pub open spec fn rewarding_needed(withdrawals: Seq<Seq<u8>>) -> Result<Seq<Needed>, ErrorView> {
    collect(withdrawals, reward_stepper())
}

/// The scripts that the certificates need, in the order of the certificates.
pub open spec fn certifying_needed(certificates: Seq<CertificateView>) -> Seq<Needed> {
    certificates.filter_map(cert_stepper())
}

/// The scripts that the minting policies need, in the order of the policies.
pub open spec fn minting_needed(mint: Seq<PolicyId>) -> Seq<Needed> {
    Seq::new(mint.len(), |i: int| mint_step(mint[i]))
}

/// The place of the first resolved input that is for `input`.
pub fn find_resolved(utxos: &[ResolvedInput], input: &OutputRef) -> (r: Option<usize>)
    ensures
        match r {
            Some(k) => is_first_position(resolved_refs(views(utxos@)), *input, k as int),
            None => first_position(resolved_refs(views(utxos@)), *input) is None,
        },
{
    let mut k: usize = 0;
    while k < utxos.len()
        invariant
            k <= utxos@.len(),
            forall|j: int| 0 <= j < k ==> resolved_refs(views(utxos@))[j] != *input,
        decreases utxos@.len() - k,
    {
        if utxos[k].input.same(input) {
            return Some(k);
        }
        k += 1;
    }
    proof {
        lemma_first_position_absent(resolved_refs(views(utxos@)), *input);
    }
    None
}

/// The pass over the inputs.
pub fn spending_pass(inputs: &Vec<OutputRef>, utxos: &[ResolvedInput]) -> (r: Result<
    Vec<(ScriptPurpose, ScriptHash)>,
    PhaseOneError,
>)
    ensures
        match r {
            Ok(v) => spending_needed(inputs@, views(utxos@)) == Ok::<Seq<Needed>, ErrorView>(needed_view(v@)),
            Err(e) => spending_needed(inputs@, views(utxos@)) == Err::<Seq<Needed>, ErrorView>(e@),
        },
{
    let ghost step = spend_stepper(views(utxos@));
    let mut spend: Vec<(ScriptPurpose, ScriptHash)> = Vec::new();
    let mut i: usize = 0;
    assert(inputs@.take(0).filter_map(keeper(step)) =~= Seq::<Needed>::empty());
    while i < inputs.len()
        invariant
            i <= inputs@.len(),
            step == spend_stepper(views(utxos@)),
            forall|j: int| 0 <= j < i ==> step(inputs@[j]) is Ok,
            needed_view(spend@) == inputs@.take(i as int).filter_map(keeper(step)),
        decreases inputs@.len() - i,
    {
        let input = inputs[i];
        let ghost before = needed_view(spend@);
        proof {
            inputs@.lemma_filter_map_take_succ(keeper(step), i as int);
        }
        match find_resolved(utxos, &input) {
            None => {
                proof {
                    assert(fails_first_at(inputs@, step, i as int));
                    lemma_first_failure_found(inputs@, step, i as int);
                }
                return Err(PhaseOneError::ResolvedInputNotFound(input));
            },
            Some(k) => {
                proof {
                    lemma_first_position_found(resolved_refs(views(utxos@)), input, k as int);
                }
                match decode_address(utxos[k].output.address.as_slice()) {
                    Err(e) => {
                        proof {
                            assert(fails_first_at(inputs@, step, i as int));
                            lemma_first_failure_found(inputs@, step, i as int);
                        }
                        return Err(PhaseOneError::AddressDecode(e));
                    },
                    Ok(address) => match address.payment_script() {
                        Some(h) => {
                            spend.push((ScriptPurpose::Spending(input), h));
                            assert(needed_view(spend@) =~= before.push(
                                (ScriptPurposeView::Spending(input), h),
                            ));
                        },
                        None => {},
                    },
                }
            },
        }
        i += 1;
    }
    proof {
        assert(inputs@.take(i as int) =~= inputs@);
        lemma_first_failure_absent(inputs@, step);
    }
    Ok(spend)
}

/// The pass over the withdrawals.
pub fn rewarding_pass(withdrawals: &Vec<Vec<u8>>) -> (r: Result<
    Vec<(ScriptPurpose, ScriptHash)>,
    PhaseOneError,
>)
    ensures
        match r {
            Ok(v) => rewarding_needed(views(withdrawals@)) == Ok::<Seq<Needed>, ErrorView>(needed_view(v@)),
            Err(e) => rewarding_needed(views(withdrawals@)) == Err::<Seq<Needed>, ErrorView>(e@),
        },
{
    let ghost step = reward_stepper();
    let ghost accounts = views(withdrawals@);
    let mut reward: Vec<(ScriptPurpose, ScriptHash)> = Vec::new();
    let mut i: usize = 0;
    assert(accounts.take(0).filter_map(keeper(step)) =~= Seq::<Needed>::empty());
    while i < withdrawals.len()
        invariant
            i <= withdrawals@.len(),
            step == reward_stepper(),
            accounts == views(withdrawals@),
            forall|j: int| 0 <= j < i ==> step(accounts[j]) is Ok,
            needed_view(reward@) == accounts.take(i as int).filter_map(keeper(step)),
        decreases withdrawals@.len() - i,
    {
        let ghost before = needed_view(reward@);
        proof {
            accounts.lemma_filter_map_take_succ(keeper(step), i as int);
        }
        match decode_address(withdrawals[i].as_slice()) {
            Err(e) => {
                proof {
                    assert(fails_first_at(accounts, step, i as int));
                    lemma_first_failure_found(accounts, step, i as int);
                }
                return Err(PhaseOneError::AddressDecode(e));
            },
            Ok(address) => match address.stake_credential() {
                Err(e) => {
                    proof {
                        assert(fails_first_at(accounts, step, i as int));
                        lemma_first_failure_found(accounts, step, i as int);
                    }
                    return Err(e);
                },
                Ok(Some(StakeCredential::Scripthash(h))) => {
                    reward.push((ScriptPurpose::Rewarding(StakeCredential::Scripthash(h)), h));
                    assert(needed_view(reward@) =~= before.push(
                        (ScriptPurposeView::Rewarding(StakeCredential::Scripthash(h)), h),
                    ));
                },
                Ok(_) => {},
            },
        }
        i += 1;
    }
    proof {
        assert(accounts.take(i as int) =~= accounts);
        lemma_first_failure_absent(accounts, step);
    }
    Ok(reward)
}

/// The pass over the certificates.
pub fn certifying_pass(certificates: &Vec<Certificate>) -> (r: Vec<(ScriptPurpose, ScriptHash)>)
    ensures
        needed_view(r@) == certifying_needed(views(certificates@)),
{
    let ghost step = cert_stepper();
    let ghost certs = views(certificates@);
    let mut out: Vec<(ScriptPurpose, ScriptHash)> = Vec::new();
    let mut i: usize = 0;
    assert(certs.take(0).filter_map(step) =~= Seq::<Needed>::empty());
    while i < certificates.len()
        invariant
            i <= certificates@.len(),
            step == cert_stepper(),
            certs == views(certificates@),
            needed_view(out@) == certs.take(i as int).filter_map(step),
        decreases certificates@.len() - i,
    {
        let ghost before = needed_view(out@);
        proof {
            certs.lemma_filter_map_take_succ(step, i as int);
        }
        let certificate = &certificates[i];
        match certificate {
            Certificate::StakeDeregistration(StakeCredential::Scripthash(h)) => {
                out.push((ScriptPurpose::Certifying(certificate.clone()), *h));
                assert(needed_view(out@) =~= before.push(
                    (ScriptPurposeView::Certifying(certificate@), *h),
                ));
            },
            Certificate::StakeDelegation(StakeCredential::Scripthash(h), _) => {
                out.push((ScriptPurpose::Certifying(certificate.clone()), *h));
                assert(needed_view(out@) =~= before.push(
                    (ScriptPurposeView::Certifying(certificate@), *h),
                ));
            },
            _ => {},
        }
        i += 1;
    }
    assert(certs.take(i as int) =~= certs);
    out
}

/// The pass over the minting policies.
pub fn minting_pass(mint: &Vec<PolicyId>) -> (r: Vec<(ScriptPurpose, ScriptHash)>)
    ensures
        needed_view(r@) == minting_needed(mint@),
{
    let mut out: Vec<(ScriptPurpose, ScriptHash)> = Vec::new();
    let mut i: usize = 0;
    while i < mint.len()
        invariant
            i <= mint@.len(),
            needed_view(out@) == minting_needed(mint@.take(i as int)),
        decreases mint@.len() - i,
    {
        let policy = mint[i];
        let ghost before = needed_view(out@);
        out.push((ScriptPurpose::Minting(policy), policy));
        assert(needed_view(out@) =~= before.push(mint_step(policy)));
        assert(minting_needed(mint@.take(i + 1)) =~= minting_needed(mint@.take(i as int)).push(
            mint_step(policy),
        ));
        i += 1;
    }
    assert(mint@.take(i as int) =~= mint@);
    out
}

} // verus!
