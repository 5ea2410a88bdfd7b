//! The script-related checks of phase one: which scripts a transaction needs,
//! whether it comes with exactly those, and whether its witness set holds
//! exactly the redeemers that they ask for.

use crate::address::{decoded_address, payment_script_of};
use crate::enumerate::{
    certifying_needed, certifying_pass, minting_needed, minting_pass, needed_view,
    resolved_address, reward_stepper, rewarding_needed, rewarding_pass, spending_needed,
    spending_pass, Needed,
};
use crate::error::{outcome, ErrorView, MissingRedeemer, MissingRedeemerView, PhaseOneError};
use crate::ledger::{
    hash_eq, views, CertificateView, RedeemersKey, ResolvedInput, ResolvedInputView, ScriptHash,
    ScriptPurpose, ScriptPurposeView, ScriptVersion, StakeCredential, Transaction,
    TransactionView,
};
use crate::pointer::{build_redeemer_key, redeemer_key};
use crate::script_table::{entry_keys, lookup, ScriptTable};
use crate::seqs::{
    collect, fails_first_at, keeper, lemma_first_failure_absent, lemma_first_failure_found,
};
use crate::theorems::{
    exact_scripts_and_redeemers_pass, purposes_complete, lemma_redeemer_check_ok,
    lemma_script_check_ok, pass_means_exact_scripts_and_redeemers, redeemer_mismatch_disjoint,
    script_mismatch_disjoint,
};
use vstd::prelude::*;

verus! {

/// The scripts that a transaction needs, each with the purpose that needs it.
pub type ScriptsNeeded = Vec<(ScriptPurpose, ScriptHash)>;

/// The scripts that a transaction needs: those of its inputs, then those of
/// its withdrawals, of its certificates and of its minting policies, each
/// group in the order of its container. A transaction with governance
/// procedures is refused, after the errors of the inputs and withdrawals.
pub open spec fn purposes(tx: TransactionView, utxos: Seq<ResolvedInputView>) -> Result<
    Seq<Needed>,
    ErrorView,
> {
    match spending_needed(tx.inputs, utxos) {
        Err(e) => Err(e),
        Ok(spend) => match rewarding_needed(tx.withdrawals) {
            Err(e) => Err(e),
            Ok(reward) => if tx.governance {
                Err(ErrorView::GovernanceUnsupported)
            } else {
                Ok(spend + reward + certifying_needed(tx.certificates) + minting_needed(tx.mint))
            },
        },
    }
}

/// The hash of the script that a purpose is about: the payment script of the
/// output that an input spends, the policy itself, the script of a stake
/// credential.
pub open spec fn script_of(utxos: Seq<ResolvedInputView>, purpose: ScriptPurposeView) -> Option<
    ScriptHash,
> {
    match purpose {
        ScriptPurposeView::Spending(input) => match resolved_address(utxos, input) {
            Some(address) => match decoded_address(address) {
                Some(decoded) => payment_script_of(decoded),
                None => None,
            },
            None => None,
        },
        ScriptPurposeView::Minting(policy) => Some(policy),
        ScriptPurposeView::Rewarding(StakeCredential::Scripthash(h)) => Some(h),
        ScriptPurposeView::Rewarding(StakeCredential::KeyHash(_)) => None,
        ScriptPurposeView::Certifying(certificate) => match certificate {
            CertificateView::StakeDeregistration(StakeCredential::Scripthash(h)) => Some(h),
            CertificateView::StakeDelegation(StakeCredential::Scripthash(h), _) => Some(h),
            _ => None,
        },
    }
}

/// The hashes of the needed scripts, one for each purpose.
pub open spec fn needed_hashes(needed: Seq<Needed>) -> Seq<ScriptHash> {
    Seq::new(needed.len(), |i: int| needed[i].1)
}

/// Holds of what does not stand in `s`.
pub open spec fn absent_from<A>(s: Seq<A>) -> spec_fn(A) -> bool {
    |x: A| !s.contains(x)
}

/// The needed hashes that the table lacks, in the order of the purposes.
pub open spec fn missing_scripts(
    needed: Seq<Needed>,
    table: Seq<(ScriptHash, ScriptVersion)>,
) -> Seq<ScriptHash> {
    needed_hashes(needed).filter(absent_from(entry_keys(table)))
}

/// The hashes of the table that no purpose needs, in the order of the table.
pub open spec fn extra_scripts(
    needed: Seq<Needed>,
    table: Seq<(ScriptHash, ScriptVersion)>,
) -> Seq<ScriptHash> {
    entry_keys(table).filter(absent_from(needed_hashes(needed)))
}

/// Whether the table holds exactly the needed scripts, and if not, which are
/// missing and which extraneous.
pub open spec fn script_check(
    needed: Seq<Needed>,
    table: Seq<(ScriptHash, ScriptVersion)>,
) -> Result<(), ErrorView> {
    let missing = missing_scripts(needed, table);
    let extra = extra_scripts(needed, table);
    if missing.len() == 0 && extra.len() == 0 {
        Ok(())
    } else {
        Err(ErrorView::ScriptSetMismatch { missing, extra })
    }
}

/// The redeemer that one needed script asks for: none where the script is
/// native, or where the purpose has no pointer.
pub open spec fn required_step(
    tx: TransactionView,
    table: Seq<(ScriptHash, ScriptVersion)>,
    entry: Needed,
) -> Result<Option<MissingRedeemerView>, ErrorView> {
    match redeemer_key(tx, entry.0) {
        Err(e) => Err(e),
        Ok(None) => Ok(None),
        Ok(Some(key)) => match lookup(table, entry.1) {
            None => Ok(None),
            Some(ScriptVersion::Native) => Ok(None),
            Some(_) => Ok(Some(MissingRedeemerView { key, purpose: entry.0, hash: entry.1 })),
        },
    }
}

/// The step of the pass over the needed scripts.
pub open spec fn required_stepper(
    tx: TransactionView,
    table: Seq<(ScriptHash, ScriptVersion)>,
) -> spec_fn(Needed) -> Result<Option<MissingRedeemerView>, ErrorView> {
    |entry: Needed| required_step(tx, table, entry)
}

/// The redeemers that the needed scripts ask for, in the order of the
/// purposes.
pub open spec fn required_redeemers(
    tx: TransactionView,
    needed: Seq<Needed>,
    table: Seq<(ScriptHash, ScriptVersion)>,
) -> Result<Seq<MissingRedeemerView>, ErrorView> {
    collect(needed, required_stepper(tx, table))
}

/// The pointers of the required redeemers.
pub open spec fn required_keys(required: Seq<MissingRedeemerView>) -> Seq<RedeemersKey> {
    Seq::new(required.len(), |i: int| required[i].key)
}

/// Holds of a required redeemer whose pointer the witness set lacks.
pub open spec fn unredeemed(witness: Seq<RedeemersKey>) -> spec_fn(MissingRedeemerView) -> bool {
    |m: MissingRedeemerView| !witness.contains(m.key)
}

/// The required redeemers that the witness set lacks.
pub open spec fn missing_redeemers(
    required: Seq<MissingRedeemerView>,
    witness: Seq<RedeemersKey>,
) -> Seq<MissingRedeemerView> {
    required.filter(unredeemed(witness))
}

/// The pointers of the witness set that no needed script asks for.
pub open spec fn extra_redeemers(
    required: Seq<MissingRedeemerView>,
    witness: Seq<RedeemersKey>,
) -> Seq<RedeemersKey> {
    witness.filter(absent_from(required_keys(required)))
}

/// Whether the witness set holds exactly the required redeemers, and if not,
/// which are missing and which extraneous.
pub open spec fn redeemer_check(
    tx: TransactionView,
    needed: Seq<Needed>,
    table: Seq<(ScriptHash, ScriptVersion)>,
) -> Result<(), ErrorView> {
    match required_redeemers(tx, needed, table) {
        Err(e) => Err(e),
        Ok(required) => {
            let missing = missing_redeemers(required, tx.redeemers);
            let extra = extra_redeemers(required, tx.redeemers);
            if missing.len() == 0 && extra.len() == 0 {
                Ok(())
            } else {
                Err(ErrorView::RequiredRedeemersMismatch { missing, extra })
            }
        },
    }
}

/// The three checks in turn, up to the first that fails.
pub open spec fn phase_one(
    tx: TransactionView,
    utxos: Seq<ResolvedInputView>,
    table: Seq<(ScriptHash, ScriptVersion)>,
) -> Result<(), ErrorView> {
    match purposes(tx, utxos) {
        Err(e) => Err(e),
        Ok(needed) => match script_check(needed, table) {
            Err(e) => Err(e),
            Ok(_) => redeemer_check(tx, needed, table),
        },
    }
}

/// Every needed script has an entry in the table.
pub open spec fn all_supplied(
    needed: Seq<Needed>,
    table: Seq<(ScriptHash, ScriptVersion)>,
) -> bool {
    forall|i: int| 0 <= i < needed.len() ==> entry_keys(table).contains((#[trigger] needed[i]).1)
}

/// Runs the script-related checks of phase one on a transaction.
pub fn eval_phase_one(tx: &Transaction, utxos: &[ResolvedInput], lookup_table: &ScriptTable) -> (r:
    Result<(), PhaseOneError>)
    requires
        tx.indexable(),
    ensures
        outcome(r) == phase_one(tx@, views(utxos@), lookup_table@),
        r is Ok <==> (purposes(tx@, views(utxos@)) matches Ok(needed) && entry_keys(
            lookup_table@,
        ).to_set() == needed_hashes(needed).to_set() && tx@.redeemers.to_set() == required_keys(
            required_redeemers(tx@, needed, lookup_table@)->Ok_0,
        ).to_set()),
        r matches Err(PhaseOneError::ScriptSetMismatch { missing, extra }) ==> forall|
            h: ScriptHash,
        | !(missing@.contains(h) && extra@.contains(h)),
        r matches Err(PhaseOneError::RequiredRedeemersMismatch { missing, extra }) ==> forall|
            k: RedeemersKey,
        | !(required_keys(views(missing@)).contains(k) && extra@.contains(k)),
{
    proof {
        if phase_one(tx@, views(utxos@), lookup_table@) is Ok {
            pass_means_exact_scripts_and_redeemers(tx@, views(utxos@), lookup_table@);
        }
        if purposes(tx@, views(utxos@)) is Ok {
            let found = purposes(tx@, views(utxos@))->Ok_0;
            if entry_keys(lookup_table@).to_set() == needed_hashes(found).to_set()
                && tx@.redeemers.to_set() == required_keys(
                required_redeemers(tx@, found, lookup_table@)->Ok_0,
            ).to_set() {
                exact_scripts_and_redeemers_pass(tx@, views(utxos@), lookup_table@);
            }
        }
    }
    let needed = match scripts_needed(tx, utxos) {
        Ok(needed) => needed,
        Err(e) => {
            return Err(e);
        },
    };
    match validate_missing_scripts(&needed, lookup_table) {
        Ok(_) => {},
        Err(e) => {
            return Err(e);
        },
    }
    proof {
        let nv = needed_view(needed@);
        assert forall|i: int| 0 <= i < nv.len() implies entry_keys(lookup_table@).contains(
            (#[trigger] nv[i]).1,
        ) by {
            assert(needed_hashes(nv)[i] == nv[i].1);
            assert(needed_hashes(nv).to_set().contains(nv[i].1));
        }
    }
    has_exact_set_of_redeemers(tx, &needed, lookup_table)
}

/// Whether `hash` is the hash of one of the needed scripts.
fn is_needed(needed: &ScriptsNeeded, hash: &ScriptHash) -> (r: bool)
    ensures
        r == needed_hashes(needed_view(needed@)).contains(*hash),
{
    let ghost hashes = needed_hashes(needed_view(needed@));
    let mut i: usize = 0;
    while i < needed.len()
        invariant
            i <= needed@.len(),
            hashes == needed_hashes(needed_view(needed@)),
            forall|j: int| 0 <= j < i ==> hashes[j] != *hash,
        decreases needed@.len() - i,
    {
        if hash_eq(&needed[i].1, hash) {
            assert(hashes[i as int] == *hash);
            return true;
        }
        i += 1;
    }
    false
}

/// Checks that the scripts that come with the transaction are the scripts
/// that it needs: every needed hash in the table, and no other.
pub fn validate_missing_scripts(needed: &ScriptsNeeded, txscripts: &ScriptTable) -> (r: Result<
    (),
    PhaseOneError,
>)
    ensures
        outcome(r) == script_check(needed_view(needed@), txscripts@),
        r is Ok <==> needed_hashes(needed_view(needed@)).to_set() == entry_keys(
            txscripts@,
        ).to_set(),
        r matches Err(PhaseOneError::ScriptSetMismatch { missing, extra }) ==> forall|
            h: ScriptHash,
        | !(missing@.contains(h) && extra@.contains(h)),
{
    let ghost nv = needed_view(needed@);
    let ghost hashes = needed_hashes(nv);
    let ghost keys = entry_keys(txscripts@);
    let mut missing: Vec<ScriptHash> = Vec::new();
    let mut i: usize = 0;
    assert(hashes.take(0).filter(absent_from(keys)) =~= Seq::<ScriptHash>::empty()) by {
        reveal(Seq::filter);
    }
    while i < needed.len()
        invariant
            i <= needed@.len(),
            nv == needed_view(needed@),
            hashes == needed_hashes(nv),
            keys == entry_keys(txscripts@),
            missing@ == hashes.take(i as int).filter(absent_from(keys)),
        decreases needed@.len() - i,
    {
        let hash = needed[i].1;
        proof {
            assert(hashes.take(i + 1) =~= hashes.take(i as int).push(hash));
            hashes.take(i as int).lemma_filter_push(hash, absent_from(keys));
        }
        if !txscripts.contains_key(&hash) {
            missing.push(hash);
        }
        i += 1;
    }
    assert(hashes.take(i as int) =~= hashes);
    let mut extra: Vec<ScriptHash> = Vec::new();
    let mut k: usize = 0;
    assert(keys.take(0).filter(absent_from(hashes)) =~= Seq::<ScriptHash>::empty()) by {
        reveal(Seq::filter);
    }
    while k < txscripts.len()
        invariant
            k <= txscripts@.len(),
            hashes == needed_hashes(needed_view(needed@)),
            keys == entry_keys(txscripts@),
            extra@ == keys.take(k as int).filter(absent_from(hashes)),
        decreases txscripts@.len() - k,
    {
        let key = txscripts.key_at(k);
        proof {
            assert(keys.take(k + 1) =~= keys.take(k as int).push(key));
            keys.take(k as int).lemma_filter_push(key, absent_from(hashes));
        }
        if !is_needed(needed, &key) {
            extra.push(key);
        }
        k += 1;
    }
    assert(keys.take(k as int) =~= keys);
    proof {
        lemma_script_check_ok(nv, txscripts@);
        script_mismatch_disjoint(nv, txscripts@);
    }
    if missing.len() == 0 && extra.len() == 0 {
        Ok(())
    } else {
        Err(PhaseOneError::ScriptSetMismatch { missing, extra })
    }
}

/// Finds the scripts that a transaction needs: the output's payment script
/// for each input, the stake script for each withdrawal and for each
/// certificate that takes a stake out of registration or delegates it, and
/// the policy for each minted asset.
pub fn scripts_needed(tx: &Transaction, utxos: &[ResolvedInput]) -> (r: Result<
    ScriptsNeeded,
    PhaseOneError,
>)
    ensures
        match r {
            Ok(v) => purposes(tx@, views(utxos@)) == Ok::<Seq<Needed>, ErrorView>(
                needed_view(v@),
            ),
            Err(e) => purposes(tx@, views(utxos@)) == Err::<Seq<Needed>, ErrorView>(e@),
        },
        r matches Ok(v) ==> forall|i: int|
            0 <= i < v@.len() ==> script_of(views(utxos@), (#[trigger] v@[i]).0@) == Some(
                v@[i].1,
            ),
{
    let mut needed: ScriptsNeeded = Vec::new();
    let mut spend = match spending_pass(&tx.inputs, utxos) {
        Ok(spend) => spend,
        Err(e) => {
            return Err(e);
        },
    };
    let mut reward = match &tx.withdrawals {
        Some(w) => match rewarding_pass(w) {
            Ok(reward) => reward,
            Err(e) => {
                return Err(e);
            },
        },
        None => {
            proof {
                lemma_first_failure_absent(tx@.withdrawals, reward_stepper());
            }
            Vec::new()
        },
    };
    let mut cert = match &tx.certificates {
        Some(c) => certifying_pass(c),
        None => Vec::new(),
    };
    let mut mint = match &tx.mint {
        Some(m) => minting_pass(m),
        None => Vec::new(),
    };
    if tx.has_proposal_procedures || tx.has_voting_procedures {
        return Err(PhaseOneError::GovernanceUnsupported);
    }
    let ghost parts = (
        needed_view(spend@),
        needed_view(reward@),
        needed_view(cert@),
        needed_view(mint@),
    );
    proof {
        assert(parts.1 =~= rewarding_needed(tx@.withdrawals)->Ok_0);
        assert(parts.2 =~= certifying_needed(tx@.certificates));
        assert(parts.3 =~= minting_needed(tx@.mint));
    }
    needed.append(&mut spend);
    needed.append(&mut reward);
    needed.append(&mut cert);
    needed.append(&mut mint);
    proof {
        assert(needed_view(needed@) =~= parts.0 + parts.1 + parts.2 + parts.3);
        purposes_complete(tx@, views(utxos@));
        let nv = needed_view(needed@);
        assert forall|i: int| 0 <= i < needed@.len() implies script_of(
            views(utxos@),
            (#[trigger] needed@[i]).0@,
        ) == Some(needed@[i].1) by {
            assert(nv[i] == (needed@[i].0@, needed@[i].1));
        }
    }
    Ok(needed)
}

/// Whether `key` is among `keys`.
fn has_key(keys: &Vec<RedeemersKey>, key: &RedeemersKey) -> (r: bool)
    ensures
        r == keys@.contains(*key),
{
    let mut i: usize = 0;
    while i < keys.len()
        invariant
            i <= keys@.len(),
            forall|j: int| 0 <= j < i ==> keys@[j] != *key,
        decreases keys@.len() - i,
    {
        if keys[i] == *key {
            return true;
        }
        i += 1;
    }
    false
}

/// Whether `key` is the pointer of one of the required redeemers.
fn is_required(required: &Vec<MissingRedeemer>, key: &RedeemersKey) -> (r: bool)
    ensures
        r == required_keys(views(required@)).contains(*key),
{
    let ghost keys = required_keys(views(required@));
    let mut i: usize = 0;
    while i < required.len()
        invariant
            i <= required@.len(),
            keys == required_keys(views(required@)),
            forall|j: int| 0 <= j < i ==> keys[j] != *key,
        decreases required@.len() - i,
    {
        if required[i].key == *key {
            assert(keys[i as int] == *key);
            return true;
        }
        i += 1;
    }
    false
}

/// Checks that the witness set holds exactly the redeemers that the needed
/// scripts ask for: one for each purpose whose script is not native, under
/// the purpose's pointer, and no other. The table is expected to hold every
/// needed script.
pub fn has_exact_set_of_redeemers(
    tx: &Transaction,
    needed: &ScriptsNeeded,
    tx_scripts: &ScriptTable,
) -> (r: Result<(), PhaseOneError>)
    requires
        tx.indexable(),
        all_supplied(needed_view(needed@), tx_scripts@),
    ensures
        outcome(r) == redeemer_check(tx@, needed_view(needed@), tx_scripts@),
        r is Ok <==> (required_redeemers(tx@, needed_view(needed@), tx_scripts@) matches Ok(
            required,
        ) && required_keys(required).to_set() == tx@.redeemers.to_set()),
        r matches Err(PhaseOneError::RequiredRedeemersMismatch { missing, extra }) ==> forall|
            k: RedeemersKey,
        | !(required_keys(views(missing@)).contains(k) && extra@.contains(k)),
{
    let ghost nv = needed_view(needed@);
    let ghost step = required_stepper(tx@, tx_scripts@);
    let mut redeemers_needed: Vec<MissingRedeemer> = Vec::new();
    let mut i: usize = 0;
    assert(nv.take(0).filter_map(keeper(step)) =~= Seq::<MissingRedeemerView>::empty());
    while i < needed.len()
        invariant
            i <= needed@.len(),
            tx.indexable(),
            nv == needed_view(needed@),
            step == required_stepper(tx@, tx_scripts@),
            forall|j: int| 0 <= j < i ==> step(nv[j]) is Ok,
            views(redeemers_needed@) == nv.take(i as int).filter_map(keeper(step)),
        decreases needed@.len() - i,
    {
        let ghost before = views(redeemers_needed@);
        proof {
            nv.lemma_filter_map_take_succ(keeper(step), i as int);
            assert(nv[i as int] == (needed@[i as int].0@, needed@[i as int].1));
        }
        let script_purpose = &needed[i].0;
        let script_hash = needed[i].1;
        let redeemer_key = match build_redeemer_key(tx, script_purpose) {
            Ok(key) => key,
            Err(e) => {
                proof {
                    assert(fails_first_at(nv, step, i as int));
                    lemma_first_failure_found(nv, step, i as int);
                }
                return Err(e);
            },
        };
        let script = tx_scripts.get(&script_hash);
        match (redeemer_key, script) {
            (Some(key), Some(version)) => {
                match version {
                    ScriptVersion::Native => {},
                    _ => {
                        let entry = MissingRedeemer {
                            key,
                            purpose: script_purpose.clone(),
                            hash: script_hash,
                        };
                        redeemers_needed.push(entry);
                        assert(views(redeemers_needed@) =~= before.push(
                            MissingRedeemerView {
                                key,
                                purpose: script_purpose@,
                                hash: script_hash,
                            },
                        ));
                    },
                }
            },
            _ => {},
        }
        i += 1;
    }
    proof {
        assert(nv.take(i as int) =~= nv);
        lemma_first_failure_absent(nv, step);
    }
    let ghost required = views(redeemers_needed@);
    let none: Vec<RedeemersKey> = Vec::new();
    let wits_redeemer_keys: &Vec<RedeemersKey> = match &tx.redeemers {
        Some(keys) => keys,
        None => &none,
    };
    let ghost witness = wits_redeemer_keys@;
    assert(witness =~= tx@.redeemers);
    let mut missing: Vec<MissingRedeemer> = Vec::new();
    let mut m: usize = 0;
    assert(required.take(0).filter(unredeemed(witness)) =~= Seq::<MissingRedeemerView>::empty())
        by {
        reveal(Seq::filter);
    }
    while m < redeemers_needed.len()
        invariant
            m <= redeemers_needed@.len(),
            required == views(redeemers_needed@),
            witness == wits_redeemer_keys@,
            views(missing@) == required.take(m as int).filter(unredeemed(witness)),
        decreases redeemers_needed@.len() - m,
    {
        let ghost before = views(missing@);
        let entry = &redeemers_needed[m];
        proof {
            assert(required.take(m + 1) =~= required.take(m as int).push(entry@));
            required.take(m as int).lemma_filter_push(entry@, unredeemed(witness));
        }
        if !has_key(wits_redeemer_keys, &entry.key) {
            missing.push(
                MissingRedeemer {
                    key: entry.key,
                    purpose: entry.purpose.clone(),
                    hash: entry.hash,
                },
            );
            assert(views(missing@) =~= before.push(entry@));
        }
        m += 1;
    }
    assert(required.take(m as int) =~= required);
    let mut extra: Vec<RedeemersKey> = Vec::new();
    let mut k: usize = 0;
    assert(witness.take(0).filter(absent_from(required_keys(required))) =~= Seq::<
        RedeemersKey,
    >::empty()) by {
        reveal(Seq::filter);
    }
    while k < wits_redeemer_keys.len()
        invariant
            k <= wits_redeemer_keys@.len(),
            required == views(redeemers_needed@),
            witness == wits_redeemer_keys@,
            extra@ == witness.take(k as int).filter(absent_from(required_keys(required))),
        decreases wits_redeemer_keys@.len() - k,
    {
        let key = wits_redeemer_keys[k];
        proof {
            assert(witness.take(k + 1) =~= witness.take(k as int).push(key));
            witness.take(k as int).lemma_filter_push(key, absent_from(required_keys(required)));
        }
        if !is_required(&redeemers_needed, &key) {
            extra.push(key);
        }
        k += 1;
    }
    assert(witness.take(k as int) =~= witness);
    proof {
        lemma_redeemer_check_ok(tx@, nv, tx_scripts@);
        redeemer_mismatch_disjoint(required, witness);
        assert(views(missing@).len() == missing@.len());
    }
    if missing.len() == 0 && extra.len() == 0 {
        Ok(())
    } else {
        Err(PhaseOneError::RequiredRedeemersMismatch { missing, extra })
    }
}

} // verus!
