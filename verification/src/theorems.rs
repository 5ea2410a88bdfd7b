//! What holds of the checks for every transaction.

use crate::enumerate::{
    cert_step, cert_stepper, certifying_needed, mint_step, minting_needed, reward_step,
    reward_stepper, rewarding_needed, spend_step, spend_stepper, spending_needed, Needed,
};
use crate::bytes::{lemma_lex_order_total, lex_order};
use crate::error::{outcome, ErrorView, MissingRedeemerView, PhaseOneError};
use crate::ledger::{
    views, CertificateView, OutputRef, RedeemersKey, ResolvedInput, ResolvedInputView,
    ScriptHash, ScriptPurposeView, ScriptVersion, Transaction, TransactionView,
};
use crate::order::{
    canonical_accounts, hash_order, lemma_canonical_of_rearranged, lemma_hash_order_total,
    lemma_ref_order_total, ref_order,
};
use crate::phase_one::{
    absent_from, extra_redeemers, extra_scripts, missing_redeemers, missing_scripts,
    needed_hashes, phase_one, purposes, redeemer_check, required_keys, required_redeemers,
    required_step, required_stepper, script_check, script_of, unredeemed,
};
use crate::pointer::{credential_reader, redeemer_key};
use crate::script_table::{entry_keys, lookup, ScriptTable};
use crate::seqs::{keeper, kept, lemma_first_failure_absent, lemma_first_failure_none};
use vstd::prelude::*;

verus! {

/// A filter keeps nothing exactly if its condition holds of no item.
pub proof fn lemma_filter_empty<A>(s: Seq<A>, p: spec_fn(A) -> bool)
    ensures
        s.filter(p).len() == 0 <==> forall|i: int| 0 <= i < s.len() ==> !p(#[trigger] s[i]),
{
    if s.filter(p).len() == 0 {
        assert forall|i: int| 0 <= i < s.len() implies !p(#[trigger] s[i]) by {
            if p(s[i]) {
                s.lemma_filter_contains(p, i);
            }
        }
    } else {
        let x = s.filter(p)[0];
        s.lemma_filter_pred(p, 0);
        assert(s.filter(p).contains(x));
        s.lemma_filter_contains_rev(p, x);
        let i = choose|i: int| 0 <= i < s.len() && s[i] == x;
        assert(p(s[i]));
    }
}

/// What a filter keeps, it keeps from the sequence and for its condition.
pub proof fn lemma_filter_member<A>(s: Seq<A>, p: spec_fn(A) -> bool, x: A)
    ensures
        s.filter(p).contains(x) <==> s.contains(x) && p(x),
{
    if s.filter(p).contains(x) {
        s.lemma_filter_contains_rev(p, x);
        let i = choose|i: int| 0 <= i < s.filter(p).len() && s.filter(p)[i] == x;
        s.lemma_filter_pred(p, i);
    }
    if s.contains(x) && p(x) {
        let i = choose|i: int| 0 <= i < s.len() && s[i] == x;
        s.lemma_filter_contains(p, i);
    }
}

/// The check of the scripts passes exactly if the needed hashes and the
/// hashes of the table are the same set.
pub proof fn lemma_script_check_ok(needed: Seq<Needed>, table: Seq<(ScriptHash, ScriptVersion)>)
    ensures
        script_check(needed, table) is Ok <==> needed_hashes(needed).to_set() == entry_keys(
            table,
        ).to_set(),
{
    let hashes = needed_hashes(needed);
    let keys = entry_keys(table);
    lemma_filter_empty(hashes, absent_from(keys));
    lemma_filter_empty(keys, absent_from(hashes));
    if script_check(needed, table) is Ok {
        assert forall|h: ScriptHash| hashes.to_set().contains(h) == keys.to_set().contains(
            h,
        ) by {
            if hashes.contains(h) {
                let i = choose|i: int| 0 <= i < hashes.len() && hashes[i] == h;
                assert(!absent_from(keys)(hashes[i]));
            }
            if keys.contains(h) {
                let i = choose|i: int| 0 <= i < keys.len() && keys[i] == h;
                assert(!absent_from(hashes)(keys[i]));
            }
        }
        assert(hashes.to_set() =~= keys.to_set());
    }
    if hashes.to_set() == keys.to_set() {
        assert forall|i: int| 0 <= i < hashes.len() implies !absent_from(keys)(
            #[trigger] hashes[i],
        ) by {
            assert(hashes.to_set().contains(hashes[i]));
            assert(keys.to_set().contains(hashes[i]));
        }
        assert forall|i: int| 0 <= i < keys.len() implies !absent_from(hashes)(
            #[trigger] keys[i],
        ) by {
            assert(keys.to_set().contains(keys[i]));
            assert(hashes.to_set().contains(keys[i]));
        }
    }
}

/// The check of the redeemers passes exactly if the required pointers and
/// the pointers of the witness set are the same set.
pub proof fn lemma_redeemer_check_ok(
    tx: TransactionView,
    needed: Seq<Needed>,
    table: Seq<(ScriptHash, ScriptVersion)>,
)
    ensures
        redeemer_check(tx, needed, table) is Ok <==> (required_redeemers(
            tx,
            needed,
            table,
        ) matches Ok(required) && required_keys(required).to_set() == tx.redeemers.to_set()),
{
    if let Ok(required) = required_redeemers(tx, needed, table) {
        let keys = required_keys(required);
        let witness = tx.redeemers;
        lemma_filter_empty(required, unredeemed(witness));
        lemma_filter_empty(witness, absent_from(keys));
        if redeemer_check(tx, needed, table) is Ok {
            assert forall|k: RedeemersKey| keys.to_set().contains(k) == witness.to_set().contains(
                k,
            ) by {
                if keys.contains(k) {
                    let i = choose|i: int| 0 <= i < keys.len() && keys[i] == k;
                    assert(!unredeemed(witness)(required[i]));
                }
                if witness.contains(k) {
                    let i = choose|i: int| 0 <= i < witness.len() && witness[i] == k;
                    assert(!absent_from(keys)(witness[i]));
                }
            }
            assert(keys.to_set() =~= witness.to_set());
        }
        if keys.to_set() == witness.to_set() {
            assert forall|i: int| 0 <= i < required.len() implies !unredeemed(witness)(
                #[trigger] required[i],
            ) by {
                assert(keys[i] == required[i].key);
                assert(keys.to_set().contains(required[i].key));
                assert(witness.to_set().contains(required[i].key));
            }
            assert forall|i: int| 0 <= i < witness.len() implies !absent_from(keys)(
                #[trigger] witness[i],
            ) by {
                assert(witness.to_set().contains(witness[i]));
                assert(keys.to_set().contains(witness[i]));
            }
        }
    }
}

/// Each needed script is the script that its purpose is about: the hash that
/// stands beside a purpose is the hash that the purpose holds or, for an
/// input, the payment script of the output that it spends.
pub proof fn purposes_complete(tx: TransactionView, utxos: Seq<ResolvedInputView>)
    ensures
        purposes(tx, utxos) matches Ok(needed) ==> forall|i: int|
            0 <= i < needed.len() ==> script_of(utxos, (#[trigger] needed[i]).0) == Some(
                needed[i].1,
            ),
{
    if let Ok(needed) = purposes(tx, utxos) {
        let spend = spending_needed(tx.inputs, utxos)->Ok_0;
        let reward = rewarding_needed(tx.withdrawals)->Ok_0;
        let cert = certifying_needed(tx.certificates);
        let mint = minting_needed(tx.mint);
        assert forall|i: int| 0 <= i < needed.len() implies script_of(
            utxos,
            (#[trigger] needed[i]).0,
        ) == Some(needed[i].1) by {
            let x = needed[i];
            if i < spend.len() {
                let f = keeper(spend_stepper(utxos));
                assert(spend[i] == x);
                assert(tx.inputs.filter_map(f).contains(x));
                tx.inputs.lemma_filter_map_contains(f, x);
                let t = choose|t: OutputRef| #[trigger]
                    tx.inputs.contains(t) && f(t) == Some(x);
                assert(kept(spend_step(utxos, t)) == Some(x));
            } else if i < spend.len() + reward.len() {
                let f = keeper(reward_stepper());
                assert(reward[i - spend.len()] == x);
                assert(tx.withdrawals.filter_map(f).contains(x));
                tx.withdrawals.lemma_filter_map_contains(f, x);
                let t = choose|t: Seq<u8>| #[trigger]
                    tx.withdrawals.contains(t) && f(t) == Some(x);
                assert(kept(reward_step(t)) == Some(x));
            } else if i < spend.len() + reward.len() + cert.len() {
                let f = cert_stepper();
                assert(cert[i - spend.len() - reward.len()] == x);
                assert(tx.certificates.filter_map(f).contains(x));
                tx.certificates.lemma_filter_map_contains(f, x);
                let t = choose|t: CertificateView| #[trigger]
                    tx.certificates.contains(t) && f(t) == Some(x);
                assert(cert_step(t) == Some(x));
            } else {
                let j = i - spend.len() - reward.len() - cert.len();
                assert(mint[j] == x);
                assert(x == mint_step(tx.mint[j]));
            }
        }
    }
}

/// The outcome of the checks depends on the values of the transaction, of
/// the resolved inputs and of the script table alone: two runs on equal
/// values end alike.
pub proof fn phase_one_deterministic(
    tx1: Transaction,
    utxos1: Seq<ResolvedInput>,
    table1: ScriptTable,
    r1: Result<(), PhaseOneError>,
    tx2: Transaction,
    utxos2: Seq<ResolvedInput>,
    table2: ScriptTable,
    r2: Result<(), PhaseOneError>,
)
    requires
        tx1@ == tx2@,
        views(utxos1) == views(utxos2),
        table1@ == table2@,
        outcome(r1) == phase_one(tx1@, views(utxos1), table1@),
        outcome(r2) == phase_one(tx2@, views(utxos2), table2@),
    ensures
        outcome(r1) == outcome(r2),
{
}

/// No script hash is reported both as missing and as extraneous.
pub proof fn script_mismatch_disjoint(needed: Seq<Needed>, table: Seq<(ScriptHash, ScriptVersion)>)
    ensures
        forall|h: ScriptHash|
            !(missing_scripts(needed, table).contains(h) && extra_scripts(needed, table).contains(
                h,
            )),
        script_check(needed, table) matches Err(e) ==> e == (ErrorView::ScriptSetMismatch {
            missing: missing_scripts(needed, table),
            extra: extra_scripts(needed, table),
        }),
{
    let hashes = needed_hashes(needed);
    let keys = entry_keys(table);
    assert forall|h: ScriptHash|
        !(missing_scripts(needed, table).contains(h) && extra_scripts(needed, table).contains(
            h,
        )) by {
        lemma_filter_member(hashes, absent_from(keys), h);
        lemma_filter_member(keys, absent_from(hashes), h);
    }
}

/// No redeemer pointer is reported both as missing and as extraneous.
pub proof fn redeemer_mismatch_disjoint(
    required: Seq<MissingRedeemerView>,
    witness: Seq<RedeemersKey>,
)
    ensures
        forall|k: RedeemersKey|
            !(required_keys(missing_redeemers(required, witness)).contains(k) && extra_redeemers(
                required,
                witness,
            ).contains(k)),
{
    let keys = required_keys(required);
    let missing = missing_redeemers(required, witness);
    assert forall|k: RedeemersKey|
        !(required_keys(missing).contains(k) && extra_redeemers(required, witness).contains(
            k,
        )) by {
        if required_keys(missing).contains(k) {
            let i = choose|i: int|
                0 <= i < required_keys(missing).len() && required_keys(missing)[i] == k;
            assert(missing.contains(missing[i]));
            lemma_filter_member(required, unredeemed(witness), missing[i]);
            lemma_filter_member(witness, absent_from(keys), k);
        }
    }
}

/// Whatever mismatch the checks report, its two sides have nothing in common.
pub proof fn phase_one_mismatch_disjoint(
    tx: TransactionView,
    utxos: Seq<ResolvedInputView>,
    table: Seq<(ScriptHash, ScriptVersion)>,
)
    ensures
        phase_one(tx, utxos, table) matches Err(ErrorView::ScriptSetMismatch { missing, extra })
            ==> forall|h: ScriptHash| !(missing.contains(h) && extra.contains(h)),
        phase_one(tx, utxos, table) matches Err(
            ErrorView::RequiredRedeemersMismatch { missing, extra },
        ) ==> forall|k: RedeemersKey| !(required_keys(missing).contains(k) && extra.contains(k)),
{
    if let Ok(needed) = purposes(tx, utxos) {
        script_mismatch_disjoint(needed, table);
        if let Ok(required) = required_redeemers(tx, needed, table) {
            redeemer_mismatch_disjoint(required, tx.redeemers);
        }
    }
}

/// A redeemer pointer does not depend on the order in which the transaction
/// lists its inputs, its minting policies or its withdrawals: two
/// transactions that hold the same of each, and the same certificates in
/// the same order, give every purpose the same pointer.
pub proof fn pointer_stable_under_reordering(
    tx1: TransactionView,
    tx2: TransactionView,
    purpose: ScriptPurposeView,
)
    requires
        tx1.inputs.to_multiset() == tx2.inputs.to_multiset(),
        tx1.mint.to_multiset() == tx2.mint.to_multiset(),
        tx1.withdrawals.to_multiset() == tx2.withdrawals.to_multiset(),
        tx1.certificates == tx2.certificates,
    ensures
        redeemer_key(tx1, purpose) == redeemer_key(tx2, purpose),
{
    lemma_hash_order_total();
    lemma_ref_order_total();
    lemma_lex_order_total();
    lemma_canonical_of_rearranged(tx1.mint, tx2.mint, hash_order());
    lemma_canonical_of_rearranged(tx1.inputs, tx2.inputs, ref_order());
    lemma_canonical_of_rearranged(tx1.withdrawals, tx2.withdrawals, lex_order());
}

/// A purpose whose script is native counts among the needed scripts and asks
/// for no redeemer: none of the required redeemers is for a native script.
pub proof fn native_script_needs_no_redeemer(
    tx: TransactionView,
    needed: Seq<Needed>,
    table: Seq<(ScriptHash, ScriptVersion)>,
    i: int,
)
    requires
        0 <= i < needed.len(),
        lookup(table, needed[i].1) == Some(ScriptVersion::Native),
    ensures
        needed_hashes(needed).contains(needed[i].1),
        kept(required_step(tx, table, needed[i])) is None,
        required_redeemers(tx, needed, table) matches Ok(required) ==> forall|j: int|
            0 <= j < required.len() ==> lookup(table, (#[trigger] required[j]).hash) != Some(
                ScriptVersion::Native,
            ),
{
    assert(needed_hashes(needed)[i] == needed[i].1);
    if let Ok(required) = required_redeemers(tx, needed, table) {
        let f = keeper(required_stepper(tx, table));
        assert forall|j: int| 0 <= j < required.len() implies lookup(
            table,
            (#[trigger] required[j]).hash,
        ) != Some(ScriptVersion::Native) by {
            let x = required[j];
            assert(needed.filter_map(f).contains(x));
            needed.lemma_filter_map_contains(f, x);
            let t = choose|t: Needed| #[trigger] needed.contains(t) && f(t) == Some(x);
            assert(kept(required_step(tx, table, t)) == Some(x));
        }
    }
}

/// Once the scripts of a transaction have been found, every purpose has its
/// pointer or none: no withdrawal is left whose account fails.
pub proof fn pointers_follow_enumeration(
    tx: TransactionView,
    utxos: Seq<ResolvedInputView>,
    table: Seq<(ScriptHash, ScriptVersion)>,
    needed: Seq<Needed>,
)
    requires
        purposes(tx, utxos) is Ok,
    ensures
        forall|purpose: ScriptPurposeView| (#[trigger] redeemer_key(tx, purpose)) is Ok,
        required_redeemers(tx, needed, table) is Ok,
{
    let accounts = tx.withdrawals;
    let sorted = canonical_accounts(accounts);
    let read = credential_reader();
    lemma_lex_order_total();
    accounts.lemma_sort_by_ensures(lex_order());
    lemma_first_failure_none(accounts, reward_stepper());
    assert forall|j: int| 0 <= j < sorted.len() implies read(#[trigger] sorted[j]) is Ok by {
        let x = sorted[j];
        assert(sorted.contains(x));
        assert(accounts.contains(x));
        let k = choose|k: int| 0 <= k < accounts.len() && accounts[k] == x;
        assert(reward_stepper()(accounts[k]) is Ok);
        assert(reward_step(x) is Ok);
    }
    lemma_first_failure_absent(sorted, read);
    assert forall|purpose: ScriptPurposeView| (#[trigger] redeemer_key(tx, purpose)) is Ok by {}
    let step = required_stepper(tx, table);
    assert forall|j: int| 0 <= j < needed.len() implies step(#[trigger] needed[j]) is Ok by {
        assert(redeemer_key(tx, needed[j].0) is Ok);
    }
    lemma_first_failure_absent(needed, step);
}

/// A transaction passes if it comes with exactly the scripts that it needs
/// and its witness set holds exactly the pointers of the required redeemers.
pub proof fn exact_scripts_and_redeemers_pass(
    tx: TransactionView,
    utxos: Seq<ResolvedInputView>,
    table: Seq<(ScriptHash, ScriptVersion)>,
)
    requires
        purposes(tx, utxos) matches Ok(needed) && entry_keys(table).to_set() == needed_hashes(
            needed,
        ).to_set() && tx.redeemers.to_set() == required_keys(
            required_redeemers(tx, needed, table)->Ok_0,
        ).to_set(),
    ensures
        phase_one(tx, utxos, table) is Ok,
{
    let needed = purposes(tx, utxos)->Ok_0;
    lemma_script_check_ok(needed, table);
    pointers_follow_enumeration(tx, utxos, table, needed);
    lemma_redeemer_check_ok(tx, needed, table);
}

/// A transaction passes only if it comes with exactly the scripts that it
/// needs and its witness set holds exactly the pointers of the required
/// redeemers.
pub proof fn pass_means_exact_scripts_and_redeemers(
    tx: TransactionView,
    utxos: Seq<ResolvedInputView>,
    table: Seq<(ScriptHash, ScriptVersion)>,
)
    requires
        phase_one(tx, utxos, table) is Ok,
    ensures
        purposes(tx, utxos) matches Ok(needed) && entry_keys(table).to_set() == needed_hashes(
            needed,
        ).to_set() && (required_redeemers(tx, needed, table) matches Ok(required)
            && tx.redeemers.to_set() == required_keys(required).to_set()),
{
    let needed = purposes(tx, utxos)->Ok_0;
    lemma_script_check_ok(needed, table);
    lemma_redeemer_check_ok(tx, needed, table);
}

} // verus!
