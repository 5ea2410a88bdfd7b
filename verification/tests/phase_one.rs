use script_validation::error::{MissingRedeemer, PhaseOneError};
use script_validation::ledger::{
    Certificate, OutputRef, RedeemerTag, RedeemersKey, ResolvedInput, ScriptHash, ScriptPurpose,
    ScriptVersion, StakeCredential, Transaction, TxOut,
};
use script_validation::phase_one::{
    eval_phase_one, has_exact_set_of_redeemers, scripts_needed, validate_missing_scripts,
};
use script_validation::pointer::build_redeemer_key;
use script_validation::script_table::ScriptTable;

fn hash(byte: u8) -> ScriptHash {
    [byte; 28]
}

fn tx_id(last: u8) -> [u8; 32] {
    let mut id = [0u8; 32];
    id[31] = last;
    id
}

fn output_ref(last: u8, index: u32) -> OutputRef {
    OutputRef { tx_id: tx_id(last), index }
}

fn address(header: u8, h: ScriptHash) -> Vec<u8> {
    let mut bytes = vec![header];
    bytes.extend_from_slice(&h);
    bytes
}

fn script_address(h: ScriptHash) -> Vec<u8> {
    address(0x71, h)
}

fn key_address(h: ScriptHash) -> Vec<u8> {
    address(0x61, h)
}

fn stake_script_account(h: ScriptHash) -> Vec<u8> {
    address(0xf1, h)
}

fn stake_key_account(h: ScriptHash) -> Vec<u8> {
    address(0xe1, h)
}

fn resolved(input: OutputRef, address: Vec<u8>) -> ResolvedInput {
    ResolvedInput { input, output: TxOut { address } }
}

fn empty_tx() -> Transaction {
    Transaction {
        inputs: vec![],
        mint: None,
        withdrawals: None,
        certificates: None,
        has_proposal_procedures: false,
        has_voting_procedures: false,
        redeemers: None,
    }
}

fn table(entries: &[(ScriptHash, ScriptVersion)]) -> ScriptTable {
    let mut t = ScriptTable::new();
    for (h, v) in entries {
        t.insert(*h, *v);
    }
    t
}

fn key(tag: RedeemerTag, index: u32) -> RedeemersKey {
    RedeemersKey { tag, index }
}

fn single_script_spend() -> (Transaction, Vec<ResolvedInput>) {
    let a = output_ref(7, 0);
    let mut tx = empty_tx();
    tx.inputs = vec![a];
    (tx, vec![resolved(a, script_address(hash(1)))])
}

#[test]
fn single_script_spend_with_its_redeemer_passes() {
    let (mut tx, utxos) = single_script_spend();
    tx.redeemers = Some(vec![key(RedeemerTag::Spend, 0)]);
    let scripts = table(&[(hash(1), ScriptVersion::PlutusV2)]);
    assert!(tx.is_indexable());
    assert!(eval_phase_one(&tx, &utxos, &scripts).is_ok());
}

#[test]
fn missing_witness_redeemer_is_reported() {
    let (tx, utxos) = single_script_spend();
    let a = tx.inputs[0];
    let scripts = table(&[(hash(1), ScriptVersion::PlutusV2)]);
    match eval_phase_one(&tx, &utxos, &scripts) {
        Err(PhaseOneError::RequiredRedeemersMismatch { missing, extra }) => {
            assert_eq!(
                missing,
                vec![MissingRedeemer {
                    key: key(RedeemerTag::Spend, 0),
                    purpose: ScriptPurpose::Spending(a),
                    hash: hash(1),
                }]
            );
            assert_eq!(extra, vec![]);
        }
        other => panic!("unexpected outcome: {:?}", other),
    }
}

#[test]
fn empty_redeemer_list_counts_as_no_redeemers() {
    let (mut tx, utxos) = single_script_spend();
    tx.redeemers = Some(vec![]);
    let scripts = table(&[(hash(1), ScriptVersion::PlutusV2)]);
    assert!(matches!(
        eval_phase_one(&tx, &utxos, &scripts),
        Err(PhaseOneError::RequiredRedeemersMismatch { .. })
    ));
}

#[test]
fn extraneous_script_is_reported() {
    let (mut tx, utxos) = single_script_spend();
    tx.redeemers = Some(vec![key(RedeemerTag::Spend, 0)]);
    let scripts =
        table(&[(hash(1), ScriptVersion::PlutusV2), (hash(2), ScriptVersion::PlutusV2)]);
    match eval_phase_one(&tx, &utxos, &scripts) {
        Err(PhaseOneError::ScriptSetMismatch { missing, extra }) => {
            assert_eq!(missing, Vec::<ScriptHash>::new());
            assert_eq!(extra, vec![hash(2)]);
        }
        other => panic!("unexpected outcome: {:?}", other),
    }
}

#[test]
fn missing_script_is_reported_once_for_each_purpose() {
    let a = output_ref(1, 0);
    let b = output_ref(2, 0);
    let mut tx = empty_tx();
    tx.inputs = vec![a, b];
    let utxos = vec![resolved(a, script_address(hash(1))), resolved(b, script_address(hash(1)))];
    let needed = scripts_needed(&tx, &utxos).unwrap();
    let scripts = table(&[(hash(3), ScriptVersion::PlutusV1)]);
    match validate_missing_scripts(&needed, &scripts) {
        Err(PhaseOneError::ScriptSetMismatch { missing, extra }) => {
            assert_eq!(missing, vec![hash(1), hash(1)]);
            assert_eq!(extra, vec![hash(3)]);
        }
        other => panic!("unexpected outcome: {:?}", other),
    }
}

#[test]
fn script_mismatch_sides_have_nothing_in_common() {
    let a = output_ref(1, 0);
    let b = output_ref(2, 0);
    let mut tx = empty_tx();
    tx.inputs = vec![a, b];
    tx.mint = Some(vec![hash(9)]);
    let utxos = vec![resolved(a, script_address(hash(1))), resolved(b, script_address(hash(2)))];
    let needed = scripts_needed(&tx, &utxos).unwrap();
    let scripts = table(&[
        (hash(2), ScriptVersion::PlutusV1),
        (hash(3), ScriptVersion::PlutusV1),
        (hash(4), ScriptVersion::Native),
    ]);
    match validate_missing_scripts(&needed, &scripts) {
        Err(PhaseOneError::ScriptSetMismatch { missing, extra }) => {
            assert_eq!(missing, vec![hash(1), hash(9)]);
            assert_eq!(extra, vec![hash(3), hash(4)]);
            assert!(missing.iter().all(|h| !extra.contains(h)));
        }
        other => panic!("unexpected outcome: {:?}", other),
    }
}

#[test]
fn duplicate_hashes_across_purposes_match_one_table_entry() {
    let a = output_ref(1, 0);
    let b = output_ref(2, 0);
    let mut tx = empty_tx();
    tx.inputs = vec![a, b];
    let utxos = vec![resolved(a, script_address(hash(1))), resolved(b, script_address(hash(1)))];
    let needed = scripts_needed(&tx, &utxos).unwrap();
    assert_eq!(needed.len(), 2);
    let scripts = table(&[(hash(1), ScriptVersion::PlutusV3)]);
    assert!(validate_missing_scripts(&needed, &scripts).is_ok());
}

#[test]
fn mint_pointers_follow_the_order_of_the_policy_ids() {
    let p_a = hash(0x0a);
    let p_b = hash(0x0b);
    let mut tx = empty_tx();
    tx.mint = Some(vec![p_b, p_a]);
    tx.redeemers = Some(vec![key(RedeemerTag::Mint, 0), key(RedeemerTag::Mint, 1)]);
    let scripts = table(&[(p_a, ScriptVersion::PlutusV2), (p_b, ScriptVersion::PlutusV2)]);
    assert!(eval_phase_one(&tx, &[], &scripts).is_ok());

    tx.redeemers = Some(vec![key(RedeemerTag::Mint, 0)]);
    match eval_phase_one(&tx, &[], &scripts) {
        Err(PhaseOneError::RequiredRedeemersMismatch { missing, extra }) => {
            assert_eq!(
                missing,
                vec![MissingRedeemer {
                    key: key(RedeemerTag::Mint, 1),
                    purpose: ScriptPurpose::Minting(p_b),
                    hash: p_b,
                }]
            );
            assert_eq!(extra, vec![]);
        }
        other => panic!("unexpected outcome: {:?}", other),
    }
}

#[test]
fn mint_pointer_ignores_the_order_of_the_mint_field() {
    let ids = [hash(5), hash(1), hash(3)];
    let mut tx = empty_tx();
    tx.mint = Some(vec![ids[0], ids[1], ids[2]]);
    let mut rearranged = empty_tx();
    rearranged.mint = Some(vec![ids[2], ids[0], ids[1]]);
    let expected = [2u32, 0, 1];
    for (id, index) in ids.iter().zip(expected) {
        let purpose = ScriptPurpose::Minting(*id);
        let first = build_redeemer_key(&tx, &purpose).unwrap();
        let second = build_redeemer_key(&rearranged, &purpose).unwrap();
        assert_eq!(first, Some(key(RedeemerTag::Mint, index)));
        assert_eq!(first, second);
    }
}

#[test]
fn policy_ids_are_ordered_byte_by_byte() {
    let mut low = [0u8; 28];
    low[0] = 1;
    low[27] = 0xff;
    let mut high = [0u8; 28];
    high[0] = 2;
    let mut tx = empty_tx();
    tx.mint = Some(vec![high, low]);
    assert_eq!(
        build_redeemer_key(&tx, &ScriptPurpose::Minting(low)).unwrap(),
        Some(key(RedeemerTag::Mint, 0))
    );
    assert_eq!(
        build_redeemer_key(&tx, &ScriptPurpose::Minting(high)).unwrap(),
        Some(key(RedeemerTag::Mint, 1))
    );
}

#[test]
fn spend_pointers_follow_the_canonical_order_of_inputs() {
    let first = output_ref(1, 0);
    let second = output_ref(2, 0);
    let scripts = table(&[(hash(4), ScriptVersion::PlutusV2)]);
    let utxos =
        vec![resolved(first, script_address(hash(4))), resolved(second, script_address(hash(4)))];
    for inputs in [vec![first, second], vec![second, first]] {
        let mut tx = empty_tx();
        tx.inputs = inputs;
        tx.redeemers = Some(vec![key(RedeemerTag::Spend, 0), key(RedeemerTag::Spend, 1)]);
        assert!(eval_phase_one(&tx, &utxos, &scripts).is_ok());
        assert_eq!(
            build_redeemer_key(&tx, &ScriptPurpose::Spending(first)).unwrap(),
            Some(key(RedeemerTag::Spend, 0))
        );
        assert_eq!(
            build_redeemer_key(&tx, &ScriptPurpose::Spending(second)).unwrap(),
            Some(key(RedeemerTag::Spend, 1))
        );
    }
}

#[test]
fn inputs_of_one_transaction_are_ordered_by_index() {
    let low = output_ref(3, 1);
    let high = output_ref(3, 2);
    let other = output_ref(2, 9);
    let mut tx = empty_tx();
    tx.inputs = vec![high, low, other];
    assert_eq!(
        build_redeemer_key(&tx, &ScriptPurpose::Spending(other)).unwrap(),
        Some(key(RedeemerTag::Spend, 0))
    );
    assert_eq!(
        build_redeemer_key(&tx, &ScriptPurpose::Spending(low)).unwrap(),
        Some(key(RedeemerTag::Spend, 1))
    );
    assert_eq!(
        build_redeemer_key(&tx, &ScriptPurpose::Spending(high)).unwrap(),
        Some(key(RedeemerTag::Spend, 2))
    );
}

#[test]
fn spend_index_counts_key_locked_inputs_too() {
    let key_locked = output_ref(1, 0);
    let script_locked = output_ref(2, 0);
    let mut tx = empty_tx();
    tx.inputs = vec![script_locked, key_locked];
    tx.redeemers = Some(vec![key(RedeemerTag::Spend, 1)]);
    let utxos = vec![
        resolved(key_locked, key_address(hash(8))),
        resolved(script_locked, script_address(hash(4))),
    ];
    let needed = scripts_needed(&tx, &utxos).unwrap();
    assert_eq!(needed, vec![(ScriptPurpose::Spending(script_locked), hash(4))]);
    let scripts = table(&[(hash(4), ScriptVersion::PlutusV1)]);
    assert!(eval_phase_one(&tx, &utxos, &scripts).is_ok());
}

#[test]
fn native_script_needs_no_redeemer() {
    let p = hash(6);
    let mut tx = empty_tx();
    tx.mint = Some(vec![p]);
    let scripts = table(&[(p, ScriptVersion::Native)]);
    assert!(eval_phase_one(&tx, &[], &scripts).is_ok());
}

#[test]
fn native_script_must_still_be_supplied() {
    let p = hash(6);
    let q = hash(7);
    let mut tx = empty_tx();
    tx.mint = Some(vec![p, q]);
    let scripts = table(&[(q, ScriptVersion::Native)]);
    match eval_phase_one(&tx, &[], &scripts) {
        Err(PhaseOneError::ScriptSetMismatch { missing, extra }) => {
            assert_eq!(missing, vec![p]);
            assert_eq!(extra, Vec::<ScriptHash>::new());
        }
        other => panic!("unexpected outcome: {:?}", other),
    }
    let scripts = table(&[(q, ScriptVersion::Native), (p, ScriptVersion::Native)]);
    assert!(eval_phase_one(&tx, &[], &scripts).is_ok());
}

#[test]
fn redeemer_for_a_native_script_is_extraneous() {
    let p = hash(6);
    let mut tx = empty_tx();
    tx.mint = Some(vec![p]);
    tx.redeemers = Some(vec![key(RedeemerTag::Mint, 0)]);
    let scripts = table(&[(p, ScriptVersion::Native)]);
    match eval_phase_one(&tx, &[], &scripts) {
        Err(PhaseOneError::RequiredRedeemersMismatch { missing, extra }) => {
            assert_eq!(missing, vec![]);
            assert_eq!(extra, vec![key(RedeemerTag::Mint, 0)]);
        }
        other => panic!("unexpected outcome: {:?}", other),
    }
}

#[test]
fn every_plutus_version_needs_a_redeemer() {
    for version in [ScriptVersion::PlutusV1, ScriptVersion::PlutusV2, ScriptVersion::PlutusV3] {
        let p = hash(6);
        let mut tx = empty_tx();
        tx.mint = Some(vec![p]);
        let scripts = table(&[(p, version)]);
        assert!(matches!(
            eval_phase_one(&tx, &[], &scripts),
            Err(PhaseOneError::RequiredRedeemersMismatch { .. })
        ));
        tx.redeemers = Some(vec![key(RedeemerTag::Mint, 0)]);
        assert!(eval_phase_one(&tx, &[], &scripts).is_ok());
    }
}

#[test]
fn purposes_come_by_kind_and_then_in_container_order() {
    let a = output_ref(9, 0);
    let b = output_ref(1, 0);
    let pool = hash(0x77);
    let dereg = Certificate::StakeDeregistration(StakeCredential::Scripthash(hash(0x31)));
    let deleg = Certificate::StakeDelegation(StakeCredential::Scripthash(hash(0x32)), pool);
    let mut tx = empty_tx();
    tx.inputs = vec![a, b];
    tx.mint = Some(vec![hash(0x52), hash(0x51)]);
    tx.withdrawals = Some(vec![
        stake_script_account(hash(0x22)),
        stake_key_account(hash(0x23)),
        stake_script_account(hash(0x21)),
    ]);
    tx.certificates = Some(vec![
        Certificate::StakeRegistration(StakeCredential::Scripthash(hash(0x30))),
        deleg.clone(),
        Certificate::StakeDeregistration(StakeCredential::KeyHash(hash(0x33))),
        Certificate::Other(vec![0x83, 0x03]),
        dereg.clone(),
    ]);
    let utxos = vec![resolved(b, script_address(hash(0x12))), resolved(a, script_address(hash(0x11)))];
    let needed = scripts_needed(&tx, &utxos).unwrap();
    assert_eq!(
        needed,
        vec![
            (ScriptPurpose::Spending(a), hash(0x11)),
            (ScriptPurpose::Spending(b), hash(0x12)),
            (ScriptPurpose::Rewarding(StakeCredential::Scripthash(hash(0x22))), hash(0x22)),
            (ScriptPurpose::Rewarding(StakeCredential::Scripthash(hash(0x21))), hash(0x21)),
            (ScriptPurpose::Certifying(deleg), hash(0x32)),
            (ScriptPurpose::Certifying(dereg), hash(0x31)),
            (ScriptPurpose::Minting(hash(0x52)), hash(0x52)),
            (ScriptPurpose::Minting(hash(0x51)), hash(0x51)),
        ]
    );
}

#[test]
fn needed_hash_is_the_hash_in_the_purpose() {
    let a = output_ref(9, 0);
    let mut tx = empty_tx();
    tx.inputs = vec![a];
    tx.mint = Some(vec![hash(0x52)]);
    tx.withdrawals = Some(vec![stake_script_account(hash(0x22))]);
    tx.certificates =
        Some(vec![Certificate::StakeDeregistration(StakeCredential::Scripthash(hash(0x31)))]);
    let utxos = vec![resolved(a, script_address(hash(0x11)))];
    for (purpose, h) in scripts_needed(&tx, &utxos).unwrap() {
        match purpose {
            ScriptPurpose::Spending(r) => {
                assert_eq!(r, a);
                assert_eq!(h, hash(0x11));
            }
            ScriptPurpose::Minting(p) => assert_eq!(h, p),
            ScriptPurpose::Rewarding(StakeCredential::Scripthash(c)) => assert_eq!(h, c),
            ScriptPurpose::Certifying(Certificate::StakeDeregistration(
                StakeCredential::Scripthash(c),
            )) => assert_eq!(h, c),
            other => panic!("unexpected purpose: {:?}", other),
        }
    }
}

#[test]
fn empty_transaction_needs_nothing() {
    let tx = empty_tx();
    assert_eq!(scripts_needed(&tx, &[]).unwrap(), vec![]);
    assert!(eval_phase_one(&tx, &[], &ScriptTable::new()).is_ok());
}

#[test]
fn first_resolved_input_for_a_reference_counts() {
    let a = output_ref(1, 0);
    let mut tx = empty_tx();
    tx.inputs = vec![a];
    let utxos = vec![resolved(a, key_address(hash(1))), resolved(a, script_address(hash(2)))];
    assert_eq!(scripts_needed(&tx, &utxos).unwrap(), vec![]);
}

#[test]
fn input_without_resolved_output_is_an_error() {
    let a = output_ref(1, 0);
    let b = output_ref(1, 1);
    let mut tx = empty_tx();
    tx.inputs = vec![a, b];
    let utxos = vec![resolved(a, script_address(hash(1)))];
    match scripts_needed(&tx, &utxos) {
        Err(PhaseOneError::ResolvedInputNotFound(r)) => assert_eq!(r, b),
        other => panic!("unexpected outcome: {:?}", other),
    }
    assert!(matches!(
        eval_phase_one(&tx, &utxos, &ScriptTable::new()),
        Err(PhaseOneError::ResolvedInputNotFound(_))
    ));
}

#[test]
fn malformed_output_address_is_an_error() {
    let a = output_ref(1, 0);
    let mut tx = empty_tx();
    tx.inputs = vec![a];
    for bad in [vec![], vec![0x90, 1, 2], vec![0x71, 1, 2, 3]] {
        let utxos = vec![resolved(a, bad)];
        assert!(matches!(scripts_needed(&tx, &utxos), Err(PhaseOneError::AddressDecode(_))));
    }
}

#[test]
fn malformed_withdrawal_account_is_an_error() {
    let mut tx = empty_tx();
    tx.withdrawals = Some(vec![stake_script_account(hash(1)), vec![0xf1, 7]]);
    assert!(matches!(scripts_needed(&tx, &[]), Err(PhaseOneError::AddressDecode(_))));
}

#[test]
fn withdrawal_from_a_payment_address_is_an_error() {
    let mut tx = empty_tx();
    tx.withdrawals = Some(vec![stake_key_account(hash(1)), script_address(hash(2))]);
    assert!(matches!(scripts_needed(&tx, &[]), Err(PhaseOneError::BadWithdrawalAddress)));
    assert!(matches!(
        build_redeemer_key(
            &tx,
            &ScriptPurpose::Rewarding(StakeCredential::Scripthash(hash(2)))
        ),
        Err(PhaseOneError::BadWithdrawalAddress)
    ));
}

#[test]
fn governance_procedures_are_refused() {
    let mut tx = empty_tx();
    tx.has_proposal_procedures = true;
    assert!(matches!(scripts_needed(&tx, &[]), Err(PhaseOneError::GovernanceUnsupported)));
    let mut tx = empty_tx();
    tx.has_voting_procedures = true;
    assert!(matches!(
        eval_phase_one(&tx, &[], &ScriptTable::new()),
        Err(PhaseOneError::GovernanceUnsupported)
    ));
}

#[test]
fn input_errors_come_before_the_governance_guard() {
    let mut tx = empty_tx();
    tx.inputs = vec![output_ref(1, 0)];
    tx.has_proposal_procedures = true;
    assert!(matches!(scripts_needed(&tx, &[]), Err(PhaseOneError::ResolvedInputNotFound(_))));
}

#[test]
fn reward_pointers_follow_the_order_of_the_account_bytes() {
    let low = address(0xf0, hash(0x30));
    let mid = address(0xf0, hash(0x40));
    let high = address(0xf1, hash(0x10));
    let expected = [(hash(0x30), 0u32), (hash(0x40), 1), (hash(0x10), 2)];
    for withdrawals in [
        vec![low.clone(), mid.clone(), high.clone()],
        vec![high.clone(), low.clone(), mid.clone()],
    ] {
        let mut tx = empty_tx();
        tx.withdrawals = Some(withdrawals);
        for (h, index) in expected {
            assert_eq!(
                build_redeemer_key(&tx, &ScriptPurpose::Rewarding(StakeCredential::Scripthash(h)))
                    .unwrap(),
                Some(key(RedeemerTag::Reward, index))
            );
        }
    }
}

#[test]
fn reward_index_counts_key_accounts_too() {
    let mut tx = empty_tx();
    tx.withdrawals =
        Some(vec![stake_script_account(hash(0x05)), stake_key_account(hash(0x09))]);
    tx.redeemers = Some(vec![key(RedeemerTag::Reward, 1)]);
    let scripts = table(&[(hash(0x05), ScriptVersion::PlutusV2)]);
    assert!(eval_phase_one(&tx, &[], &scripts).is_ok());
    assert_eq!(
        build_redeemer_key(&tx, &ScriptPurpose::Rewarding(StakeCredential::KeyHash(hash(0x09))))
            .unwrap(),
        None
    );
}

#[test]
fn reward_pointer_is_the_last_account_of_the_credential() {
    let mut tx = empty_tx();
    tx.withdrawals = Some(vec![address(0xf1, hash(0x05)), address(0xf0, hash(0x05))]);
    assert_eq!(
        build_redeemer_key(&tx, &ScriptPurpose::Rewarding(StakeCredential::Scripthash(hash(5))))
            .unwrap(),
        Some(key(RedeemerTag::Reward, 1))
    );
}

#[test]
fn certificate_pointers_are_positional() {
    let pool = hash(0x77);
    let dereg = Certificate::StakeDeregistration(StakeCredential::Scripthash(hash(0x31)));
    let deleg = Certificate::StakeDelegation(StakeCredential::Scripthash(hash(0x32)), pool);
    let mut tx = empty_tx();
    tx.certificates = Some(vec![dereg.clone(), deleg.clone()]);
    let mut swapped = empty_tx();
    swapped.certificates = Some(vec![deleg.clone(), dereg.clone()]);
    let of_dereg = ScriptPurpose::Certifying(dereg);
    let of_deleg = ScriptPurpose::Certifying(deleg);
    assert_eq!(build_redeemer_key(&tx, &of_dereg).unwrap(), Some(key(RedeemerTag::Cert, 0)));
    assert_eq!(build_redeemer_key(&tx, &of_deleg).unwrap(), Some(key(RedeemerTag::Cert, 1)));
    assert_eq!(build_redeemer_key(&swapped, &of_dereg).unwrap(), Some(key(RedeemerTag::Cert, 1)));
    assert_eq!(build_redeemer_key(&swapped, &of_deleg).unwrap(), Some(key(RedeemerTag::Cert, 0)));
}

#[test]
fn certificate_index_counts_every_certificate() {
    let dereg = Certificate::StakeDeregistration(StakeCredential::Scripthash(hash(0x31)));
    let mut tx = empty_tx();
    tx.certificates = Some(vec![
        Certificate::Other(vec![1]),
        Certificate::StakeRegistration(StakeCredential::KeyHash(hash(1))),
        dereg,
    ]);
    tx.redeemers = Some(vec![key(RedeemerTag::Cert, 2)]);
    let scripts = table(&[(hash(0x31), ScriptVersion::PlutusV3)]);
    assert!(eval_phase_one(&tx, &[], &scripts).is_ok());
}

#[test]
fn purpose_outside_its_container_has_no_pointer() {
    let tx = empty_tx();
    assert_eq!(build_redeemer_key(&tx, &ScriptPurpose::Minting(hash(1))).unwrap(), None);
    assert_eq!(build_redeemer_key(&tx, &ScriptPurpose::Spending(output_ref(1, 0))).unwrap(), None);
    assert_eq!(
        build_redeemer_key(&tx, &ScriptPurpose::Rewarding(StakeCredential::Scripthash(hash(1))))
            .unwrap(),
        None
    );
    assert_eq!(
        build_redeemer_key(&tx, &ScriptPurpose::Certifying(Certificate::Other(vec![])))
            .unwrap(),
        None
    );
}

#[test]
fn redeemer_mismatch_lists_both_sides() {
    let p_a = hash(0x0a);
    let p_b = hash(0x0b);
    let mut tx = empty_tx();
    tx.mint = Some(vec![p_a, p_b]);
    tx.redeemers = Some(vec![
        key(RedeemerTag::Spend, 0),
        key(RedeemerTag::Mint, 1),
        key(RedeemerTag::Mint, 2),
    ]);
    let needed = scripts_needed(&tx, &[]).unwrap();
    let scripts = table(&[(p_a, ScriptVersion::PlutusV2), (p_b, ScriptVersion::PlutusV2)]);
    match has_exact_set_of_redeemers(&tx, &needed, &scripts) {
        Err(PhaseOneError::RequiredRedeemersMismatch { missing, extra }) => {
            assert_eq!(
                missing,
                vec![MissingRedeemer {
                    key: key(RedeemerTag::Mint, 0),
                    purpose: ScriptPurpose::Minting(p_a),
                    hash: p_a,
                }]
            );
            assert_eq!(extra, vec![key(RedeemerTag::Spend, 0), key(RedeemerTag::Mint, 2)]);
            assert!(missing.iter().all(|m| !extra.contains(&m.key)));
        }
        other => panic!("unexpected outcome: {:?}", other),
    }
}

#[test]
fn exact_scripts_and_redeemers_pass() {
    let a = output_ref(4, 2);
    let dereg = Certificate::StakeDeregistration(StakeCredential::Scripthash(hash(0x31)));
    let mut tx = empty_tx();
    tx.inputs = vec![a];
    tx.mint = Some(vec![hash(0x52), hash(0x51)]);
    tx.withdrawals = Some(vec![stake_script_account(hash(0x22))]);
    tx.certificates = Some(vec![dereg]);
    let utxos = vec![resolved(a, script_address(hash(0x11)))];
    let needed = scripts_needed(&tx, &utxos).unwrap();
    let mut scripts = ScriptTable::new();
    let mut keys = vec![];
    for (purpose, h) in &needed {
        scripts.insert(*h, ScriptVersion::PlutusV2);
        keys.push(build_redeemer_key(&tx, purpose).unwrap().unwrap());
    }
    tx.redeemers = Some(keys);
    assert!(eval_phase_one(&tx, &utxos, &scripts).is_ok());
}

#[test]
fn repeated_runs_end_alike() {
    let (tx, utxos) = single_script_spend();
    let scripts = table(&[(hash(1), ScriptVersion::PlutusV2)]);
    let first = format!("{:?}", eval_phase_one(&tx, &utxos, &scripts));
    let second = format!("{:?}", eval_phase_one(&tx, &utxos, &scripts));
    assert_eq!(first, second);
}
