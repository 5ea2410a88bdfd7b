use script_validation::ledger::ScriptVersion;
use script_validation::script_table::ScriptTable;

#[test]
fn new_table_is_empty() {
    let table = ScriptTable::new();
    assert_eq!(table.len(), 0);
    assert_eq!(table.get(&[1; 28]), None);
    assert!(!table.contains_key(&[1; 28]));
}

#[test]
fn insert_then_get() {
    let mut table = ScriptTable::new();
    assert_eq!(table.insert([1; 28], ScriptVersion::PlutusV1), None);
    assert_eq!(table.insert([2; 28], ScriptVersion::Native), None);
    assert_eq!(table.len(), 2);
    assert_eq!(table.get(&[1; 28]), Some(ScriptVersion::PlutusV1));
    assert_eq!(table.get(&[2; 28]), Some(ScriptVersion::Native));
    assert_eq!(table.get(&[3; 28]), None);
    assert!(table.contains_key(&[2; 28]));
}

#[test]
fn insert_again_replaces_in_place() {
    let mut table = ScriptTable::new();
    table.insert([1; 28], ScriptVersion::PlutusV1);
    table.insert([2; 28], ScriptVersion::PlutusV2);
    assert_eq!(table.insert([1; 28], ScriptVersion::PlutusV3), Some(ScriptVersion::PlutusV1));
    assert_eq!(table.len(), 2);
    assert_eq!(table.key_at(0), [1; 28]);
    assert_eq!(table.key_at(1), [2; 28]);
    assert_eq!(table.get(&[1; 28]), Some(ScriptVersion::PlutusV3));
}
