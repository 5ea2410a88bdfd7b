use script_validation::convert::{cardano_cli_cbor_hex, Args, Format};

fn args(module: Option<&str>, validator: Option<&str>) -> Args {
    Args {
        directory: None,
        module: module.map(|m| m.to_string()),
        validator: validator.map(|v| v.to_string()),
        to: Format::CardanoCli,
    }
}

#[test]
fn title_joins_module_and_validator() {
    assert_eq!(args(Some("spend"), Some("main")).title(), Some("spend.main".to_string()));
}

#[test]
fn title_of_one_name_is_that_name() {
    assert_eq!(args(Some("spend"), None).title(), Some("spend".to_string()));
    assert_eq!(args(None, Some("main")).title(), Some("main".to_string()));
}

#[test]
fn title_of_no_name_is_none() {
    assert_eq!(args(None, None).title(), None);
}

#[test]
fn short_program_is_wrapped_with_a_one_byte_head() {
    assert_eq!(cardano_cli_cbor_hex(&[1, 2, 3]), "43010203");
    assert_eq!(cardano_cli_cbor_hex(&[]), "40");
    assert_eq!(cardano_cli_cbor_hex(&[0xab; 23]), format!("57{}", "ab".repeat(23)));
}

#[test]
fn longer_programs_get_longer_heads() {
    assert_eq!(cardano_cli_cbor_hex(&[0x0f; 24]), format!("5818{}", "0f".repeat(24)));
    assert_eq!(cardano_cli_cbor_hex(&[0xf0; 255]), format!("58ff{}", "f0".repeat(255)));
    assert_eq!(cardano_cli_cbor_hex(&[0x10; 256]), format!("590100{}", "10".repeat(256)));
    assert_eq!(cardano_cli_cbor_hex(&[0; 65535]), format!("59ffff{}", "00".repeat(65535)));
    assert_eq!(cardano_cli_cbor_hex(&[9; 65536]), format!("5a00010000{}", "09".repeat(65536)));
}

#[test]
fn format_encodes_as_the_envelope_text() {
    assert_eq!(Format::CardanoCli.encode_program(&[0x4d, 0x01]), "424d01");
}
