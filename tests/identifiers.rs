use base58::ToBase58;
use substratee_stf::identifiers::{get_identifiers, IdentifierError};

#[test]
fn shard_defaults_to_the_enclave() {
    let m = [7u8; 32].to_base58();
    assert_eq!(get_identifiers(Some(&m), None), Ok(([7u8; 32], [7u8; 32])));
}

#[test]
fn shard_given_separately() {
    let m = [7u8; 32].to_base58();
    let s = [9u8; 32].to_base58();
    assert_eq!(get_identifiers(Some(&m), Some(&s)), Ok(([7u8; 32], [9u8; 32])));
}

#[test]
fn identifier_errors() {
    let m = [7u8; 32].to_base58();
    assert_eq!(get_identifiers(None, None), Err(IdentifierError::MissingMrenclave));
    assert_eq!(get_identifiers(Some("0OIl"), None), Err(IdentifierError::InvalidMrenclave));
    assert_eq!(get_identifiers(Some(&[7u8; 31].to_base58()), None), Err(IdentifierError::InvalidMrenclave));
    assert_eq!(get_identifiers(Some(&m), Some(&[1u8; 33].to_base58())), Err(IdentifierError::InvalidShard));
}

#[test]
fn overlong_text_is_refused_without_decoding() {
    let ones = "1".repeat(133);
    assert_eq!(get_identifiers(Some(&ones), None), Err(IdentifierError::InvalidMrenclave));
    let m = [7u8; 32].to_base58();
    assert_eq!(get_identifiers(Some(&m), Some(&ones)), Err(IdentifierError::InvalidShard));
    assert_eq!(get_identifiers(Some(&"1".repeat(45)), None), Err(IdentifierError::InvalidMrenclave));
}
