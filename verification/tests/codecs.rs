use vault::address::Address;
use vault::layout::{deserialize_vault_state, serialize_vault_state, VAULT_STATE_SPACE};
use vault::vault::VaultState;

fn sample_state() -> VaultState {
    VaultState {
        owner: Address::new(vec![7; 32]),
        vault: Address::new(vec![8; 32]),
        state_bump: 254,
        vault_bump: 253,
        balance: 0x0102030405060708,
    }
}

#[test]
fn vault_state_layout_is_82_bytes() {
    let bytes = serialize_vault_state(&sample_state());
    assert_eq!(bytes.len(), VAULT_STATE_SPACE);
    assert_eq!(bytes.len(), 82);
}

#[test]
fn vault_state_exact_bytes() {
    let bytes = serialize_vault_state(&sample_state());
    // discriminator prefix
    assert_eq!(&bytes[0..8], &[86, 97, 117, 108, 116, 83, 116, 97]);
    // owner, holder address
    assert_eq!(&bytes[8..40], &[7u8; 32]);
    assert_eq!(&bytes[40..72], &[8u8; 32]);
    // the two nonces
    assert_eq!(bytes[72], 254);
    assert_eq!(bytes[73], 253);
    // balance, little-endian
    assert_eq!(&bytes[74..82], &[8, 7, 6, 5, 4, 3, 2, 1]);
}

#[test]
fn vault_state_round_trip() {
    let original = sample_state();
    let bytes = serialize_vault_state(&original);
    let parsed = deserialize_vault_state(bytes.as_slice()).expect("parse failed");
    assert_eq!(parsed.owner.as_bytes(), original.owner.as_bytes());
    assert_eq!(parsed.vault.as_bytes(), original.vault.as_bytes());
    assert_eq!(parsed.state_bump, original.state_bump);
    assert_eq!(parsed.vault_bump, original.vault_bump);
    assert_eq!(parsed.balance, original.balance);
}

#[test]
fn vault_state_parse_rejects_wrong_length() {
    let bytes = serialize_vault_state(&sample_state());
    assert!(deserialize_vault_state(&bytes[0..81]).is_none());
    let mut long = bytes.clone();
    long.push(0);
    assert!(deserialize_vault_state(long.as_slice()).is_none());
}

#[test]
fn vault_state_parse_rejects_wrong_discriminator() {
    let mut bytes = serialize_vault_state(&sample_state());
    bytes[0] = bytes[0].wrapping_add(1);
    assert!(deserialize_vault_state(bytes.as_slice()).is_none());
}
