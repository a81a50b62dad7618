use rugsafe::address::Address;
use rugsafe::registry::{CodecError, RegistryError, Vault, VaultRegistry};

fn addr(b: u8) -> Address {
    Address::new([b; 32])
}

fn vault(n: u8) -> Vault {
    Vault {
        vault_account: addr(n),
        mint_token_a: addr(n.wrapping_add(1)),
        mint_a_token_a: addr(n.wrapping_add(2)),
        owner: addr(n.wrapping_add(3)),
    }
}

fn same_vault(a: &Vault, b: &Vault) -> bool {
    a.vault_account == b.vault_account
        && a.mint_token_a == b.mint_token_a
        && a.mint_a_token_a == b.mint_a_token_a
        && a.owner == b.owner
}

#[test]
fn vault_serialize_layout() {
    let v = vault(10);
    let bytes = v.serialize();
    assert_eq!(bytes.len(), 128);
    assert_eq!(&bytes[0..32], &[10u8; 32][..]);
    assert_eq!(&bytes[32..64], &[11u8; 32][..]);
    assert_eq!(&bytes[64..96], &[12u8; 32][..]);
    assert_eq!(&bytes[96..128], &[13u8; 32][..]);
    let back = Vault::deserialize(&bytes);
    assert!(same_vault(&back, &v));
}

#[test]
fn registry_new_is_empty_with_initial_capacity() {
    let r = VaultRegistry::new();
    assert_eq!(r.vault_count(), 0);
    assert_eq!(r.capacity, 10);
    assert_eq!(r.len(), 16 + 128 * 10);
}

#[test]
fn registry_serialize_exact_bytes() {
    let mut r = VaultRegistry::new();
    r.add_vault(vault(1)).unwrap();
    r.add_vault(vault(50)).unwrap();
    let bytes = r.serialize();
    assert_eq!(bytes.len(), 1296);
    assert_eq!(&bytes[0..8], &[2, 0, 0, 0, 0, 0, 0, 0]);
    assert_eq!(&bytes[8..16], &[10, 0, 0, 0, 0, 0, 0, 0]);
    assert_eq!(&bytes[16..144], &vault(1).serialize()[..]);
    assert_eq!(&bytes[144..272], &vault(50).serialize()[..]);
    assert!(bytes[272..].iter().all(|&b| b == 0));
}

#[test]
fn registry_round_trip() {
    let mut r = VaultRegistry::new();
    for i in 0..7u8 {
        r.add_vault(vault(i * 4)).unwrap();
    }
    let bytes = r.serialize();
    let back = VaultRegistry::deserialize(&bytes).unwrap();
    assert_eq!(back.capacity, r.capacity);
    assert_eq!(back.vault_count(), 7);
    for i in 0..7 {
        assert!(same_vault(&back.vaults[i], &r.vaults[i]));
    }
    assert_eq!(back.serialize(), bytes);
}

#[test]
fn registry_round_trip_empty_and_full() {
    let empty = VaultRegistry::new();
    let back = VaultRegistry::deserialize(&empty.serialize()).unwrap();
    assert_eq!(back.vault_count(), 0);
    assert_eq!(back.capacity, 10);

    let mut full = VaultRegistry { vaults: Vec::new(), capacity: 3 };
    for i in 0..3u8 {
        full.add_vault(vault(i)).unwrap();
    }
    let bytes = full.serialize();
    assert_eq!(bytes.len(), 16 + 3 * 128);
    let back = VaultRegistry::deserialize(&bytes).unwrap();
    assert_eq!(back.vault_count(), 3);
    assert_eq!(back.capacity, 3);
}

#[test]
fn registry_capacity_scenario() {
    let mut r = VaultRegistry::new();
    for i in 0..10u8 {
        assert_eq!(r.add_vault(vault(i)), Ok(()));
    }
    assert_eq!(r.add_vault(vault(99)), Err(RegistryError::CapacityExceeded));
    assert_eq!(r.vault_count(), 10);
    assert!(same_vault(&r.vaults[9], &vault(9)));
}

#[test]
fn registry_capacity_holds_over_mixed_operations() {
    let mut r = VaultRegistry { vaults: Vec::new(), capacity: 2 };
    let mut refused = 0;
    for i in 0..6u8 {
        if r.add_vault(vault(i)).is_err() {
            refused += 1;
        }
        assert!(r.vault_count() <= r.capacity);
        if i % 3 == 2 {
            r.remove_vault(0).unwrap();
        }
        assert!(r.vault_count() <= r.capacity);
    }
    assert_eq!(refused, 3);
    assert_eq!(r.capacity, 2);
}

#[test]
fn registry_remove_shifts_down() {
    let mut r = VaultRegistry::new();
    r.add_vault(vault(1)).unwrap();
    r.add_vault(vault(2)).unwrap();
    r.add_vault(vault(3)).unwrap();
    assert_eq!(r.remove_vault(1), Ok(()));
    assert_eq!(r.vault_count(), 2);
    assert!(same_vault(&r.vaults[0], &vault(1)));
    assert!(same_vault(&r.vaults[1], &vault(3)));
}

#[test]
fn registry_remove_out_of_bounds() {
    let mut r = VaultRegistry::new();
    r.add_vault(vault(1)).unwrap();
    assert_eq!(r.remove_vault(1), Err(RegistryError::IndexOutOfBounds));
    assert_eq!(r.vault_count(), 1);
    assert_eq!(VaultRegistry::new().remove_vault(0), Err(RegistryError::IndexOutOfBounds));
}

#[test]
fn registry_grow_doubles_capacity() {
    let mut r = VaultRegistry::new();
    r.add_vault(vault(1)).unwrap();
    r.grow();
    assert_eq!(r.capacity, 20);
    assert_eq!(r.vault_count(), 1);
    assert_eq!(r.len(), 16 + 128 * 20);
    assert_eq!(r.serialize().len(), 2576);
}

#[test]
fn registry_deserialize_too_short_header() {
    assert_eq!(VaultRegistry::deserialize(&[]).unwrap_err(), CodecError::TooShort);
    assert_eq!(VaultRegistry::deserialize(&[0u8; 15]).unwrap_err(), CodecError::TooShort);
}

#[test]
fn registry_deserialize_count_over_capacity() {
    let mut bytes = vec![0u8; 16 + 128 * 4];
    bytes[0] = 4;
    bytes[8] = 3;
    assert_eq!(VaultRegistry::deserialize(&bytes).unwrap_err(), CodecError::CorruptState);
}

#[test]
fn registry_deserialize_missing_records() {
    let mut bytes = vec![0u8; 16 + 128];
    bytes[0] = 2;
    bytes[8] = 10;
    assert_eq!(VaultRegistry::deserialize(&bytes).unwrap_err(), CodecError::TooShort);
}

#[test]
fn registry_deserialize_huge_capacity() {
    let mut bytes = vec![0u8; 16];
    bytes[8..16].copy_from_slice(&u64::MAX.to_le_bytes());
    assert_eq!(VaultRegistry::deserialize(&bytes).unwrap_err(), CodecError::CorruptState);
}
