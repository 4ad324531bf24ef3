use reth_dump::account::{
    compose, encode_storage, is_empty_eoa, resolve_code, retain, same_address, AccountRow,
    AllocEntry, CodeLookup, StorageEntry, StorageGroup,
};

fn word(n: u8) -> [u8; 32] {
    let mut bytes = [0u8; 32];
    bytes[31] = n;
    bytes
}

fn slot(n: u8, v: u8) -> StorageEntry {
    StorageEntry { slot: word(n), value: word(v) }
}

fn padded(n: u8) -> String {
    format!("0x{}{:02x}", "0".repeat(62), n)
}

fn row(balance: u8, nonce: u64, code: CodeLookup, storage: Vec<StorageEntry>) -> AccountRow {
    AccountRow { address: [0x11; 20], balance: word(balance), nonce, code, storage }
}

#[test]
fn code_without_reference_is_absent() {
    assert_eq!(resolve_code(&CodeLookup::NoReference), None);
}

#[test]
fn code_with_dangling_reference_is_0x() {
    assert_eq!(resolve_code(&CodeLookup::Missing), Some("0x".to_string()));
}

#[test]
fn code_found_is_its_bytes() {
    let found = CodeLookup::Found(vec![0x60, 0x80, 0x60, 0x40, 0x00]);
    assert_eq!(resolve_code(&found), Some("0x6080604000".to_string()));
    assert_eq!(resolve_code(&CodeLookup::Found(vec![])), Some("0x".to_string()));
}

#[test]
fn addresses_compare_by_bytes() {
    let a = [7u8; 20];
    let mut b = [7u8; 20];
    assert!(same_address(&a, &b));
    b[19] = 8;
    assert!(!same_address(&a, &b));
    b[19] = 7;
    b[0] = 0;
    assert!(!same_address(&a, &b));
}

#[test]
fn group_of_missing_seek_is_empty() {
    let group = StorageGroup::start(&[1; 20], None);
    assert!(!group.is_open());
    assert!(group.into_entries().is_empty());
}

#[test]
fn group_ignores_entry_of_other_address() {
    let group = StorageGroup::start(&[1; 20], Some(([2; 20], slot(1, 1))));
    assert!(!group.is_open());
    assert!(group.into_entries().is_empty());
}

#[test]
fn group_gathers_until_exhausted() {
    let mut group = StorageGroup::start(&[1; 20], Some(([1; 20], slot(1, 10))));
    assert!(group.is_open());
    group.advance(Some(slot(2, 20)));
    assert!(group.is_open());
    group.advance(Some(slot(5, 50)));
    group.advance(None);
    assert!(!group.is_open());
    group.advance(Some(slot(9, 90)));
    assert!(!group.is_open());
    let entries = group.into_entries();
    assert_eq!(entries.len(), 3);
    assert_eq!(entries[0].slot, word(1));
    assert_eq!(entries[1].slot, word(2));
    assert_eq!(entries[2].slot, word(5));
    assert_eq!(entries[2].value, word(50));
}

#[test]
fn storage_of_empty_group_is_absent() {
    assert_eq!(encode_storage(&vec![]), None);
}

#[test]
fn storage_keeps_the_order_of_the_store() {
    let group = vec![slot(3, 30), slot(1, 10), slot(2, 20)];
    let storage = encode_storage(&group).unwrap();
    assert_eq!(
        storage,
        vec![
            (padded(3), padded(30)),
            (padded(1), padded(10)),
            (padded(2), padded(20)),
        ]
    );
}

#[test]
fn storage_words_have_64_digits() {
    let group = vec![
        StorageEntry { slot: [0; 32], value: [0xff; 32] },
        StorageEntry { slot: [0x12; 32], value: word(0) },
    ];
    for (key, value) in encode_storage(&group).unwrap() {
        assert_eq!(key.len(), 66);
        assert_eq!(value.len(), 66);
        assert!(key.starts_with("0x") && value.starts_with("0x"));
    }
}

#[test]
fn compose_encodes_every_attribute() {
    let entry = compose(&row(0x2a, 7, CodeLookup::Found(vec![0xfe]), vec![slot(1, 2)]));
    assert_eq!(entry.balance, "0x2a");
    assert_eq!(entry.nonce, "0x7");
    assert_eq!(entry.code, Some("0xfe".to_string()));
    assert_eq!(entry.storage, Some(vec![(padded(1), padded(2))]));
}

#[test]
fn compose_of_empty_account() {
    let entry = compose(&row(0, 0, CodeLookup::NoReference, vec![]));
    assert_eq!(entry.balance, "0x0");
    assert_eq!(entry.nonce, "0x0");
    assert_eq!(entry.code, None);
    assert_eq!(entry.storage, None);
    assert!(is_empty_eoa(&entry));
}

#[test]
fn only_all_zero_accounts_are_empty() {
    assert!(!is_empty_eoa(&compose(&row(1, 0, CodeLookup::NoReference, vec![]))));
    assert!(!is_empty_eoa(&compose(&row(0, 1, CodeLookup::NoReference, vec![]))));
    assert!(!is_empty_eoa(&compose(&row(0, 0, CodeLookup::Missing, vec![]))));
    assert!(!is_empty_eoa(&compose(&row(0, 0, CodeLookup::NoReference, vec![slot(0, 0)]))));
}

#[test]
fn empty_test_reads_the_encoded_text() {
    let entry = AllocEntry {
        balance: "0x00".to_string(),
        nonce: "0x0".to_string(),
        code: None,
        storage: None,
    };
    assert!(!is_empty_eoa(&entry));
}

#[test]
fn flag_set_keeps_empty_accounts() {
    let entry = compose(&row(0, 0, CodeLookup::NoReference, vec![]));
    assert!(retain(&entry, true));
    assert!(!retain(&entry, false));
}

#[test]
fn funded_account_is_kept_whatever_the_flag() {
    let entry = compose(&row(1, 0, CodeLookup::NoReference, vec![]));
    assert!(retain(&entry, true));
    assert!(retain(&entry, false));
}
