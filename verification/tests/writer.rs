use reth_dump::account::{compose, AccountRow, CodeLookup, StorageEntry};
use reth_dump::walker::dump;
use reth_dump::writer::{write_entry, write_record, AllocWriter};

fn word(n: u8) -> [u8; 32] {
    let mut bytes = [0u8; 32];
    bytes[31] = n;
    bytes
}

fn padded(n: u8) -> String {
    format!("0x{}{:02x}", "0".repeat(62), n)
}

fn account(tag: u8, balance: u8, nonce: u64) -> AccountRow {
    AccountRow {
        address: [tag; 20],
        balance: word(balance),
        nonce,
        code: CodeLookup::NoReference,
        storage: vec![],
    }
}

fn address_text(tag: u8) -> String {
    format!("0x{}", format!("{:02x}", tag).repeat(20))
}

#[test]
fn entry_with_balance_and_nonce_only() {
    let entry = compose(&account(1, 16, 2));
    assert_eq!(write_entry(&entry), r#"{"balance":"0x10","nonce":"0x2"}"#);
}

#[test]
fn entry_fields_come_in_fixed_order() {
    let mut row = account(1, 1, 1);
    row.code = CodeLookup::Found(vec![0x60, 0x00]);
    row.storage = vec![
        StorageEntry { slot: word(1), value: word(2) },
        StorageEntry { slot: word(3), value: word(4) },
    ];
    let expected = format!(
        r#"{{"balance":"0x1","nonce":"0x1","code":"0x6000","storage":{{"{}":"{}","{}":"{}"}}}}"#,
        padded(1),
        padded(2),
        padded(3),
        padded(4)
    );
    assert_eq!(write_entry(&compose(&row)), expected);
}

#[test]
fn entry_with_dangling_code_has_code_0x() {
    let mut row = account(1, 0, 0);
    row.code = CodeLookup::Missing;
    assert_eq!(
        write_entry(&compose(&row)),
        r#"{"balance":"0x0","nonce":"0x0","code":"0x"}"#
    );
}

#[test]
fn entry_with_empty_storage_object_omits_it() {
    let mut entry = compose(&account(1, 0, 0));
    entry.storage = Some(vec![]);
    assert_eq!(write_entry(&entry), r#"{"balance":"0x0","nonce":"0x0"}"#);
}

#[test]
fn entry_storage_keeps_store_order() {
    let mut row = account(1, 0, 0);
    row.storage = vec![
        StorageEntry { slot: word(3), value: word(30) },
        StorageEntry { slot: word(1), value: word(10) },
        StorageEntry { slot: word(2), value: word(20) },
    ];
    let text = write_entry(&compose(&row));
    let third = text.find(&padded(3)).unwrap();
    let first = text.find(&format!("\"{}\":", padded(1))).unwrap();
    let second = text.find(&format!("\"{}\":", padded(2))).unwrap();
    assert!(third < first && first < second);
}

#[test]
fn record_is_key_and_entry() {
    let text = write_record(&account(0xab, 0, 5));
    assert_eq!(
        text,
        format!("    \"{}\": {{\"balance\":\"0x0\",\"nonce\":\"0x5\"}}", address_text(0xab))
    );
}

#[test]
fn empty_store_gives_empty_alloc() {
    let text = dump(&vec![], true);
    assert_eq!(text, "{\n  \"alloc\": {\n\n  }\n}\n");
    assert_eq!(dump(&vec![], false), text);
    let value: serde_json::Value = serde_json::from_str(&text).unwrap();
    let mut expected = serde_json::Map::new();
    expected.insert("alloc".to_string(), serde_json::Value::Object(serde_json::Map::new()));
    assert_eq!(value, serde_json::Value::Object(expected));
}

#[test]
fn document_of_two_accounts() {
    let rows = vec![account(1, 1, 0), account(2, 0, 3)];
    let expected = format!(
        "{{\n  \"alloc\": {{\n    \"{}\": {{\"balance\":\"0x1\",\"nonce\":\"0x0\"}},\n    \"{}\": {{\"balance\":\"0x0\",\"nonce\":\"0x3\"}}\n  }}\n}}\n",
        address_text(1),
        address_text(2)
    );
    assert_eq!(dump(&rows, true), expected);
}

#[test]
fn document_is_valid_json_in_store_order() {
    let rows = vec![account(1, 1, 0), account(2, 0, 0), account(3, 0, 3)];
    let text = dump(&rows, true);
    let value: serde_json::Value = serde_json::from_str(&text).unwrap();
    let alloc = value.get("alloc").unwrap().as_object().unwrap();
    assert_eq!(alloc.len(), 3);
    let at = |tag: u8| text.find(&address_text(tag)).unwrap();
    assert!(at(1) < at(2) && at(2) < at(3));
    assert_eq!(text.matches(&address_text(2)).count(), 1);
}

#[test]
fn flag_cleared_skips_empty_accounts_only() {
    let rows = vec![account(1, 0, 0), account(2, 1, 0), account(3, 0, 0), account(4, 0, 1)];
    let text = dump(&rows, false);
    let expected = format!(
        "{{\n  \"alloc\": {{\n    \"{}\": {{\"balance\":\"0x1\",\"nonce\":\"0x0\"}},\n    \"{}\": {{\"balance\":\"0x0\",\"nonce\":\"0x1\"}}\n  }}\n}}\n",
        address_text(2),
        address_text(4)
    );
    assert_eq!(text, expected);
}

#[test]
fn all_accounts_skipped_leaves_no_comma() {
    let rows = vec![account(1, 0, 0), account(2, 0, 0)];
    assert_eq!(dump(&rows, false), "{\n  \"alloc\": {\n\n  }\n}\n");
}

#[test]
fn pieces_add_up_to_the_document() {
    let rows = vec![account(1, 0, 0), account(2, 9, 0), account(3, 0, 0), account(4, 0, 1)];
    for flag in [true, false] {
        let (mut writer, mut text) = AllocWriter::begin();
        for row in &rows {
            if let Some(chunk) = writer.accept(row, flag) {
                text.push_str(&chunk);
            }
        }
        text.push_str(&writer.finish());
        assert_eq!(text, dump(&rows, flag));
    }
}

#[test]
fn first_piece_has_no_separator() {
    let (mut writer, header) = AllocWriter::begin();
    assert_eq!(header, "{\n  \"alloc\": {\n");
    assert_eq!(writer.accept(&account(1, 0, 0), false), None);
    let first = writer.accept(&account(2, 1, 0), false).unwrap();
    assert!(first.starts_with("    \"0x"));
    let second = writer.accept(&account(3, 1, 0), false).unwrap();
    assert!(second.starts_with(",\n    \"0x"));
    assert_eq!(writer.finish(), "\n  }\n}\n");
}
