use reth_dump::account::{AccountRow, CodeLookup, StorageEntry};
use reth_dump::walker::{dump, AccountHead, Action, Event, Walker};

fn word(n: u8) -> [u8; 32] {
    let mut bytes = [0u8; 32];
    bytes[31] = n;
    bytes
}

fn padded(n: u8) -> String {
    format!("0x{}{:02x}", "0".repeat(62), n)
}

fn head(tag: u8, balance: u8, nonce: u64, has_code: bool) -> AccountHead {
    AccountHead { address: [tag; 20], balance: word(balance), nonce, has_code }
}

fn slot(n: u8, v: u8) -> StorageEntry {
    StorageEntry { slot: word(n), value: word(v) }
}

fn address_text(tag: u8) -> String {
    format!("0x{}", format!("{:02x}", tag).repeat(20))
}

#[test]
fn walk_begins_with_the_header() {
    let (walker, text) = Walker::begin(true);
    assert_eq!(text, "{\n  \"alloc\": {\n");
    assert_eq!(walker.action(), Action::NextAccount);
}

#[test]
fn walk_of_empty_store() {
    let (walker, mut text) = Walker::begin(true);
    let (walker, end) = walker.step(Event::Account(None));
    assert_eq!(walker.action(), Action::Stop);
    text.push_str(&end.unwrap());
    assert_eq!(text, "{\n  \"alloc\": {\n\n  }\n}\n");
}

#[test]
fn walk_asks_for_code_then_storage() {
    let (walker, _) = Walker::begin(true);
    let (walker, text) = walker.step(Event::Account(Some(head(1, 5, 1, true))));
    assert_eq!(text, None);
    assert_eq!(walker.action(), Action::LookupCode);
    let (walker, text) = walker.step(Event::Code(Some(vec![0x60, 0x01])));
    assert_eq!(text, None);
    assert_eq!(walker.action(), Action::SeekStorage);
    let (walker, text) = walker.step(Event::Seek(Some(([1; 20], slot(3, 30)))));
    assert_eq!(text, None);
    assert_eq!(walker.action(), Action::NextDuplicate);
    let (walker, text) = walker.step(Event::Duplicate(Some(slot(1, 10))));
    assert_eq!(text, None);
    let (walker, text) = walker.step(Event::Duplicate(Some(slot(2, 20))));
    assert_eq!(text, None);
    assert_eq!(walker.action(), Action::NextDuplicate);
    let (walker, text) = walker.step(Event::Duplicate(None));
    assert_eq!(walker.action(), Action::NextAccount);
    let expected = format!(
        "    \"{}\": {{\"balance\":\"0x5\",\"nonce\":\"0x1\",\"code\":\"0x6001\",\"storage\":{{\"{}\":\"{}\",\"{}\":\"{}\",\"{}\":\"{}\"}}}}",
        address_text(1),
        padded(3),
        padded(30),
        padded(1),
        padded(10),
        padded(2),
        padded(20)
    );
    assert_eq!(text, Some(expected));
}

#[test]
fn walk_without_code_reference_skips_the_lookup() {
    let (walker, _) = Walker::begin(true);
    let (walker, _) = walker.step(Event::Account(Some(head(1, 0, 0, false))));
    assert_eq!(walker.action(), Action::SeekStorage);
}

#[test]
fn walk_with_dangling_code_writes_0x() {
    let (walker, _) = Walker::begin(false);
    let (walker, _) = walker.step(Event::Account(Some(head(7, 0, 0, true))));
    let (walker, _) = walker.step(Event::Code(None));
    let (walker, text) = walker.step(Event::Seek(None));
    assert_eq!(walker.action(), Action::NextAccount);
    assert_eq!(
        text,
        Some(format!(
            "    \"{}\": {{\"balance\":\"0x0\",\"nonce\":\"0x0\",\"code\":\"0x\"}}",
            address_text(7)
        ))
    );
}

#[test]
fn walk_ignores_storage_of_another_address() {
    let (walker, _) = Walker::begin(true);
    let (walker, _) = walker.step(Event::Account(Some(head(1, 2, 0, false))));
    let (walker, text) = walker.step(Event::Seek(Some(([2; 20], slot(1, 1)))));
    assert_eq!(walker.action(), Action::NextAccount);
    assert_eq!(
        text,
        Some(format!("    \"{}\": {{\"balance\":\"0x2\",\"nonce\":\"0x0\"}}", address_text(1)))
    );
}

#[test]
fn walk_separates_later_records() {
    let (walker, _) = Walker::begin(true);
    let (walker, _) = walker.step(Event::Account(Some(head(1, 0, 0, false))));
    let (walker, first) = walker.step(Event::Seek(None));
    assert!(first.unwrap().starts_with("    \""));
    let (walker, _) = walker.step(Event::Account(Some(head(2, 0, 0, false))));
    let (walker, second) = walker.step(Event::Seek(None));
    assert!(second.unwrap().starts_with(",\n    \""));
    let (_, end) = walker.step(Event::Account(None));
    assert_eq!(end, Some("\n  }\n}\n".to_string()));
}

#[test]
fn walk_skips_empty_accounts_without_the_flag() {
    let (walker, _) = Walker::begin(false);
    let (walker, _) = walker.step(Event::Account(Some(head(1, 0, 0, false))));
    let (walker, skipped) = walker.step(Event::Seek(None));
    assert_eq!(skipped, None);
    let (walker, _) = walker.step(Event::Account(Some(head(2, 1, 0, false))));
    let (_, kept) = walker.step(Event::Seek(None));
    assert!(kept.unwrap().starts_with("    \""));
}

#[test]
fn walk_passes_over_an_answer_that_was_not_asked_for() {
    let (walker, _) = Walker::begin(true);
    let (walker, text) = walker.step(Event::Seek(None));
    assert_eq!(text, None);
    assert_eq!(walker.action(), Action::NextAccount);
    let (walker, text) = walker.step(Event::Duplicate(Some(slot(1, 1))));
    assert_eq!(text, None);
    let (walker, _) = walker.step(Event::Account(None));
    let (walker, text) = walker.step(Event::Account(Some(head(1, 1, 1, false))));
    assert_eq!(text, None);
    assert_eq!(walker.action(), Action::Stop);
}

#[test]
fn dump_agrees_with_a_walk_by_hand() {
    let rows = vec![
        AccountRow {
            address: [1; 20],
            balance: word(1),
            nonce: 2,
            code: CodeLookup::Found(vec![0xaa]),
            storage: vec![slot(1, 1), slot(2, 2)],
        },
        AccountRow {
            address: [2; 20],
            balance: word(0),
            nonce: 0,
            code: CodeLookup::NoReference,
            storage: vec![],
        },
    ];
    let (walker, mut text) = Walker::begin(true);
    let mut walker = walker;
    let events = vec![
        Event::Account(Some(head(1, 1, 2, true))),
        Event::Code(Some(vec![0xaa])),
        Event::Seek(Some(([1; 20], slot(1, 1)))),
        Event::Duplicate(Some(slot(2, 2))),
        Event::Duplicate(None),
        Event::Account(Some(head(2, 0, 0, false))),
        Event::Seek(Some(([3; 20], slot(9, 9)))),
        Event::Account(None),
    ];
    for event in events {
        let (next, piece) = walker.step(event);
        walker = next;
        if let Some(piece) = piece {
            text.push_str(&piece);
        }
    }
    assert_eq!(text, dump(&rows, true));
}
