//! Account records: what one row of the account table becomes in the
//! allocation, and whether it is kept.

use crate::hex_codec::{
    be_value, bytes_hex, hex_bytes, hex_lower, hex_pad_64_lower, hex_u64, is_hex_text,
    lemma_encodings_are_hex_text, lemma_hex_text_needs_no_escape, lemma_minimal_hex_unpadded,
    lemma_word_is_64_digits, minimal_hex, needs_no_escape, padded_hex, prefix,
};
use vstd::prelude::*;

verus! {

/// A 20-byte account address.
pub type Address = [u8; 20];

/// A 256-bit word in big-endian bytes.
pub type Word = [u8; 32];

/// One storage entry of an account: a slot and its value.
pub struct StorageEntry {
    pub slot: Word,
    pub value: Word,
}

/// What the bytecode table gave for an account's bytecode reference.
pub enum CodeLookup {
    /// The account holds no bytecode reference.
    NoReference,
    /// The account holds a reference, and the table has no blob under it.
    Missing,
    /// The blob that the reference leads to.
    Found(Vec<u8>),
}

/// One row of the account table with what belongs to it in the other
/// tables.
pub struct AccountRow {
    pub address: Address,
    pub balance: Word,
    pub nonce: u64,
    pub code: CodeLookup,
    /// The account's storage group, in the order in which the store gave it.
    pub storage: Vec<StorageEntry>,
}

/// One entry of the allocation: every attribute as the text that is written.
pub struct AllocEntry {
    pub balance: String,
    pub nonce: String,
    pub code: Option<String>,
    pub storage: Option<Vec<(String, String)>>,
}

/// An allocation entry as plain text.
pub struct EntryText {
    pub balance: Seq<char>,
    pub nonce: Seq<char>,
    pub code: Option<Seq<char>>,
    pub storage: Option<Seq<(Seq<char>, Seq<char>)>>,
}

/// The text of each pair of strings, in order.
pub open spec fn pairs_text(pairs: Seq<(String, String)>) -> Seq<(Seq<char>, Seq<char>)> {
    Seq::new(pairs.len(), |i: int| (pairs[i].0@, pairs[i].1@))
}

impl View for AllocEntry {
    type V = EntryText;

    open spec fn view(&self) -> EntryText {
        EntryText {
            balance: self.balance@,
            nonce: self.nonce@,
            code: match self.code {
                Some(text) => Some(text@),
                None => None,
            },
            storage: match self.storage {
                Some(pairs) => Some(pairs_text(pairs@)),
                None => None,
            },
        }
    }
}

/// The `code` attribute for a lookup: none without a reference, `0x` for a
/// reference that leads nowhere, else the blob's bytes.
pub open spec fn code_text(lookup: CodeLookup) -> Option<Seq<char>> {
    match lookup {
        CodeLookup::NoReference => None,
        CodeLookup::Missing => Some(prefix()),
        CodeLookup::Found(blob) => Some(bytes_hex(blob@)),
    }
}

/// A storage entry as a pair of fixed-width words.
pub open spec fn slot_text(entry: StorageEntry) -> (Seq<char>, Seq<char>) {
    (padded_hex(be_value(entry.slot@)), padded_hex(be_value(entry.value@)))
}

/// The `storage` attribute for a storage group: none for an empty group,
/// else one pair for each entry, in the group's own order.
pub open spec fn storage_text(group: Seq<StorageEntry>) -> Option<Seq<(Seq<char>, Seq<char>)>> {
    if group.len() == 0 {
        None
    } else {
        Some(Seq::new(group.len(), |i: int| slot_text(group[i])))
    }
}

/// The allocation entry for the attributes of an account: balance and
/// nonce in minimal width, the code attribute, the storage in fixed width.
pub open spec fn entry_from(
    balance: Seq<u8>,
    nonce: u64,
    code: CodeLookup,
    storage: Seq<StorageEntry>,
) -> EntryText {
    EntryText {
        balance: minimal_hex(be_value(balance)),
        nonce: minimal_hex(nonce as nat),
        code: code_text(code),
        storage: storage_text(storage),
    }
}

/// The allocation entry that a row becomes.
pub open spec fn entry_of(row: AccountRow) -> EntryText {
    entry_from(row.balance@, row.nonce, row.code, row.storage@)
}

/// An empty externally-owned account: no code, no storage, and both balance
/// and nonce written as `0x0`.
pub open spec fn empty_eoa(entry: EntryText) -> bool {
    &&& entry.code is None
    &&& entry.storage is None
    &&& entry.balance == seq!['0', 'x', '0']
    &&& entry.nonce == seq!['0', 'x', '0']
}

/// Whether an entry is written. With the flag set every entry is; without
/// it the empty externally-owned accounts are left out, and only they.
pub open spec fn retained(entry: EntryText, zero_out_empty_eoas: bool) -> bool {
    zero_out_empty_eoas || !empty_eoa(entry)
}

/// Resolves a bytecode lookup to the `code` attribute. A reference without
/// a blob is no error: it gives `0x`.
pub fn resolve_code(lookup: &CodeLookup) -> (code: Option<String>)
    ensures
        match code {
            Some(text) => code_text(*lookup) == Some(text@),
            None => code_text(*lookup) is None,
        },
        *lookup is Missing ==> code is Some && code->0@ == seq!['0', 'x'],
{
    match lookup {
        CodeLookup::NoReference => None,
        CodeLookup::Missing => {
            let empty: Vec<u8> = Vec::new();
            let text = hex_bytes(empty.as_slice());
            assert(text@ =~= prefix());
            assert(prefix() =~= seq!['0', 'x']);
            Some(text)
        },
        CodeLookup::Found(blob) => Some(hex_bytes(blob.as_slice())),
    }
}

/// Whether two addresses are the same 20 bytes.
pub fn same_address(a: &Address, b: &Address) -> (same: bool)
    ensures
        same == (a@ == b@),
{
    let mut i: usize = 0;
    while i < 20
        invariant
            i <= 20,
            forall|j: int| 0 <= j < i ==> a@[j] == b@[j],
        decreases 20 - i,
    {
        if a[i] != b[i] {
            return false;
        }
        i += 1;
    }
    assert(a@ =~= b@);
    true
}

/// The storage group of one address while the store is asked for it.
///
/// The program seeks the storage table to the address and hands what the
/// cursor landed on to `start`; while the group `is_open` it fetches the
/// next entry under the same key and hands it to `advance`.
pub struct StorageGroup {
    entries: Vec<StorageEntry>,
    open: bool,
}

impl StorageGroup {
    /// The entries gathered so far, in the order in which they came.
    pub closed spec fn entries(&self) -> Seq<StorageEntry> {
        self.entries@
    }

    /// Whether the store is to be asked for one more entry.
    pub closed spec fn open(&self) -> bool {
        self.open
    }

    /// Begins the group of `address` with what a seek to it landed on. An
    /// entry under another address is not taken: the group is then empty
    /// and closed, as it is where the seek found nothing.
    pub fn start(address: &Address, landed: Option<(Address, StorageEntry)>) -> (group: Self)
        ensures
            match landed {
                Some((found, first)) if found@ == address@ => group.open() && group.entries()
                    == seq![first],
                _ => !group.open() && group.entries() == Seq::<StorageEntry>::empty(),
            },
    {
        let mut entries: Vec<StorageEntry> = Vec::new();
        match landed {
            Some((found, first)) => {
                if same_address(&found, address) {
                    entries.push(first);
                    assert(entries@ =~= seq![first]);
                    StorageGroup { entries, open: true }
                } else {
                    StorageGroup { entries, open: false }
                }
            },
            None => StorageGroup { entries, open: false },
        }
    }

    /// Whether the store is to be asked for one more entry.
    pub fn is_open(&self) -> (open: bool)
        ensures
            open == self.open(),
    {
        self.open
    }

    /// Takes the next entry under the same key, or closes the group where
    /// the store has none. A closed group takes nothing more.
    pub fn advance(&mut self, next: Option<StorageEntry>)
        ensures
            match next {
                Some(entry) if old(self).open() => final(self).open() && final(self).entries()
                    == old(self).entries().push(entry),
                _ => !final(self).open() && final(self).entries() == old(self).entries(),
            },
    {
        if self.open {
            match next {
                Some(entry) => {
                    self.entries.push(entry);
                },
                None => {
                    self.open = false;
                },
            }
        }
    }

    /// The group's entries, in the order in which they came.
    pub fn into_entries(self) -> (entries: Vec<StorageEntry>)
        ensures
            entries@ == self.entries(),
    {
        self.entries
    }
}

/// Encodes a storage group: none for an empty group, else each slot and
/// value as a fixed-width word, in the group's own order.
pub fn encode_storage(group: &Vec<StorageEntry>) -> (storage: Option<Vec<(String, String)>>)
    ensures
        match storage {
            Some(pairs) => storage_text(group@) == Some(pairs_text(pairs@)),
            None => storage_text(group@) is None,
        },
{
    if group.len() == 0 {
        return None;
    }
    let mut pairs: Vec<(String, String)> = Vec::new();
    let mut i: usize = 0;
    while i < group.len()
        invariant
            i <= group.len(),
            pairs@.len() == i,
            forall|j: int|
                0 <= j < i ==> (#[trigger] pairs@[j]).0@ == slot_text(group@[j]).0 && pairs@[j].1@
                    == slot_text(group@[j]).1,
        decreases group.len() - i,
    {
        let slot = hex_pad_64_lower(group[i].slot.as_slice());
        let value = hex_pad_64_lower(group[i].value.as_slice());
        pairs.push((slot, value));
        i += 1;
    }
    assert(pairs_text(pairs@) =~= storage_text(group@)->0);
    Some(pairs)
}

/// Composes the allocation entry of one row: balance and nonce in minimal
/// width, the code attribute, and the storage group in fixed width.
pub fn compose(row: &AccountRow) -> (entry: AllocEntry)
    ensures
        entry@ == entry_of(*row),
{
    let balance = hex_lower(row.balance.as_slice());
    let nonce = hex_u64(row.nonce);
    let code = resolve_code(&row.code);
    let storage = encode_storage(&row.storage);
    AllocEntry { balance, nonce, code, storage }
}

/// Whether a text is exactly `0x0`.
fn is_zero_text(text: &str) -> (zero: bool)
    ensures
        zero == (text@ == seq!['0', 'x', '0']),
{
    if text.unicode_len() != 3 {
        return false;
    }
    let zero = text.get_char(0) == '0' && text.get_char(1) == 'x' && text.get_char(2) == '0';
    proof {
        if zero {
            assert(text@ =~= seq!['0', 'x', '0']);
        }
    }
    zero
}

/// Whether an entry is an empty externally-owned account.
pub fn is_empty_eoa(entry: &AllocEntry) -> (empty: bool)
    ensures
        empty == empty_eoa(entry@),
{
    entry.code.is_none() && entry.storage.is_none() && is_zero_text(entry.balance.as_str())
        && is_zero_text(entry.nonce.as_str())
}

/// Decides whether an entry is written. The flag set means that the empty
/// externally-owned accounts are written too, with their zero balance and
/// nonce; it does not strip anything, whatever its name suggests.
pub fn retain(entry: &AllocEntry, zero_out_empty_eoas: bool) -> (keep: bool)
    ensures
        keep == retained(entry@, zero_out_empty_eoas),
{
    zero_out_empty_eoas || !is_empty_eoa(entry)
}

/// Only an account with zero balance, zero nonce, no bytecode reference and
/// no storage is empty.
pub proof fn lemma_empty_eoa_is_all_zero(row: AccountRow)
    ensures
        empty_eoa(entry_of(row)) <==> (be_value(row.balance@) == 0 && row.nonce == 0
            && row.code is NoReference && row.storage@.len() == 0),
{
    lemma_minimal_hex_unpadded(be_value(row.balance@));
    lemma_minimal_hex_unpadded(row.nonce as nat);
}

/// An account with a balance is written whatever the flag says, and so is
/// one with a nonce, with code or with storage.
pub proof fn lemma_funded_account_retained(row: AccountRow, zero_out_empty_eoas: bool)
    requires
        be_value(row.balance@) > 0 || row.nonce > 0 || !(row.code is NoReference)
            || row.storage@.len() > 0,
    ensures
        retained(entry_of(row), zero_out_empty_eoas),
{
    lemma_empty_eoa_is_all_zero(row);
}

/// Whether every text of an entry is the prefix and hex digits only, and
/// every storage slot and value exactly 64 digits after the prefix.
pub open spec fn well_encoded(entry: EntryText) -> bool {
    &&& is_hex_text(entry.balance)
    &&& is_hex_text(entry.nonce)
    &&& entry.code is Some ==> is_hex_text(entry.code->0)
    &&& entry.storage is Some ==> forall|i: int|
        0 <= i < entry.storage->0.len() ==> {
            let pair = #[trigger] entry.storage->0[i];
            &&& is_hex_text(pair.0)
            &&& is_hex_text(pair.1)
            &&& pair.0.len() == 66
            &&& pair.1.len() == 66
        }
}

/// The entry of every row is well encoded: all of its texts are the prefix
/// and hex digits, and its storage slots and values have 64 digits each.
pub proof fn lemma_entry_well_encoded(row: AccountRow)
    ensures
        well_encoded(entry_of(row)),
{
    let entry = entry_of(row);
    lemma_encodings_are_hex_text(be_value(row.balance@), Seq::empty());
    lemma_encodings_are_hex_text(row.nonce as nat, Seq::empty());
    match row.code {
        CodeLookup::Found(blob) => {
            lemma_encodings_are_hex_text(0, blob@);
        },
        CodeLookup::Missing => {
            lemma_encodings_are_hex_text(0, Seq::empty());
            assert(bytes_hex(Seq::empty()) =~= prefix());
        },
        CodeLookup::NoReference => {},
    }
    if entry.storage is Some {
        assert forall|i: int| 0 <= i < entry.storage->0.len() implies {
            let pair = #[trigger] entry.storage->0[i];
            &&& is_hex_text(pair.0)
            &&& is_hex_text(pair.1)
            &&& pair.0.len() == 66
            &&& pair.1.len() == 66
        } by {
            let item = row.storage@[i];
            assert(entry.storage->0[i] == slot_text(item));
            lemma_encodings_are_hex_text(be_value(item.slot@), Seq::empty());
            lemma_encodings_are_hex_text(be_value(item.value@), Seq::empty());
            lemma_word_is_64_digits(item.slot@);
            lemma_word_is_64_digits(item.value@);
        }
    }
}

/// Whether no text of an entry needs escaping between the quotes of a JSON
/// string.
pub open spec fn plain(entry: EntryText) -> bool {
    &&& needs_no_escape(entry.balance)
    &&& needs_no_escape(entry.nonce)
    &&& entry.code is Some ==> needs_no_escape(entry.code->0)
    &&& entry.storage is Some ==> forall|i: int|
        0 <= i < entry.storage->0.len() ==> needs_no_escape((#[trigger] entry.storage->0[i]).0)
            && needs_no_escape(entry.storage->0[i].1)
}

/// A well-encoded entry is plain: written between quotes as it is, each of
/// its texts is a JSON string that stands for that text.
pub proof fn lemma_well_encoded_is_plain(entry: EntryText)
    requires
        well_encoded(entry),
    ensures
        plain(entry),
{
    lemma_hex_text_needs_no_escape(entry.balance);
    lemma_hex_text_needs_no_escape(entry.nonce);
    if entry.code is Some {
        lemma_hex_text_needs_no_escape(entry.code->0);
    }
    if entry.storage is Some {
        assert forall|i: int| 0 <= i < entry.storage->0.len() implies needs_no_escape(
            (#[trigger] entry.storage->0[i]).0,
        ) && needs_no_escape(entry.storage->0[i].1) by {
            lemma_hex_text_needs_no_escape(entry.storage->0[i].0);
            lemma_hex_text_needs_no_escape(entry.storage->0[i].1);
        }
    }
}

/// The record of every row is written without escaping: neither the
/// address that is its key nor any text of its entry needs any.
pub proof fn lemma_row_is_plain(row: AccountRow)
    ensures
        needs_no_escape(bytes_hex(row.address@)),
        well_encoded(entry_of(row)),
        plain(entry_of(row)),
{
    lemma_encodings_are_hex_text(0, row.address@);
    lemma_hex_text_needs_no_escape(bytes_hex(row.address@));
    lemma_entry_well_encoded(row);
    lemma_well_encoded_is_plain(entry_of(row));
}

/// With the flag set every account is written.
pub proof fn lemma_flag_keeps_all(row: AccountRow)
    ensures
        retained(entry_of(row), true),
{
}

} // verus!
