//! The allocation document and its incremental writer.
//!
//! The document is one JSON object with the single field `alloc`, which maps
//! each written address to its entry. `AllocWriter` hands it out piece by
//! piece, so that a store of any size is written without being held in
//! memory.

use crate::account::{
    compose, entry_of, lemma_entry_well_encoded, lemma_flag_keeps_all, pairs_text, retain,
    retained, well_encoded, AccountRow, AllocEntry, EntryText,
};
use crate::hex_codec::{bytes_hex, hex_bytes};
use vstd::prelude::*;

verus! {

/// A text between double quotes.
pub open spec fn quoted(text: Seq<char>) -> Seq<char> {
    "\""@ + text + "\""@
}

/// One storage slot as an object member.
pub open spec fn slot_member(pair: (Seq<char>, Seq<char>)) -> Seq<char> {
    quoted(pair.0) + ":"@ + quoted(pair.1)
}

/// The members of the `storage` object, separated by commas, in order.
pub open spec fn slot_members(pairs: Seq<(Seq<char>, Seq<char>)>) -> Seq<char>
    decreases pairs.len(),
{
    if pairs.len() == 0 {
        Seq::empty()
    } else if pairs.len() == 1 {
        slot_member(pairs.last())
    } else {
        slot_members(pairs.drop_last()) + ","@ + slot_member(pairs.last())
    }
}

/// The `code` member with its leading comma, or nothing where the entry has
/// no code.
pub open spec fn code_member(code: Option<Seq<char>>) -> Seq<char> {
    match code {
        Some(text) => ",\"code\":"@ + quoted(text),
        None => Seq::empty(),
    }
}

/// The `storage` member with its leading comma, or nothing where the entry
/// has no storage or an empty one.
pub open spec fn storage_member(storage: Option<Seq<(Seq<char>, Seq<char>)>>) -> Seq<char> {
    match storage {
        Some(pairs) if pairs.len() > 0 => ",\"storage\":{"@ + slot_members(pairs) + "}"@,
        _ => Seq::empty(),
    }
}

/// An entry as a JSON object: balance, nonce, then code and storage where
/// the entry has them. An absent attribute is left out, not written as null.
pub open spec fn entry_json(entry: EntryText) -> Seq<char> {
    "{\"balance\":"@ + quoted(entry.balance) + ",\"nonce\":"@ + quoted(entry.nonce) + code_member(
        entry.code,
    ) + storage_member(entry.storage) + "}"@
}

/// What opens the document.
pub open spec fn header() -> Seq<char> {
    "{\n  \"alloc\": {\n"@
}

/// What stands between two records.
pub open spec fn separator() -> Seq<char> {
    ",\n"@
}

/// What closes the document.
pub open spec fn footer() -> Seq<char> {
    "\n  }\n}\n"@
}

/// One record: the address as a quoted key, then the entry.
pub open spec fn record_from(address: Seq<u8>, entry: EntryText) -> Seq<char> {
    "    "@ + quoted(bytes_hex(address)) + ": "@ + entry_json(entry)
}

/// The record of a row.
pub open spec fn record(row: AccountRow) -> Seq<char> {
    record_from(row.address@, entry_of(row))
}

/// What is sent for an account after `started` records: nothing where the
/// entry is not retained, else its record, led by a separator unless it is
/// the first.
pub open spec fn chunk(
    started: bool,
    address: Seq<u8>,
    entry: EntryText,
    zero_out_empty_eoas: bool,
) -> Option<Seq<char>> {
    if !retained(entry, zero_out_empty_eoas) {
        None
    } else if started {
        Some(separator() + record_from(address, entry))
    } else {
        Some(record_from(address, entry))
    }
}

/// The rows that are written, in the order in which they were visited.
pub open spec fn kept(rows: Seq<AccountRow>, zero_out_empty_eoas: bool) -> Seq<AccountRow>
    decreases rows.len(),
{
    if rows.len() == 0 {
        Seq::empty()
    } else if retained(entry_of(rows.last()), zero_out_empty_eoas) {
        kept(rows.drop_last(), zero_out_empty_eoas).push(rows.last())
    } else {
        kept(rows.drop_last(), zero_out_empty_eoas)
    }
}

/// The records of the given rows, a separator between each two and none
/// after the last.
pub open spec fn records(rows: Seq<AccountRow>) -> Seq<char>
    decreases rows.len(),
{
    if rows.len() == 0 {
        Seq::empty()
    } else if rows.len() == 1 {
        record(rows.last())
    } else {
        records(rows.drop_last()) + separator() + record(rows.last())
    }
}

/// The whole document for the rows of a store in its native order.
pub open spec fn document(rows: Seq<AccountRow>, zero_out_empty_eoas: bool) -> Seq<char> {
    header() + records(kept(rows, zero_out_empty_eoas)) + footer()
}

/// Appends a text between double quotes.
fn push_quoted(out: &mut String, text: &str)
    ensures
        final(out)@ == old(out)@ + quoted(text@),
{
    out.append("\"");
    out.append(text);
    out.append("\"");
    assert(final(out)@ =~= old(out)@ + quoted(text@));
}

/// Appends the members of the `storage` object.
fn push_slot_members(out: &mut String, pairs: &Vec<(String, String)>)
    ensures
        final(out)@ == old(out)@ + slot_members(pairs_text(pairs@)),
{
    let ghost texts = pairs_text(pairs@);
    let mut i: usize = 0;
    while i < pairs.len()
        invariant
            i <= pairs.len(),
            texts == pairs_text(pairs@),
            out@ == old(out)@ + slot_members(texts.take(i as int)),
        decreases pairs.len() - i,
    {
        let ghost before = out@;
        if i > 0 {
            out.append(",");
        }
        push_quoted(out, pairs[i].0.as_str());
        out.append(":");
        push_quoted(out, pairs[i].1.as_str());
        proof {
            let upto = texts.take(i + 1);
            assert(upto.drop_last() =~= texts.take(i as int));
            assert(upto.last() == (pairs@[i as int].0@, pairs@[i as int].1@));
            if i > 0 {
                assert(out@ =~= before + (","@ + slot_member(upto.last())));
                assert(out@ =~= old(out)@ + slot_members(upto));
            } else {
                assert(slot_members(texts.take(0)) =~= Seq::<char>::empty());
                assert(out@ =~= old(out)@ + slot_members(upto));
            }
        }
        i += 1;
    }
    assert(texts.take(i as int) =~= texts);
}

/// Writes one entry as a JSON object, its fields in the fixed order
/// balance, nonce, code, storage. The entry must be well encoded, as every
/// entry that `compose` makes is: its texts then hold the prefix and hex
/// digits only, and are written between quotes as they are.
pub fn write_entry(entry: &AllocEntry) -> (text: String)
    requires
        well_encoded(entry@),
    ensures
        text@ == entry_json(entry@),
{
    let mut out = String::new();
    out.append("{\"balance\":");
    push_quoted(&mut out, entry.balance.as_str());
    out.append(",\"nonce\":");
    push_quoted(&mut out, entry.nonce.as_str());
    let ghost core = out@;
    assert(core =~= "{\"balance\":"@ + quoted(entry@.balance) + ",\"nonce\":"@ + quoted(
        entry@.nonce,
    ));
    match &entry.code {
        Some(code) => {
            out.append(",\"code\":");
            push_quoted(&mut out, code.as_str());
        },
        None => {},
    }
    assert(out@ =~= core + code_member(entry@.code));
    let ghost with_code = out@;
    match &entry.storage {
        Some(pairs) => {
            if pairs.len() > 0 {
                out.append(",\"storage\":{");
                push_slot_members(&mut out, pairs);
                out.append("}");
            }
        },
        None => {},
    }
    assert(out@ =~= with_code + storage_member(entry@.storage));
    out.append("}");
    assert(out@ =~= entry_json(entry@));
    out
}

/// Writes one record: four spaces, the address as a quoted key, a colon and
/// a space, and the row's entry.
pub fn write_record(row: &AccountRow) -> (text: String)
    ensures
        text@ == record(*row),
{
    let entry = compose(row);
    let address = hex_bytes(row.address.as_slice());
    proof {
        lemma_entry_well_encoded(*row);
    }
    let body = write_entry(&entry);
    let mut out = String::new();
    out.append("    ");
    push_quoted(&mut out, address.as_str());
    out.append(": ");
    out.append(body.as_str());
    assert(out@ =~= record(*row));
    out
}

/// The state of a document that is being written: the rows that have been
/// written so far decide whether the next record is led by a separator.
pub struct AllocWriter {
    started: bool,
}

impl AllocWriter {
    /// Whether a record has been written.
    pub closed spec fn started(&self) -> bool {
        self.started
    }

    /// Opens the document: a writer that has written no record, and the
    /// document's opening text.
    pub fn begin() -> (opened: (Self, String))
        ensures
            !opened.0.started(),
            opened.1@ == header(),
    {
        let mut text = String::new();
        text.append("{\n  \"alloc\": {\n");
        assert(text@ =~= header());
        (AllocWriter { started: false }, text)
    }

    /// Takes the next row of the account table. Where the row is written,
    /// gives the text to send: the record, led by a separator unless it is
    /// the first. Where it is left out, gives nothing and changes nothing.
    pub fn accept(&mut self, row: &AccountRow, zero_out_empty_eoas: bool) -> (text: Option<String>)
        ensures
            match text {
                Some(text) => chunk(
                    old(self).started(),
                    row.address@,
                    entry_of(*row),
                    zero_out_empty_eoas,
                ) == Some(text@),
                None => chunk(old(self).started(), row.address@, entry_of(*row), zero_out_empty_eoas)
                    is None,
            },
            final(self).started() == (old(self).started() || retained(
                entry_of(*row),
                zero_out_empty_eoas,
            )),
    {
        let entry = compose(row);
        if !retain(&entry, zero_out_empty_eoas) {
            return None;
        }
        let mut out = String::new();
        if self.started {
            out.append(",\n");
        }
        let text = write_record(row);
        out.append(text.as_str());
        proof {
            if self.started {
                assert(out@ =~= separator() + record(*row));
            } else {
                assert(out@ =~= record(*row));
            }
        }
        self.started = true;
        Some(out)
    }

    /// Closes the document: the closing text, the same whether or not a
    /// record was written, so that no comma is left behind.
    pub fn finish(&self) -> (text: String)
        ensures
            text@ == footer(),
    {
        let mut text = String::new();
        text.append("\n  }\n}\n");
        assert(text@ =~= footer());
        text
    }
}

/// A store without accounts gives the opening and the closing text with
/// nothing between them: an empty object under `alloc`, no comma.
pub proof fn lemma_empty_store(zero_out_empty_eoas: bool)
    ensures
        document(Seq::empty(), zero_out_empty_eoas) == header() + footer(),
        document(Seq::empty(), zero_out_empty_eoas) == "{\n  \"alloc\": {\n\n  }\n}\n"@,
{
    reveal_strlit("{\n  \"alloc\": {\n");
    reveal_strlit("\n  }\n}\n");
    reveal_strlit("{\n  \"alloc\": {\n\n  }\n}\n");
    assert(kept(Seq::<AccountRow>::empty(), zero_out_empty_eoas) =~= Seq::empty());
    assert(document(Seq::empty(), zero_out_empty_eoas) =~= header() + footer());
    assert(header() + footer() =~= "{\n  \"alloc\": {\n\n  }\n}\n"@);
}

/// With the flag set every row is written: the document holds one record
/// for each row, in the order of the rows.
pub proof fn lemma_flag_keeps_every_row(rows: Seq<AccountRow>)
    ensures
        kept(rows, true) == rows,
    decreases rows.len(),
{
    if rows.len() > 0 {
        lemma_flag_keeps_every_row(rows.drop_last());
        lemma_flag_keeps_all(rows.last());
        assert(rows.drop_last().push(rows.last()) =~= rows);
    } else {
        assert(kept(rows, true) =~= rows);
    }
}

/// Where each written row stood among the rows visited.
pub open spec fn kept_positions(rows: Seq<AccountRow>, zero_out_empty_eoas: bool) -> Seq<int>
    decreases rows.len(),
{
    if rows.len() == 0 {
        Seq::empty()
    } else if retained(entry_of(rows.last()), zero_out_empty_eoas) {
        kept_positions(rows.drop_last(), zero_out_empty_eoas).push(rows.len() - 1)
    } else {
        kept_positions(rows.drop_last(), zero_out_empty_eoas)
    }
}

/// The written rows are rows that were visited, each written once and in
/// the order of the visit: their positions among the visited rows rise
/// strictly. Every row that is to be retained is among them.
pub proof fn lemma_kept_in_visit_order(rows: Seq<AccountRow>, zero_out_empty_eoas: bool)
    ensures
        kept_positions(rows, zero_out_empty_eoas).len() == kept(rows, zero_out_empty_eoas).len(),
        forall|k: int|
            0 <= k < kept(rows, zero_out_empty_eoas).len() ==> {
                let p = #[trigger] kept_positions(rows, zero_out_empty_eoas)[k];
                0 <= p < rows.len() && kept(rows, zero_out_empty_eoas)[k] == rows[p] && retained(
                    entry_of(rows[p]),
                    zero_out_empty_eoas,
                )
            },
        forall|j: int, k: int|
            0 <= j < k < kept(rows, zero_out_empty_eoas).len() ==> kept_positions(
                rows,
                zero_out_empty_eoas,
            )[j] < kept_positions(rows, zero_out_empty_eoas)[k],
        forall|p: int|
            0 <= p < rows.len() && retained(entry_of(#[trigger] rows[p]), zero_out_empty_eoas)
                ==> kept_positions(rows, zero_out_empty_eoas).contains(p),
    decreases rows.len(),
{
    if rows.len() > 0 {
        let before = rows.drop_last();
        lemma_kept_in_visit_order(before, zero_out_empty_eoas);
        let positions = kept_positions(rows, zero_out_empty_eoas);
        let earlier = kept_positions(before, zero_out_empty_eoas);
        assert forall|p: int|
            0 <= p < rows.len() && retained(
                entry_of(#[trigger] rows[p]),
                zero_out_empty_eoas,
            ) implies positions.contains(p) by {
            if p < rows.len() - 1 {
                assert(before[p] == rows[p]);
                assert(earlier.contains(p));
                let k = choose|k: int| 0 <= k < earlier.len() && earlier[k] == p;
                assert(positions[k] == p);
            } else {
                assert(positions[positions.len() - 1] == p);
            }
        }
    }
}

/// Where no address is visited twice, no address is written twice: the
/// document holds one record for each written address.
pub proof fn lemma_one_record_per_address(rows: Seq<AccountRow>, zero_out_empty_eoas: bool)
    requires
        forall|i: int, j: int|
            0 <= i < j < rows.len() ==> (#[trigger] rows[i]).address@ != (
            #[trigger] rows[j]).address@,
    ensures
        forall|i: int, j: int|
            0 <= i < j < kept(rows, zero_out_empty_eoas).len() ==> (#[trigger] kept(
                rows,
                zero_out_empty_eoas,
            )[i]).address@ != (#[trigger] kept(rows, zero_out_empty_eoas)[j]).address@,
{
    lemma_kept_in_visit_order(rows, zero_out_empty_eoas);
    let written = kept(rows, zero_out_empty_eoas);
    let positions = kept_positions(rows, zero_out_empty_eoas);
    assert forall|i: int, j: int| 0 <= i < j < written.len() implies (
    #[trigger] written[i]).address@ != (#[trigger] written[j]).address@ by {
        assert(positions[i] < positions[j]);
        assert(written[i] == rows[positions[i]]);
        assert(written[j] == rows[positions[j]]);
    }
}

} // verus!
