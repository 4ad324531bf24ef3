//! The walk over the account table, as a machine that the program drives.
//!
//! The walker says what to ask of the store next; the program asks, and
//! hands back what the store gave. The walker composes each account from
//! the answers and gives the text to write, so that the order of the
//! questions and what becomes of each answer are decided here.

use crate::account::{
    code_text, entry_from, entry_of, retained, AccountRow, Address, CodeLookup, StorageEntry,
    StorageGroup, Word,
};
use crate::writer::{chunk, document, footer, header, kept, records, AllocWriter};
use vstd::prelude::*;
use vstd::slice::slice_to_vec;

verus! {

/// What the program is to ask of the store next.
#[derive(Debug, Clone, Copy, PartialEq, Eq)]
pub enum Action {
    /// Advance the account cursor.
    NextAccount,
    /// Look up the bytecode reference of the account last read.
    LookupCode,
    /// Seek the storage cursor to the address of the account last read.
    SeekStorage,
    /// Fetch the next storage entry under the same key.
    NextDuplicate,
    /// Nothing: the walk is over.
    Stop,
}

/// The fields of one row of the account table.
pub struct AccountHead {
    pub address: Address,
    pub balance: Word,
    pub nonce: u64,
    /// Whether the account holds a bytecode reference.
    pub has_code: bool,
}

/// What the store gave in answer.
pub enum Event {
    /// The next row of the account table, or none at its end.
    Account(Option<AccountHead>),
    /// The blob under the bytecode reference, or none where it is missing.
    Code(Option<Vec<u8>>),
    /// The entry on which the seek landed, with its key, or none.
    Seek(Option<(Address, StorageEntry)>),
    /// The next entry under the same key, or none at the group's end.
    Duplicate(Option<StorageEntry>),
}

/// The walker as plain values.
pub struct WalkState {
    /// What the walker waits for.
    pub waiting: Action,
    /// Whether a record has been written.
    pub started: bool,
    /// The flag: whether empty externally-owned accounts are written.
    pub zero_out_empty_eoas: bool,
    /// The account that is being composed.
    pub address: Seq<u8>,
    pub balance: Seq<u8>,
    pub nonce: u64,
    pub code: CodeLookup,
    /// Its storage entries gathered so far.
    pub gathered: Seq<StorageEntry>,
}

/// The walk over the account table.
pub struct Walker {
    writer: AllocWriter,
    zero_out_empty_eoas: bool,
    waiting: Action,
    address: Address,
    balance: Word,
    nonce: u64,
    code: CodeLookup,
    group: StorageGroup,
}

impl View for Walker {
    type V = WalkState;

    closed spec fn view(&self) -> WalkState {
        WalkState {
            waiting: self.waiting,
            started: self.writer.started(),
            zero_out_empty_eoas: self.zero_out_empty_eoas,
            address: self.address@,
            balance: self.balance@,
            nonce: self.nonce,
            code: self.code,
            gathered: self.group.entries(),
        }
    }
}

/// The state in which a walk begins.
pub open spec fn initial(zero_out_empty_eoas: bool) -> WalkState {
    WalkState {
        waiting: Action::NextAccount,
        started: false,
        zero_out_empty_eoas,
        address: Seq::new(20, |i: int| 0u8),
        balance: Seq::new(32, |i: int| 0u8),
        nonce: 0,
        code: CodeLookup::NoReference,
        gathered: Seq::empty(),
    }
}

/// The account is complete: its entry is composed, tested and, where it is
/// retained, written; the walker asks for the next account.
pub open spec fn completed(state: WalkState) -> (WalkState, Option<Seq<char>>) {
    let entry = entry_from(state.balance, state.nonce, state.code, state.gathered);
    (
        WalkState {
            waiting: Action::NextAccount,
            started: state.started || retained(entry, state.zero_out_empty_eoas),
            code: CodeLookup::NoReference,
            gathered: Seq::empty(),
            ..state
        },
        chunk(state.started, state.address, entry, state.zero_out_empty_eoas),
    )
}

/// The state after an event, and the text to write. An event that does not
/// answer what the walker waits for changes nothing.
pub open spec fn after(state: WalkState, event: Event) -> (WalkState, Option<Seq<char>>) {
    match (state.waiting, event) {
        (Action::NextAccount, Event::Account(Some(head))) => (
            WalkState {
                waiting: if head.has_code {
                    Action::LookupCode
                } else {
                    Action::SeekStorage
                },
                address: head.address@,
                balance: head.balance@,
                nonce: head.nonce,
                code: CodeLookup::NoReference,
                gathered: Seq::empty(),
                ..state
            },
            None,
        ),
        (Action::NextAccount, Event::Account(None)) => (
            WalkState { waiting: Action::Stop, ..state },
            Some(footer()),
        ),
        (Action::LookupCode, Event::Code(Some(blob))) => (
            WalkState { waiting: Action::SeekStorage, code: CodeLookup::Found(blob), ..state },
            None,
        ),
        (Action::LookupCode, Event::Code(None)) => (
            WalkState { waiting: Action::SeekStorage, code: CodeLookup::Missing, ..state },
            None,
        ),
        (Action::SeekStorage, Event::Seek(Some((found, first)))) => if found@ == state.address {
            (WalkState { waiting: Action::NextDuplicate, gathered: seq![first], ..state }, None)
        } else {
            completed(WalkState { gathered: Seq::empty(), ..state })
        },
        (Action::SeekStorage, Event::Seek(None)) => completed(
            WalkState { gathered: Seq::empty(), ..state },
        ),
        (Action::NextDuplicate, Event::Duplicate(Some(entry))) => (
            WalkState { gathered: state.gathered.push(entry), ..state },
            None,
        ),
        (Action::NextDuplicate, Event::Duplicate(None)) => completed(state),
        _ => (state, None),
    }
}

impl Walker {
    /// While the walker asks for the next entry under the same key, its
    /// storage group is open.
    #[verifier::type_invariant]
    closed spec fn sound(self) -> bool {
        self.waiting is NextDuplicate ==> self.group.open()
    }

    /// Begins a walk: a walker that waits for the first account, and the
    /// document's opening text.
    pub fn begin(zero_out_empty_eoas: bool) -> (opened: (Self, String))
        ensures
            opened.0@ == initial(zero_out_empty_eoas),
            opened.1@ == header(),
    {
        let (writer, text) = AllocWriter::begin();
        let address: Address = [0u8; 20];
        let balance: Word = [0u8; 32];
        let walker = Walker {
            writer,
            zero_out_empty_eoas,
            waiting: Action::NextAccount,
            address,
            balance,
            nonce: 0,
            code: CodeLookup::NoReference,
            group: StorageGroup::start(&address, None),
        };
        assert(walker@.address =~= initial(zero_out_empty_eoas).address);
        assert(walker@.balance =~= initial(zero_out_empty_eoas).balance);
        (walker, text)
    }

    /// What the program is to ask of the store next.
    pub fn action(&self) -> (action: Action)
        ensures
            action == self@.waiting,
    {
        self.waiting
    }

    /// Composes the account from what was gathered, and writes it where it
    /// is retained.
    fn complete(self) -> (next: (Self, Option<String>))
        ensures
            next.0@ == completed(self@).0,
            match next.1 {
                Some(text) => completed(self@).1 == Some(text@),
                None => completed(self@).1 is None,
            },
    {
        let Walker { writer, zero_out_empty_eoas, waiting, address, balance, nonce, code, group } =
            self;
        let mut writer = writer;
        let row = AccountRow { address, balance, nonce, code, storage: group.into_entries() };
        let text = writer.accept(&row, zero_out_empty_eoas);
        let walker = Walker {
            writer,
            zero_out_empty_eoas,
            waiting: Action::NextAccount,
            address,
            balance,
            nonce,
            code: CodeLookup::NoReference,
            group: StorageGroup::start(&address, None),
        };
        (walker, text)
    }

    /// Takes what the store gave and says what to write. The next question
    /// is then `action`. An event that does not answer the question asked
    /// is passed over.
    pub fn step(self, event: Event) -> (next: (Self, Option<String>))
        ensures
            next.0@ == after(self@, event).0,
            match next.1 {
                Some(text) => after(self@, event).1 == Some(text@),
                None => after(self@, event).1 is None,
            },
    {
        proof {
            use_type_invariant(&self);
        }
        let Walker { writer, zero_out_empty_eoas, waiting, address, balance, nonce, code, group } =
            self;
        match (waiting, event) {
            (Action::NextAccount, Event::Account(Some(head))) => {
                let waiting = if head.has_code {
                    Action::LookupCode
                } else {
                    Action::SeekStorage
                };
                let walker = Walker {
                    writer,
                    zero_out_empty_eoas,
                    waiting,
                    address: head.address,
                    balance: head.balance,
                    nonce: head.nonce,
                    code: CodeLookup::NoReference,
                    group: StorageGroup::start(&address, None),
                };
                (walker, None)
            },
            (Action::NextAccount, Event::Account(None)) => {
                let text = writer.finish();
                let walker = Walker {
                    writer,
                    zero_out_empty_eoas,
                    waiting: Action::Stop,
                    address,
                    balance,
                    nonce,
                    code,
                    group,
                };
                (walker, Some(text))
            },
            (Action::LookupCode, Event::Code(blob)) => {
                let code = match blob {
                    Some(blob) => CodeLookup::Found(blob),
                    None => CodeLookup::Missing,
                };
                let walker = Walker {
                    writer,
                    zero_out_empty_eoas,
                    waiting: Action::SeekStorage,
                    address,
                    balance,
                    nonce,
                    code,
                    group,
                };
                (walker, None)
            },
            (Action::SeekStorage, Event::Seek(landed)) => {
                let group = StorageGroup::start(&address, landed);
                if group.is_open() {
                    let walker = Walker {
                        writer,
                        zero_out_empty_eoas,
                        waiting: Action::NextDuplicate,
                        address,
                        balance,
                        nonce,
                        code,
                        group,
                    };
                    (walker, None)
                } else {
                    let walker = Walker {
                        writer,
                        zero_out_empty_eoas,
                        waiting,
                        address,
                        balance,
                        nonce,
                        code,
                        group,
                    };
                    walker.complete()
                }
            },
            (Action::NextDuplicate, Event::Duplicate(next)) => {
                let mut group = group;
                group.advance(next);
                if group.is_open() {
                    let walker = Walker {
                        writer,
                        zero_out_empty_eoas,
                        waiting,
                        address,
                        balance,
                        nonce,
                        code,
                        group,
                    };
                    (walker, None)
                } else {
                    let walker = Walker {
                        writer,
                        zero_out_empty_eoas,
                        waiting: Action::SeekStorage,
                        address,
                        balance,
                        nonce,
                        code,
                        group,
                    };
                    walker.complete()
                }
            },
            (waiting, _) => {
                let walker = Walker {
                    writer,
                    zero_out_empty_eoas,
                    waiting,
                    address,
                    balance,
                    nonce,
                    code,
                    group,
                };
                (walker, None)
            },
        }
    }
}

/// Appends a piece of the document, if there is one.
fn append_piece(out: &mut String, piece: &Option<String>)
    ensures
        final(out)@ == old(out)@ + (match *piece {
            Some(text) => text@,
            None => Seq::empty(),
        }),
{
    match piece {
        Some(text) => {
            out.append(text.as_str());
        },
        None => {
            assert(out@ =~= out@ + Seq::<char>::empty());
        },
    }
}

/// Gives the walker the fields of a row, and its blob where it refers to
/// one: the walker then waits for the seek.
fn feed_head(walker: Walker, row: &AccountRow) -> (next: Walker)
    requires
        walker@.waiting is NextAccount,
    ensures
        next@.waiting is SeekStorage,
        next@.started == walker@.started,
        next@.zero_out_empty_eoas == walker@.zero_out_empty_eoas,
        next@.address == row.address@,
        next@.balance == row.balance@,
        next@.nonce == row.nonce,
        code_text(next@.code) == code_text(row.code),
{
    let has_code = match &row.code {
        CodeLookup::NoReference => false,
        _ => true,
    };
    let head = AccountHead {
        address: row.address,
        balance: row.balance,
        nonce: row.nonce,
        has_code,
    };
    let (walker, _) = walker.step(Event::Account(Some(head)));
    match &row.code {
        CodeLookup::Found(blob) => {
            let (walker, _) = walker.step(Event::Code(Some(slice_to_vec(blob.as_slice()))));
            walker
        },
        CodeLookup::Missing => {
            let (walker, _) = walker.step(Event::Code(None));
            walker
        },
        CodeLookup::NoReference => walker,
    }
}

/// Gives the walker the storage group of a row, entry by entry, as a seek
/// and the fetches after it give it: the walker then completes the account.
fn feed_storage(walker: Walker, row: &AccountRow) -> (next: (Walker, Option<String>))
    requires
        walker@.waiting is SeekStorage,
        walker@.address == row.address@,
    ensures
        next.0@ == completed(WalkState { gathered: row.storage@, ..walker@ }).0,
        match next.1 {
            Some(text) => completed(WalkState { gathered: row.storage@, ..walker@ }).1 == Some(
                text@,
            ),
            None => completed(WalkState { gathered: row.storage@, ..walker@ }).1 is None,
        },
{
    let ghost start = walker@;
    if row.storage.len() == 0 {
        assert(row.storage@ =~= Seq::<StorageEntry>::empty());
        return walker.step(Event::Seek(None));
    }
    let first = StorageEntry { slot: row.storage[0].slot, value: row.storage[0].value };
    let (mut walker, _) = walker.step(Event::Seek(Some((row.address, first))));
    assert(walker@.gathered =~= row.storage@.take(1));
    let mut j: usize = 1;
    while j < row.storage.len()
        invariant
            1 <= j <= row.storage.len(),
            walker@ == (WalkState {
                waiting: Action::NextDuplicate,
                gathered: row.storage@.take(j as int),
                ..start
            }),
        decreases row.storage.len() - j,
    {
        let entry = StorageEntry { slot: row.storage[j].slot, value: row.storage[j].value };
        let (next, _) = walker.step(Event::Duplicate(Some(entry)));
        walker = next;
        assert(walker@.gathered =~= row.storage@.take(j + 1));
        j += 1;
    }
    assert(row.storage@.take(j as int) =~= row.storage@);
    walker.step(Event::Duplicate(None))
}

/// Walks one row: the walker waits for the next account again, and what it
/// gave is the row's piece of the document.
fn walk_row(walker: Walker, row: &AccountRow) -> (next: (Walker, Option<String>))
    requires
        walker@.waiting is NextAccount,
    ensures
        next.0@.waiting is NextAccount,
        next.0@.zero_out_empty_eoas == walker@.zero_out_empty_eoas,
        next.0@.started == (walker@.started || retained(
            entry_of(*row),
            walker@.zero_out_empty_eoas,
        )),
        match next.1 {
            Some(text) => chunk(
                walker@.started,
                row.address@,
                entry_of(*row),
                walker@.zero_out_empty_eoas,
            ) == Some(text@),
            None => chunk(
                walker@.started,
                row.address@,
                entry_of(*row),
                walker@.zero_out_empty_eoas,
            ) is None,
        },
{
    let walker = feed_head(walker, row);
    assert(entry_from(row.balance@, row.nonce, walker@.code, row.storage@) == entry_of(*row));
    feed_storage(walker, row)
}

/// The whole document for rows that are held in memory. The rows are walked
/// as a store is: for each row the walker is given its fields, the blob
/// where it refers to one, the first entry of its storage group and then the
/// rest of the group, and what the walker gives is put together.
pub fn dump(rows: &Vec<AccountRow>, zero_out_empty_eoas: bool) -> (text: String)
    ensures
        text@ == document(rows@, zero_out_empty_eoas),
{
    let (mut walker, mut out) = Walker::begin(zero_out_empty_eoas);
    let mut i: usize = 0;
    while i < rows.len()
        invariant
            i <= rows.len(),
            walker@.waiting is NextAccount,
            walker@.zero_out_empty_eoas == zero_out_empty_eoas,
            walker@.started == (kept(rows@.take(i as int), zero_out_empty_eoas).len() > 0),
            out@ == header() + records(kept(rows@.take(i as int), zero_out_empty_eoas)),
        decreases rows.len() - i,
    {
        let row = &rows[i];
        let ghost before = kept(rows@.take(i as int), zero_out_empty_eoas);
        let (next, piece) = walk_row(walker, row);
        walker = next;
        append_piece(&mut out, &piece);
        proof {
            assert(rows@.take(i + 1).drop_last() =~= rows@.take(i as int));
            assert(rows@.take(i + 1).last() == *row);
            let after = kept(rows@.take(i + 1), zero_out_empty_eoas);
            if retained(entry_of(*row), zero_out_empty_eoas) {
                assert(after.drop_last() =~= before);
                if before.len() == 0 {
                    assert(records(before) =~= Seq::<char>::empty());
                }
            }
            assert(out@ =~= header() + records(after));
        }
        i += 1;
    }
    assert(rows@.take(i as int) =~= rows@);
    let (_, end) = walker.step(Event::Account(None));
    append_piece(&mut out, &end);
    out
}

} // verus!
