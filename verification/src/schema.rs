//! The schemas of the actor states that this library converts itself, each in
//! its old and its new form, with their canonical bytes and the rules that
//! lead from the old form to the new one.

use crate::codec::{push_field, push_u64, read_u64, spec_field};
use crate::error::{ErrorKind, Failure, MigrationError, Stage};
use crate::hash::ContentHash;
use vstd::bytes::{
    lemma_auto_spec_u64_to_from_le_bytes, spec_u64_from_le_bytes, spec_u64_to_le_bytes,
};
use vstd::prelude::*;
use vstd::slice::{slice_subrange, slice_to_vec};

verus! {

/// The quota that every account gets when the field is introduced.
pub const DEFAULT_QUOTA: u64 = 1048576;

/// The size of one entry of a ledger's table, in bytes.
pub const ENTRY_SIZE: usize = 8;

/// An account's state in the old schema.
#[derive(Clone, Copy, Debug, PartialEq, Eq, Structural)]
pub struct AccountStateV1 {
    pub owner: u64,
    pub nonce: u64,
}

/// An account's state in the new schema, which adds a quota.
#[derive(Clone, Copy, Debug, PartialEq, Eq, Structural)]
pub struct AccountStateV2 {
    pub owner: u64,
    pub nonce: u64,
    pub quota: u64,
}

/// The canonical bytes of an old account state.
pub open spec fn spec_encode_account_v1(state: AccountStateV1) -> Seq<u8> {
    spec_u64_to_le_bytes(state.owner) + spec_u64_to_le_bytes(state.nonce)
}

/// The old account state that bytes stand for, if they stand for one.
pub open spec fn spec_decode_account_v1(bytes: Seq<u8>) -> Option<AccountStateV1> {
    if bytes.len() == 16 {
        Some(
            AccountStateV1 {
                owner: spec_u64_from_le_bytes(bytes.subrange(0, 8)),
                nonce: spec_u64_from_le_bytes(bytes.subrange(8, 16)),
            },
        )
    } else {
        None
    }
}

/// The canonical bytes of a new account state.
pub open spec fn spec_encode_account_v2(state: AccountStateV2) -> Seq<u8> {
    spec_u64_to_le_bytes(state.owner) + spec_u64_to_le_bytes(state.nonce) + spec_u64_to_le_bytes(
        state.quota,
    )
}

/// The new account state that bytes stand for, if they stand for one.
pub open spec fn spec_decode_account_v2(bytes: Seq<u8>) -> Option<AccountStateV2> {
    if bytes.len() == 24 {
        Some(
            AccountStateV2 {
                owner: spec_u64_from_le_bytes(bytes.subrange(0, 8)),
                nonce: spec_u64_from_le_bytes(bytes.subrange(8, 16)),
                quota: spec_u64_from_le_bytes(bytes.subrange(16, 24)),
            },
        )
    } else {
        None
    }
}

/// The rule for accounts: owner and nonce are copied, and the quota is the
/// default.
pub open spec fn spec_migrate_account(old: AccountStateV1) -> AccountStateV2 {
    AccountStateV2 { owner: old.owner, nonce: old.nonce, quota: DEFAULT_QUOTA }
}

impl AccountStateV1 {
    pub fn encode(&self) -> (bytes: Vec<u8>)
        ensures
            bytes@ == spec_encode_account_v1(*self),
            spec_decode_account_v1(bytes@) == Some(*self),
    {
        proof {
            lemma_account_v1_round_trip(*self);
        }
        let mut out: Vec<u8> = Vec::new();
        push_u64(&mut out, self.owner);
        push_u64(&mut out, self.nonce);
        assert(out@ =~= spec_encode_account_v1(*self));
        out
    }

    pub fn decode(bytes: &[u8]) -> (state: Option<Self>)
        ensures
            state == spec_decode_account_v1(bytes@),
    {
        if bytes.len() != 16 {
            return None;
        }
        match (read_u64(bytes, 0), read_u64(bytes, 8)) {
            (Some(owner), Some(nonce)) => Some(AccountStateV1 { owner, nonce }),
            _ => None,
        }
    }
}

impl AccountStateV2 {
    pub fn encode(&self) -> (bytes: Vec<u8>)
        ensures
            bytes@ == spec_encode_account_v2(*self),
            spec_decode_account_v2(bytes@) == Some(*self),
    {
        proof {
            lemma_account_v2_round_trip(*self);
        }
        let mut out: Vec<u8> = Vec::new();
        push_u64(&mut out, self.owner);
        push_u64(&mut out, self.nonce);
        push_u64(&mut out, self.quota);
        assert(out@ =~= spec_encode_account_v2(*self));
        out
    }

    pub fn decode(bytes: &[u8]) -> (state: Option<Self>)
        ensures
            state == spec_decode_account_v2(bytes@),
    {
        if bytes.len() != 24 {
            return None;
        }
        match (read_u64(bytes, 0), read_u64(bytes, 8), read_u64(bytes, 16)) {
            (Some(owner), Some(nonce), Some(quota)) => Some(AccountStateV2 { owner, nonce, quota }),
            _ => None,
        }
    }
}

/// Converts an account's state to the new schema. It cannot fail.
pub fn migrate_account(old: &AccountStateV1) -> (new: Result<AccountStateV2, MigrationError>)
    ensures
        new matches Ok(state) && state == spec_migrate_account(*old),
{
    Ok(AccountStateV2 { owner: old.owner, nonce: old.nonce, quota: DEFAULT_QUOTA })
}

/// The bytes of an old account state are read back as that state.
pub proof fn lemma_account_v1_round_trip(state: AccountStateV1)
    ensures
        spec_decode_account_v1(spec_encode_account_v1(state)) == Some(state),
{
    lemma_auto_spec_u64_to_from_le_bytes();
    let bytes = spec_encode_account_v1(state);
    assert(bytes.subrange(0, 8) =~= spec_u64_to_le_bytes(state.owner));
    assert(bytes.subrange(8, 16) =~= spec_u64_to_le_bytes(state.nonce));
}

/// The bytes of a new account state are read back as that state.
pub proof fn lemma_account_v2_round_trip(state: AccountStateV2)
    ensures
        spec_decode_account_v2(spec_encode_account_v2(state)) == Some(state),
{
    lemma_auto_spec_u64_to_from_le_bytes();
    let bytes = spec_encode_account_v2(state);
    assert(bytes.subrange(0, 8) =~= spec_u64_to_le_bytes(state.owner));
    assert(bytes.subrange(8, 16) =~= spec_u64_to_le_bytes(state.nonce));
    assert(bytes.subrange(16, 24) =~= spec_u64_to_le_bytes(state.quota));
}

/// A ledger's state in the old schema: a link to the table of its entries,
/// and a checksum.
#[derive(Debug)]
pub struct LedgerStateV1 {
    pub entries: ContentHash,
    pub checksum: u64,
}

/// An old ledger state as a plain value.
pub struct LedgerStateV1View {
    pub entries: Seq<u8>,
    pub checksum: u64,
}

/// A ledger's state in the new schema: the link is called `table`, the
/// checksum is gone, and the number of entries stands beside the link.
#[derive(Debug)]
pub struct LedgerStateV2 {
    pub entry_count: u64,
    pub table: ContentHash,
}

/// A new ledger state as a plain value.
pub struct LedgerStateV2View {
    pub entry_count: u64,
    pub table: Seq<u8>,
}

impl View for LedgerStateV1 {
    type V = LedgerStateV1View;

    open spec fn view(&self) -> LedgerStateV1View {
        LedgerStateV1View { entries: self.entries@, checksum: self.checksum }
    }
}

impl View for LedgerStateV2 {
    type V = LedgerStateV2View;

    open spec fn view(&self) -> LedgerStateV2View {
        LedgerStateV2View { entry_count: self.entry_count, table: self.table@ }
    }
}

/// An integer and a byte string behind its length, from bytes that hold just
/// these.
pub open spec fn spec_decode_word_and_field(bytes: Seq<u8>) -> Option<(u64, Seq<u8>)> {
    if bytes.len() >= 16 && spec_u64_from_le_bytes(bytes.subrange(8, 16)) == bytes.len() - 16 {
        Some((spec_u64_from_le_bytes(bytes.subrange(0, 8)), bytes.subrange(16, bytes.len() as int)))
    } else {
        None
    }
}

/// The canonical bytes of an old ledger state.
pub open spec fn spec_encode_ledger_v1(state: LedgerStateV1View) -> Seq<u8> {
    spec_u64_to_le_bytes(state.checksum) + spec_field(state.entries)
}

/// The old ledger state that bytes stand for, if they stand for one.
pub open spec fn spec_decode_ledger_v1(bytes: Seq<u8>) -> Option<LedgerStateV1View> {
    match spec_decode_word_and_field(bytes) {
        Some((checksum, entries)) => Some(LedgerStateV1View { entries, checksum }),
        None => None,
    }
}

/// The canonical bytes of a new ledger state.
pub open spec fn spec_encode_ledger_v2(state: LedgerStateV2View) -> Seq<u8> {
    spec_u64_to_le_bytes(state.entry_count) + spec_field(state.table)
}

/// The new ledger state that bytes stand for, if they stand for one.
pub open spec fn spec_decode_ledger_v2(bytes: Seq<u8>) -> Option<LedgerStateV2View> {
    match spec_decode_word_and_field(bytes) {
        Some((entry_count, table)) => Some(LedgerStateV2View { entry_count, table }),
        None => None,
    }
}

/// The rule for ledgers: the link is kept under its new name, the checksum is
/// dropped, and the number of entries is counted from the table that the link
/// leads to. Without the table, or with one that is no whole number of
/// entries, there is no new state.
pub open spec fn spec_migrate_ledger(
    old: LedgerStateV1View,
    table: Option<Seq<u8>>,
) -> Result<LedgerStateV2View, Failure> {
    match table {
        Some(block) => if block.len() % (ENTRY_SIZE as nat) == 0 {
            Ok(
                LedgerStateV2View {
                    entry_count: (block.len() / (ENTRY_SIZE as nat)) as u64,
                    table: old.entries,
                },
            )
        } else {
            Err((ErrorKind::ConversionFailure, Stage::Convert))
        },
        None => Err((ErrorKind::ConversionFailure, Stage::Convert)),
    }
}

/// An integer and a byte string behind its length, as bytes.
fn encode_word_and_field(word: u64, field: &[u8]) -> (bytes: Vec<u8>)
    ensures
        bytes@ == spec_u64_to_le_bytes(word) + spec_field(field@),
        spec_decode_word_and_field(bytes@) == Some((word, field@)),
{
    let mut out: Vec<u8> = Vec::new();
    push_u64(&mut out, word);
    push_field(&mut out, field);
    assert(out@ =~= spec_u64_to_le_bytes(word) + spec_field(field@));
    proof {
        lemma_word_and_field_round_trip(word, field@);
    }
    out
}

/// An integer and a byte string behind its length, from bytes that hold just
/// these.
fn decode_word_and_field(bytes: &[u8]) -> (parts: Option<(u64, Vec<u8>)>)
    ensures
        match parts {
            Some((word, field)) => spec_decode_word_and_field(bytes@) == Some((word, field@)),
            None => spec_decode_word_and_field(bytes@) is None,
        },
{
    if bytes.len() < 16 {
        return None;
    }
    match (read_u64(bytes, 0), read_u64(bytes, 8)) {
        (Some(word), Some(length)) => {
            if length == (bytes.len() - 16) as u64 {
                Some((word, slice_to_vec(slice_subrange(bytes, 16, bytes.len()))))
            } else {
                None
            }
        },
        _ => None,
    }
}

impl LedgerStateV1 {
    pub fn encode(&self) -> (bytes: Vec<u8>)
        ensures
            bytes@ == spec_encode_ledger_v1(self@),
            spec_decode_ledger_v1(bytes@) == Some(self@),
    {
        encode_word_and_field(self.checksum, self.entries.as_bytes())
    }

    pub fn decode(bytes: &[u8]) -> (state: Option<Self>)
        ensures
            match state {
                Some(s) => spec_decode_ledger_v1(bytes@) == Some(s@),
                None => spec_decode_ledger_v1(bytes@) is None,
            },
    {
        match decode_word_and_field(bytes) {
            Some((checksum, entries)) => Some(
                LedgerStateV1 { entries: ContentHash::from_bytes(entries), checksum },
            ),
            None => None,
        }
    }
}

impl LedgerStateV2 {
    pub fn encode(&self) -> (bytes: Vec<u8>)
        ensures
            bytes@ == spec_encode_ledger_v2(self@),
            spec_decode_ledger_v2(bytes@) == Some(self@),
    {
        encode_word_and_field(self.entry_count, self.table.as_bytes())
    }

    pub fn decode(bytes: &[u8]) -> (state: Option<Self>)
        ensures
            match state {
                Some(s) => spec_decode_ledger_v2(bytes@) == Some(s@),
                None => spec_decode_ledger_v2(bytes@) is None,
            },
    {
        match decode_word_and_field(bytes) {
            Some((entry_count, table)) => Some(
                LedgerStateV2 { entry_count, table: ContentHash::from_bytes(table) },
            ),
            None => None,
        }
    }
}

/// Converts a ledger's state to the new schema, given the table that its
/// link leads to, if the store has it.
pub fn migrate_ledger(old: &LedgerStateV1, table: Option<&[u8]>) -> (new: Result<
    LedgerStateV2,
    MigrationError,
>)
    ensures
        match new {
            Ok(state) => spec_migrate_ledger(
                old@,
                match table {
                    Some(block) => Some(block@),
                    None => None,
                },
            ) == Ok::<LedgerStateV2View, Failure>(state@),
            Err(e) => spec_migrate_ledger(
                old@,
                match table {
                    Some(block) => Some(block@),
                    None => None,
                },
            ) is Err && e@ == crate::error::run_failure(
                ErrorKind::ConversionFailure,
                Stage::Convert,
            ),
        },
{
    match table {
        Some(block) => {
            if block.len() % ENTRY_SIZE == 0 {
                Ok(
                    LedgerStateV2 {
                        entry_count: (block.len() / ENTRY_SIZE) as u64,
                        table: old.entries.clone(),
                    },
                )
            } else {
                Err(MigrationError::of_run(ErrorKind::ConversionFailure, Stage::Convert))
            }
        },
        None => Err(MigrationError::of_run(ErrorKind::ConversionFailure, Stage::Convert)),
    }
}

/// An integer and a byte string that were written behind one another are
/// read back as they were.
pub proof fn lemma_word_and_field_round_trip(word: u64, field: Seq<u8>)
    requires
        field.len() <= u64::MAX,
    ensures
        spec_decode_word_and_field(spec_u64_to_le_bytes(word) + spec_field(field)) == Some(
            (word, field),
        ),
{
    lemma_auto_spec_u64_to_from_le_bytes();
    let bytes = spec_u64_to_le_bytes(word) + spec_field(field);
    assert(bytes.subrange(0, 8) =~= spec_u64_to_le_bytes(word));
    assert(bytes.subrange(8, 16) =~= spec_u64_to_le_bytes(field.len() as u64));
    assert(bytes.subrange(16, bytes.len() as int) =~= field);
}

/// The bytes of an old ledger state are read back as that state.
pub proof fn lemma_ledger_v1_round_trip(state: LedgerStateV1View)
    requires
        state.entries.len() <= u64::MAX,
    ensures
        spec_decode_ledger_v1(spec_encode_ledger_v1(state)) == Some(state),
{
    lemma_word_and_field_round_trip(state.checksum, state.entries);
}

/// The bytes of a new ledger state are read back as that state.
pub proof fn lemma_ledger_v2_round_trip(state: LedgerStateV2View)
    requires
        state.table.len() <= u64::MAX,
    ensures
        spec_decode_ledger_v2(spec_encode_ledger_v2(state)) == Some(state),
{
    lemma_word_and_field_round_trip(state.entry_count, state.table);
}

} // verus!
