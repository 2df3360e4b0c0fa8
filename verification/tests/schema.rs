use state_migration::error::{ErrorKind, Stage};
use state_migration::hash::ContentHash;
use state_migration::schema::{
    migrate_account, migrate_ledger, AccountStateV1, AccountStateV2, LedgerStateV1,
    LedgerStateV2, DEFAULT_QUOTA, ENTRY_SIZE,
};

fn word(x: u64) -> Vec<u8> {
    x.to_le_bytes().to_vec()
}

#[test]
fn an_old_account_is_sixteen_bytes() {
    let state = AccountStateV1 { owner: 0x0102030405060708, nonce: 9 };
    let bytes = state.encode();
    assert_eq!(bytes, [word(0x0102030405060708), word(9)].concat());
    assert_eq!(bytes[0], 0x08);
    assert_eq!(AccountStateV1::decode(&bytes), Some(state));
    assert_eq!(AccountStateV1::decode(&bytes[..15]), None);
    assert_eq!(AccountStateV1::decode(&[bytes.clone(), vec![0]].concat()), None);
    assert_eq!(AccountStateV1::decode(&[]), None);
}

#[test]
fn a_new_account_is_twenty_four_bytes() {
    let state = AccountStateV2 { owner: 1, nonce: u64::MAX, quota: 77 };
    let bytes = state.encode();
    assert_eq!(bytes, [word(1), word(u64::MAX), word(77)].concat());
    assert_eq!(AccountStateV2::decode(&bytes), Some(state));
    assert_eq!(AccountStateV2::decode(&bytes[..16]), None);
}

#[test]
fn an_account_gets_the_default_quota() {
    assert_eq!(DEFAULT_QUOTA, 1 << 20);
    let new = migrate_account(&AccountStateV1 { owner: 42, nonce: 7 }).unwrap();
    assert_eq!(new, AccountStateV2 { owner: 42, nonce: 7, quota: 1048576 });
}

#[test]
fn a_ledger_is_a_word_and_a_link_behind_its_length() {
    let old = LedgerStateV1 { entries: ContentHash::from_bytes(b"link".to_vec()), checksum: 5 };
    let bytes = old.encode();
    assert_eq!(bytes, [word(5), word(4), b"link".to_vec()].concat());
    let back = LedgerStateV1::decode(&bytes).unwrap();
    assert_eq!(back.checksum, 5);
    assert_eq!(back.entries.as_bytes(), b"link");
    let new = LedgerStateV2 { entry_count: 3, table: ContentHash::from_bytes(vec![]) };
    assert_eq!(new.encode(), [word(3), word(0)].concat());
    let back = LedgerStateV2::decode(&new.encode()).unwrap();
    assert_eq!(back.entry_count, 3);
    assert_eq!(back.table.as_bytes(), b"");
}

#[test]
fn a_ledger_with_a_wrong_length_does_not_decode() {
    assert!(LedgerStateV1::decode(&[0u8; 15]).is_none());
    assert!(LedgerStateV1::decode(&[word(5), word(4), b"lin".to_vec()].concat()).is_none());
    assert!(LedgerStateV1::decode(&[word(5), word(4), b"link!".to_vec()].concat()).is_none());
    assert!(LedgerStateV2::decode(&[word(5), word(1)].concat()).is_none());
    assert!(LedgerStateV1::decode(&[word(5), word(0)].concat()).is_some());
}

#[test]
fn a_ledger_counts_its_entries_and_keeps_its_link() {
    assert_eq!(ENTRY_SIZE, 8);
    let old = LedgerStateV1 { entries: ContentHash::from_bytes(b"link".to_vec()), checksum: 5 };
    let new = migrate_ledger(&old, Some(&[0u8; 24])).unwrap();
    assert_eq!(new.entry_count, 3);
    assert_eq!(new.table.as_bytes(), b"link");
    let empty = migrate_ledger(&old, Some(&[])).unwrap();
    assert_eq!(empty.entry_count, 0);
}

#[test]
fn a_ledger_without_its_table_cannot_be_converted() {
    let old = LedgerStateV1 { entries: ContentHash::from_bytes(b"link".to_vec()), checksum: 5 };
    let missing = migrate_ledger(&old, None).unwrap_err();
    assert_eq!((missing.kind, missing.stage), (ErrorKind::ConversionFailure, Stage::Convert));
    assert_eq!(missing.address, None);
    let ragged = migrate_ledger(&old, Some(&[0u8; 23])).unwrap_err();
    assert_eq!((ragged.kind, ragged.stage), (ErrorKind::ConversionFailure, Stage::Convert));
}
