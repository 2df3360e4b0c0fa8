use cid::Cid;
use multihash_codetable::{Code, MultihashDigest};
use state_migration::bitswap::BitswapStoreRead;
use state_migration::cache::MigrationCache;
use state_migration::error::{ErrorKind, Stage};
use state_migration::hash::{ContentHash, DAG_CBOR, IPLD_RAW};
use state_migration::init::{
    checked_init_record, convert_decoded_init, convert_init, init_migrator, migrate_init_state,
    same_init_state, InitMigrator, InitStateV10, InitStateV9,
};
use state_migration::migrator::{MigrationInput, MigratorHandle, MigratorKind};
use state_migration::store::MemoryStore;

fn cid_of(data: &[u8]) -> Cid {
    Cid::new_v1(0x71, Code::Blake2b256.digest(data))
}

fn old_state_bytes(next_id: u64, name: &str) -> Vec<u8> {
    fvm_ipld_encoding::to_vec(&fil_actor_init_state::v9::State {
        address_map: cid_of(b"address map"),
        next_id,
        network_name: name.to_string(),
    })
    .unwrap()
}

fn new_state_bytes(next_id: u64, name: &str) -> Vec<u8> {
    fvm_ipld_encoding::to_vec(&fil_actor_init_state::v10::State {
        address_map: cid_of(b"address map"),
        next_id,
        network_name: name.to_string(),
    })
    .unwrap()
}

fn input(address: u64, head: &ContentHash) -> MigrationInput {
    MigrationInput {
        address,
        old_head: head.clone(),
        old_code: ContentHash::of(IPLD_RAW, b"init code v9"),
    }
}

#[test]
fn the_init_state_keeps_its_three_fields() {
    let old = InitStateV9 {
        address_map: ContentHash::from_bytes(cid_of(b"address map").to_bytes()),
        next_id: 1234,
        network_name: "calibrationnet".to_string(),
    };
    let new = migrate_init_state(old).unwrap();
    assert_eq!(new.address_map.as_bytes(), cid_of(b"address map").to_bytes().as_slice());
    assert_eq!(new.next_id, 1234);
    assert_eq!(new.network_name, "calibrationnet");
}

#[test]
fn the_init_record_is_decoded_converted_and_encoded_as_cbor() {
    let old = old_state_bytes(1000, "mainnet");
    let new = convert_init(&old).unwrap();
    assert_eq!(new, new_state_bytes(1000, "mainnet"));
    let decoded: fil_actor_init_state::v10::State = fvm_ipld_encoding::from_slice(&new).unwrap();
    assert_eq!(decoded.address_map, cid_of(b"address map"));
    assert_eq!(decoded.next_id, 1000);
    assert_eq!(decoded.network_name, "mainnet");
    assert_ne!(convert_init(&old_state_bytes(1001, "mainnet")).unwrap(), new);
}

#[test]
fn bytes_that_are_no_init_state_are_malformed() {
    for bytes in [&b""[..], &b"not cbor"[..], &[0x83, 0x01, 0x02][..]] {
        let e = convert_init(bytes).unwrap_err();
        assert_eq!((e.kind, e.stage), (ErrorKind::MalformedRecord, Stage::Decode));
        assert_eq!(e.address, None);
    }
    let e = convert_decoded_init(None).unwrap_err();
    assert_eq!((e.kind, e.stage), (ErrorKind::MalformedRecord, Stage::Decode));
}

#[test]
fn an_init_state_whose_link_is_no_identifier_cannot_be_encoded() {
    let broken = InitStateV9 {
        address_map: ContentHash::from_bytes(vec![0xff, 0xff]),
        next_id: 1,
        network_name: "n".to_string(),
    };
    let e = convert_decoded_init(Some(broken)).unwrap_err();
    assert_eq!((e.kind, e.stage), (ErrorKind::ConversionFailure, Stage::Encode));
}

#[test]
fn the_init_migrator_reads_converts_and_writes() {
    let mut source = MemoryStore::new();
    let mut target = MemoryStore::new();
    let mut cache = MigrationCache::new();
    let head = source.put(DAG_CBOR, &old_state_bytes(77, "butterflynet"));
    let new_code = ContentHash::of(IPLD_RAW, b"init code v10");
    let migrator = InitMigrator(new_code.clone());
    let output = migrator
        .migrate_state(&source, &mut target, &mut cache, &input(1, &head))
        .unwrap()
        .unwrap();
    assert_eq!(output.new_code, new_code);
    let expected = new_state_bytes(77, "butterflynet");
    assert_eq!(output.new_head.as_bytes(), cid_of(&expected).to_bytes().as_slice());
    assert_eq!(target.get(&output.new_head), Ok(Some(expected)));
    assert_eq!(target.len(), 1);
    assert_eq!(cache.len(), 1);
    assert_eq!(source.len(), 1);
}

#[test]
fn the_init_migrator_handle_is_of_the_init_kind() {
    let new_code = ContentHash::of(IPLD_RAW, b"init code v10");
    let handle = init_migrator(new_code.clone());
    assert_eq!(handle.kind(), MigratorKind::Init);
    assert_eq!(handle.migration_id(), 2);
    match handle {
        MigratorHandle::Init(migrator) => assert_eq!(migrator.0, new_code),
        _ => panic!("the handle wraps the init migrator"),
    }
}

#[test]
fn the_init_migrator_refuses_a_head_that_names_no_cbor() {
    let mut source = MemoryStore::new();
    let mut target = MemoryStore::new();
    let mut cache = MigrationCache::new();
    let head = source.put(IPLD_RAW, &old_state_bytes(77, "n"));
    let migrator = InitMigrator(ContentHash::of(IPLD_RAW, b"init code v10"));
    let e = migrator.migrate_state(&source, &mut target, &mut cache, &input(9, &head)).unwrap_err();
    assert_eq!((e.kind, e.stage), (ErrorKind::MalformedRecord, Stage::Fetch));
    assert_eq!(e.address, Some(9));
    assert_eq!(e.code, Some(ContentHash::of(IPLD_RAW, b"init code v9")));
    assert_eq!(target.len(), 0);
}

#[test]
fn the_init_migrator_fails_where_the_old_state_is_missing_or_malformed() {
    let mut source = MemoryStore::new();
    let mut target = MemoryStore::new();
    let mut cache = MigrationCache::new();
    let migrator = InitMigrator(ContentHash::of(IPLD_RAW, b"init code v10"));
    let missing = ContentHash::of(DAG_CBOR, b"never stored");
    let e = migrator
        .migrate_state(&source, &mut target, &mut cache, &input(3, &missing))
        .unwrap_err();
    assert_eq!((e.kind, e.stage), (ErrorKind::StoreIoFailure, Stage::Fetch));
    assert_eq!(e.address, Some(3));
    let garbage = source.put(DAG_CBOR, b"garbage");
    let e = migrator
        .migrate_state(&source, &mut target, &mut cache, &input(4, &garbage))
        .unwrap_err();
    assert_eq!((e.kind, e.stage), (ErrorKind::MalformedRecord, Stage::Decode));
    assert_eq!(e.address, Some(4));
    assert_eq!(cache.len(), 0);
    assert_eq!(target.len(), 0);
}

fn new_state(link: &[u8], next_id: u64, name: &str) -> InitStateV10 {
    InitStateV10 {
        address_map: ContentHash::from_bytes(link.to_vec()),
        next_id,
        network_name: name.to_string(),
    }
}

#[test]
fn two_init_states_are_the_same_where_all_three_fields_are() {
    let state = new_state(b"link", 7, "net");
    assert!(same_init_state(&state, &new_state(b"link", 7, "net")));
    assert!(!same_init_state(&state, &new_state(b"lynk", 7, "net")));
    assert!(!same_init_state(&state, &new_state(b"link", 8, "net")));
    assert!(!same_init_state(&state, &new_state(b"link", 7, "nets")));
}

#[test]
fn the_new_record_counts_only_where_it_reads_back_as_the_new_state() {
    let state = new_state(b"link", 7, "net");
    let bytes = b"encoded".to_vec();
    let read_back = Some(new_state(b"link", 7, "net"));
    assert_eq!(checked_init_record(&state, bytes.clone(), read_back).unwrap(), bytes);
    for back in [None, Some(new_state(b"link", 8, "net")), Some(new_state(b"", 7, "net"))] {
        let e = checked_init_record(&state, bytes.clone(), back).unwrap_err();
        assert_eq!((e.kind, e.stage), (ErrorKind::ConversionFailure, Stage::Encode));
    }
}

#[test]
fn an_init_state_whose_link_does_not_read_back_has_no_new_record() {
    let mut link = cid_of(b"address map").to_bytes();
    link.push(0);
    let padded = InitStateV9 {
        address_map: ContentHash::from_bytes(link),
        next_id: 1,
        network_name: "n".to_string(),
    };
    let e = convert_decoded_init(Some(padded)).unwrap_err();
    assert_eq!((e.kind, e.stage), (ErrorKind::ConversionFailure, Stage::Encode));
    let exact = InitStateV9 {
        address_map: ContentHash::from_bytes(cid_of(b"address map").to_bytes()),
        next_id: 1,
        network_name: "n".to_string(),
    };
    assert_eq!(convert_decoded_init(Some(exact)).unwrap(), new_state_bytes(1, "n"));
}

#[test]
fn the_stored_init_record_decodes_to_the_migrated_state_and_encodes_to_itself() {
    let mut source = MemoryStore::new();
    let mut target = MemoryStore::new();
    let mut cache = MigrationCache::new();
    let head = source.put(DAG_CBOR, &old_state_bytes(5, "devnet"));
    let migrator = InitMigrator(ContentHash::of(IPLD_RAW, b"init code v10"));
    let output = migrator
        .migrate_state(&source, &mut target, &mut cache, &input(1, &head))
        .unwrap()
        .unwrap();
    let stored = target.fetch(&output.new_head).unwrap();
    let state: fil_actor_init_state::v10::State = fvm_ipld_encoding::from_slice(&stored).unwrap();
    assert_eq!(state.address_map, cid_of(b"address map"));
    assert_eq!((state.next_id, state.network_name.as_str()), (5, "devnet"));
    let again = fvm_ipld_encoding::to_vec(&state).unwrap();
    assert_eq!(again, stored);
    assert_eq!(ContentHash::of(DAG_CBOR, &again), output.new_head);
    assert_eq!(cache.get(&head, 2), Some(output.new_head.clone()));
    let second = migrator
        .migrate_state(&source, &mut target, &mut cache, &input(2, &head))
        .unwrap()
        .unwrap();
    assert_eq!(second.new_head, output.new_head);
    assert_eq!((cache.len(), target.len()), (1, 1));
}
