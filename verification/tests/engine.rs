use state_migration::bitswap::BitswapStoreRead;
use state_migration::cache::MigrationCache;
use state_migration::engine::{assemble, migrate_actor, migrate_tree, run, verify, worker_pool_size};
use state_migration::error::{ErrorKind, Stage};
use state_migration::hash::{ContentHash, DAG_CBOR, IPLD_RAW};
use state_migration::init::init_migrator;
use state_migration::migrator::{MigrationInput, MigratorHandle};
use state_migration::network::NetworkVersion;
use state_migration::registry::{Registry, UnknownPolicy, UpgradeSpec};
use state_migration::schema::{
    AccountStateV1, AccountStateV2, LedgerStateV1, LedgerStateV2, DEFAULT_QUOTA,
};
use state_migration::store::MemoryStore;
use state_migration::tree::{ActorRecord, StateTree};

fn code(tag: &str) -> ContentHash {
    ContentHash::of(IPLD_RAW, tag.as_bytes())
}

fn upgrade(policy: UnknownPolicy, expected_root: Option<ContentHash>) -> UpgradeSpec {
    let mut registry = Registry::new(NetworkVersion(18));
    registry.register(code("init v9"), init_migrator(code("init v10")));
    registry.register(code("account v9"), MigratorHandle::Account(code("account v10")));
    registry.register(code("ledger v9"), MigratorHandle::Ledger(code("ledger v10")));
    registry.register(code("multisig v9"), MigratorHandle::Nil(code("multisig v10")));
    registry.register(code("placeholder v9"), MigratorHandle::Retire);
    UpgradeSpec {
        target_version: NetworkVersion(18),
        unknown_policy: policy,
        expected_root,
        registry,
    }
}

fn put_account(store: &mut MemoryStore, owner: u64, nonce: u64) -> ContentHash {
    store.put(IPLD_RAW, &AccountStateV1 { owner, nonce }.encode())
}

fn put_ledger(store: &mut MemoryStore, entries: usize) -> ContentHash {
    let table = store.put(IPLD_RAW, &vec![7u8; entries * 8]);
    store.put(IPLD_RAW, &LedgerStateV1 { entries: table, checksum: 99 }.encode())
}

fn put_init(store: &mut MemoryStore, next_id: u64) -> ContentHash {
    let bytes = fvm_ipld_encoding::to_vec(&fil_actor_init_state::v9::State {
        address_map: cid::Cid::try_from(code("address map").as_bytes()).unwrap(),
        next_id,
        network_name: "testnet".to_string(),
    })
    .unwrap();
    store.put(DAG_CBOR, &bytes)
}

fn record(code_tag: &str, head: &ContentHash) -> ActorRecord {
    ActorRecord { code: code(code_tag), head: head.clone() }
}

fn addresses(tree: &StateTree) -> Vec<u64> {
    (0..tree.len()).map(|i| tree.entry(i).address).collect()
}

/// A tree with one actor of each kind of migrator, and the store with their states.
fn mixed() -> (MemoryStore, StateTree) {
    let mut source = MemoryStore::new();
    let mut tree = StateTree::new();
    let init = put_init(&mut source, 1000);
    tree.insert(1, record("init v9", &init));
    let account = put_account(&mut source, 100, 1);
    tree.insert(100, record("account v9", &account));
    let twin = put_account(&mut source, 100, 1);
    tree.insert(101, record("account v9", &twin));
    let ledger = put_ledger(&mut source, 5);
    tree.insert(200, record("ledger v9", &ledger));
    let multisig = source.put(DAG_CBOR, b"multisig state");
    tree.insert(300, record("multisig v9", &multisig));
    tree.insert(400, record("placeholder v9", &ContentHash::of(DAG_CBOR, b"nothing behind it")));
    (source, tree)
}

#[test]
fn a_new_field_gets_its_default_and_the_head_changes() {
    let mut source = MemoryStore::new();
    let old_head = put_account(&mut source, 42, 7);
    let mut old_tree = StateTree::new();
    old_tree.insert(1001, record("account v9", &old_head));
    let mut target = MemoryStore::new();
    let mut cache = MigrationCache::new();
    let spec = upgrade(UnknownPolicy::HardError, None);
    let new_tree = migrate_tree(&spec, &source, &mut target, &mut cache, &old_tree).unwrap();
    assert_eq!(addresses(&new_tree), vec![1001]);
    let new_record = new_tree.get(1001).unwrap();
    assert_eq!(new_record.code, code("account v10"));
    assert_ne!(new_record.head, old_head);
    let stored = target.get(&new_record.head).unwrap().unwrap();
    let new_state = AccountStateV2::decode(&stored).unwrap();
    assert_eq!(new_state, AccountStateV2 { owner: 42, nonce: 7, quota: DEFAULT_QUOTA });
    assert_eq!(new_record.head, ContentHash::of(IPLD_RAW, &new_state.encode()));
}

#[test]
fn equal_old_records_are_converted_once_and_share_their_new_head() {
    let mut source = MemoryStore::new();
    let head = put_account(&mut source, 5, 5);
    let mut old_tree = StateTree::new();
    old_tree.insert(10, record("account v9", &head));
    old_tree.insert(20, record("account v9", &head));
    let mut target = MemoryStore::new();
    let mut cache = MigrationCache::new();
    let spec = upgrade(UnknownPolicy::HardError, None);
    let new_tree = migrate_tree(&spec, &source, &mut target, &mut cache, &old_tree).unwrap();
    assert_eq!(new_tree.len(), 2);
    assert_eq!(new_tree.get(10).unwrap().head, new_tree.get(20).unwrap().head);
    assert_eq!(cache.len(), 1);
    assert_eq!(target.len(), 1);
}

#[test]
fn unknown_code_fails_the_run_under_the_hard_policy() {
    let (mut source, mut old_tree) = mixed();
    let stranger = source.put(DAG_CBOR, b"who knows");
    old_tree.insert(150, record("stranger", &stranger));
    let mut target = MemoryStore::new();
    let e = run(&source, &mut target, &old_tree, &upgrade(UnknownPolicy::HardError, None), true)
        .unwrap_err();
    assert_eq!(e.kind, ErrorKind::UnknownActorType);
    assert_eq!(e.stage, Stage::Resolve);
    assert_eq!(e.address, Some(150));
    assert_eq!(e.code, Some(code("stranger")));
}

#[test]
fn unknown_code_passes_through_under_the_soft_policy() {
    let (mut source, mut old_tree) = mixed();
    let stranger = source.put(DAG_CBOR, b"who knows");
    old_tree.insert(150, record("stranger", &stranger));
    let mut target = MemoryStore::new();
    let mut cache = MigrationCache::new();
    let spec = upgrade(UnknownPolicy::PassThrough, None);
    let new_tree = migrate_tree(&spec, &source, &mut target, &mut cache, &old_tree).unwrap();
    let kept = new_tree.get(150).unwrap();
    assert_eq!(kept.code, code("stranger"));
    assert_eq!(kept.head, stranger);
    assert_eq!(source.get(&kept.head), Ok(Some(b"who knows".to_vec())));
    assert!(run(&source, &mut target, &old_tree, &spec, true).is_ok());
}

#[test]
fn a_registry_for_another_version_knows_no_code() {
    let (source, old_tree) = mixed();
    let mut spec = upgrade(UnknownPolicy::HardError, None);
    spec.target_version = NetworkVersion(19);
    let mut target = MemoryStore::new();
    let e = run(&source, &mut target, &old_tree, &spec, true).unwrap_err();
    assert_eq!((e.kind, e.address), (ErrorKind::UnknownActorType, Some(1)));
}

#[test]
fn the_expected_root_is_checked() {
    let (source, old_tree) = mixed();
    let mut target = MemoryStore::new();
    let root = run(&source, &mut target, &old_tree, &upgrade(UnknownPolicy::HardError, None), true)
        .unwrap();
    let mut target = MemoryStore::new();
    let pinned = upgrade(UnknownPolicy::HardError, Some(root.clone()));
    assert_eq!(run(&source, &mut target, &old_tree, &pinned, true).unwrap(), root);
    let mut off_by_one = root.as_bytes().to_vec();
    let last = off_by_one.len() - 1;
    off_by_one[last] ^= 1;
    let wrong = upgrade(UnknownPolicy::HardError, Some(ContentHash::from_bytes(off_by_one)));
    let mut target = MemoryStore::new();
    let e = run(&source, &mut target, &old_tree, &wrong, true).unwrap_err();
    assert_eq!((e.kind, e.stage), (ErrorKind::VerificationMismatch, Stage::Verify));
    assert_eq!((e.address, e.code), (None, None));
}

#[test]
fn a_changed_record_changes_the_root() {
    let (source, old_tree) = mixed();
    let mut target = MemoryStore::new();
    let root = run(&source, &mut target, &old_tree, &upgrade(UnknownPolicy::HardError, None), true)
        .unwrap();
    let (mut source, mut old_tree) = mixed();
    let changed = put_account(&mut source, 100, 2);
    old_tree.insert(101, record("account v9", &changed));
    let pinned = upgrade(UnknownPolicy::HardError, Some(root));
    let mut target = MemoryStore::new();
    let e = run(&source, &mut target, &old_tree, &pinned, true).unwrap_err();
    assert_eq!(e.kind, ErrorKind::VerificationMismatch);
}

#[test]
fn verify_passes_without_an_expected_root_and_with_the_right_one() {
    let root = code("root");
    assert!(verify(&root, None).is_ok());
    assert!(verify(&root, Some(&code("root"))).is_ok());
    let e = verify(&root, Some(&code("other"))).unwrap_err();
    assert_eq!((e.kind, e.stage), (ErrorKind::VerificationMismatch, Stage::Verify));
}

#[test]
fn a_deleted_actor_is_absent_from_the_new_tree() {
    let (source, old_tree) = mixed();
    let mut target = MemoryStore::new();
    let mut cache = MigrationCache::new();
    let spec = upgrade(UnknownPolicy::HardError, None);
    let new_tree = migrate_tree(&spec, &source, &mut target, &mut cache, &old_tree).unwrap();
    assert_eq!(old_tree.len(), 6);
    assert_eq!(new_tree.len(), 5);
    assert!(old_tree.get(400).is_some());
    assert!(new_tree.get(400).is_none());
}

#[test]
fn the_new_tree_has_the_old_addresses_but_the_deleted_ones() {
    let (source, old_tree) = mixed();
    let mut target = MemoryStore::new();
    let mut cache = MigrationCache::new();
    let spec = upgrade(UnknownPolicy::HardError, None);
    let new_tree = migrate_tree(&spec, &source, &mut target, &mut cache, &old_tree).unwrap();
    assert_eq!(addresses(&old_tree), vec![1, 100, 101, 200, 300, 400]);
    assert_eq!(addresses(&new_tree), vec![1, 100, 101, 200, 300]);
    assert_eq!(new_tree.get(1).unwrap().code, code("init v10"));
    assert_eq!(new_tree.get(100).unwrap().code, code("account v10"));
    assert_eq!(new_tree.get(200).unwrap().code, code("ledger v10"));
    assert_eq!(new_tree.get(300).unwrap().code, code("multisig v10"));
    assert_eq!(new_tree.get(300).unwrap().head, old_tree.get(300).unwrap().head);
    for i in 0..new_tree.len() {
        let entry = new_tree.entry(i);
        let in_target = target.contains(&entry.record.head).unwrap();
        let kept = old_tree.get(entry.address).unwrap().head == entry.record.head;
        assert!(in_target || kept);
    }
}

#[test]
fn the_ledger_gets_its_count_from_its_table() {
    let (source, old_tree) = mixed();
    let mut target = MemoryStore::new();
    let mut cache = MigrationCache::new();
    let spec = upgrade(UnknownPolicy::HardError, None);
    let new_tree = migrate_tree(&spec, &source, &mut target, &mut cache, &old_tree).unwrap();
    let stored = target.get(&new_tree.get(200).unwrap().head).unwrap().unwrap();
    let ledger = LedgerStateV2::decode(&stored).unwrap();
    assert_eq!(ledger.entry_count, 5);
    assert_eq!(ledger.table, ContentHash::of(IPLD_RAW, &vec![7u8; 40]));
}

#[test]
fn a_ledger_whose_table_is_missing_fails_the_run() {
    let (mut source, mut old_tree) = mixed();
    let dangling = LedgerStateV1 { entries: code("no such table"), checksum: 0 };
    let head = source.put(IPLD_RAW, &dangling.encode());
    old_tree.insert(250, record("ledger v9", &head));
    let mut target = MemoryStore::new();
    let e = run(&source, &mut target, &old_tree, &upgrade(UnknownPolicy::HardError, None), true)
        .unwrap_err();
    assert_eq!((e.kind, e.stage), (ErrorKind::ConversionFailure, Stage::Convert));
    assert_eq!(e.address, Some(250));
    assert_eq!(e.code, Some(code("ledger v9")));
}

#[test]
fn a_malformed_record_fails_the_run_with_its_address() {
    let (mut source, mut old_tree) = mixed();
    let head = source.put(IPLD_RAW, b"far too short");
    old_tree.insert(50, record("account v9", &head));
    let mut target = MemoryStore::new();
    let e = run(&source, &mut target, &old_tree, &upgrade(UnknownPolicy::HardError, None), true)
        .unwrap_err();
    assert_eq!((e.kind, e.stage), (ErrorKind::MalformedRecord, Stage::Decode));
    assert_eq!(e.address, Some(50));
}

#[test]
fn the_failure_at_the_lowest_address_is_reported() {
    let (mut source, mut old_tree) = mixed();
    let head = source.put(IPLD_RAW, b"far too short");
    old_tree.insert(500, record("account v9", &head));
    old_tree.insert(450, record("stranger", &head));
    old_tree.insert(600, record("account v9", &code("missing state")));
    let mut target = MemoryStore::new();
    let e = run(&source, &mut target, &old_tree, &upgrade(UnknownPolicy::HardError, None), true)
        .unwrap_err();
    assert_eq!((e.kind, e.address), (ErrorKind::UnknownActorType, Some(450)));
    let e = run(&source, &mut target, &old_tree, &upgrade(UnknownPolicy::PassThrough, None), true)
        .unwrap_err();
    assert_eq!((e.kind, e.address), (ErrorKind::MalformedRecord, Some(500)));
}

#[test]
fn a_missing_old_state_is_a_failure_of_the_store() {
    let (source, mut old_tree) = mixed();
    old_tree.insert(600, record("account v9", &code("missing state")));
    let mut target = MemoryStore::new();
    let e = run(&source, &mut target, &old_tree, &upgrade(UnknownPolicy::HardError, None), true)
        .unwrap_err();
    assert_eq!((e.kind, e.stage, e.address), (ErrorKind::StoreIoFailure, Stage::Fetch, Some(600)));
}

#[test]
fn two_runs_on_the_same_input_give_the_same_root() {
    let (source, old_tree) = mixed();
    let spec = upgrade(UnknownPolicy::HardError, None);
    let mut first_target = MemoryStore::new();
    let first = run(&source, &mut first_target, &old_tree, &spec, true).unwrap();
    let mut second_target = MemoryStore::new();
    let second = run(&source, &mut second_target, &old_tree, &spec, true).unwrap();
    assert_eq!(first, second);
    let again = run(&source, &mut second_target, &old_tree, &spec, true).unwrap();
    assert_eq!(first, again);
    let (source, old_tree) = mixed();
    let mut third_target = MemoryStore::new();
    assert_eq!(run(&source, &mut third_target, &old_tree, &spec, true).unwrap(), first);
}

#[test]
fn the_root_is_the_hash_of_the_new_tree_and_the_tree_is_stored() {
    let (source, old_tree) = mixed();
    let spec = upgrade(UnknownPolicy::HardError, None);
    let mut target = MemoryStore::new();
    let root = run(&source, &mut target, &old_tree, &spec, true).unwrap();
    let mut spare = MemoryStore::new();
    let mut cache = MigrationCache::new();
    let new_tree = migrate_tree(&spec, &source, &mut spare, &mut cache, &old_tree).unwrap();
    assert_eq!(root, ContentHash::of(IPLD_RAW, &new_tree.encode()));
    assert_eq!(target.get(&root), Ok(Some(new_tree.encode())));
    assert_eq!(source.contains(&root), Ok(false));
}

#[test]
fn the_cache_changes_neither_the_root_nor_what_is_written() {
    let (source, old_tree) = mixed();
    let spec = upgrade(UnknownPolicy::HardError, None);
    let mut with_cache = MemoryStore::new();
    let cached = run(&source, &mut with_cache, &old_tree, &spec, true).unwrap();
    let mut without_cache = MemoryStore::new();
    let computed = run(&source, &mut without_cache, &old_tree, &spec, false).unwrap();
    assert_eq!(cached, computed);
    assert_eq!(with_cache.len(), without_cache.len());
    assert_eq!(with_cache.len(), 4);
    let mut spare = MemoryStore::new();
    let mut cache = MigrationCache::new();
    let new_tree = migrate_tree(&spec, &source, &mut spare, &mut cache, &old_tree).unwrap();
    for i in 0..new_tree.len() {
        let head = &new_tree.entry(i).record.head;
        assert_eq!(with_cache.get(head), without_cache.get(head));
    }
}

#[test]
fn a_hit_and_a_miss_give_the_same_output() {
    let mut source = MemoryStore::new();
    let head = put_account(&mut source, 8, 9);
    let handle = MigratorHandle::Account(code("account v10"));
    let input = MigrationInput { address: 5, old_head: head.clone(), old_code: code("account v9") };
    let mut target = MemoryStore::new();
    let mut cache = MigrationCache::new();
    let miss = handle.migrate_state(&source, &mut target, &mut cache, &input).unwrap().unwrap();
    assert_eq!(cache.len(), 1);
    let hit = handle.migrate_state(&source, &mut target, &mut cache, &input).unwrap().unwrap();
    assert_eq!((&miss.new_code, &miss.new_head), (&hit.new_code, &hit.new_head));
    assert_eq!(target.len(), 1);
    let mut off = MigrationCache::disabled();
    let mut other_target = MemoryStore::new();
    let anew = handle.migrate_state(&source, &mut other_target, &mut off, &input).unwrap().unwrap();
    assert_eq!((&miss.new_code, &miss.new_head), (&anew.new_code, &anew.new_head));
}

#[test]
fn the_order_of_the_outcomes_does_not_change_the_tree() {
    let (source, old_tree) = mixed();
    let spec = upgrade(UnknownPolicy::HardError, None);
    let mut target = MemoryStore::new();
    let mut cache = MigrationCache::new();
    let in_order = migrate_tree(&spec, &source, &mut target, &mut cache, &old_tree).unwrap();
    let mut outcomes = Vec::new();
    for i in (0..old_tree.len()).rev() {
        let entry = old_tree.entry(i);
        let outcome =
            migrate_actor(&spec, &source, &mut target, &mut cache, entry.address, &entry.record)
                .unwrap();
        outcomes.push((entry.address, outcome));
    }
    let reversed = assemble(outcomes);
    assert_eq!(reversed.encode(), in_order.encode());
    let mut outcomes = Vec::new();
    for k in 0..old_tree.len() {
        let entry = old_tree.entry((k * 5 + 2) % old_tree.len());
        let mut fresh = MigrationCache::disabled();
        let outcome =
            migrate_actor(&spec, &source, &mut target, &mut fresh, entry.address, &entry.record)
                .unwrap();
        outcomes.push((entry.address, outcome));
    }
    let shuffled = assemble(outcomes);
    assert_eq!(shuffled.encode(), in_order.encode());
    assert_eq!(
        ContentHash::of(IPLD_RAW, &shuffled.encode()),
        run(&source, &mut target, &old_tree, &spec, true).unwrap()
    );
}

#[test]
fn an_empty_tree_migrates_to_an_empty_tree() {
    let source = MemoryStore::new();
    let mut target = MemoryStore::new();
    let root = run(&source, &mut target, &StateTree::new(), &upgrade(UnknownPolicy::HardError, None), true)
        .unwrap();
    assert_eq!(root, ContentHash::of(IPLD_RAW, &[0u8; 8]));
    assert_eq!(target.len(), 1);
}

#[test]
fn the_pool_has_the_asked_size_or_the_machines_and_one_at_least() {
    assert_eq!(worker_pool_size(Some(4), 16), 4);
    assert_eq!(worker_pool_size(Some(32), 16), 32);
    assert_eq!(worker_pool_size(None, 16), 16);
    assert_eq!(worker_pool_size(Some(0), 16), 1);
    assert_eq!(worker_pool_size(None, 0), 1);
    assert_eq!(worker_pool_size(None, 1), 1);
}
