use state_migration::bitswap::{BitswapStoreRead, BitswapStoreReadWrite, Block, StoreError};
use state_migration::engine::run;
use state_migration::error::{ErrorKind, Stage};
use state_migration::hash::{ContentHash, DAG_CBOR, IPLD_RAW};
use state_migration::migrator::{links, MigratorHandle, MigratorKind};
use state_migration::network::NetworkVersion;
use state_migration::node::{
    load_tree, migrate, migrate_root, persist, settle, snapshot, tree_of_block,
};
use state_migration::registry::{Registry, UnknownPolicy, UpgradeSpec};
use state_migration::schema::{AccountStateV1, LedgerStateV1};
use state_migration::store::MemoryStore;
use state_migration::tree::{ActorRecord, StateTree};
use std::collections::HashMap;
use std::sync::{Arc, Mutex};

/// A block store as a node has it: shared, and written through a shared reference.
struct NodeStore {
    blocks: Mutex<HashMap<Vec<u8>, Vec<u8>>>,
    reads: Mutex<Vec<Vec<u8>>>,
    fail_reads_of: Option<Vec<u8>>,
    fail_writes: bool,
}

impl NodeStore {
    fn new() -> Self {
        NodeStore {
            blocks: Mutex::new(HashMap::new()),
            reads: Mutex::new(Vec::new()),
            fail_reads_of: None,
            fail_writes: false,
        }
    }

    fn put(&self, codec: u64, data: &[u8]) -> ContentHash {
        let hash = ContentHash::of(codec, data);
        self.blocks.lock().unwrap().insert(hash.as_bytes().to_vec(), data.to_vec());
        hash
    }

    fn len(&self) -> usize {
        self.blocks.lock().unwrap().len()
    }
}

impl BitswapStoreRead for NodeStore {
    fn contains(&self, cid: &ContentHash) -> Result<bool, StoreError> {
        Ok(self.blocks.lock().unwrap().contains_key(cid.as_bytes()))
    }

    fn get(&self, cid: &ContentHash) -> Result<Option<Vec<u8>>, StoreError> {
        if self.fail_reads_of.as_deref() == Some(cid.as_bytes()) {
            return Err(StoreError);
        }
        self.reads.lock().unwrap().push(cid.as_bytes().to_vec());
        Ok(self.blocks.lock().unwrap().get(cid.as_bytes()).cloned())
    }
}

impl BitswapStoreReadWrite for NodeStore {
    fn insert(&self, block: &Block) -> Result<(), StoreError> {
        if self.fail_writes {
            return Err(StoreError);
        }
        self.blocks.lock().unwrap().insert(block.cid().as_bytes().to_vec(), block.data().to_vec());
        Ok(())
    }
}

fn code(tag: &str) -> ContentHash {
    ContentHash::of(IPLD_RAW, tag.as_bytes())
}

fn upgrade() -> UpgradeSpec {
    let mut registry = Registry::new(NetworkVersion(18));
    registry.register(code("account v9"), MigratorHandle::Account(code("account v10")));
    registry.register(code("ledger v9"), MigratorHandle::Ledger(code("ledger v10")));
    registry.register(code("multisig v9"), MigratorHandle::Nil(code("multisig v10")));
    registry.register(code("placeholder v9"), MigratorHandle::Retire);
    UpgradeSpec {
        target_version: NetworkVersion(18),
        unknown_policy: UnknownPolicy::PassThrough,
        expected_root: None,
        registry,
    }
}

/// A node's store with the states of four actors and a block that no actor needs.
fn node() -> (NodeStore, StateTree, ContentHash, ContentHash, ContentHash) {
    let store = NodeStore::new();
    let mut tree = StateTree::new();
    let account = store.put(IPLD_RAW, &AccountStateV1 { owner: 1, nonce: 2 }.encode());
    tree.insert(10, ActorRecord { code: code("account v9"), head: account.clone() });
    tree.insert(11, ActorRecord { code: code("account v9"), head: account.clone() });
    let table = store.put(IPLD_RAW, &[0u8; 16]);
    let ledger = store.put(IPLD_RAW, &LedgerStateV1 { entries: table.clone(), checksum: 1 }.encode());
    tree.insert(20, ActorRecord { code: code("ledger v9"), head: ledger.clone() });
    let multisig = store.put(DAG_CBOR, b"multisig state");
    tree.insert(30, ActorRecord { code: code("multisig v9"), head: multisig });
    let stranger = store.put(DAG_CBOR, b"state of unknown code");
    tree.insert(40, ActorRecord { code: code("stranger"), head: stranger });
    store.put(DAG_CBOR, b"not needed");
    (store, tree, account, ledger, table)
}

#[test]
fn the_links_of_a_ledger_are_its_table() {
    let record = LedgerStateV1 { entries: code("table"), checksum: 3 }.encode();
    assert_eq!(links(MigratorKind::Ledger, &record), vec![code("table")]);
    assert_eq!(links(MigratorKind::Ledger, b"short"), vec![]);
    assert_eq!(links(MigratorKind::Account, &record), vec![]);
    assert_eq!(links(MigratorKind::Init, &record), vec![]);
    assert_eq!(links(MigratorKind::Nil, &record), vec![]);
}

#[test]
fn the_snapshot_holds_the_records_to_convert_and_what_they_link_to() {
    let (store, tree, account, ledger, table) = node();
    let read = snapshot(&store, &tree, &upgrade()).unwrap();
    assert_eq!(read.len(), 3);
    assert_eq!(read.fetch(&account), Some(AccountStateV1 { owner: 1, nonce: 2 }.encode()));
    assert_eq!(read.fetch(&table), Some(vec![0u8; 16]));
    assert!(read.has(&ledger));
    assert!(!read.has(&ContentHash::of(DAG_CBOR, b"multisig state")));
    assert!(!read.has(&ContentHash::of(DAG_CBOR, b"state of unknown code")));
    assert!(!read.has(&ContentHash::of(DAG_CBOR, b"not needed")));
    let reads = store.reads.lock().unwrap().clone();
    assert_eq!(reads, vec![account.as_bytes().to_vec(), ledger.as_bytes().to_vec(), table.as_bytes().to_vec()]);
}

#[test]
fn the_snapshot_leaves_out_what_the_store_does_not_have() {
    let (store, mut tree, _, _, _) = node();
    tree.insert(50, ActorRecord { code: code("account v9"), head: code("missing") });
    let read = snapshot(&store, &tree, &upgrade()).unwrap();
    assert_eq!(read.len(), 3);
    assert!(!read.has(&code("missing")));
}

#[test]
fn a_store_that_fails_to_read_ends_the_snapshot() {
    let (mut store, tree, _, ledger, table) = node();
    store.fail_reads_of = Some(ledger.as_bytes().to_vec());
    let e = snapshot(&store, &tree, &upgrade()).unwrap_err();
    assert_eq!((e.kind, e.stage, e.address), (ErrorKind::StoreIoFailure, Stage::Fetch, Some(20)));
    assert_eq!(e.code, Some(code("ledger v9")));
    store.fail_reads_of = Some(table.as_bytes().to_vec());
    let e = snapshot(&store, &tree, &upgrade()).unwrap_err();
    assert_eq!((e.kind, e.stage, e.address), (ErrorKind::StoreIoFailure, Stage::Fetch, Some(20)));
    let e = migrate(&store, &tree, &upgrade(), true).unwrap_err();
    assert_eq!((e.kind, e.stage, e.address), (ErrorKind::StoreIoFailure, Stage::Fetch, Some(20)));
}

#[test]
fn persist_writes_every_block_under_its_hash() {
    let mut blocks = MemoryStore::new();
    let a = blocks.put(IPLD_RAW, b"a");
    let b = blocks.put(DAG_CBOR, b"b");
    blocks.insert(ContentHash::from_bytes(vec![5, 5]), b"keyed".to_vec());
    let store = NodeStore::new();
    assert!(persist(&store, &blocks).is_ok());
    assert_eq!(store.len(), 3);
    assert_eq!(store.get(&a), Ok(Some(b"a".to_vec())));
    assert_eq!(store.get(&b), Ok(Some(b"b".to_vec())));
    assert_eq!(store.get(&ContentHash::from_bytes(vec![5, 5])), Ok(Some(b"keyed".to_vec())));
    assert!(persist(&store, &MemoryStore::new()).is_ok());
}

#[test]
fn a_store_that_fails_to_write_fails_the_migration() {
    let (mut store, tree, _, _, _) = node();
    store.fail_writes = true;
    let before = store.len();
    let e = migrate(&store, &tree, &upgrade(), true).unwrap_err();
    assert_eq!((e.kind, e.stage, e.address), (ErrorKind::StoreIoFailure, Stage::Store, None));
    assert_eq!(store.len(), before);
    let mut blocks = MemoryStore::new();
    blocks.put(IPLD_RAW, b"a");
    let e = persist(&store, &blocks).unwrap_err();
    assert_eq!((e.kind, e.stage), (ErrorKind::StoreIoFailure, Stage::Store));
}

#[test]
fn a_migration_against_a_node_gives_the_root_of_the_run_on_its_snapshot() {
    let (store, tree, _, _, _) = node();
    let spec = upgrade();
    let before = store.len();
    let root = migrate(&store, &tree, &spec, true).unwrap();
    let read = snapshot(&store, &tree, &spec).unwrap();
    let mut written = MemoryStore::new();
    assert_eq!(run(&read, &mut written, &tree, &spec, true).unwrap(), root);
    assert_eq!(store.contains(&root), Ok(true));
    for i in 0..written.len() {
        let block = written.block(i);
        assert_eq!(store.get(&block.hash), Ok(Some(block.data.clone())));
    }
    assert_eq!(written.len(), 3);
    assert_eq!(store.len(), before + 3);
    assert_eq!(migrate(&store, &tree, &spec, false).unwrap(), root);
}

#[test]
fn a_shared_node_store_serves_a_migration() {
    let (store, tree, _, _, _) = node();
    let shared = Arc::new(store);
    let root = migrate(&shared, &tree, &upgrade(), true).unwrap();
    assert_eq!(shared.contains(&root), Ok(true));
    assert_eq!(shared.get(&code("nothing")), Ok(None));
    let handle = Arc::clone(&shared);
    handle.insert(&Block::new(IPLD_RAW, b"through the handle".to_vec())).unwrap();
    assert_eq!(shared.contains(&code("through the handle")), Ok(true));
}

#[test]
fn a_failure_of_the_run_is_the_failure_of_the_migration() {
    let (store, mut tree, _, _, _) = node();
    let short = store.put(IPLD_RAW, b"short");
    tree.insert(15, ActorRecord { code: code("account v9"), head: short });
    let e = migrate(&store, &tree, &upgrade(), true).unwrap_err();
    assert_eq!((e.kind, e.stage, e.address), (ErrorKind::MalformedRecord, Stage::Decode, Some(15)));
    let mut hard = upgrade();
    hard.unknown_policy = UnknownPolicy::HardError;
    let e = migrate(&store, &tree, &hard, true).unwrap_err();
    assert_eq!((e.kind, e.address), (ErrorKind::MalformedRecord, Some(15)));
    let (store, tree, _, _, _) = node();
    let e = migrate(&store, &tree, &hard, true).unwrap_err();
    assert_eq!((e.kind, e.stage, e.address), (ErrorKind::UnknownActorType, Stage::Resolve, Some(40)));
}

#[test]
fn the_old_tree_is_read_from_the_store_by_its_root() {
    let (store, tree, _, _, _) = node();
    let old_root = store.put(IPLD_RAW, &tree.encode());
    let loaded = load_tree(&store, &old_root).unwrap();
    assert_eq!(loaded.encode(), tree.encode());
    let root = migrate_root(&store, &old_root, &upgrade(), true).unwrap();
    assert_eq!(root, migrate(&store, &tree, &upgrade(), true).unwrap());
    let new_tree = load_tree(&store, &root).unwrap();
    assert_eq!(new_tree.len(), 5);
    assert_eq!(new_tree.get(10).unwrap().code, code("account v10"));
    assert_eq!(new_tree.get(40).unwrap().code, code("stranger"));
}

#[test]
fn a_root_without_a_tree_behind_it_fails() {
    let (mut store, _, account, _, _) = node();
    let e = load_tree(&store, &code("no such root")).unwrap_err();
    assert_eq!((e.kind, e.stage, e.address), (ErrorKind::StoreIoFailure, Stage::Fetch, None));
    let e = migrate_root(&store, &account, &upgrade(), true).unwrap_err();
    assert_eq!((e.kind, e.stage), (ErrorKind::MalformedRecord, Stage::Decode));
    store.fail_reads_of = Some(account.as_bytes().to_vec());
    let e = load_tree(&store, &account).unwrap_err();
    assert_eq!((e.kind, e.stage), (ErrorKind::StoreIoFailure, Stage::Fetch));
    let e = tree_of_block(Err(StoreError)).unwrap_err();
    assert_eq!((e.kind, e.stage), (ErrorKind::StoreIoFailure, Stage::Fetch));
    let e = tree_of_block(Ok(None)).unwrap_err();
    assert_eq!((e.kind, e.stage), (ErrorKind::StoreIoFailure, Stage::Fetch));
    let e = tree_of_block(Ok(Some(vec![1, 2, 3]))).unwrap_err();
    assert_eq!((e.kind, e.stage), (ErrorKind::MalformedRecord, Stage::Decode));
    assert_eq!(tree_of_block(Ok(Some(vec![0; 8]))).unwrap().len(), 0);
}

#[test]
fn settle_asks_the_store_once_for_what_the_snapshot_lacks() {
    let store = NodeStore::new();
    let held = store.put(IPLD_RAW, b"held");
    let mut read = MemoryStore::new();
    assert_eq!(settle(&store, &mut read, &held), Ok(()));
    assert_eq!(read.fetch(&held), Some(b"held".to_vec()));
    assert_eq!(settle(&store, &mut read, &held), Ok(()));
    assert_eq!(read.len(), 1);
    assert_eq!(store.reads.lock().unwrap().len(), 1);
    assert_eq!(settle(&store, &mut read, &code("absent")), Ok(()));
    assert_eq!(read.len(), 1);
    assert!(!read.has(&code("absent")));
    assert_eq!(store.reads.lock().unwrap().len(), 2);
}

#[test]
fn settle_passes_on_the_failure_of_the_store() {
    let mut store = NodeStore::new();
    let held = store.put(IPLD_RAW, b"held");
    store.fail_reads_of = Some(held.as_bytes().to_vec());
    let mut read = MemoryStore::new();
    assert_eq!(settle(&store, &mut read, &held), Err(StoreError));
    assert_eq!(read.len(), 0);
    read.insert(held.clone(), b"known".to_vec());
    assert_eq!(settle(&store, &mut read, &held), Ok(()));
    assert_eq!(read.fetch(&held), Some(b"known".to_vec()));
}

#[test]
fn the_links_of_a_record_are_read_though_the_record_was_read_for_another_actor() {
    let store = NodeStore::new();
    let mut tree = StateTree::new();
    let table = store.put(IPLD_RAW, &[0u8; 24]);
    let shared = LedgerStateV1 { entries: table.clone(), checksum: 1 }.encode();
    let head = store.put(IPLD_RAW, &shared);
    tree.insert(10, ActorRecord { code: code("account v9"), head: head.clone() });
    tree.insert(20, ActorRecord { code: code("ledger v9"), head: head.clone() });
    let read = snapshot(&store, &tree, &upgrade()).unwrap();
    assert_eq!(read.len(), 2);
    assert_eq!(read.fetch(&head), Some(shared));
    assert_eq!(read.fetch(&table), Some(vec![0u8; 24]));
    let reads = store.reads.lock().unwrap().clone();
    assert_eq!(reads, vec![head.as_bytes().to_vec(), table.as_bytes().to_vec()]);
}

#[test]
fn a_tree_without_records_to_convert_needs_no_reading() {
    let (store, _, _, _, _) = node();
    let mut tree = StateTree::new();
    tree.insert(1, ActorRecord { code: code("multisig v9"), head: code("a") });
    tree.insert(2, ActorRecord { code: code("placeholder v9"), head: code("b") });
    tree.insert(3, ActorRecord { code: code("stranger"), head: code("c") });
    let read = snapshot(&store, &tree, &upgrade()).unwrap();
    assert_eq!(read.len(), 0);
    assert!(store.reads.lock().unwrap().is_empty());
    assert_eq!(snapshot(&store, &StateTree::new(), &upgrade()).unwrap().len(), 0);
}

#[test]
fn persist_stops_at_the_block_that_the_store_refuses() {
    struct Picky(Mutex<Vec<Vec<u8>>>);
    impl BitswapStoreRead for Picky {
        fn contains(&self, _cid: &ContentHash) -> Result<bool, StoreError> {
            Ok(false)
        }
        fn get(&self, _cid: &ContentHash) -> Result<Option<Vec<u8>>, StoreError> {
            Ok(None)
        }
    }
    impl BitswapStoreReadWrite for Picky {
        fn insert(&self, block: &Block) -> Result<(), StoreError> {
            if block.data() == b"refused" {
                return Err(StoreError);
            }
            self.0.lock().unwrap().push(block.data().to_vec());
            Ok(())
        }
    }
    let mut blocks = MemoryStore::new();
    blocks.put(IPLD_RAW, b"first");
    blocks.put(IPLD_RAW, b"second");
    blocks.put(IPLD_RAW, b"refused");
    blocks.put(IPLD_RAW, b"never handed over");
    let store = Picky(Mutex::new(Vec::new()));
    let e = persist(&store, &blocks).unwrap_err();
    assert_eq!((e.kind, e.stage), (ErrorKind::StoreIoFailure, Stage::Store));
    assert_eq!(store.0.lock().unwrap().clone(), vec![b"first".to_vec(), b"second".to_vec()]);
}
