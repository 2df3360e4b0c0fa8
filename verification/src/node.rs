//! The run of an upgrade against a node's block store: the old records are
//! read from the store into a snapshot, the run works on the snapshot, and
//! what it wrote goes to the store.

use crate::bitswap::{BitswapStoreRead, BitswapStoreReadWrite, Block, StoreError};
use crate::engine::{root_view, run, spec_new_tree, spec_run, spec_written};
use crate::error::{actor_failure, run_failure, ErrorKind, MigrationError, MigrationErrorView, Stage};
use crate::hash::{ContentHash, IPLD_RAW};
use crate::migrator::{links, spec_links, MigratorKind};
use crate::registry::{spec_lookup, UpgradeSpec, UpgradeSpecView};
use crate::store::{put_blocks, MemoryStore};
use crate::tree::{
    entries_map, lemma_map_at, lemma_map_keys, spec_decode_tree, spec_tree_bytes, ActorRecordView,
    StateTree,
};
use vstd::prelude::*;
use vstd::slice::slice_to_vec;

verus! {

/// Whether the actor at an address gives a run reason to ask for the block
/// under a hash: the hash is the actor's head, or a link of the actor's
/// record.
pub open spec fn asked_for(
    old_tree: Map<u64, ActorRecordView>,
    blocks: Map<Seq<u8>, Seq<u8>>,
    hash: Seq<u8>,
    address: u64,
) -> bool {
    old_tree.contains_key(address) && (old_tree[address].head == hash || (blocks.contains_key(
        old_tree[address].head,
    ) && spec_links(MigratorKind::Ledger, blocks[old_tree[address].head]).contains(hash)))
}

/// Whether a run asks for the block under a hash: it is the head of an actor
/// of the old tree, or a link of such an actor's record.
pub open spec fn asked(
    old_tree: Map<u64, ActorRecordView>,
    blocks: Map<Seq<u8>, Seq<u8>>,
    hash: Seq<u8>,
) -> bool {
    exists|address: u64| #[trigger] asked_for(old_tree, blocks, hash, address)
}

/// Whether a snapshot holds only blocks that a run asks for.
pub open spec fn only_asked(
    old_tree: Map<u64, ActorRecordView>,
    blocks: Map<Seq<u8>, Seq<u8>>,
) -> bool {
    forall|hash: Seq<u8>| #[trigger] blocks.contains_key(hash) ==> asked(old_tree, blocks, hash)
}

/// A block that goes into the snapshot for an actor of the old tree keeps the
/// snapshot to what is asked for.
proof fn lemma_asked_step(
    old_tree: Map<u64, ActorRecordView>,
    before: Map<Seq<u8>, Seq<u8>>,
    hash: Seq<u8>,
    data: Seq<u8>,
    address: u64,
)
    requires
        only_asked(old_tree, before),
        !before.contains_key(hash),
        asked_for(old_tree, before.insert(hash, data), hash, address),
    ensures
        only_asked(old_tree, before.insert(hash, data)),
{
    let after = before.insert(hash, data);
    assert forall|h: Seq<u8>| #[trigger] after.contains_key(h) implies asked(old_tree, after, h) by {
        if h != hash {
            assert(before.contains_key(h));
            let a = choose|a: u64| #[trigger] asked_for(old_tree, before, h, a);
            assert(asked_for(old_tree, after, h, a));
        }
    }
}

/// Whether a block store gave an answer when it was asked for the block
/// under a hash.
pub open spec fn answered<S: BitswapStoreRead>(
    store: &S,
    hash: Seq<u8>,
    answer: Result<Option<Vec<u8>>, StoreError>,
) -> bool {
    exists|cid: ContentHash| cid@ == hash && #[trigger] call_ensures(S::get, (store, &cid), answer)
}

/// Whether a block store gave some data when it was asked for the block
/// under a hash.
pub open spec fn gave<S: BitswapStoreRead>(store: &S, hash: Seq<u8>, data: Seq<u8>) -> bool {
    exists|bytes: Vec<u8>| bytes@ == data && #[trigger] answered(store, hash, Ok(Some(bytes)))
}

/// Whether a block store said that it has no block under a hash.
pub open spec fn lacks<S: BitswapStoreRead>(store: &S, hash: Seq<u8>) -> bool {
    answered(store, hash, Ok(None))
}

/// Whether a block store failed when it was asked for the block under a
/// hash.
pub open spec fn failed<S: BitswapStoreRead>(store: &S, hash: Seq<u8>) -> bool {
    exists|answer: Result<Option<Vec<u8>>, StoreError>|
        answer is Err && #[trigger] answered(store, hash, answer)
}

/// Whether every block of a snapshot is what the store gave under its hash.
pub open spec fn holds_answers<S: BitswapStoreRead>(
    store: &S,
    blocks: Map<Seq<u8>, Seq<u8>>,
) -> bool {
    forall|hash: Seq<u8>| #[trigger] blocks.contains_key(hash) ==> gave(store, hash, blocks[hash])
}

/// Whether a hash is seen to: the snapshot has a block under it, or the
/// store said that it has none.
pub open spec fn settled<S: BitswapStoreRead>(
    store: &S,
    blocks: Map<Seq<u8>, Seq<u8>>,
    hash: Seq<u8>,
) -> bool {
    blocks.contains_key(hash) || lacks(store, hash)
}

/// Whether the links of an old record of a kind are all seen to.
pub open spec fn links_settled<S: BitswapStoreRead>(
    store: &S,
    blocks: Map<Seq<u8>, Seq<u8>>,
    kind: MigratorKind,
    old: Seq<u8>,
    count: int,
) -> bool {
    forall|i: int| 0 <= i < count ==> settled(store, blocks, #[trigger] spec_links(kind, old)[i])
}

/// Whether a snapshot serves an actor whose migrator is of a kind: where the
/// migrator makes a new record, the store said that it has no old record,
/// or the snapshot has the old record and the links of that record are seen
/// to.
pub open spec fn served<S: BitswapStoreRead>(
    store: &S,
    blocks: Map<Seq<u8>, Seq<u8>>,
    kind: MigratorKind,
    head: Seq<u8>,
) -> bool {
    kind.spec_converts() ==> lacks(store, head) || (blocks.contains_key(head) && links_settled(
        store,
        blocks,
        kind,
        blocks[head],
        spec_links(kind, blocks[head]).len() as int,
    ))
}

/// The kind of the migrator that an upgrade has for a code identifier. Code
/// that the upgrade does not know has none that makes a new record.
pub open spec fn spec_kind(upgrade: UpgradeSpecView, code: Seq<u8>) -> MigratorKind {
    match spec_lookup(upgrade.registry, code, upgrade.target_version) {
        Some(handle) => handle.kind,
        None => MigratorKind::Nil,
    }
}

/// Whether a snapshot serves the first actors of a list.
pub open spec fn serves<S: BitswapStoreRead>(
    store: &S,
    upgrade: UpgradeSpecView,
    list: Seq<(u64, ActorRecordView)>,
    blocks: Map<Seq<u8>, Seq<u8>>,
    count: int,
) -> bool {
    forall|i: int|
        0 <= i < count ==> served(
            store,
            blocks,
            spec_kind(upgrade, (#[trigger] list[i]).1.code),
            list[i].1.head,
        )
}

/// Whether a snapshot serves every actor of the old tree.
pub open spec fn complete<S: BitswapStoreRead>(
    store: &S,
    upgrade: UpgradeSpecView,
    old_tree: Map<u64, ActorRecordView>,
    blocks: Map<Seq<u8>, Seq<u8>>,
) -> bool {
    forall|a: u64| #[trigger]
        old_tree.contains_key(a) ==> served(
            store,
            blocks,
            spec_kind(upgrade, old_tree[a].code),
            old_tree[a].head,
        )
}

/// What is seen to stays seen to when the snapshot grows.
proof fn lemma_settled_grows<S: BitswapStoreRead>(
    store: &S,
    before: Map<Seq<u8>, Seq<u8>>,
    after: Map<Seq<u8>, Seq<u8>>,
    hash: Seq<u8>,
)
    requires
        settled(store, before, hash),
        before.submap_of(after),
    ensures
        settled(store, after, hash),
{
    if before.contains_key(hash) {
        assert(after.dom().contains(hash));
    }
}

/// Links that are seen to stay seen to when the snapshot grows.
proof fn lemma_links_grow<S: BitswapStoreRead>(
    store: &S,
    before: Map<Seq<u8>, Seq<u8>>,
    after: Map<Seq<u8>, Seq<u8>>,
    kind: MigratorKind,
    old: Seq<u8>,
    count: int,
)
    requires
        links_settled(store, before, kind, old, count),
        before.submap_of(after),
    ensures
        links_settled(store, after, kind, old, count),
{
    assert forall|i: int| 0 <= i < count implies settled(
        store,
        after,
        #[trigger] spec_links(kind, old)[i],
    ) by {
        lemma_settled_grows(store, before, after, spec_links(kind, old)[i]);
    }
}

/// An actor that is served stays served when the snapshot grows.
proof fn lemma_served_grows<S: BitswapStoreRead>(
    store: &S,
    before: Map<Seq<u8>, Seq<u8>>,
    after: Map<Seq<u8>, Seq<u8>>,
    kind: MigratorKind,
    head: Seq<u8>,
)
    requires
        served(store, before, kind, head),
        before.submap_of(after),
    ensures
        served(store, after, kind, head),
{
    if kind.spec_converts() && !lacks(store, head) {
        assert(after.dom().contains(head));
        assert(after[head] == before[head]);
        lemma_links_grow(
            store,
            before,
            after,
            kind,
            before[head],
            spec_links(kind, before[head]).len() as int,
        );
    }
}

/// The actors that are served stay served when the snapshot grows.
proof fn lemma_serves_grows<S: BitswapStoreRead>(
    store: &S,
    upgrade: UpgradeSpecView,
    list: Seq<(u64, ActorRecordView)>,
    before: Map<Seq<u8>, Seq<u8>>,
    after: Map<Seq<u8>, Seq<u8>>,
    count: int,
)
    requires
        serves(store, upgrade, list, before, count),
        before.submap_of(after),
    ensures
        serves(store, upgrade, list, after, count),
{
    assert forall|i: int| 0 <= i < count implies served(
        store,
        after,
        spec_kind(upgrade, (#[trigger] list[i]).1.code),
        list[i].1.head,
    ) by {
        lemma_served_grows(
            store,
            before,
            after,
            spec_kind(upgrade, list[i].1.code),
            list[i].1.head,
        );
    }
}

/// A snapshot of answers stays one when an answer of the store goes in.
proof fn lemma_answers_step<S: BitswapStoreRead>(
    store: &S,
    before: Map<Seq<u8>, Seq<u8>>,
    hash: Seq<u8>,
    data: Seq<u8>,
)
    requires
        holds_answers(store, before),
        gave(store, hash, data),
    ensures
        holds_answers(store, before.insert(hash, data)),
{
    let after = before.insert(hash, data);
    assert forall|h: Seq<u8>| #[trigger] after.contains_key(h) implies gave(store, h, after[h]) by {
        if h != hash {
            assert(before.contains_key(h));
        }
    }
}

/// Whether the reading for the actor at an address failed on a hash: the
/// actor's migrator makes a new record, the store failed when it was asked
/// for the hash, and the hash is the actor's head or a link of the record
/// that the store gave under that head.
pub open spec fn failed_for<S: BitswapStoreRead>(
    store: &S,
    upgrade: UpgradeSpecView,
    old_tree: Map<u64, ActorRecordView>,
    address: u64,
    hash: Seq<u8>,
) -> bool {
    &&& old_tree.contains_key(address)
    &&& spec_kind(upgrade, old_tree[address].code).spec_converts()
    &&& failed(store, hash)
    &&& hash == old_tree[address].head || exists|record: Seq<u8>|
        #[trigger] gave(store, old_tree[address].head, record) && spec_links(
            spec_kind(upgrade, old_tree[address].code),
            record,
        ).contains(hash)
}

/// Whether a failure is that of reading for an actor of the old tree.
pub open spec fn read_failure<S: BitswapStoreRead>(
    store: &S,
    upgrade: UpgradeSpecView,
    old_tree: Map<u64, ActorRecordView>,
    e: MigrationErrorView,
) -> bool {
    exists|address: u64, hash: Seq<u8>| #[trigger]
        failed_for(store, upgrade, old_tree, address, hash) && e == actor_failure(
            ErrorKind::StoreIoFailure,
            Stage::Fetch,
            address,
            old_tree[address].code,
        )
}

/// Whether blocks are a reading of a store for a run of an upgrade over an
/// old tree: they are what the store gave, under hashes that the run asks
/// for, and they serve every actor of the tree.
pub open spec fn read_from<S: BitswapStoreRead>(
    store: &S,
    upgrade: UpgradeSpecView,
    old_tree: Map<u64, ActorRecordView>,
    blocks: Map<Seq<u8>, Seq<u8>>,
) -> bool {
    &&& only_asked(old_tree, blocks)
    &&& holds_answers(store, blocks)
    &&& complete(store, upgrade, old_tree, blocks)
}

/// Whether the snapshot went from one state to the next by seeing to a hash:
/// nothing changed, or what the store gave went in under the hash, which was
/// free.
pub open spec fn saw_to<S: BitswapStoreRead>(
    store: &S,
    before: Map<Seq<u8>, Seq<u8>>,
    after: Map<Seq<u8>, Seq<u8>>,
    hash: Seq<u8>,
) -> bool {
    ||| after == before
    ||| {
        &&& !before.contains_key(hash)
        &&& after.contains_key(hash)
        &&& gave(store, hash, after[hash])
        &&& after == before.insert(hash, after[hash])
    }
}

/// Sees to a hash: where the snapshot has no block under it, the store is
/// asked, and what it gives goes into the snapshot.
pub fn settle<S: BitswapStoreRead>(store: &S, read: &mut MemoryStore, hash: &ContentHash) -> (done:
    Result<(), StoreError>)
    ensures
        old(read).blocks().submap_of(final(read).blocks()),
        match done {
            Ok(_) => settled(store, final(read).blocks(), hash@) && saw_to(
                store,
                old(read).blocks(),
                final(read).blocks(),
                hash@,
            ),
            Err(_) => failed(store, hash@) && final(read).blocks() == old(read).blocks(),
        },
{
    if read.has(hash) {
        return Ok(());
    }
    let answer = store.get(hash);
    assert(answered(store, hash@, answer));
    match answer {
        Ok(Some(data)) => {
            assert(gave(store, hash@, data@));
            read.insert(hash.clone(), data);
            Ok(())
        },
        Ok(None) => Ok(()),
        Err(e) => Err(e),
    }
}

/// Reads from a block store what a run of the upgrade over the old tree
/// needs: for each actor whose migrator makes a new record, the old record,
/// and the blocks that the record links to. The snapshot holds what the store
/// gave, under the hashes that were asked for, and serves every actor of the
/// old tree. A block that the store says it does not have is left out; a
/// store that fails ends the reading.
pub fn snapshot<S: BitswapStoreRead>(store: &S, old_tree: &StateTree, upgrade: &UpgradeSpec) -> (outcome:
    Result<MemoryStore, MigrationError>)
    ensures
        match outcome {
            Ok(read) => read_from(store, upgrade@, old_tree@, read.blocks()),
            Err(e) => read_failure(store, upgrade@, old_tree@, e@),
        },
{
    let mut read = MemoryStore::new();
    let n = old_tree.len();
    let ghost list = old_tree.listed();
    let mut i: usize = 0;
    while i < n
        invariant
            i <= n == list.len(),
            list == old_tree.listed(),
            old_tree.wf(),
            only_asked(old_tree@, read.blocks()),
            holds_answers(store, read.blocks()),
            serves(store, upgrade@, list, read.blocks(), i as int),
        decreases n - i,
    {
        let entry = old_tree.entry(i);
        proof {
            lemma_map_at(list, i as int);
        }
        let kind = match upgrade.registry.lookup(&entry.record.code, upgrade.target_version) {
            Some(handle) => handle.kind(),
            None => MigratorKind::Nil,
        };
        assert(kind == spec_kind(upgrade@, list[i as int].1.code));
        if kind.converts() {
            let ghost before = read.blocks();
            match settle(store, &mut read, &entry.record.head) {
                Ok(_) => {},
                Err(_) => {
                    assert(failed_for(
                        store,
                        upgrade@,
                        old_tree@,
                        entry.address,
                        entry.record.head@,
                    ));
                    return Err(
                        MigrationError::at(
                            ErrorKind::StoreIoFailure,
                            Stage::Fetch,
                            entry.address,
                            &entry.record.code,
                        ),
                    );
                },
            }
            proof {
                lemma_serves_grows(store, upgrade@, list, before, read.blocks(), i as int);
                if read.blocks() != before {
                    let data = read.blocks()[entry.record.head@];
                    lemma_answers_step(store, before, entry.record.head@, data);
                    lemma_asked_step(old_tree@, before, entry.record.head@, data, entry.address);
                }
            }
            match read.fetch(&entry.record.head) {
                Some(data) => {
                    let found = links(kind, data.as_slice());
                    let ghost record = data@;
                    let mut j: usize = 0;
                    while j < found.len()
                        invariant
                            j <= found@.len(),
                            found@.len() == spec_links(kind, record).len(),
                            forall|k: int|
                                0 <= k < found@.len() ==> found@[k]@ == spec_links(
                                    kind,
                                    record,
                                )[k],
                            0 <= i < list.len(),
                            list == old_tree.listed(),
                            old_tree@.contains_key(entry.address),
                            old_tree@[entry.address] == entry.record@,
                            read.blocks().contains_key(entry.record.head@),
                            read.blocks()[entry.record.head@] == record,
                            kind == spec_kind(upgrade@, old_tree@[entry.address].code),
                            kind.spec_converts(),
                            only_asked(old_tree@, read.blocks()),
                            holds_answers(store, read.blocks()),
                            serves(store, upgrade@, list, read.blocks(), i as int),
                            links_settled(store, read.blocks(), kind, record, j as int),
                        decreases found@.len() - j,
                    {
                        let ghost before = read.blocks();
                        match settle(store, &mut read, &found[j]) {
                            Ok(_) => {},
                            Err(_) => {
                                proof {
                                    let all = spec_links(kind, record);
                                    assert(all.contains(all[j as int]));
                                    assert(gave(store, entry.record.head@, record));
                                    assert(failed_for(
                                        store,
                                        upgrade@,
                                        old_tree@,
                                        entry.address,
                                        found@[j as int]@,
                                    ));
                                }
                                return Err(
                                    MigrationError::at(
                                        ErrorKind::StoreIoFailure,
                                        Stage::Fetch,
                                        entry.address,
                                        &entry.record.code,
                                    ),
                                );
                            },
                        }
                        proof {
                            let link = found@[j as int]@;
                            assert(read.blocks().dom().contains(entry.record.head@));
                            lemma_serves_grows(
                                store,
                                upgrade@,
                                list,
                                before,
                                read.blocks(),
                                i as int,
                            );
                            lemma_links_grow(store, before, read.blocks(), kind, record, j as int);
                            if read.blocks() != before {
                                let block = read.blocks()[link];
                                lemma_answers_step(store, before, link, block);
                                let all = spec_links(kind, record);
                                assert(all.contains(all[j as int]));
                                assert(kind is Ledger);
                                lemma_asked_step(old_tree@, before, link, block, entry.address);
                            }
                        }
                        j = j + 1;
                    }
                },
                None => {},
            }
        }
        i = i + 1;
    }
    proof {
        assert forall|a: u64| #[trigger] old_tree@.contains_key(a) implies served(
            store,
            read.blocks(),
            spec_kind(upgrade@, old_tree@[a].code),
            old_tree@[a].head,
        ) by {
            lemma_map_keys(list, a);
            let at = choose|at: int| 0 <= at < list.len() && list[at].0 == a;
            lemma_map_at(list, at);
        }
    }
    Ok(read)
}

/// What a tree's block, as a store gave it, says of the tree.
pub open spec fn spec_tree_of_block(found: Result<Option<Vec<u8>>, StoreError>) -> Result<
    Seq<(u64, ActorRecordView)>,
    MigrationErrorView,
> {
    match found {
        Ok(Some(bytes)) => match spec_decode_tree(bytes@) {
            Some(list) => Ok(list),
            None => Err(run_failure(ErrorKind::MalformedRecord, Stage::Decode)),
        },
        _ => Err(run_failure(ErrorKind::StoreIoFailure, Stage::Fetch)),
    }
}

/// The tree in the block that a store gave for a root: a store that failed
/// or has no such block gives no tree, and neither does a block that is not
/// the canonical bytes of a tree.
pub fn tree_of_block(found: Result<Option<Vec<u8>>, StoreError>) -> (outcome: Result<
    StateTree,
    MigrationError,
>)
    ensures
        match outcome {
            Ok(tree) => spec_tree_of_block(found) == Ok::<
                Seq<(u64, ActorRecordView)>,
                MigrationErrorView,
            >(tree.listed()),
            Err(e) => spec_tree_of_block(found) == Err::<
                Seq<(u64, ActorRecordView)>,
                MigrationErrorView,
            >(e@),
        },
{
    match found {
        Ok(Some(bytes)) => match StateTree::decode(bytes.as_slice()) {
            Some(tree) => Ok(tree),
            None => Err(MigrationError::of_run(ErrorKind::MalformedRecord, Stage::Decode)),
        },
        _ => Err(MigrationError::of_run(ErrorKind::StoreIoFailure, Stage::Fetch)),
    }
}

/// Whether a tree, or the failure to read one, is what the store's answer for
/// a root says.
pub open spec fn loaded<S: BitswapStoreRead>(
    store: &S,
    root: Seq<u8>,
    outcome: Result<StateTree, MigrationError>,
) -> bool {
    exists|found: Result<Option<Vec<u8>>, StoreError>| #[trigger]
        answered(store, root, found) && match outcome {
            Ok(tree) => spec_tree_of_block(found) == Ok::<
                Seq<(u64, ActorRecordView)>,
                MigrationErrorView,
            >(tree.listed()),
            Err(e) => spec_tree_of_block(found) == Err::<
                Seq<(u64, ActorRecordView)>,
                MigrationErrorView,
            >(e@),
        }
}

/// Reads the tree under a root from a block store: the store is asked for the
/// block under the root, and the tree is what that block says.
pub fn load_tree<S: BitswapStoreRead>(store: &S, root: &ContentHash) -> (outcome: Result<
    StateTree,
    MigrationError,
>)
    ensures
        loaded(store, root@, outcome),
{
    let found = store.get(root);
    let ghost answer = found;
    assert(answered(store, root@, answer));
    tree_of_block(found)
}

/// Whether a block store gave an answer when it was handed the block of
/// some data under a hash.
pub open spec fn took<S: BitswapStoreReadWrite>(
    store: &S,
    hash: Seq<u8>,
    data: Seq<u8>,
    answer: Result<(), StoreError>,
) -> bool {
    exists|block: Block|
        block.spec_cid() == hash && block.spec_data() == data && #[trigger] call_ensures(
            S::insert,
            (store, &block),
            answer,
        )
}

/// Whether a block store accepted the block of some data under a hash.
pub open spec fn accepted<S: BitswapStoreReadWrite>(store: &S, hash: Seq<u8>, data: Seq<u8>) -> bool {
    exists|answer: Result<(), StoreError>| answer is Ok && #[trigger] took(store, hash, data, answer)
}

/// Whether a block store refused the block of some data under a hash.
pub open spec fn refused<S: BitswapStoreReadWrite>(store: &S, hash: Seq<u8>, data: Seq<u8>) -> bool {
    exists|answer: Result<(), StoreError>|
        answer is Err && #[trigger] took(store, hash, data, answer)
}

/// Whether a block store accepted the first blocks of a list, each under its
/// hash.
pub open spec fn took_all<S: BitswapStoreReadWrite>(
    store: &S,
    list: Seq<(Seq<u8>, Seq<u8>)>,
    count: int,
) -> bool {
    forall|i: int| 0 <= i < count ==> accepted(store, (#[trigger] list[i]).0, list[i].1)
}

/// Whether a block store accepted every block of a map, each under its hash.
pub open spec fn all_accepted<S: BitswapStoreReadWrite>(
    store: &S,
    blocks: Map<Seq<u8>, Seq<u8>>,
) -> bool {
    forall|hash: Seq<u8>| #[trigger] blocks.contains_key(hash) ==> accepted(store, hash, blocks[hash])
}

/// Whether a block store refused a block of a map.
pub open spec fn one_refused<S: BitswapStoreReadWrite>(
    store: &S,
    blocks: Map<Seq<u8>, Seq<u8>>,
) -> bool {
    exists|hash: Seq<u8>| #[trigger] blocks.contains_key(hash) && refused(store, hash, blocks[hash])
}

/// Writes the blocks of a memory store to a block store, in the order in
/// which they came: the store is handed every block under its hash. A store
/// that refuses a block ends the writing; the blocks before that one were
/// accepted.
pub fn persist<S: BitswapStoreReadWrite>(store: &S, blocks: &MemoryStore) -> (done: Result<
    (),
    MigrationError,
>)
    ensures
        match done {
            Ok(_) => took_all(store, blocks.listed(), blocks.listed().len() as int)
                && all_accepted(store, blocks.blocks()),
            Err(e) => e@ == run_failure(ErrorKind::StoreIoFailure, Stage::Store) && one_refused(
                store,
                blocks.blocks(),
            ) && exists|i: int|
                0 <= i < blocks.listed().len() && took_all(store, blocks.listed(), i)
                    && #[trigger] refused(store, blocks.listed()[i].0, blocks.listed()[i].1),
        },
{
    let n = blocks.len();
    let mut i: usize = 0;
    while i < n
        invariant
            i <= n == blocks.listed().len(),
            took_all(store, blocks.listed(), i as int),
        decreases n - i,
    {
        let held = blocks.block(i);
        let block = Block::keyed(held.hash.clone(), slice_to_vec(held.data.as_slice()));
        let answer = store.insert(&block);
        let ghost hash = blocks.listed()[i as int].0;
        let ghost data = blocks.listed()[i as int].1;
        assert(took(store, hash, data, answer));
        match answer {
            Ok(_) => {
                assert(accepted(store, hash, data));
            },
            Err(_) => {
                assert(refused(store, hash, data));
                assert(blocks.blocks().contains_key(hash) && blocks.blocks()[hash] == data);
                return Err(MigrationError::of_run(ErrorKind::StoreIoFailure, Stage::Store));
            },
        }
        i = i + 1;
    }
    proof {
        assert forall|hash: Seq<u8>| #[trigger] blocks.blocks().contains_key(hash) implies accepted(
            store,
            hash,
            blocks.blocks()[hash],
        ) by {
            blocks.lemma_listed(hash);
            let at = choose|at: int|
                0 <= at < blocks.listed().len() && #[trigger] blocks.listed()[at] == (
                    hash,
                    blocks.blocks()[hash],
                );
            assert(accepted(store, blocks.listed()[at].0, blocks.listed()[at].1));
        }
    }
    Ok(())
}

/// The blocks that a run of an upgrade over the entries of an old tree
/// writes, where it fails on no actor: the new records and the new tree.
pub open spec fn spec_run_writes(
    upgrade: UpgradeSpecView,
    blocks: Map<Seq<u8>, Seq<u8>>,
    list: Seq<(u64, ActorRecordView)>,
) -> Map<Seq<u8>, Seq<u8>> {
    put_blocks(
        spec_written(upgrade, blocks, Map::empty(), list),
        IPLD_RAW,
        spec_tree_bytes(spec_new_tree(upgrade, blocks, entries_map(list))),
    )
}

/// Whether an outcome is that of a migration which read the given blocks from
/// the store: the blocks are a reading of the store, and the outcome is that
/// of the run over them, with every block that the run wrote accepted by the
/// store. Where the run gave a root and the store refused one of the blocks
/// that the run wrote, the outcome is the failure to store.
pub open spec fn migrated_from<S: BitswapStoreReadWrite>(
    store: &S,
    upgrade: UpgradeSpecView,
    list: Seq<(u64, ActorRecordView)>,
    blocks: Map<Seq<u8>, Seq<u8>>,
    outcome: Result<Seq<u8>, MigrationErrorView>,
) -> bool {
    let old_tree = entries_map(list);
    &&& read_from(store, upgrade, old_tree, blocks)
    &&& match outcome {
        Ok(root) => {
            &&& spec_run(upgrade, blocks, old_tree) == Ok::<Seq<u8>, MigrationErrorView>(root)
            &&& all_accepted(store, spec_run_writes(upgrade, blocks, list))
        },
        Err(e) => {
            ||| spec_run(upgrade, blocks, old_tree) == Err::<Seq<u8>, MigrationErrorView>(e)
            ||| {
                &&& spec_run(upgrade, blocks, old_tree) is Ok
                &&& e == run_failure(ErrorKind::StoreIoFailure, Stage::Store)
                &&& one_refused(store, spec_run_writes(upgrade, blocks, list))
            }
        },
    }
}

/// Whether an outcome is that of a migration of the entries of an old tree
/// against a store: the reading failed for an actor of the tree, or the
/// outcome is that of a migration which read some blocks from the store.
pub open spec fn spec_migrated<S: BitswapStoreReadWrite>(
    store: &S,
    upgrade: UpgradeSpecView,
    list: Seq<(u64, ActorRecordView)>,
    outcome: Result<Seq<u8>, MigrationErrorView>,
) -> bool {
    ||| outcome matches Err(e) && read_failure(store, upgrade, entries_map(list), e)
    ||| exists|blocks: Map<Seq<u8>, Seq<u8>>| #[trigger]
        migrated_from(store, upgrade, list, blocks, outcome)
}

/// Migrates the state under an upgrade against a node's block store: reads
/// what the run needs, runs the upgrade, and writes the new records and the
/// new tree to the store. What comes out is the outcome of the run over what
/// the store gave; a store that fails fails the migration.
pub fn migrate<S: BitswapStoreReadWrite>(
    store: &S,
    old_tree: &StateTree,
    upgrade: &UpgradeSpec,
    use_cache: bool,
) -> (outcome: Result<ContentHash, MigrationError>)
    ensures
        spec_migrated(store, upgrade@, old_tree.listed(), root_view(outcome)),
{
    let read = match snapshot(store, old_tree, upgrade) {
        Ok(read) => read,
        Err(e) => {
            return Err(e);
        },
    };
    let ghost list = old_tree.listed();
    let mut written = MemoryStore::new();
    let ran = run(&read, &mut written, old_tree, upgrade, use_cache);
    assert(spec_run(upgrade@, read.blocks(), old_tree@) is Ok ==> written.blocks()
        == spec_run_writes(upgrade@, read.blocks(), list));
    match ran {
        Ok(root) => {
            match persist(store, &written) {
                Ok(_) => {
                    assert(migrated_from(
                        store,
                        upgrade@,
                        list,
                        read.blocks(),
                        Ok::<Seq<u8>, MigrationErrorView>(root@),
                    ));
                    Ok(root)
                },
                Err(e) => {
                    assert(migrated_from(
                        store,
                        upgrade@,
                        list,
                        read.blocks(),
                        Err::<Seq<u8>, MigrationErrorView>(e@),
                    ));
                    Err(e)
                },
            }
        },
        Err(e) => {
            assert(migrated_from(
                store,
                upgrade@,
                list,
                read.blocks(),
                Err::<Seq<u8>, MigrationErrorView>(e@),
            ));
            Err(e)
        },
    }
}

/// Whether an outcome is that of a migration of the state under a root
/// against a store: the store was asked for the block under the root; where
/// that block says no tree, the outcome is the failure to read one, and else
/// it is that of the migration of the tree.
pub open spec fn spec_migrated_root<S: BitswapStoreReadWrite>(
    store: &S,
    upgrade: UpgradeSpecView,
    old_root: Seq<u8>,
    outcome: Result<Seq<u8>, MigrationErrorView>,
) -> bool {
    exists|found: Result<Option<Vec<u8>>, StoreError>| #[trigger]
        answered(store, old_root, found) && match spec_tree_of_block(found) {
            Ok(list) => spec_migrated(store, upgrade, list, outcome),
            Err(f) => outcome == Err::<Seq<u8>, MigrationErrorView>(f),
        }
}

/// Migrates the state under a root: reads the old tree from the node's block
/// store and migrates it against the store.
pub fn migrate_root<S: BitswapStoreReadWrite>(
    store: &S,
    old_root: &ContentHash,
    upgrade: &UpgradeSpec,
    use_cache: bool,
) -> (outcome: Result<ContentHash, MigrationError>)
    ensures
        spec_migrated_root(store, upgrade@, old_root@, root_view(outcome)),
{
    let loaded = load_tree(store, old_root);
    let ghost found = choose|found: Result<Option<Vec<u8>>, StoreError>| #[trigger]
        answered(store, old_root@, found) && match loaded {
            Ok(tree) => spec_tree_of_block(found) == Ok::<
                Seq<(u64, ActorRecordView)>,
                MigrationErrorView,
            >(tree.listed()),
            Err(e) => spec_tree_of_block(found) == Err::<
                Seq<(u64, ActorRecordView)>,
                MigrationErrorView,
            >(e@),
        };
    let old_tree = match loaded {
        Ok(tree) => tree,
        Err(e) => {
            return Err(e);
        },
    };
    migrate(store, &old_tree, upgrade, use_cache)
}

} // verus!
