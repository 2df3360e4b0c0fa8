//! The run of an upgrade over a state tree: every actor goes to its migrator,
//! the new tree is put together and written, and its root is checked.

use crate::cache::MigrationCache;
use crate::error::{
    actor_failure, run_failure, ErrorKind, MigrationError, MigrationErrorView, Stage,
};
use crate::hash::{spec_block_cid, ContentHash, IPLD_RAW};
use crate::cache::remembered;
use crate::migrator::{
    cache_valid, migrated, spec_migrate_state, spec_new_head, spec_target_after, MigrationInput,
    MigrationInputView,
};
use crate::registry::{spec_lookup, UnknownPolicy, UpgradeSpec, UpgradeSpecView};
use crate::store::{put_blocks, MemoryStore};
use crate::tree::{
    ascending, entries_map, lemma_map_at, lemma_map_keys, spec_tree_bytes, ActorRecord,
    ActorRecordView, StateTree,
};
use vstd::prelude::*;

verus! {

/// What an upgrade makes of one actor: its new record, nothing where the
/// actor is deleted, or the failure. An actor whose code the registry does
/// not know keeps its record or fails the run, as the upgrade's policy says.
#[verifier::opaque]
pub open spec fn spec_actor_outcome(
    upgrade: UpgradeSpecView,
    source: Map<Seq<u8>, Seq<u8>>,
    address: u64,
    record: ActorRecordView,
) -> Result<Option<ActorRecordView>, MigrationErrorView> {
    match spec_lookup(upgrade.registry, record.code, upgrade.target_version) {
        Some(handle) => match spec_migrate_state(
            handle,
            source,
            MigrationInputView { address, old_head: record.head, old_code: record.code },
        ) {
            Ok(Some(output)) => Ok(
                Some(ActorRecordView { code: output.new_code, head: output.new_head }),
            ),
            Ok(None) => Ok(None),
            Err(e) => Err(e),
        },
        None => match upgrade.unknown_policy {
            UnknownPolicy::PassThrough => Ok(Some(record)),
            UnknownPolicy::HardError => Err(
                actor_failure(ErrorKind::UnknownActorType, Stage::Resolve, address, record.code),
            ),
        },
    }
}

/// The target store's blocks after an upgrade has worked on one actor.
#[verifier::opaque]
pub open spec fn spec_actor_target(
    upgrade: UpgradeSpecView,
    source: Map<Seq<u8>, Seq<u8>>,
    target: Map<Seq<u8>, Seq<u8>>,
    record: ActorRecordView,
) -> Map<Seq<u8>, Seq<u8>> {
    match spec_lookup(upgrade.registry, record.code, upgrade.target_version) {
        Some(handle) => spec_target_after(handle.kind, source, target, record.head),
        None => target,
    }
}

/// What the cache holds after an upgrade has worked on one actor: where the
/// actor's migrator made a new record, the conversion is remembered.
#[verifier::opaque]
pub open spec fn spec_actor_remembered(
    upgrade: UpgradeSpecView,
    source: Map<Seq<u8>, Seq<u8>>,
    cache: Map<(Seq<u8>, u64), Seq<u8>>,
    enabled: bool,
    record: ActorRecordView,
) -> Map<(Seq<u8>, u64), Seq<u8>> {
    match spec_lookup(upgrade.registry, record.code, upgrade.target_version) {
        Some(handle) => if handle.kind.spec_converts() {
            match spec_new_head(handle.kind, source, record.head) {
                Ok(Some(new_head)) => remembered(
                    cache,
                    enabled,
                    (record.head, handle.kind.spec_migration_id()),
                    new_head,
                ),
                _ => cache,
            }
        } else {
            cache
        },
        None => cache,
    }
}

/// What the cache holds after an upgrade has worked on the actors of a list,
/// one after the other.
pub open spec fn spec_remembered(
    upgrade: UpgradeSpecView,
    source: Map<Seq<u8>, Seq<u8>>,
    cache: Map<(Seq<u8>, u64), Seq<u8>>,
    enabled: bool,
    list: Seq<(u64, ActorRecordView)>,
) -> Map<(Seq<u8>, u64), Seq<u8>>
    decreases list.len(),
{
    if list.len() == 0 {
        cache
    } else {
        spec_actor_remembered(
            upgrade,
            source,
            spec_remembered(upgrade, source, cache, enabled, list.drop_last()),
            enabled,
            list.last().1,
        )
    }
}

/// What holds after an upgrade has worked on one actor: the outcome and the
/// target store are what the upgrade makes of the source store's blocks and
/// the actor, whatever the cache remembered.
pub open spec fn actor_migrated(
    upgrade: UpgradeSpecView,
    source: Map<Seq<u8>, Seq<u8>>,
    target_before: Map<Seq<u8>, Seq<u8>>,
    target_after: Map<Seq<u8>, Seq<u8>>,
    address: u64,
    record: ActorRecordView,
    outcome: Result<Option<ActorRecord>, MigrationError>,
) -> bool {
    let expected = spec_actor_outcome(upgrade, source, address, record);
    &&& target_before.submap_of(target_after)
    &&& target_after == spec_actor_target(upgrade, source, target_before, record)
    &&& match outcome {
        Ok(Some(new)) => {
            &&& expected == Ok::<Option<ActorRecordView>, MigrationErrorView>(Some(new@))
            &&& new@.head == record.head || target_after.contains_key(new@.head)
        },
        Ok(None) => expected == Ok::<Option<ActorRecordView>, MigrationErrorView>(None),
        Err(e) => expected == Err::<Option<ActorRecordView>, MigrationErrorView>(e@)
            && target_after == target_before,
    }
}

/// Migrates one actor of the old tree: finds its migrator in the upgrade's
/// registry and lets it work, or applies the policy for unknown code.
pub fn migrate_actor(
    upgrade: &UpgradeSpec,
    source: &MemoryStore,
    target: &mut MemoryStore,
    cache: &mut MigrationCache,
    address: u64,
    record: &ActorRecord,
) -> (outcome: Result<Option<ActorRecord>, MigrationError>)
    requires
        cache_valid(old(cache)@, source.blocks(), old(target).blocks()),
    ensures
        final(cache).enabled() == old(cache).enabled(),
        final(cache)@ == spec_actor_remembered(
            upgrade@,
            source.blocks(),
            old(cache)@,
            old(cache).enabled(),
            record@,
        ),
        cache_valid(final(cache)@, source.blocks(), final(target).blocks()),
        actor_migrated(
            upgrade@,
            source.blocks(),
            old(target).blocks(),
            final(target).blocks(),
            address,
            record@,
            outcome,
        ),
{
    proof {
        reveal(spec_actor_outcome);
        reveal(spec_actor_target);
        reveal(spec_actor_remembered);
    }
    match upgrade.registry.lookup(&record.code, upgrade.target_version) {
        Some(handle) => {
            let input = MigrationInput {
                address,
                old_head: record.head.clone(),
                old_code: record.code.clone(),
            };
            match handle.migrate_state(source, target, cache, &input) {
                Ok(Some(output)) => Ok(
                    Some(ActorRecord { code: output.new_code, head: output.new_head }),
                ),
                Ok(None) => Ok(None),
                Err(e) => Err(e),
            }
        },
        None => match upgrade.unknown_policy {
            UnknownPolicy::PassThrough => Ok(Some(record.clone())),
            UnknownPolicy::HardError => Err(
                MigrationError::at(
                    ErrorKind::UnknownActorType,
                    Stage::Resolve,
                    address,
                    &record.code,
                ),
            ),
        },
    }
}

/// Whether the upgrade fails on the actor at an address of the old tree.
pub open spec fn fails_at(
    upgrade: UpgradeSpecView,
    source: Map<Seq<u8>, Seq<u8>>,
    old_tree: Map<u64, ActorRecordView>,
    address: u64,
) -> bool {
    old_tree.contains_key(address) && spec_actor_outcome(
        upgrade,
        source,
        address,
        old_tree[address],
    ) is Err
}

/// The lowest address at which the upgrade fails, where it fails.
pub open spec fn first_failure(
    upgrade: UpgradeSpecView,
    source: Map<Seq<u8>, Seq<u8>>,
    old_tree: Map<u64, ActorRecordView>,
) -> u64 {
    choose|a: u64|
        fails_at(upgrade, source, old_tree, a) && forall|b: u64|
            fails_at(upgrade, source, old_tree, b) ==> a <= b
}

/// The new tree, where the upgrade fails on no actor: each actor of the old
/// tree that is not deleted stands at its address with its new record, and
/// nothing else stands in the tree.
pub open spec fn spec_new_tree(
    upgrade: UpgradeSpecView,
    source: Map<Seq<u8>, Seq<u8>>,
    old_tree: Map<u64, ActorRecordView>,
) -> Map<u64, ActorRecordView> {
    Map::new(
        |a: u64|
            old_tree.contains_key(a) && spec_actor_outcome(upgrade, source, a, old_tree[a])
                matches Ok(Some(_)),
        |a: u64| spec_actor_outcome(upgrade, source, a, old_tree[a])->Ok_0->Some_0,
    )
}

/// What an upgrade makes of a tree: the new tree, or the failure at the
/// lowest address at which it fails.
pub open spec fn spec_migrate_tree(
    upgrade: UpgradeSpecView,
    source: Map<Seq<u8>, Seq<u8>>,
    old_tree: Map<u64, ActorRecordView>,
) -> Result<Map<u64, ActorRecordView>, MigrationErrorView> {
    if exists|a: u64| fails_at(upgrade, source, old_tree, a) {
        let a = first_failure(upgrade, source, old_tree);
        Err(spec_actor_outcome(upgrade, source, a, old_tree[a])->Err_0)
    } else {
        Ok(spec_new_tree(upgrade, source, old_tree))
    }
}

/// The target store's blocks after an upgrade has worked on the actors of a
/// list, one after the other.
pub open spec fn spec_written(
    upgrade: UpgradeSpecView,
    source: Map<Seq<u8>, Seq<u8>>,
    target: Map<Seq<u8>, Seq<u8>>,
    list: Seq<(u64, ActorRecordView)>,
) -> Map<Seq<u8>, Seq<u8>>
    decreases list.len(),
{
    if list.len() == 0 {
        target
    } else {
        spec_actor_target(
            upgrade,
            source,
            spec_written(upgrade, source, target, list.drop_last()),
            list.last().1,
        )
    }
}

/// Whether every head of the new tree is either the head that the actor had
/// or the hash of a block in the target store.
#[verifier::opaque]
pub open spec fn heads_stored(
    old_tree: Map<u64, ActorRecordView>,
    new_tree: Map<u64, ActorRecordView>,
    target: Map<Seq<u8>, Seq<u8>>,
) -> bool {
    forall|a: u64| #[trigger]
        new_tree.contains_key(a) ==> (old_tree.contains_key(a) && new_tree[a].head
            == old_tree[a].head) || target.contains_key(new_tree[a].head)
}

/// A tree without actors has no head that could be missing.
proof fn lemma_heads_empty(old_tree: Map<u64, ActorRecordView>, target: Map<Seq<u8>, Seq<u8>>)
    ensures
        heads_stored(old_tree, Map::<u64, ActorRecordView>::empty(), target),
{
    reveal(heads_stored);
}

/// Heads that are stored stay stored when the target store grows.
proof fn lemma_heads_grow(
    old_tree: Map<u64, ActorRecordView>,
    new_tree: Map<u64, ActorRecordView>,
    before: Map<Seq<u8>, Seq<u8>>,
    after: Map<Seq<u8>, Seq<u8>>,
)
    requires
        heads_stored(old_tree, new_tree, before),
        before.submap_of(after),
    ensures
        heads_stored(old_tree, new_tree, after),
{
    reveal(heads_stored);
    assert forall|a: u64| #[trigger] new_tree.contains_key(a) implies (old_tree.contains_key(a)
        && new_tree[a].head == old_tree[a].head) || after.contains_key(new_tree[a].head) by {
        if before.contains_key(new_tree[a].head) {
            assert(after.dom().contains(new_tree[a].head));
        }
    }
}

/// A new record whose head is the old one, or is stored, keeps the heads of
/// the tree stored.
proof fn lemma_heads_step(
    old_tree: Map<u64, ActorRecordView>,
    new_tree: Map<u64, ActorRecordView>,
    before: Map<Seq<u8>, Seq<u8>>,
    after: Map<Seq<u8>, Seq<u8>>,
    address: u64,
    record: ActorRecordView,
)
    requires
        heads_stored(old_tree, new_tree, before),
        before.submap_of(after),
        old_tree.contains_key(address),
        record.head == old_tree[address].head || after.contains_key(record.head),
    ensures
        heads_stored(old_tree, new_tree.insert(address, record), after),
{
    lemma_heads_grow(old_tree, new_tree, before, after);
    reveal(heads_stored);
    let grown = new_tree.insert(address, record);
    assert forall|a: u64| #[trigger] grown.contains_key(a) implies (old_tree.contains_key(a)
        && grown[a].head == old_tree[a].head) || after.contains_key(grown[a].head) by {
        if a != address {
            assert(new_tree.contains_key(a));
        }
    }
}

/// One more actor at a higher address adds its outcome to the new tree.
proof fn lemma_new_tree_step(
    upgrade: UpgradeSpecView,
    source: Map<Seq<u8>, Seq<u8>>,
    list: Seq<(u64, ActorRecordView)>,
    i: int,
)
    requires
        ascending(list),
        0 <= i < list.len(),
    ensures
        entries_map(list.take(i + 1)) == entries_map(list.take(i)).insert(list[i].0, list[i].1),
        !entries_map(list.take(i)).contains_key(list[i].0),
        spec_new_tree(upgrade, source, entries_map(list.take(i + 1))) == match spec_actor_outcome(
            upgrade,
            source,
            list[i].0,
            list[i].1,
        ) {
            Ok(Some(new)) => spec_new_tree(upgrade, source, entries_map(list.take(i))).insert(
                list[i].0,
                new,
            ),
            _ => spec_new_tree(upgrade, source, entries_map(list.take(i))),
        },
{
    let before = list.take(i);
    let after = list.take(i + 1);
    assert(after.drop_last() =~= before);
    assert(after.last() == list[i]);
    lemma_map_keys(before, list[i].0);
    if exists|j: int| 0 <= j < before.len() && before[j].0 == list[i].0 {
        let j = choose|j: int| 0 <= j < before.len() && before[j].0 == list[i].0;
        assert(list[j].0 < list[i].0);
    }
    let grown = entries_map(before).insert(list[i].0, list[i].1);
    assert(entries_map(after) == grown);
    let outcome = spec_actor_outcome(upgrade, source, list[i].0, list[i].1);
    let small = spec_new_tree(upgrade, source, entries_map(before));
    let large = spec_new_tree(upgrade, source, grown);
    match outcome {
        Ok(Some(new)) => {
            assert(large =~= small.insert(list[i].0, new));
        },
        _ => {
            assert(large =~= small);
        },
    }
}

/// Where the upgrade fails at one place of the old tree and at none before
/// it, that failure is the tree's.
proof fn lemma_first_failure(
    upgrade: UpgradeSpecView,
    source: Map<Seq<u8>, Seq<u8>>,
    list: Seq<(u64, ActorRecordView)>,
    i: int,
)
    requires
        ascending(list),
        0 <= i < list.len(),
        spec_actor_outcome(upgrade, source, list[i].0, list[i].1) is Err,
        forall|j: int|
            0 <= j < i ==> spec_actor_outcome(upgrade, source, list[j].0, list[j].1) is Ok,
    ensures
        spec_migrate_tree(upgrade, source, entries_map(list)) == Err::<
            Map<u64, ActorRecordView>,
            MigrationErrorView,
        >(spec_actor_outcome(upgrade, source, list[i].0, list[i].1)->Err_0),
{
    let old_tree = entries_map(list);
    let here = list[i].0;
    lemma_map_at(list, i);
    assert(fails_at(upgrade, source, old_tree, here));
    assert forall|b: u64| fails_at(upgrade, source, old_tree, b) implies here <= b by {
        lemma_map_keys(list, b);
        let j = choose|j: int| 0 <= j < list.len() && list[j].0 == b;
        lemma_map_at(list, j);
        if j < i {
            assert(spec_actor_outcome(upgrade, source, list[j].0, list[j].1) is Ok);
        } else if j > i {
            assert(list[i].0 < list[j].0);
        }
    }
    let first = first_failure(upgrade, source, old_tree);
    assert(fails_at(upgrade, source, old_tree, first) && first <= here && here <= first);
}

/// Where the upgrade fails at no place of the old tree, the new tree is the
/// tree's outcome.
proof fn lemma_no_failure(
    upgrade: UpgradeSpecView,
    source: Map<Seq<u8>, Seq<u8>>,
    list: Seq<(u64, ActorRecordView)>,
)
    requires
        ascending(list),
        forall|j: int|
            0 <= j < list.len() ==> spec_actor_outcome(upgrade, source, list[j].0, list[j].1) is Ok,
    ensures
        spec_migrate_tree(upgrade, source, entries_map(list)) == Ok::<
            Map<u64, ActorRecordView>,
            MigrationErrorView,
        >(spec_new_tree(upgrade, source, entries_map(list))),
{
    let old_tree = entries_map(list);
    assert forall|a: u64| !fails_at(upgrade, source, old_tree, a) by {
        if old_tree.contains_key(a) {
            lemma_map_keys(list, a);
            let j = choose|j: int| 0 <= j < list.len() && list[j].0 == a;
            lemma_map_at(list, j);
        }
    }
}

/// Migrates every actor of the old tree, in address order, and puts the new
/// tree together. The run ends at the first failure.
pub fn migrate_tree(
    upgrade: &UpgradeSpec,
    source: &MemoryStore,
    target: &mut MemoryStore,
    cache: &mut MigrationCache,
    old_tree: &StateTree,
) -> (outcome: Result<StateTree, MigrationError>)
    requires
        cache_valid(old(cache)@, source.blocks(), old(target).blocks()),
    ensures
        final(cache).enabled() == old(cache).enabled(),
        cache_valid(final(cache)@, source.blocks(), final(target).blocks()),
        old(target).blocks().submap_of(final(target).blocks()),
        match outcome {
            Ok(new_tree) => {
                &&& new_tree.wf()
                &&& spec_migrate_tree(upgrade@, source.blocks(), old_tree@) == Ok::<
                    Map<u64, ActorRecordView>,
                    MigrationErrorView,
                >(new_tree@)
                &&& final(target).blocks() == spec_written(
                    upgrade@,
                    source.blocks(),
                    old(target).blocks(),
                    old_tree.listed(),
                )
                &&& final(cache)@ == spec_remembered(
                    upgrade@,
                    source.blocks(),
                    old(cache)@,
                    old(cache).enabled(),
                    old_tree.listed(),
                )
                &&& heads_stored(old_tree@, new_tree@, final(target).blocks())
            },
            Err(e) => spec_migrate_tree(upgrade@, source.blocks(), old_tree@) == Err::<
                Map<u64, ActorRecordView>,
                MigrationErrorView,
            >(e@),
        },
{
    let ghost list = old_tree.listed();
    proof {
        use_type_invariant(old_tree);
    }
    let ghost target_before = target.blocks();
    let ghost cache_enabled = cache.enabled();
    let ghost cache_before = cache@;
    let mut new_tree = StateTree::new();
    let n = old_tree.len();
    let mut i: usize = 0;
    assert(list.take(0) =~= Seq::empty());
    assert(new_tree@ =~= spec_new_tree(upgrade@, source.blocks(), entries_map(list.take(0))));
    proof {
        lemma_heads_empty(old_tree@, target.blocks());
    }
    while i < n
        invariant
            i <= n == list.len(),
            list == old_tree.listed(),
            ascending(list),
            cache.enabled() == cache_enabled,
            cache_enabled == old(cache).enabled(),
            cache_before == old(cache)@,
            cache@ == spec_remembered(
                upgrade@,
                source.blocks(),
                cache_before,
                cache_enabled,
                list.take(i as int),
            ),
            cache_valid(cache@, source.blocks(), target.blocks()),
            target_before == old(target).blocks(),
            target_before.submap_of(target.blocks()),
            target.blocks() == spec_written(
                upgrade@,
                source.blocks(),
                target_before,
                list.take(i as int),
            ),
            new_tree.wf(),
            forall|j: int|
                0 <= j < i ==> spec_actor_outcome(
                    upgrade@,
                    source.blocks(),
                    list[j].0,
                    list[j].1,
                ) is Ok,
            new_tree@ == spec_new_tree(upgrade@, source.blocks(), entries_map(list.take(i as int))),
            heads_stored(old_tree@, new_tree@, target.blocks()),
        decreases n - i,
    {
        let entry = old_tree.entry(i);
        let ghost tree_before = new_tree@;
        let ghost blocks_before = target.blocks();
        proof {
            lemma_new_tree_step(upgrade@, source.blocks(), list, i as int);
            lemma_map_at(list, i as int);
            assert(list.take(i + 1).drop_last() =~= list.take(i as int));
            assert(list.take(i + 1).last() == list[i as int]);
        }
        let migrated = migrate_actor(upgrade, source, target, cache, entry.address, &entry.record);
        proof {
            vstd::map_lib::lemma_submap_of_trans(target_before, blocks_before, target.blocks());
        }
        match migrated {
            Ok(Some(record)) => {
                proof {
                    lemma_heads_step(
                        old_tree@,
                        tree_before,
                        blocks_before,
                        target.blocks(),
                        entry.address,
                        record@,
                    );
                }
                new_tree.insert(entry.address, record);
            },
            Ok(None) => {
                proof {
                    lemma_heads_grow(old_tree@, tree_before, blocks_before, target.blocks());
                }
            },
            Err(e) => {
                proof {
                    lemma_first_failure(upgrade@, source.blocks(), list, i as int);
                }
                return Err(e);
            },
        }
        i = i + 1;
    }
    proof {
        assert(list.take(i as int) =~= list);
        lemma_no_failure(upgrade@, source.blocks(), list);
    }
    Ok(new_tree)
}

/// Whether a root is the one that was expected, where one was expected.
pub open spec fn spec_verified(new_root: Seq<u8>, expected_root: Option<Seq<u8>>) -> bool {
    match expected_root {
        Some(expected) => expected == new_root,
        None => true,
    }
}

/// Compares the computed root with the one that was expected. Without an
/// expected root every root passes.
pub fn verify(new_root: &ContentHash, expected_root: Option<&ContentHash>) -> (verdict: Result<
    (),
    MigrationError,
>)
    ensures
        match verdict {
            Ok(_) => spec_verified(
                new_root@,
                match expected_root {
                    Some(expected) => Some(expected@),
                    None => None,
                },
            ),
            Err(e) => !spec_verified(
                new_root@,
                match expected_root {
                    Some(expected) => Some(expected@),
                    None => None,
                },
            ) && e@ == run_failure(ErrorKind::VerificationMismatch, Stage::Verify),
        },
{
    match expected_root {
        Some(expected) => {
            if *expected == *new_root {
                Ok(())
            } else {
                Err(MigrationError::of_run(ErrorKind::VerificationMismatch, Stage::Verify))
            }
        },
        None => Ok(()),
    }
}

/// The root of the tree that a map of records stands for: the hash of the
/// tree's canonical bytes.
pub open spec fn spec_tree_root(tree: Map<u64, ActorRecordView>) -> Seq<u8> {
    spec_block_cid(IPLD_RAW, spec_tree_bytes(tree))
}

/// What a run gives: the root of the new tree, if no actor fails and the
/// root is the expected one.
pub open spec fn spec_run(
    upgrade: UpgradeSpecView,
    source: Map<Seq<u8>, Seq<u8>>,
    old_tree: Map<u64, ActorRecordView>,
) -> Result<Seq<u8>, MigrationErrorView> {
    match spec_migrate_tree(upgrade, source, old_tree) {
        Ok(new_tree) => if spec_verified(spec_tree_root(new_tree), upgrade.expected_root) {
            Ok(spec_tree_root(new_tree))
        } else {
            Err(run_failure(ErrorKind::VerificationMismatch, Stage::Verify))
        },
        Err(e) => Err(e),
    }
}

/// A run's outcome as a plain value.
pub open spec fn root_view(outcome: Result<ContentHash, MigrationError>) -> Result<
    Seq<u8>,
    MigrationErrorView,
> {
    match outcome {
        Ok(root) => Ok(root@),
        Err(e) => Err(e@),
    }
}

/// The number of conversions to have in flight at once: the bound that was
/// asked for, or else as many as the machine can run side by side, and one
/// at the least.
pub fn worker_pool_size(bound: Option<usize>, available_parallelism: usize) -> (workers: usize)
    ensures
        workers >= 1,
        workers == match bound {
            Some(asked) => if asked >= 1 {
                asked
            } else {
                1
            },
            None => if available_parallelism >= 1 {
                available_parallelism
            } else {
                1
            },
        },
{
    let wanted = match bound {
        Some(asked) => asked,
        None => available_parallelism,
    };
    if wanted >= 1 {
        wanted
    } else {
        1
    }
}

/// The tree that comes of the actors' outcomes, each put at its address, in
/// the order of the list. An actor without a record is left out.
pub open spec fn spec_assemble(outcomes: Seq<(u64, Option<ActorRecordView>)>) -> Map<
    u64,
    ActorRecordView,
>
    decreases outcomes.len(),
{
    if outcomes.len() == 0 {
        Map::empty()
    } else {
        let rest = spec_assemble(outcomes.drop_last());
        match outcomes.last().1 {
            Some(record) => rest.insert(outcomes.last().0, record),
            None => rest,
        }
    }
}

/// An outcome as a plain value.
pub open spec fn outcome_view(outcome: (u64, Option<ActorRecord>)) -> (
    u64,
    Option<ActorRecordView>,
) {
    (
        outcome.0,
        match outcome.1 {
            Some(record) => Some(record@),
            None => None,
        },
    )
}

/// Puts the new tree together from the actors' outcomes, in whatever order
/// they came: each record goes to its address.
pub fn assemble(outcomes: Vec<(u64, Option<ActorRecord>)>) -> (tree: StateTree)
    ensures
        tree.wf(),
        tree@ == spec_assemble(outcomes@.map_values(|o: (u64, Option<ActorRecord>)| outcome_view(o))),
{
    let ghost views = outcomes@.map_values(|o: (u64, Option<ActorRecord>)| outcome_view(o));
    let mut tree = StateTree::new();
    let mut i: usize = 0;
    assert(views.take(0) =~= Seq::empty());
    while i < outcomes.len()
        invariant
            i <= outcomes@.len(),
            views == outcomes@.map_values(|o: (u64, Option<ActorRecord>)| outcome_view(o)),
            tree.wf(),
            tree@ == spec_assemble(views.take(i as int)),
        decreases outcomes@.len() - i,
    {
        proof {
            assert(views.take(i + 1).drop_last() =~= views.take(i as int));
            assert(views.take(i + 1).last() == outcome_view(outcomes@[i as int]));
        }
        match &outcomes[i].1 {
            Some(record) => {
                tree.insert(outcomes[i].0, record.clone());
            },
            None => {},
        }
        i = i + 1;
    }
    assert(views.take(i as int) =~= views);
    tree
}

/// Runs an upgrade: migrates every actor of the old tree, reading old records
/// from the source store and writing new ones to the target store, writes
/// the new tree to the target store, and checks its root against the
/// expected one. With `use_cache` unset every conversion is computed anew;
/// the outcome and what is written are the same.
pub fn run(
    source: &MemoryStore,
    target: &mut MemoryStore,
    old_tree: &StateTree,
    upgrade: &UpgradeSpec,
    use_cache: bool,
) -> (outcome: Result<ContentHash, MigrationError>)
    ensures
        old(target).blocks().submap_of(final(target).blocks()),
        root_view(outcome) == spec_run(upgrade@, source.blocks(), old_tree@),
        spec_migrate_tree(upgrade@, source.blocks(), old_tree@) matches Ok(new_tree)
            ==> final(target).blocks() == put_blocks(
            spec_written(upgrade@, source.blocks(), old(target).blocks(), old_tree.listed()),
            IPLD_RAW,
            spec_tree_bytes(new_tree),
        ),
        outcome matches Ok(root) ==> final(target).blocks().contains_key(root@) && heads_stored(
            old_tree@,
            spec_new_tree(upgrade@, source.blocks(), old_tree@),
            final(target).blocks(),
        ),
{
    let mut cache = if use_cache {
        MigrationCache::new()
    } else {
        MigrationCache::disabled()
    };
    let ghost blocks_at_start = target.blocks();
    proof {
        reveal(cache_valid);
    }
    let new_tree = match migrate_tree(upgrade, source, target, &mut cache, old_tree) {
        Ok(tree) => tree,
        Err(e) => {
            return Err(e);
        },
    };
    let bytes = new_tree.encode();
    let ghost blocks_before = target.blocks();
    let root = target.put(IPLD_RAW, bytes.as_slice());
    proof {
        vstd::map_lib::lemma_submap_of_trans(blocks_at_start, blocks_before, target.blocks());
        lemma_heads_grow(old_tree@, new_tree@, blocks_before, target.blocks());
    }
    let expected = match &upgrade.expected_root {
        Some(expected) => Some(expected),
        None => None,
    };
    match verify(&root, expected) {
        Ok(_) => Ok(root),
        Err(e) => Err(e),
    }
}

} // verus!
