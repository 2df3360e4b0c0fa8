//! What holds of every run: the laws that the engine's contracts lead to.

use crate::engine::{
    root_view, spec_actor_outcome, spec_assemble, spec_migrate_tree, spec_new_tree, spec_run,
    spec_tree_root,
};
use crate::hash::ContentHash;
use crate::init::{
    spec_decode_init_v10, spec_decode_init_v9, spec_encode_init_v10, spec_migrate_init,
};
use crate::error::{Failure, MigrationErrorView};
use crate::migrator::{
    migrated, spec_convert, spec_new_head, MigrationInputView, MigrationOutput,
    MigratorHandleView, MigratorKind,
};
use crate::error::MigrationError;
use crate::registry::UpgradeSpecView;
use crate::schema::{
    lemma_account_v2_round_trip, lemma_ledger_v2_round_trip, spec_decode_account_v1,
    spec_decode_account_v2, spec_decode_ledger_v1, spec_decode_ledger_v2, spec_encode_account_v2,
    spec_encode_ledger_v2, spec_migrate_account, spec_migrate_ledger,
};
use crate::tree::ActorRecordView;
use vstd::prelude::*;

verus! {

/// Determinism: two runs of one upgrade on the same blocks and the same old
/// tree have the same outcome: the same root, or the same failure.
pub proof fn lemma_determinism(
    upgrade: UpgradeSpecView,
    source: Map<Seq<u8>, Seq<u8>>,
    old_tree: Map<u64, ActorRecordView>,
    first: Result<ContentHash, MigrationError>,
    second: Result<ContentHash, MigrationError>,
)
    requires
        root_view(first) == spec_run(upgrade, source, old_tree),
        root_view(second) == spec_run(upgrade, source, old_tree),
    ensures
        root_view(first) == root_view(second),
        first matches Ok(a) ==> second matches Ok(b) && a@ == b@,
{
}

/// The tree that comes of visiting the actors of the old tree in a given
/// order of their addresses, each outcome put at its address.
pub open spec fn assembled_in_order(
    upgrade: UpgradeSpecView,
    source: Map<Seq<u8>, Seq<u8>>,
    old_tree: Map<u64, ActorRecordView>,
    order: Seq<u64>,
) -> Map<u64, ActorRecordView>
    decreases order.len(),
{
    if order.len() == 0 {
        Map::empty()
    } else {
        let rest = assembled_in_order(upgrade, source, old_tree, order.drop_last());
        let address = order.last();
        match spec_actor_outcome(upgrade, source, address, old_tree[address]) {
            Ok(Some(record)) => rest.insert(address, record),
            _ => rest,
        }
    }
}

/// The tree of a visiting order holds, at each address that was visited and
/// whose actor has a new record, that record, and nothing else.
pub proof fn lemma_assembled_at(
    upgrade: UpgradeSpecView,
    source: Map<Seq<u8>, Seq<u8>>,
    old_tree: Map<u64, ActorRecordView>,
    order: Seq<u64>,
    address: u64,
)
    ensures
        assembled_in_order(upgrade, source, old_tree, order).contains_key(address) <==> (
        order.contains(address) && spec_actor_outcome(
            upgrade,
            source,
            address,
            old_tree[address],
        ) matches Ok(Some(_))),
        assembled_in_order(upgrade, source, old_tree, order).contains_key(address)
            ==> assembled_in_order(upgrade, source, old_tree, order)[address]
            == spec_actor_outcome(upgrade, source, address, old_tree[address])->Ok_0->Some_0,
    decreases order.len(),
{
    if order.len() > 0 {
        let front = order.drop_last();
        lemma_assembled_at(upgrade, source, old_tree, front, address);
        if order.contains(address) {
            let i = choose|i: int| 0 <= i < order.len() && order[i] == address;
            if i < order.len() - 1 {
                assert(front[i] == address);
            }
        }
        if front.contains(address) {
            let i = choose|i: int| 0 <= i < front.len() && front[i] == address;
            assert(order[i] == address);
        }
        assert(order[order.len() - 1] == order.last());
    }
}

/// Order-independence: in whatever order the actors of the old tree are
/// visited, and however often, putting each outcome at its address gives the
/// same new tree, and so the same root.
pub proof fn lemma_order_independence(
    upgrade: UpgradeSpecView,
    source: Map<Seq<u8>, Seq<u8>>,
    old_tree: Map<u64, ActorRecordView>,
    order: Seq<u64>,
)
    requires
        forall|a: u64| order.contains(a) <==> old_tree.contains_key(a),
    ensures
        assembled_in_order(upgrade, source, old_tree, order) == spec_new_tree(
            upgrade,
            source,
            old_tree,
        ),
        spec_tree_root(assembled_in_order(upgrade, source, old_tree, order)) == spec_tree_root(
            spec_new_tree(upgrade, source, old_tree),
        ),
{
    let built = assembled_in_order(upgrade, source, old_tree, order);
    let wanted = spec_new_tree(upgrade, source, old_tree);
    assert forall|a: u64| #[trigger] built.dom().contains(a) == wanted.dom().contains(a) by {
        lemma_assembled_at(upgrade, source, old_tree, order, a);
    }
    assert forall|a: u64| built.dom().contains(a) implies #[trigger] built[a] == wanted[a] by {
        lemma_assembled_at(upgrade, source, old_tree, order, a);
    }
    assert(built =~= wanted);
}

/// The outcomes of the actors of the old tree in a given order of their
/// addresses, as they are handed to the assembly of the new tree. An actor
/// on which the upgrade fails has none.
pub open spec fn outcomes_in_order(
    upgrade: UpgradeSpecView,
    source: Map<Seq<u8>, Seq<u8>>,
    old_tree: Map<u64, ActorRecordView>,
    order: Seq<u64>,
) -> Seq<(u64, Option<ActorRecordView>)> {
    Seq::new(
        order.len(),
        |i: int|
            (
                order[i],
                match spec_actor_outcome(upgrade, source, order[i], old_tree[order[i]]) {
                    Ok(record) => record,
                    Err(_) => None,
                },
            ),
    )
}

/// The assembly of the outcomes in a visiting order is the tree of that
/// order: with the law above, the assembled tree and its root are the same
/// for every order in which the outcomes come in.
pub proof fn lemma_assembly_in_order(
    upgrade: UpgradeSpecView,
    source: Map<Seq<u8>, Seq<u8>>,
    old_tree: Map<u64, ActorRecordView>,
    order: Seq<u64>,
)
    ensures
        spec_assemble(outcomes_in_order(upgrade, source, old_tree, order)) == assembled_in_order(
            upgrade,
            source,
            old_tree,
            order,
        ),
    decreases order.len(),
{
    let outcomes = outcomes_in_order(upgrade, source, old_tree, order);
    if order.len() > 0 {
        lemma_assembly_in_order(upgrade, source, old_tree, order.drop_last());
        assert(outcomes.drop_last() =~= outcomes_in_order(
            upgrade,
            source,
            old_tree,
            order.drop_last(),
        ));
    }
}

/// Cache transparency: what a migrator gives for an actor, and what it
/// writes, does not depend on what the cache remembered. Two outcomes of one
/// migrator on the same input, blocks and target store are the same, whether
/// the conversion was made or remembered.
pub proof fn lemma_cache_transparency(
    handle: MigratorHandleView,
    source: Map<Seq<u8>, Seq<u8>>,
    target_before: Map<Seq<u8>, Seq<u8>>,
    input: MigrationInputView,
    first_target: Map<Seq<u8>, Seq<u8>>,
    first: Result<Option<MigrationOutput>, MigrationError>,
    second_target: Map<Seq<u8>, Seq<u8>>,
    second: Result<Option<MigrationOutput>, MigrationError>,
)
    requires
        migrated(handle, source, target_before, first_target, input, first),
        migrated(handle, source, target_before, second_target, input, second),
    ensures
        match (first, second) {
            (Ok(Some(a)), Ok(Some(b))) => a@ == b@ && first_target == second_target,
            (Ok(None), Ok(None)) => first_target == second_target,
            (Err(a), Err(b)) => a@ == b@ && first_target == second_target,
            _ => false,
        },
{
}

/// Whether bytes are a record of a kind's new schema in its canonical form:
/// they decode, and what they decode to encodes to the same bytes.
pub open spec fn canonical_new_record(kind: MigratorKind, bytes: Seq<u8>) -> bool {
    match kind {
        MigratorKind::Account => spec_decode_account_v2(bytes) matches Some(state)
            && spec_encode_account_v2(state) == bytes,
        MigratorKind::Ledger => spec_decode_ledger_v2(bytes) matches Some(state)
            && spec_encode_ledger_v2(state) == bytes,
        MigratorKind::Init => spec_decode_init_v10(bytes) matches Some(state)
            && spec_encode_init_v10(state) == Some(bytes),
        _ => true,
    }
}

/// Round-trip: a new record that comes of an old one decodes in the new
/// schema to the value that the rule gives, and encoding that value again
/// gives the same bytes. For the schemas whose bytes this library lays down
/// that follows from the bytes; the init actor's new record is read back
/// before it counts as one.
pub proof fn lemma_round_trip(kind: MigratorKind, source: Map<Seq<u8>, Seq<u8>>, old: Seq<u8>)
    requires
        kind.spec_converts(),
        spec_convert(kind, source, old) is Ok,
    ensures
        canonical_new_record(kind, spec_convert(kind, source, old)->Ok_0),
        kind is Init ==> spec_decode_init_v10(spec_convert(kind, source, old)->Ok_0) == Some(
            spec_migrate_init(spec_decode_init_v9(old)->Some_0),
        ),
        kind is Account ==> spec_decode_account_v2(spec_convert(kind, source, old)->Ok_0) == Some(
            spec_migrate_account(spec_decode_account_v1(old)->Some_0),
        ),
        kind is Ledger ==> spec_decode_ledger_v2(spec_convert(kind, source, old)->Ok_0) == Some(
            spec_migrate_ledger(
                spec_decode_ledger_v1(old)->Some_0,
                crate::migrator::block_at(source, spec_decode_ledger_v1(old)->Some_0.entries),
            )->Ok_0,
        ),
{
    match kind {
        MigratorKind::Account => {
            lemma_account_v2_round_trip(spec_migrate_account(spec_decode_account_v1(old)->Some_0));
        },
        MigratorKind::Init => {},
        _ => {
            let state = spec_decode_ledger_v1(old)->Some_0;
            let new = spec_migrate_ledger(
                state,
                crate::migrator::block_at(source, state.entries),
            )->Ok_0;
            assert(new.table == state.entries);
            assert(state.entries.len() == old.len() - 16);
            lemma_ledger_v2_round_trip(new);
        },
    }
}

/// A migrator that leaves the state as it is gives the head it was given.
pub proof fn lemma_nil_keeps_head(source: Map<Seq<u8>, Seq<u8>>, old_head: Seq<u8>)
    ensures
        spec_new_head(MigratorKind::Nil, source, old_head) == Ok::<Option<Seq<u8>>, Failure>(
            Some(old_head),
        ),
{
}

/// Completeness: where the upgrade fails on no actor, the new tree has an
/// entry at an address exactly if the old tree has one there and the actor
/// was not deleted, and that entry is the actor's new record.
pub proof fn lemma_completeness(
    upgrade: UpgradeSpecView,
    source: Map<Seq<u8>, Seq<u8>>,
    old_tree: Map<u64, ActorRecordView>,
)
    requires
        spec_migrate_tree(upgrade, source, old_tree) is Ok,
    ensures
        forall|a: u64| #[trigger]
            spec_migrate_tree(upgrade, source, old_tree)->Ok_0.contains_key(a)
                ==> old_tree.contains_key(a),
        forall|a: u64| #[trigger]
            old_tree.contains_key(a) ==> {
                let outcome = spec_actor_outcome(upgrade, source, a, old_tree[a]);
                let new_tree = spec_migrate_tree(upgrade, source, old_tree)->Ok_0;
                &&& outcome is Ok
                &&& outcome == Ok::<Option<ActorRecordView>, MigrationErrorView>(None)
                    <==> !new_tree.contains_key(a)
                &&& new_tree.contains_key(a) ==> outcome == Ok::<
                    Option<ActorRecordView>,
                    MigrationErrorView,
                >(Some(new_tree[a]))
            },
        spec_migrate_tree(upgrade, source, old_tree)->Ok_0.dom().subset_of(old_tree.dom()),
{
    let new_tree = spec_migrate_tree(upgrade, source, old_tree)->Ok_0;
    assert(new_tree == spec_new_tree(upgrade, source, old_tree));
    assert forall|a: u64| #[trigger] old_tree.contains_key(a) implies spec_actor_outcome(
        upgrade,
        source,
        a,
        old_tree[a],
    ) is Ok by {
        if spec_actor_outcome(upgrade, source, a, old_tree[a]) is Err {
            assert(crate::engine::fails_at(upgrade, source, old_tree, a));
        }
    }
}

/// A run gives the root of the new tree, where one is laid down: the run's
/// root depends on the old tree's records by address alone, not on how the
/// tree was built.
pub proof fn lemma_root_of_new_tree(
    upgrade: UpgradeSpecView,
    source: Map<Seq<u8>, Seq<u8>>,
    old_tree: Map<u64, ActorRecordView>,
)
    requires
        spec_run(upgrade, source, old_tree) is Ok,
    ensures
        spec_run(upgrade, source, old_tree)->Ok_0 == spec_tree_root(
            spec_new_tree(upgrade, source, old_tree),
        ),
{
}

} // verus!
