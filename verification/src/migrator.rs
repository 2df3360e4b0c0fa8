//! The actor migrators: what each kind makes of an actor's old record, and
//! the handle under which the registry keeps one.

use crate::cache::{remembered, MigrationCache};
use crate::error::{actor_failure, run_failure, ErrorKind, Failure, MigrationError, Stage};
use crate::hash::{
    names_cbor, spec_block_cid, spec_cid_codec, CodeId, ContentHash, DAG_CBOR, IPLD_RAW,
};
use crate::init::{convert_init, spec_convert_init, InitMigrator};
use crate::schema::{
    migrate_account, migrate_ledger, spec_decode_account_v1, spec_decode_ledger_v1,
    spec_encode_account_v2, spec_encode_ledger_v2, spec_migrate_account, spec_migrate_ledger,
    AccountStateV1, LedgerStateV1,
};
use crate::store::{put_blocks, MemoryStore};
use vstd::prelude::*;

verus! {

/// What is known of one actor before its migration.
#[derive(Debug)]
pub struct MigrationInput {
    pub address: u64,
    pub old_head: ContentHash,
    pub old_code: CodeId,
}

/// What an actor's migration gives.
#[derive(Debug)]
pub struct MigrationOutput {
    pub new_code: CodeId,
    pub new_head: ContentHash,
}

/// A migration's input as a plain value.
pub struct MigrationInputView {
    pub address: u64,
    pub old_head: Seq<u8>,
    pub old_code: Seq<u8>,
}

/// A migration's output as a plain value.
pub struct MigrationOutputView {
    pub new_code: Seq<u8>,
    pub new_head: Seq<u8>,
}

impl View for MigrationInput {
    type V = MigrationInputView;

    open spec fn view(&self) -> MigrationInputView {
        MigrationInputView {
            address: self.address,
            old_head: self.old_head@,
            old_code: self.old_code@,
        }
    }
}

impl View for MigrationOutput {
    type V = MigrationOutputView;

    open spec fn view(&self) -> MigrationOutputView {
        MigrationOutputView { new_code: self.new_code@, new_head: self.new_head@ }
    }
}

/// The kinds of migrator.
#[derive(Clone, Copy, Debug, PartialEq, Eq, Structural)]
pub enum MigratorKind {
    /// The state stays as it is; only the code identifier changes.
    Nil,
    /// The actor is deleted.
    Retire,
    /// The init actor's state goes to its new schema.
    Init,
    /// An account's state goes to its new schema.
    Account,
    /// A ledger's state goes to its new schema.
    Ledger,
}

impl MigratorKind {
    /// The number by which the cache tells the migrations apart.
    pub open spec fn spec_migration_id(self) -> u64 {
        match self {
            MigratorKind::Nil => 0,
            MigratorKind::Retire => 1,
            MigratorKind::Init => 2,
            MigratorKind::Account => 3,
            MigratorKind::Ledger => 4,
        }
    }

    /// Whether the kind makes a new record of the old one.
    pub open spec fn spec_converts(self) -> bool {
        self is Init || self is Account || self is Ledger
    }

    /// The codec under which the kind's new records are stored.
    pub open spec fn spec_record_codec(self) -> u64 {
        if self is Init {
            DAG_CBOR
        } else {
            IPLD_RAW
        }
    }

    #[verifier::when_used_as_spec(spec_migration_id)]
    pub fn migration_id(self) -> (id: u64)
        ensures
            id == self.spec_migration_id(),
    {
        match self {
            MigratorKind::Nil => 0,
            MigratorKind::Retire => 1,
            MigratorKind::Init => 2,
            MigratorKind::Account => 3,
            MigratorKind::Ledger => 4,
        }
    }

    #[verifier::when_used_as_spec(spec_converts)]
    pub fn converts(self) -> (yes: bool)
        ensures
            yes == self.spec_converts(),
    {
        match self {
            MigratorKind::Init | MigratorKind::Account | MigratorKind::Ledger => true,
            MigratorKind::Nil | MigratorKind::Retire => false,
        }
    }

    #[verifier::when_used_as_spec(spec_record_codec)]
    pub fn record_codec(self) -> (codec: u64)
        ensures
            codec == self.spec_record_codec(),
    {
        match self {
            MigratorKind::Init => DAG_CBOR,
            _ => IPLD_RAW,
        }
    }
}

/// The kind that a migration's number stands for.
pub open spec fn kind_of_id(id: u64) -> Option<MigratorKind> {
    if id == 0 {
        Some(MigratorKind::Nil)
    } else if id == 1 {
        Some(MigratorKind::Retire)
    } else if id == 2 {
        Some(MigratorKind::Init)
    } else if id == 3 {
        Some(MigratorKind::Account)
    } else if id == 4 {
        Some(MigratorKind::Ledger)
    } else {
        None
    }
}

/// The block under a hash, if the blocks hold one.
pub open spec fn block_at(blocks: Map<Seq<u8>, Seq<u8>>, hash: Seq<u8>) -> Option<Seq<u8>> {
    if blocks.contains_key(hash) {
        Some(blocks[hash])
    } else {
        None
    }
}

/// The new record that a kind makes of an old record, given the blocks of the
/// source store for what the record links to.
pub open spec fn spec_convert(
    kind: MigratorKind,
    source: Map<Seq<u8>, Seq<u8>>,
    old: Seq<u8>,
) -> Result<Seq<u8>, Failure> {
    match kind {
        MigratorKind::Init => spec_convert_init(old),
        MigratorKind::Account => match spec_decode_account_v1(old) {
            Some(state) => Ok(spec_encode_account_v2(spec_migrate_account(state))),
            None => Err((ErrorKind::MalformedRecord, Stage::Decode)),
        },
        MigratorKind::Ledger => match spec_decode_ledger_v1(old) {
            Some(state) => match spec_migrate_ledger(state, block_at(source, state.entries)) {
                Ok(new) => Ok(spec_encode_ledger_v2(new)),
                Err(f) => Err(f),
            },
            None => Err((ErrorKind::MalformedRecord, Stage::Decode)),
        },
        _ => Ok(old),
    }
}

/// The new record that a kind makes of the record under an old head: the old
/// record is read from the source store and converted. The init actor's
/// record is read only where its head names a block of CBOR.
pub open spec fn spec_new_record(
    kind: MigratorKind,
    source: Map<Seq<u8>, Seq<u8>>,
    old_head: Seq<u8>,
) -> Result<Seq<u8>, Failure> {
    if kind is Init && !names_cbor(spec_cid_codec(old_head)) {
        Err((ErrorKind::MalformedRecord, Stage::Fetch))
    } else if !source.contains_key(old_head) {
        Err((ErrorKind::StoreIoFailure, Stage::Fetch))
    } else {
        spec_convert(kind, source, source[old_head])
    }
}

/// The head that an actor gets: the old one where the state stays, none where
/// the actor is deleted, else the hash of the new record.
pub open spec fn spec_new_head(
    kind: MigratorKind,
    source: Map<Seq<u8>, Seq<u8>>,
    old_head: Seq<u8>,
) -> Result<Option<Seq<u8>>, Failure> {
    match kind {
        MigratorKind::Nil => Ok(Some(old_head)),
        MigratorKind::Retire => Ok(None),
        _ => match spec_new_record(kind, source, old_head) {
            Ok(bytes) => Ok(Some(spec_block_cid(kind.spec_record_codec(), bytes))),
            Err(f) => Err(f),
        },
    }
}

/// The links of an old record that the conversion of its kind follows into
/// the source store.
pub open spec fn spec_links(kind: MigratorKind, old: Seq<u8>) -> Seq<Seq<u8>> {
    match kind {
        MigratorKind::Ledger => match spec_decode_ledger_v1(old) {
            Some(state) => seq![state.entries],
            None => Seq::empty(),
        },
        _ => Seq::empty(),
    }
}

/// The links of an old record that the conversion of its kind follows.
pub fn links(kind: MigratorKind, old: &[u8]) -> (found: Vec<ContentHash>)
    ensures
        found@.len() == spec_links(kind, old@).len(),
        forall|i: int| 0 <= i < found@.len() ==> found@[i]@ == spec_links(kind, old@)[i],
{
    let mut found: Vec<ContentHash> = Vec::new();
    match kind {
        MigratorKind::Ledger => match LedgerStateV1::decode(old) {
            Some(state) => {
                found.push(state.entries);
            },
            None => {},
        },
        _ => {},
    }
    found
}

/// A conversion reads, beside the old record, the blocks that the record's
/// links lead to, and no others: two stores that agree on those agree on the
/// new record.
pub proof fn lemma_convert_reads_links(
    kind: MigratorKind,
    one: Map<Seq<u8>, Seq<u8>>,
    other: Map<Seq<u8>, Seq<u8>>,
    old: Seq<u8>,
)
    requires
        forall|i: int|
            0 <= i < spec_links(kind, old).len() ==> block_at(one, spec_links(kind, old)[i])
                == block_at(other, spec_links(kind, old)[i]),
    ensures
        spec_convert(kind, one, old) == spec_convert(kind, other, old),
{
    if kind is Ledger && spec_decode_ledger_v1(old) is Some {
        assert(spec_links(kind, old)[0] == spec_decode_ledger_v1(old)->Some_0.entries);
    }
}

/// Whether computed bytes, or the failure to compute them, are what was
/// expected.
pub open spec fn computed(
    outcome: Result<Vec<u8>, MigrationError>,
    expected: Result<Seq<u8>, Failure>,
) -> bool {
    match outcome {
        Ok(bytes) => expected == Ok::<Seq<u8>, Failure>(bytes@),
        Err(e) => expected matches Err(f) && e@ == run_failure(f.0, f.1),
    }
}

/// Converts an old record of a kind to its new record.
pub fn convert_record(kind: MigratorKind, source: &MemoryStore, old: &[u8]) -> (outcome: Result<
    Vec<u8>,
    MigrationError,
>)
    requires
        kind.converts(),
    ensures
        computed(outcome, spec_convert(kind, source.blocks(), old@)),
{
    match kind {
        MigratorKind::Init => convert_init(old),
        MigratorKind::Account => match AccountStateV1::decode(old) {
            Some(state) => match migrate_account(&state) {
                Ok(new) => Ok(new.encode()),
                Err(e) => Err(e),
            },
            None => Err(MigrationError::of_run(ErrorKind::MalformedRecord, Stage::Decode)),
        },
        _ => match LedgerStateV1::decode(old) {
            Some(state) => {
                let table = source.fetch(&state.entries);
                let converted = match &table {
                    Some(block) => migrate_ledger(&state, Some(block.as_slice())),
                    None => migrate_ledger(&state, None),
                };
                match converted {
                    Ok(new) => Ok(new.encode()),
                    Err(e) => Err(e),
                }
            },
            None => Err(MigrationError::of_run(ErrorKind::MalformedRecord, Stage::Decode)),
        },
    }
}

/// Reads the record under an old head from the source store and converts it.
pub fn new_record(kind: MigratorKind, source: &MemoryStore, old_head: &ContentHash) -> (outcome:
    Result<Vec<u8>, MigrationError>)
    requires
        kind.converts(),
    ensures
        computed(outcome, spec_new_record(kind, source.blocks(), old_head@)),
{
    if kind.migration_id() == MigratorKind::Init.migration_id() && !old_head.is_cbor() {
        return Err(MigrationError::of_run(ErrorKind::MalformedRecord, Stage::Fetch));
    }
    match source.fetch(old_head) {
        Some(old) => convert_record(kind, source, old.as_slice()),
        None => Err(MigrationError::of_run(ErrorKind::StoreIoFailure, Stage::Fetch)),
    }
}

/// The cache's validity for a run: each remembered head is what the
/// migration makes of the old head, from the source store's blocks, and the
/// target store holds the new record.
#[verifier::opaque]
pub open spec fn cache_valid(
    cache: Map<(Seq<u8>, u64), Seq<u8>>,
    source: Map<Seq<u8>, Seq<u8>>,
    target: Map<Seq<u8>, Seq<u8>>,
) -> bool {
    forall|key: (Seq<u8>, u64)| #[trigger]
        cache.contains_key(key) ==> {
            &&& kind_of_id(key.1) matches Some(kind)
            &&& kind.spec_converts()
            &&& spec_new_head(kind, source, key.0) == Ok::<Option<Seq<u8>>, Failure>(
                Some(cache[key]),
            )
            &&& target.contains_key(cache[key])
        }
}

/// A migrator as a plain value: its kind and the code identifier that the
/// actor gets.
pub struct MigratorHandleView {
    pub kind: MigratorKind,
    pub new_code: Seq<u8>,
}

/// A migrator as the registry keeps it.
#[derive(Debug)]
pub enum MigratorHandle {
    Nil(CodeId),
    Retire,
    Init(InitMigrator),
    Account(CodeId),
    Ledger(CodeId),
}

impl View for MigratorHandle {
    type V = MigratorHandleView;

    open spec fn view(&self) -> MigratorHandleView {
        match self {
            MigratorHandle::Nil(code) => MigratorHandleView {
                kind: MigratorKind::Nil,
                new_code: code@,
            },
            MigratorHandle::Retire => MigratorHandleView {
                kind: MigratorKind::Retire,
                new_code: Seq::empty(),
            },
            MigratorHandle::Init(migrator) => MigratorHandleView {
                kind: MigratorKind::Init,
                new_code: migrator.0@,
            },
            MigratorHandle::Account(code) => MigratorHandleView {
                kind: MigratorKind::Account,
                new_code: code@,
            },
            MigratorHandle::Ledger(code) => MigratorHandleView {
                kind: MigratorKind::Ledger,
                new_code: code@,
            },
        }
    }
}

/// What a migrator gives for an actor, from the source store's blocks.
pub open spec fn spec_migrate_state(
    handle: MigratorHandleView,
    source: Map<Seq<u8>, Seq<u8>>,
    input: MigrationInputView,
) -> Result<Option<MigrationOutputView>, crate::error::MigrationErrorView> {
    match spec_new_head(handle.kind, source, input.old_head) {
        Ok(Some(new_head)) => Ok(
            Some(MigrationOutputView { new_code: handle.new_code, new_head }),
        ),
        Ok(None) => Ok(None),
        Err(f) => Err(actor_failure(f.0, f.1, input.address, input.old_code)),
    }
}

/// The target store's blocks after a migrator has worked on an actor: a new
/// record, where one was made, stands under its hash.
pub open spec fn spec_target_after(
    kind: MigratorKind,
    source: Map<Seq<u8>, Seq<u8>>,
    target: Map<Seq<u8>, Seq<u8>>,
    old_head: Seq<u8>,
) -> Map<Seq<u8>, Seq<u8>> {
    if kind.spec_converts() {
        match spec_new_record(kind, source, old_head) {
            Ok(bytes) => put_blocks(target, kind.spec_record_codec(), bytes),
            Err(_) => target,
        }
    } else {
        target
    }
}

/// What holds after a migrator has worked on an actor. The outcome and the
/// target store are what the migrator's kind makes of the source store's
/// blocks and the input, whatever the cache remembered.
pub open spec fn migrated(
    handle: MigratorHandleView,
    source: Map<Seq<u8>, Seq<u8>>,
    target_before: Map<Seq<u8>, Seq<u8>>,
    target_after: Map<Seq<u8>, Seq<u8>>,
    input: MigrationInputView,
    outcome: Result<Option<MigrationOutput>, MigrationError>,
) -> bool {
    let expected = spec_migrate_state(handle, source, input);
    &&& target_before.submap_of(target_after)
    &&& match outcome {
        Ok(Some(output)) => {
            &&& expected == Ok::<Option<MigrationOutputView>, crate::error::MigrationErrorView>(
                Some(output@),
            )
            &&& target_after == spec_target_after(
                handle.kind,
                source,
                target_before,
                input.old_head,
            )
            &&& handle.kind.spec_converts() ==> target_after.contains_key(output@.new_head)
        },
        Ok(None) => {
            &&& expected == Ok::<Option<MigrationOutputView>, crate::error::MigrationErrorView>(
                None,
            )
            &&& target_after == target_before
        },
        Err(e) => {
            &&& expected == Err::<Option<MigrationOutputView>, crate::error::MigrationErrorView>(
                e@,
            )
            &&& target_after == target_before
        },
    }
}

/// What the cache holds after a migrator of a kind has worked on an actor: a
/// conversion that was made is remembered under the old head and the
/// migration's number, unless the cache is switched off or remembered one
/// already; a migrator that makes no new record, and one that fails, leave
/// the cache as it was.
pub open spec fn spec_cache_after(
    kind: MigratorKind,
    cache: Map<(Seq<u8>, u64), Seq<u8>>,
    enabled: bool,
    input: MigrationInputView,
    outcome: Result<Option<MigrationOutput>, MigrationError>,
) -> Map<(Seq<u8>, u64), Seq<u8>> {
    match outcome {
        Ok(Some(output)) => if kind.spec_converts() {
            remembered(
                cache,
                enabled,
                (input.old_head, kind.spec_migration_id()),
                output@.new_head,
            )
        } else {
            cache
        },
        _ => cache,
    }
}

/// The work of a migrator that makes a new record: the new head is taken from
/// the cache, or the old record is read, converted, written and remembered.
pub fn migrate_converting(
    kind: MigratorKind,
    new_code: &CodeId,
    source: &MemoryStore,
    target: &mut MemoryStore,
    cache: &mut MigrationCache,
    input: &MigrationInput,
) -> (outcome: Result<Option<MigrationOutput>, MigrationError>)
    requires
        kind.converts(),
        cache_valid(old(cache)@, source.blocks(), old(target).blocks()),
    ensures
        final(cache).enabled() == old(cache).enabled(),
        final(cache)@ == spec_cache_after(
            kind,
            old(cache)@,
            old(cache).enabled(),
            input@,
            outcome,
        ),
        cache_valid(final(cache)@, source.blocks(), final(target).blocks()),
        migrated(
            MigratorHandleView { kind, new_code: new_code@ },
            source.blocks(),
            old(target).blocks(),
            final(target).blocks(),
            input@,
            outcome,
        ),
{
    proof {
        reveal(cache_valid);
    }
    let head = &input.old_head;
    let ghost key = (head@, kind.spec_migration_id());
    let ghost cache_before = cache@;
    let ghost target_before = target.blocks();
    let ghost expected = spec_new_record(kind, source.blocks(), head@);
    let compute = || -> (c: Result<Vec<u8>, MigrationError>)
        ensures
            computed(c, spec_new_record(kind, source.blocks(), head@)),
        { new_record(kind, source, head) };
    let found = cache.get_or_compute(
        target,
        kind.record_codec(),
        head,
        kind.migration_id(),
        compute,
    );
    proof {
        reveal(cache_valid);
    }
    match found {
        Ok(new_head) => {
            proof {
                if cache_before.contains_key(key) {
                    assert(target_before.contains_key(new_head@));
                } else {
                    let bytes = choose|bytes: Vec<u8>|
                        {
                            &&& #[trigger] compute.ensures((), Ok(bytes))
                            &&& new_head@ == spec_block_cid(kind.spec_record_codec(), bytes@)
                            &&& target.blocks() == put_blocks(
                                target_before,
                                kind.spec_record_codec(),
                                bytes@,
                            )
                            &&& cache@ == remembered(
                                cache_before,
                                cache.enabled(),
                                key,
                                new_head@,
                            )
                        };
                    assert(expected == Ok::<Seq<u8>, Failure>(bytes@));
                }
                assert(cache_valid(cache@, source.blocks(), target.blocks())) by {
                    assert forall|k: (Seq<u8>, u64)| #[trigger] cache@.contains_key(k) implies {
                        &&& kind_of_id(k.1) matches Some(kd)
                        &&& kd.spec_converts()
                        &&& spec_new_head(kd, source.blocks(), k.0) == Ok::<
                            Option<Seq<u8>>,
                            Failure,
                        >(Some(cache@[k]))
                        &&& target.blocks().contains_key(cache@[k])
                    } by {
                        if cache_before.contains_key(k) {
                            assert(target_before.contains_key(cache_before[k]));
                        }
                    }
                }
            }
            Ok(Some(MigrationOutput { new_code: new_code.clone(), new_head }))
        },
        Err(e) => {
            Err(MigrationError::at(e.kind, e.stage, input.address, &input.old_code))
        },
    }
}

impl MigratorHandle {
    /// The kind of the migrator.
    pub fn kind(&self) -> (kind: MigratorKind)
        ensures
            kind == self@.kind,
    {
        match self {
            MigratorHandle::Nil(_) => MigratorKind::Nil,
            MigratorHandle::Retire => MigratorKind::Retire,
            MigratorHandle::Init(_) => MigratorKind::Init,
            MigratorHandle::Account(_) => MigratorKind::Account,
            MigratorHandle::Ledger(_) => MigratorKind::Ledger,
        }
    }

    /// The number by which the cache knows the migration.
    pub fn migration_id(&self) -> (id: u64)
        ensures
            id == self@.kind.spec_migration_id(),
    {
        self.kind().migration_id()
    }

    /// Migrates one actor: gives its new code identifier and the hash of its
    /// new state, or nothing where the actor is deleted. A new state is
    /// written to the target store, unless the cache remembers the
    /// conversion.
    pub fn migrate_state(
        &self,
        source: &MemoryStore,
        target: &mut MemoryStore,
        cache: &mut MigrationCache,
        input: &MigrationInput,
    ) -> (outcome: Result<Option<MigrationOutput>, MigrationError>)
        requires
                cache_valid(old(cache)@, source.blocks(), old(target).blocks()),
        ensures
                final(cache).enabled() == old(cache).enabled(),
            final(cache)@ == spec_cache_after(
                self@.kind,
                old(cache)@,
                old(cache).enabled(),
                input@,
                outcome,
            ),
            cache_valid(final(cache)@, source.blocks(), final(target).blocks()),
            migrated(
                self@,
                source.blocks(),
                old(target).blocks(),
                final(target).blocks(),
                input@,
                outcome,
            ),
    {
        match self {
            MigratorHandle::Nil(code) => Ok(
                Some(MigrationOutput { new_code: code.clone(), new_head: input.old_head.clone() }),
            ),
            MigratorHandle::Retire => Ok(None),
            MigratorHandle::Init(migrator) => migrator.migrate_state(source, target, cache, input),
            MigratorHandle::Account(code) => migrate_converting(
                MigratorKind::Account,
                code,
                source,
                target,
                cache,
                input,
            ),
            MigratorHandle::Ledger(code) => migrate_converting(
                MigratorKind::Ledger,
                code,
                source,
                target,
                cache,
                input,
            ),
        }
    }
}

} // verus!
