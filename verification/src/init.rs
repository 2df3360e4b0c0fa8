//! The migration of the init actor's state to the schema of network version
//! 18.

use crate::cache::MigrationCache;
use crate::error::{run_failure, ErrorKind, Failure, MigrationError, Stage};
use crate::hash::{CodeId, ContentHash};
use crate::migrator::{
    cache_valid, migrate_converting, migrated, spec_cache_after, MigrationInput, MigrationOutput,
    MigratorHandle, MigratorHandleView, MigratorKind,
};
use crate::store::MemoryStore;
use vstd::prelude::*;

verus! {

/// The init actor's state as plain values: the link to the map of addresses,
/// the next actor number to give out, and the network's name.
pub struct InitStateView {
    pub address_map: Seq<u8>,
    pub next_id: u64,
    pub network_name: Seq<char>,
}

/// The init actor's state in the schema of actors version 9.
#[derive(Debug)]
pub struct InitStateV9 {
    pub address_map: ContentHash,
    pub next_id: u64,
    pub network_name: String,
}

/// The init actor's state in the schema of actors version 10.
#[derive(Debug)]
pub struct InitStateV10 {
    pub address_map: ContentHash,
    pub next_id: u64,
    pub network_name: String,
}

impl View for InitStateV9 {
    type V = InitStateView;

    open spec fn view(&self) -> InitStateView {
        InitStateView {
            address_map: self.address_map@,
            next_id: self.next_id,
            network_name: self.network_name@,
        }
    }
}

impl View for InitStateV10 {
    type V = InitStateView;

    open spec fn view(&self) -> InitStateView {
        InitStateView {
            address_map: self.address_map@,
            next_id: self.next_id,
            network_name: self.network_name@,
        }
    }
}

/// The version 9 state that a block of CBOR decodes to, if it decodes to one.
pub uninterp spec fn spec_decode_init_v9(bytes: Seq<u8>) -> Option<InitStateView>;

/// The CBOR of a version 10 state, if its link is a content identifier.
pub uninterp spec fn spec_encode_init_v10(state: InitStateView) -> Option<Seq<u8>>;

/// The version 10 state that a block of CBOR decodes to, if it decodes to
/// one.
pub uninterp spec fn spec_decode_init_v10(bytes: Seq<u8>) -> Option<InitStateView>;

/// A state that was read back, if there is one, as a plain value.
pub open spec fn read_back_view(state: Option<InitStateV10>) -> Option<InitStateView> {
    match state {
        Some(s) => Some(s@),
        None => None,
    }
}

/// A decoded state, if there is one, as a plain value.
pub open spec fn decoded_view(state: Option<InitStateV9>) -> Option<InitStateView> {
    match state {
        Some(s) => Some(s@),
        None => None,
    }
}

/// Encoded bytes, if there are any, as a plain value.
pub open spec fn encoded_view(bytes: Option<Vec<u8>>) -> Option<Seq<u8>> {
    match bytes {
        Some(b) => Some(b@),
        None => None,
    }
}

/// Decodes a block with `fvm_ipld_encoding::from_slice` as a
/// `fil_actor_init_state::v9::State` and hands its three fields over, the
/// link in its binary form (`cid::Cid::to_bytes`). Bytes that do not decode
/// give nothing. What comes out depends on the bytes alone; nothing more is
/// claimed of it.
#[verifier::external_body]
fn decode_init_v9(bytes: &[u8]) -> (state: Option<InitStateV9>)
    ensures
        decoded_view(state) == spec_decode_init_v9(bytes@),
{
    match fvm_ipld_encoding::from_slice::<fil_actor_init_state::v9::State>(bytes) {
        Ok(state) => Some(
            InitStateV9 {
                address_map: ContentHash::from_bytes(state.address_map.to_bytes()),
                next_id: state.next_id,
                network_name: state.network_name,
            },
        ),
        Err(_) => None,
    }
}

/// Builds a `fil_actor_init_state::v10::State` of the three fields, the link
/// read with `cid::Cid::try_from`, and encodes it with
/// `fvm_ipld_encoding::to_vec`. A link that is no content identifier, or a
/// state that the encoder refuses, gives nothing. What comes out depends on
/// the three fields alone; nothing more is claimed of it.
#[verifier::external_body]
fn encode_init_v10(state: &InitStateV10) -> (bytes: Option<Vec<u8>>)
    ensures
        encoded_view(bytes) == spec_encode_init_v10(state@),
{
    match cid::Cid::try_from(state.address_map.as_bytes()) {
        Ok(address_map) => fvm_ipld_encoding::to_vec(
            &fil_actor_init_state::v10::State {
                address_map,
                next_id: state.next_id,
                network_name: state.network_name.clone(),
            },
        ).ok(),
        Err(_) => None,
    }
}

/// Decodes a block with `fvm_ipld_encoding::from_slice` as a
/// `fil_actor_init_state::v10::State` and hands its three fields over, the
/// link in its binary form (`cid::Cid::to_bytes`). Bytes that do not decode
/// give nothing. What comes out depends on the bytes alone; nothing more is
/// claimed of it.
#[verifier::external_body]
fn decode_init_v10(bytes: &[u8]) -> (state: Option<InitStateV10>)
    ensures
        read_back_view(state) == spec_decode_init_v10(bytes@),
{
    match fvm_ipld_encoding::from_slice::<fil_actor_init_state::v10::State>(bytes) {
        Ok(state) => Some(
            InitStateV10 {
                address_map: ContentHash::from_bytes(state.address_map.to_bytes()),
                next_id: state.next_id,
                network_name: state.network_name,
            },
        ),
        Err(_) => None,
    }
}

/// The rule for the init actor: the three fields are copied.
pub open spec fn spec_migrate_init(old: InitStateView) -> InitStateView {
    InitStateView {
        address_map: old.address_map,
        next_id: old.next_id,
        network_name: old.network_name,
    }
}

/// Converts the init actor's state to the new schema. It cannot fail.
pub fn migrate_init_state(old: InitStateV9) -> (new: Result<InitStateV10, MigrationError>)
    ensures
        new matches Ok(state) && state@ == spec_migrate_init(old@),
{
    Ok(
        InitStateV10 {
            address_map: old.address_map,
            next_id: old.next_id,
            network_name: old.network_name,
        },
    )
}

/// The new record of a new state, given its encoding, if it has one: the
/// encoded bytes, where they decode to the state again. A state that does
/// not encode, or whose bytes do not read back as the state, has no record.
pub open spec fn spec_checked_init(new: InitStateView, encoded: Option<Seq<u8>>) -> Result<
    Seq<u8>,
    Failure,
> {
    match encoded {
        Some(bytes) => if spec_decode_init_v10(bytes) == Some(new) {
            Ok(bytes)
        } else {
            Err((ErrorKind::ConversionFailure, Stage::Encode))
        },
        None => Err((ErrorKind::ConversionFailure, Stage::Encode)),
    }
}

/// The new record that comes of the decoded old state, if the block decoded.
pub open spec fn spec_convert_decoded_init(decoded: Option<InitStateView>) -> Result<
    Seq<u8>,
    Failure,
> {
    match decoded {
        Some(old) => spec_checked_init(
            spec_migrate_init(old),
            spec_encode_init_v10(spec_migrate_init(old)),
        ),
        None => Err((ErrorKind::MalformedRecord, Stage::Decode)),
    }
}

/// The new record that comes of the init actor's old record.
pub open spec fn spec_convert_init(old: Seq<u8>) -> Result<Seq<u8>, Failure> {
    spec_convert_decoded_init(spec_decode_init_v9(old))
}

/// Whether two states hold the same link, number and name.
pub fn same_init_state(one: &InitStateV10, other: &InitStateV10) -> (same: bool)
    ensures
        same == (one@ == other@),
{
    one.next_id == other.next_id && one.address_map == other.address_map && one.network_name
        == other.network_name
}

/// Accepts the bytes of a new state as its record where they were read back
/// as that state, and refuses them where they were not.
pub fn checked_init_record(new: &InitStateV10, bytes: Vec<u8>, back: Option<InitStateV10>) -> (outcome:
    Result<Vec<u8>, MigrationError>)
    ensures
        match outcome {
            Ok(record) => record@ == bytes@ && read_back_view(back) == Some(new@),
            Err(e) => read_back_view(back) != Some(new@) && e@ == run_failure(
                ErrorKind::ConversionFailure,
                Stage::Encode,
            ),
        },
{
    let agrees = match &back {
        Some(state) => same_init_state(state, new),
        None => false,
    };
    if agrees {
        Ok(bytes)
    } else {
        Err(MigrationError::of_run(ErrorKind::ConversionFailure, Stage::Encode))
    }
}

/// Converts the decoded old state, if the block decoded, and encodes the new
/// one. The encoded bytes are read back, and count as the new record only
/// where they give the new state again.
pub fn convert_decoded_init(decoded: Option<InitStateV9>) -> (outcome: Result<
    Vec<u8>,
    MigrationError,
>)
    ensures
        match outcome {
            Ok(bytes) => spec_convert_decoded_init(decoded_view(decoded)) == Ok::<Seq<u8>, Failure>(
                bytes@,
            ),
            Err(e) => spec_convert_decoded_init(decoded_view(decoded)) matches Err(f) && e@
                == run_failure(f.0, f.1),
        },
{
    match decoded {
        Some(old) => {
            match migrate_init_state(old) {
                Ok(new) => match encode_init_v10(&new) {
                    Some(bytes) => {
                        let back = decode_init_v10(bytes.as_slice());
                        checked_init_record(&new, bytes, back)
                    },
                    None => Err(
                        MigrationError::of_run(ErrorKind::ConversionFailure, Stage::Encode),
                    ),
                },
                Err(e) => Err(e),
            }
        },
        None => Err(MigrationError::of_run(ErrorKind::MalformedRecord, Stage::Decode)),
    }
}

/// Converts the init actor's old record to its new record.
pub fn convert_init(old: &[u8]) -> (outcome: Result<Vec<u8>, MigrationError>)
    ensures
        match outcome {
            Ok(bytes) => spec_convert_init(old@) == Ok::<Seq<u8>, Failure>(bytes@),
            Err(e) => spec_convert_init(old@) matches Err(f) && e@ == run_failure(f.0, f.1),
        },
{
    convert_decoded_init(decode_init_v9(old))
}

/// The migrator of the init actor. It holds the code identifier that the
/// actor gets.
#[derive(Debug)]
pub struct InitMigrator(pub CodeId);

/// The handle of the init actor's migrator for a new code identifier.
pub fn init_migrator(cid: CodeId) -> (handle: MigratorHandle)
    ensures
        handle@ == (MigratorHandleView { kind: MigratorKind::Init, new_code: cid@ }),
{
    MigratorHandle::Init(InitMigrator(cid))
}

impl InitMigrator {
    /// Reads the actor's old state from the source store, converts it, writes
    /// the new state to the target store, and gives the new code identifier
    /// with the new state's hash. A conversion that the cache remembers is
    /// not made again.
    pub fn migrate_state(
        &self,
        source: &MemoryStore,
        target: &mut MemoryStore,
        cache: &mut MigrationCache,
        input: &MigrationInput,
    ) -> (outcome: Result<Option<MigrationOutput>, MigrationError>)
        requires
            cache_valid(old(cache)@, source.blocks(), old(target).blocks()),
        ensures
            final(cache).enabled() == old(cache).enabled(),
            final(cache)@ == spec_cache_after(
                MigratorKind::Init,
                old(cache)@,
                old(cache).enabled(),
                input@,
                outcome,
            ),
            cache_valid(final(cache)@, source.blocks(), final(target).blocks()),
            migrated(
                MigratorHandleView { kind: MigratorKind::Init, new_code: self.0@ },
                source.blocks(),
                old(target).blocks(),
                final(target).blocks(),
                input@,
                outcome,
            ),
    {
        migrate_converting(MigratorKind::Init, &self.0, source, target, cache, input)
    }
}

} // verus!
