//! Ids and timestamps.
//!
//! Ids are derived from hashes: of a key where the entity has one, of the
//! current time where it has none. Each id space starts at its own offset.

use std::collections::hash_map::DefaultHasher;
use std::hash::Hasher;
use std::time::{Duration, SystemTime, SystemTimeError};
use vstd::prelude::*;
use vstd::std_specs::hash::DefaultHasherAdditionalSpecFns;

verus! {

/// A reading of the system clock.
#[verifier::external_type_specification]
#[verifier::external_body]
pub struct ExSystemTime(SystemTime);

/// The error of a clock reading that lies before the reference point.
#[verifier::external_type_specification]
#[verifier::external_body]
pub struct ExSystemTimeError(SystemTimeError);

/// What a hasher has been fed once a string was hashed into it: a function
/// of what it had been fed before and of the string's characters.
pub uninterp spec fn str_hash_writes(before: Seq<Seq<u8>>, text: Seq<char>) -> Seq<Seq<u8>>;

/// `str`'s `Hash::hash`: feeds the string to the hasher. What is fed depends
/// on the earlier writes and the string alone.
#[verifier::external_body]
pub(crate) fn hash_str(text: &str, state: &mut DefaultHasher)
    ensures
        final(state)@ == str_hash_writes(old(state)@, text@),
{
    std::hash::Hash::hash(text, state)
}

/// `usize`'s `Hash::hash`: feeds a number to the hasher. What is fed depends
/// on the machine, so nothing is stated of it.
#[verifier::external_body]
pub(crate) fn hash_usize(n: usize, state: &mut DefaultHasher) {
    std::hash::Hash::hash(&n, state)
}

/// `SystemTime::now`: reads the system clock. Nothing is known of the
/// reading.
#[verifier::external_body]
fn system_time_now() -> SystemTime {
    SystemTime::now()
}

/// `SystemTime`'s `Hash::hash`: feeds a clock reading to the hasher. Nothing
/// is stated of what is fed.
#[verifier::external_body]
fn hash_system_time(time: &SystemTime, state: &mut DefaultHasher) {
    std::hash::Hash::hash(time, state)
}

/// `SystemTime::duration_since` with the Unix epoch as the earlier time: the
/// time elapsed since the epoch, or an error for a reading before it.
#[verifier::external_body]
fn duration_since_epoch(time: &SystemTime) -> Result<Duration, SystemTimeError> {
    time.duration_since(std::time::UNIX_EPOCH)
}

/// `Duration::as_secs`: the whole seconds of a duration.
pub assume_specification[ Duration::as_secs ](duration: &Duration) -> u64;

/// `Duration::as_nanos`: a duration in nanoseconds.
pub assume_specification[ Duration::as_nanos ](duration: &Duration) -> u128;

/// What a hash is reduced by before it is placed in an id space.
pub const ID_MODULUS: u64 = 0xFFFF_FFFF;

/// First id of the enemy id space.
pub const ENEMY_ID_OFFSET: u32 = 1_000_000;

/// First id of the projectile id space.
pub const PROJECTILE_ID_OFFSET: u32 = 2_000_000;

/// First id of the world-object id space.
pub const OBJECT_ID_OFFSET: u32 = 1_000;

/// The id that a hash gives in the id space that starts at `offset` and
/// ends with the largest id: the hash, reduced modulo [`ID_MODULUS`] and
/// then to the size of the space, counted from the offset. The id never
/// leaves its space.
pub open spec fn spec_id_from_hash(hash: u64, offset: u32) -> u32 {
    (offset + ((hash % ID_MODULUS) as int) % (0x1_0000_0000 - offset)) as u32
}

/// An id lies in its space, whatever the hash: it is at least the offset.
/// Where the reduced hash fits behind the offset, the id is their sum.
pub proof fn lemma_id_in_space(hash: u64, offset: u32)
    ensures
        spec_id_from_hash(hash, offset) >= offset,
        spec_id_from_hash(hash, offset) == offset + ((hash % ID_MODULUS) as int) % (0x1_0000_0000
            - offset),
        hash % ID_MODULUS + offset <= u32::MAX ==> spec_id_from_hash(hash, offset) == hash
            % ID_MODULUS + offset,
        offset == 0 ==> spec_id_from_hash(hash, offset) == hash % ID_MODULUS,
{
    let reduced = (hash % ID_MODULUS) as int;
    let space = 0x1_0000_0000 - offset;
    vstd::arithmetic::div_mod::lemma_mod_bound(reduced, space);
    if reduced < space {
        vstd::arithmetic::div_mod::lemma_small_mod(reduced as nat, space as nat);
    }
}

/// The id that a hash gives in the id space that starts at `offset`.
pub fn id_from_hash(hash: u64, offset: u32) -> (id: u32)
    ensures
        id == spec_id_from_hash(hash, offset),
        id >= offset,
{
    let reduced: u64 = hash % ID_MODULUS;
    let space: u64 = 0x1_0000_0000 - offset as u64;
    proof {
        lemma_id_in_space(hash, offset);
        vstd::arithmetic::div_mod::lemma_mod_bound(reduced as int, space as int);
    }
    let placed: u64 = offset as u64 + reduced % space;
    placed as u32
}

/// The hash of a string, as a fresh default hasher computes it.
pub open spec fn spec_hash_of_str(text: Seq<char>) -> u64 {
    DefaultHasher::spec_finish(str_hash_writes(Seq::<Seq<u8>>::empty(), text))
}

/// The hash of a string, as a fresh default hasher computes it.
pub fn hash_of_str(text: &str) -> (hash: u64)
    ensures
        hash == spec_hash_of_str(text@),
{
    let mut hasher = DefaultHasher::new();
    hash_str(text, &mut hasher);
    hasher.finish()
}

/// A hash of the current time.
fn hash_of_now() -> u64 {
    let mut hasher = DefaultHasher::new();
    let now = system_time_now();
    hash_system_time(&now, &mut hasher);
    hasher.finish()
}

/// An id for a new combat log entry, drawn from the current time.
pub fn generate_combat_event_id() -> (id: u32)
    ensures
        exists|hash: u64| id == spec_id_from_hash(hash, 0),
        id < ID_MODULUS,
{
    let hash = hash_of_now();
    proof {
        lemma_id_in_space(hash, 0);
    }
    id_from_hash(hash, 0)
}

/// An id for a new enemy, drawn from the current time. It lies in the id
/// space of enemies.
pub fn generate_enemy_id() -> (id: u32)
    ensures
        exists|hash: u64| id == spec_id_from_hash(hash, ENEMY_ID_OFFSET),
        id >= ENEMY_ID_OFFSET,
{
    let hash = hash_of_now();
    id_from_hash(hash, ENEMY_ID_OFFSET)
}

/// An id for a new projectile, drawn from the current time. It lies in the
/// id space of projectiles.
pub fn generate_projectile_id() -> (id: u32)
    ensures
        exists|hash: u64| id == spec_id_from_hash(hash, PROJECTILE_ID_OFFSET),
        id >= PROJECTILE_ID_OFFSET,
{
    let hash = hash_of_now();
    id_from_hash(hash, PROJECTILE_ID_OFFSET)
}

/// An id for a new inventory stack, drawn from the current time.
pub fn generate_inventory_id() -> (id: u32)
    ensures
        exists|hash: u64| id == spec_id_from_hash(hash, 0),
        id < ID_MODULUS,
{
    let hash = hash_of_now();
    proof {
        lemma_id_in_space(hash, 0);
    }
    id_from_hash(hash, 0)
}

/// An id for a new world object, drawn from the current time. It lies in
/// the id space of world objects.
pub fn generate_object_id() -> (id: u32)
    ensures
        exists|hash: u64| id == spec_id_from_hash(hash, OBJECT_ID_OFFSET),
        id >= OBJECT_ID_OFFSET,
{
    let hash = hash_of_now();
    id_from_hash(hash, OBJECT_ID_OFFSET)
}

/// The id of the live instance of the map with the given key.
pub open spec fn spec_map_instance_id(key_id: Seq<char>) -> u32 {
    spec_id_from_hash(spec_hash_of_str(key_id), 0)
}

/// The id of the live instance of the map with the given key: the hash of
/// the key, reduced to the id space.
pub fn generate_map_instance_id(key_id: &str) -> (id: u32)
    ensures
        id == spec_map_instance_id(key_id@),
{
    id_from_hash(hash_of_str(key_id), 0)
}

/// The current time in whole seconds since the Unix epoch, or zero where the
/// clock reads a time before the epoch.
pub fn get_current_timestamp() -> u64 {
    let now = system_time_now();
    match duration_since_epoch(&now) {
        Ok(elapsed) => elapsed.as_secs(),
        Err(_) => 0,
    }
}

/// The low 32 bits of the current time in nanoseconds since the Unix
/// epoch: an id of last resort where probing found none.
pub fn clock_id() -> u32 {
    let now = system_time_now();
    let nanos: u128 = match duration_since_epoch(&now) {
        Ok(elapsed) => elapsed.as_nanos(),
        Err(_) => 0,
    };
    (nanos % 0x1_0000_0000) as u32
}

} // verus!
