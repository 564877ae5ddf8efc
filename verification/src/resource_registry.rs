//! The resource registry: game resources under a key, each with a numeric
//! id that is derived from the key, and the mapping from keys to ids.

use crate::entity::{
    ResourceIdMapping, ResourceIdMappingView, ResourceRegistry, ResourceRegistryView,
};
use crate::error::GameError;
use crate::text::same_text;
use crate::stamp::{clock_id, hash_of_str, id_from_hash, spec_hash_of_str, spec_id_from_hash};
use crate::table::{as_position, first_index, lemma_first_index};
use crate::world::{rows, World, WorldView};
use vstd::prelude::*;

verus! {

/// Number of ids that are probed after the hash of a key before the search
/// for a free id is given up.
pub const MAX_DISAMBIGUATION: u32 = 1000;

/// The resources with the given id.
pub open spec fn resource_has_id(id: u32) -> spec_fn(ResourceRegistryView) -> bool {
    |r: ResourceRegistryView| r.id == id
}

/// The mappings of the given key.
pub open spec fn mapping_has_key(key_id: Seq<char>) -> spec_fn(ResourceIdMappingView) -> bool {
    |m: ResourceIdMappingView| m.key_id == key_id
}

/// The resources of the given type.
pub open spec fn resource_has_type(resource_type: Seq<char>) -> spec_fn(
    ResourceRegistryView,
) -> bool {
    |r: ResourceRegistryView| r.resource_type == resource_type
}

/// Whether the text names a type of resource.
pub open spec fn is_resource_type(resource_type: Seq<char>) -> bool {
    resource_type == "map"@ || resource_type == "item"@ || resource_type == "npc"@
}

/// The id that the hash of a key gives before any probing.
pub open spec fn base_resource_id(key_id: Seq<char>) -> u32 {
    spec_id_from_hash(spec_hash_of_str(key_id), 0)
}

/// The id at the given distance after a base id, wrapping around at 2^32.
pub open spec fn probed_id(base: u32, distance: int) -> u32 {
    ((base + distance) % 0x1_0000_0000) as u32
}

impl WorldView {
    /// The position of the resource with the given id.
    pub open spec fn resource_index(self, id: u32) -> Option<int> {
        first_index(self.resource_registry, resource_has_id(id))
    }

    /// The position of the mapping of the given key.
    pub open spec fn mapping_index(self, key_id: Seq<char>) -> Option<int> {
        first_index(self.resource_id_mapping, mapping_has_key(key_id))
    }

    /// The least distance from `distance` up to the probing limit at which
    /// the id after `base` is free.
    pub open spec fn free_distance(self, base: u32, distance: int) -> Option<int>
        decreases MAX_DISAMBIGUATION + 1 - distance,
    {
        if distance < 0 || distance > MAX_DISAMBIGUATION {
            None
        } else if self.resource_index(probed_id(base, distance)) is None {
            Some(distance)
        } else {
            self.free_distance(base, distance + 1)
        }
    }

    /// The resource that a key leads to, through the mapping: the error
    /// where the key has no mapping or the mapped id no resource.
    pub open spec fn resource_of_key(self, key_id: Seq<char>) -> Result<int, GameError> {
        match self.mapping_index(key_id) {
            None => Err(GameError::ResourceNotFound),
            Some(m) => match self.resource_index(self.resource_id_mapping[m].resource_id) {
                None => Err(GameError::ResourceDataNotFound),
                Some(r) => Ok(r),
            },
        }
    }

    /// The world once a resource was registered under the given id.
    pub open spec fn with_resource(
        self,
        id: u32,
        key_id: Seq<char>,
        resource_type: Seq<char>,
        data: Seq<char>,
    ) -> WorldView {
        WorldView {
            resource_registry: self.resource_registry.push(
                ResourceRegistryView {
                    id: id,
                    key_id: key_id,
                    resource_type: resource_type,
                    data: data,
                    hash_disambiguation: probed_id(id, 0x1_0000_0000 - base_resource_id(key_id)),
                },
            ),
            resource_id_mapping: self.resource_id_mapping.push(
                ResourceIdMappingView { key_id: key_id, resource_id: id },
            ),
            ..self
        }
    }

    /// Whether this world is what registering a resource under the given
    /// id makes of `before`, and `r` the answer. A key that is mapped
    /// already and an unknown type are refused. The id is the first free
    /// one after the hash of the key, where probing finds one.
    pub open spec fn registration_outcome(
        self,
        before: WorldView,
        r: Result<(), GameError>,
        id: u32,
        key_id: Seq<char>,
        resource_type: Seq<char>,
        data: Seq<char>,
    ) -> bool {
        if before.mapping_index(key_id) is Some {
            r == Err::<(), GameError>(GameError::ResourceAlreadyRegistered) && self == before
        } else if !is_resource_type(resource_type) {
            r == Err::<(), GameError>(GameError::InvalidResourceType) && self == before
        } else {
            &&& r is Ok
            &&& self == before.with_resource(id, key_id, resource_type, data)
            &&& before.free_distance(base_resource_id(key_id), 0) matches Some(d) ==> id
                == probed_id(base_resource_id(key_id), d)
        }
    }
}

impl World {
    /// The position of the first resource with the given id.
    pub fn find_resource(&self, id: u32) -> (r: Option<usize>)
        ensures
            as_position(r) == self@.resource_index(id),
            r matches Some(k) ==> k < self.resource_registry.len(),
    {
        let ghost p = resource_has_id(id);
        let mut k: usize = 0;
        while k < self.resource_registry.len()
            invariant
                k <= self.resource_registry.len(),
                p == resource_has_id(id),
                forall|j: int| 0 <= j < k ==> !p(#[trigger] self@.resource_registry[j]),
            decreases self.resource_registry.len() - k,
        {
            if self.resource_registry[k].id == id {
                proof {
                    assert(p(self@.resource_registry[k as int]));
                    lemma_first_index(self@.resource_registry, p, Some(k as int));
                }
                return Some(k);
            }
            k += 1;
        }
        proof {
            lemma_first_index(self@.resource_registry, p, None);
        }
        None
    }

    /// The position of the first mapping of the given key.
    pub fn find_mapping(&self, key_id: &str) -> (r: Option<usize>)
        ensures
            as_position(r) == self@.mapping_index(key_id@),
            r matches Some(k) ==> k < self.resource_id_mapping.len(),
    {
        let ghost p = mapping_has_key(key_id@);
        let mut k: usize = 0;
        while k < self.resource_id_mapping.len()
            invariant
                k <= self.resource_id_mapping.len(),
                p == mapping_has_key(key_id@),
                forall|j: int| 0 <= j < k ==> !p(#[trigger] self@.resource_id_mapping[j]),
            decreases self.resource_id_mapping.len() - k,
        {
            if same_text(self.resource_id_mapping[k].key_id.as_str(), key_id) {
                proof {
                    assert(p(self@.resource_id_mapping[k as int]));
                    lemma_first_index(self@.resource_id_mapping, p, Some(k as int));
                }
                return Some(k);
            }
            k += 1;
        }
        proof {
            lemma_first_index(self@.resource_id_mapping, p, None);
        }
        None
    }

    /// The position of the resource that a key leads to.
    pub fn find_resource_of_key(&self, key_id: &str) -> (r: Result<usize, GameError>)
        ensures
            match self@.resource_of_key(key_id@) {
                Ok(k) => r == Ok::<usize, GameError>(k as usize)
                    && k < self.resource_registry.len(),
                Err(e) => r == Err::<usize, GameError>(e),
            },
    {
        let m = match self.find_mapping(key_id) {
            Some(m) => m,
            None => {
                return Err(GameError::ResourceNotFound);
            },
        };
        assert(self@.resource_id_mapping[m as int] == self.resource_id_mapping[m as int]@);
        match self.find_resource(self.resource_id_mapping[m].resource_id) {
            Some(k) => Ok(k),
            None => Err(GameError::ResourceDataNotFound),
        }
    }
}

/// Whether the text names a type of resource.
pub fn is_valid_resource_type(resource_type: &str) -> (r: bool)
    ensures
        r == is_resource_type(resource_type@),
{
    same_text(resource_type, "map") || same_text(resource_type, "item") || same_text(
        resource_type,
        "npc",
    )
}

/// The id at the given distance after a base id, wrapping around at 2^32.
fn probe(base: u32, distance: u32) -> (id: u32)
    ensures
        id == probed_id(base, distance as int),
{
    ((base as u64 + distance as u64) % 0x1_0000_0000) as u32
}

/// An id for a new resource with the given key: the first free id at or
/// after the hash of the key, within the probing limit. Where every probed
/// id is taken, the id is drawn from the clock, and nothing is known of it.
pub fn generate_resource_id(world: &World, key_id: &str) -> (id: u32)
    ensures
        world@.free_distance(base_resource_id(key_id@), 0) matches Some(d) ==> id == probed_id(
            base_resource_id(key_id@),
            d,
        ) && world@.resource_index(id) is None,
{
    let base = id_from_hash(hash_of_str(key_id), 0);
    let mut distance: u32 = 0;
    while distance <= MAX_DISAMBIGUATION
        invariant
            distance <= MAX_DISAMBIGUATION + 1,
            base == base_resource_id(key_id@),
            world@.free_distance(base, 0) == world@.free_distance(base, distance as int),
        decreases MAX_DISAMBIGUATION + 1 - distance,
    {
        let id = probe(base, distance);
        if world.find_resource(id).is_none() {
            return id;
        }
        distance += 1;
    }
    clock_id()
}

/// Registers a resource under a key. Fails, without changing anything,
/// where the key is registered already or the type is not one of `map`,
/// `item` and `npc`.
pub fn register_resource(
    world: &mut World,
    key_id: String,
    resource_type: String,
    data: String,
) -> (r: Result<(), GameError>)
    ensures
        old(world)@.wf() ==> final(world)@.wf(),
        exists|id: u32|
            final(world)@.registration_outcome(
                old(world)@,
                r,
                id,
                key_id@,
                resource_type@,
                data@,
            ),
{
    let ghost before = world@;
    if world.find_mapping(key_id.as_str()).is_some() {
        assert(world@.registration_outcome(
            before,
            Err(GameError::ResourceAlreadyRegistered),
            0,
            key_id@,
            resource_type@,
            data@,
        ));
        return Err(GameError::ResourceAlreadyRegistered);
    }
    if !is_valid_resource_type(resource_type.as_str()) {
        assert(world@.registration_outcome(
            before,
            Err(GameError::InvalidResourceType),
            0,
            key_id@,
            resource_type@,
            data@,
        ));
        return Err(GameError::InvalidResourceType);
    }
    let id = generate_resource_id(world, key_id.as_str());
    let base = id_from_hash(hash_of_str(key_id.as_str()), 0);
    let disambiguation = probe(id, ((0x1_0000_0000u64 - base as u64) % 0x1_0000_0000) as u32);
    assert(disambiguation == probed_id(id, 0x1_0000_0000 - base_resource_id(key_id@))) by {
        let b = base as int;
        let i = id as int;
        if b == 0 {
            assert((i + 0x1_0000_0000) % 0x1_0000_0000 == i % 0x1_0000_0000) by {
                vstd::arithmetic::div_mod::lemma_mod_add_multiples_vanish(i, 0x1_0000_0000);
            }
        }
    }
    let resource = ResourceRegistry {
        id: id,
        key_id: key_id.clone(),
        resource_type: resource_type,
        data: data,
        hash_disambiguation: disambiguation,
    };
    let mapping = ResourceIdMapping { key_id: key_id, resource_id: id };
    world.resource_registry.push(resource);
    world.resource_id_mapping.push(mapping);
    proof {
        assert(world@.resource_registry =~= before.resource_registry.push(resource@));
        assert(world@.resource_id_mapping =~= before.resource_id_mapping.push(mapping@));
        assert(world@.registration_outcome(before, Ok(()), id, key_id@, resource_type@, data@));
    }
    Ok(())
}

/// The resource with the given key. Fails where the key is not registered
/// or leads to an id that no resource has.
pub fn get_resource_by_key(
    world: &World,
    key_id: String,
) -> (r: Result<ResourceRegistry, GameError>)
    ensures
        match world@.resource_of_key(key_id@) {
            Ok(k) => r matches Ok(resource) && resource@ == world@.resource_registry[k],
            Err(e) => r matches Err(f) && f == e,
        },
{
    match world.find_resource_of_key(key_id.as_str()) {
        Ok(k) => Ok(world.resource_registry[k].clone()),
        Err(e) => Err(e),
    }
}

/// The resource with the given id. Fails where there is none.
pub fn get_resource_by_id(world: &World, resource_id: u32) -> (r: Result<
    ResourceRegistry,
    GameError,
>)
    ensures
        match world@.resource_index(resource_id) {
            Some(k) => r matches Ok(resource) && resource@ == world@.resource_registry[k],
            None => r matches Err(e) && e == GameError::ResourceNotFound,
        },
{
    match world.find_resource(resource_id) {
        Some(k) => Ok(world.resource_registry[k].clone()),
        None => Err(GameError::ResourceNotFound),
    }
}

/// Replaces the data of the resource with the given key. Fails, without
/// changing anything, where the key is not registered or leads to an id
/// that no resource has.
pub fn update_resource(world: &mut World, key_id: String, new_data: String) -> (r: Result<
    (),
    GameError,
>)
    ensures
        old(world)@.wf() ==> final(world)@.wf(),
        match old(world)@.resource_of_key(key_id@) {
            Ok(k) => r is Ok && final(world)@ == (WorldView {
                resource_registry: old(world)@.resource_registry.update(
                    k,
                    ResourceRegistryView { data: new_data@, ..old(world)@.resource_registry[k] },
                ),
                ..old(world)@
            }),
            Err(e) => r == Err::<(), GameError>(e) && final(world)@ == old(world)@,
        },
{
    match world.find_resource_of_key(key_id.as_str()) {
        Ok(k) => {
            world.resource_registry[k].data = new_data;
            assert(world@.resource_registry =~= old(world)@.resource_registry.update(
                k as int,
                ResourceRegistryView {
                    data: new_data@,
                    ..old(world)@.resource_registry[k as int]
                },
            ));
            Ok(())
        },
        Err(e) => Err(e),
    }
}

/// Removes the resource with the given key, and the mapping of the key.
/// Fails, without changing anything, where the key is not registered.
pub fn remove_resource(world: &mut World, key_id: String) -> (r: Result<(), GameError>)
    ensures
        old(world)@.wf() ==> final(world)@.wf(),
        match old(world)@.mapping_index(key_id@) {
            None => r == Err::<(), GameError>(GameError::ResourceNotFound)
                && final(world)@ == old(world)@,
            Some(m) => r is Ok && final(world)@ == (WorldView {
                resource_registry: match old(world)@.resource_index(
                    old(world)@.resource_id_mapping[m].resource_id,
                ) {
                    Some(k) => old(world)@.resource_registry.remove(k),
                    None => old(world)@.resource_registry,
                },
                resource_id_mapping: old(world)@.resource_id_mapping.remove(m),
                ..old(world)@
            }),
        },
{
    let m = match world.find_mapping(key_id.as_str()) {
        Some(m) => m,
        None => {
            return Err(GameError::ResourceNotFound);
        },
    };
    assert(world@.resource_id_mapping[m as int] == world.resource_id_mapping[m as int]@);
    let resource_id = world.resource_id_mapping[m].resource_id;
    match world.find_resource(resource_id) {
        Some(k) => {
            let _ = world.resource_registry.remove(k);
            assert(world@.resource_registry =~= old(world)@.resource_registry.remove(k as int));
        },
        None => {},
    }
    let _ = world.resource_id_mapping.remove(m);
    assert(world@.resource_id_mapping =~= old(world)@.resource_id_mapping.remove(m as int));
    Ok(())
}

/// The resources of the given type, in table order. Fails where the type is
/// not one of `map`, `item` and `npc`.
pub fn list_resources_by_type(world: &World, resource_type: String) -> (r: Result<
    Vec<ResourceRegistry>,
    GameError,
>)
    ensures
        if is_resource_type(resource_type@) {
            r matches Ok(found) && rows(found@) == world@.resource_registry.filter(
                resource_has_type(resource_type@),
            )
        } else {
            r matches Err(e) && e == GameError::InvalidResourceType
        },
{
    if !is_valid_resource_type(resource_type.as_str()) {
        return Err(GameError::InvalidResourceType);
    }
    let ghost p = resource_has_type(resource_type@);
    let mut found: Vec<ResourceRegistry> = Vec::new();
    let mut k: usize = 0;
    proof {
        assert(world@.resource_registry.take(0) =~= Seq::<ResourceRegistryView>::empty());
        reveal(Seq::filter);
        assert(rows(found@) =~= world@.resource_registry.take(0).filter(p));
    }
    while k < world.resource_registry.len()
        invariant
            k <= world.resource_registry.len(),
            p == resource_has_type(resource_type@),
            rows(found@) == world@.resource_registry.take(k as int).filter(p),
        decreases world.resource_registry.len() - k,
    {
        let resource = &world.resource_registry[k];
        let ghost so_far = rows(found@);
        proof {
            world@.resource_registry.lemma_take_succ_push(k as int);
            world@.resource_registry.take(k as int).lemma_filter_push(
                world@.resource_registry[k as int],
                p,
            );
        }
        if same_text(resource.resource_type.as_str(), resource_type.as_str()) {
            found.push(resource.clone());
            assert(rows(found@) =~= so_far.push(resource@));
        }
        k += 1;
    }
    proof {
        world@.resource_registry.lemma_take_len();
    }
    Ok(found)
}

/// The number of registered resources and the number of mappings.
pub fn sync_resource_registry(world: &World) -> (r: Result<(usize, usize), GameError>)
    ensures
        r == Ok::<(usize, usize), GameError>(
            (world@.resource_registry.len() as usize, world@.resource_id_mapping.len() as usize),
        ),
{
    Ok((world.resource_registry.len(), world.resource_id_mapping.len()))
}

} // verus!
