//! The world state store: one snapshot of every table the simulation reads
//! and writes. Every operation of the library takes the store by exclusive
//! reference and runs to completion before the next one starts.

use crate::entity::{
    CombatEvent, CombatEventView, Enemy, EnemyView, InteractableObject, InteractableObjectView,
    InventoryItem, InventoryItemView, MapInstance, MapInstanceView, MapTemplate, MapTemplateView,
    MapTransition, MapTransitionView, Player, PlayerEquipment, PlayerEquipmentView, PlayerView,
    Projectile, ProjectileView, ResourceIdMapping, ResourceIdMappingView, ResourceRegistry,
    ResourceRegistryView, WorldMutation,
};
use crate::fixed::SCALE;
use crate::table::{as_position, first_index, lemma_first_index};
use vstd::prelude::*;

verus! {

/// The tables of the world, each in insertion order.
pub struct World {
    /// Player characters.
    pub players: Vec<Player>,
    /// Enemies alive in the world.
    pub enemies: Vec<Enemy>,
    /// Projectiles in flight.
    pub projectiles: Vec<Projectile>,
    /// The combat log, oldest entry first.
    pub combat_events: Vec<CombatEvent>,
    /// Map templates.
    pub map_templates: Vec<MapTemplate>,
    /// Live maps.
    pub map_instances: Vec<MapInstance>,
    /// Transition zones.
    pub map_transitions: Vec<MapTransition>,
    /// Recorded tile changes.
    pub world_mutations: Vec<WorldMutation>,
    /// Inventory stacks of all players.
    pub inventory_items: Vec<InventoryItem>,
    /// Equipment slots of all players.
    pub player_equipment: Vec<PlayerEquipment>,
    /// Harvestable world objects.
    pub interactable_objects: Vec<InteractableObject>,
    /// Registered resources.
    pub resource_registry: Vec<ResourceRegistry>,
    /// Resource keys with the ids they map to.
    pub resource_id_mapping: Vec<ResourceIdMapping>,
}

/// The mathematical value of a [`World`].
pub ghost struct WorldView {
    pub players: Seq<PlayerView>,
    pub enemies: Seq<EnemyView>,
    pub projectiles: Seq<ProjectileView>,
    pub combat_events: Seq<CombatEventView>,
    pub map_templates: Seq<MapTemplateView>,
    pub map_instances: Seq<MapInstanceView>,
    pub map_transitions: Seq<MapTransitionView>,
    pub world_mutations: Seq<WorldMutation>,
    pub inventory_items: Seq<InventoryItemView>,
    pub player_equipment: Seq<PlayerEquipmentView>,
    pub interactable_objects: Seq<InteractableObjectView>,
    pub resource_registry: Seq<ResourceRegistryView>,
    pub resource_id_mapping: Seq<ResourceIdMappingView>,
}

/// The values of the rows of a table.
pub open spec fn rows<T: View>(table: Seq<T>) -> Seq<T::V> {
    table.map_values(|row: T| row@)
}

impl View for World {
    type V = WorldView;

    open spec fn view(&self) -> WorldView {
        WorldView {
            players: rows(self.players@),
            enemies: rows(self.enemies@),
            projectiles: rows(self.projectiles@),
            combat_events: rows(self.combat_events@),
            map_templates: rows(self.map_templates@),
            map_instances: rows(self.map_instances@),
            map_transitions: rows(self.map_transitions@),
            world_mutations: self.world_mutations@,
            inventory_items: rows(self.inventory_items@),
            player_equipment: rows(self.player_equipment@),
            interactable_objects: rows(self.interactable_objects@),
            resource_registry: rows(self.resource_registry@),
            resource_id_mapping: rows(self.resource_id_mapping@),
        }
    }
}

/// The health invariant of a player: health never exceeds the capacity, the
/// capacity is at least one hit point, and the player is downed exactly
/// while health is zero.
pub open spec fn player_wf(p: PlayerView) -> bool {
    &&& p.health <= p.max_health
    &&& p.max_health >= SCALE
    &&& (p.is_downed <==> p.health == 0)
}

/// The players with the given id.
pub open spec fn player_has_id(id: u32) -> spec_fn(PlayerView) -> bool {
    |p: PlayerView| p.id == id
}

/// The enemies with the given id.
pub open spec fn enemy_has_id(id: u32) -> spec_fn(EnemyView) -> bool {
    |e: EnemyView| e.id == id
}

impl WorldView {
    /// Every player satisfies the health invariant.
    pub open spec fn wf(self) -> bool {
        forall|i: int| 0 <= i < self.players.len() ==> player_wf(#[trigger] self.players[i])
    }

    /// No two players have the same id.
    pub open spec fn player_ids_distinct(self) -> bool {
        forall|i: int, j: int|
            0 <= i < j < self.players.len() ==> (#[trigger] self.players[i]).id
                != (#[trigger] self.players[j]).id
    }

    /// No two enemies have the same id.
    pub open spec fn enemy_ids_distinct(self) -> bool {
        forall|i: int, j: int|
            0 <= i < j < self.enemies.len() ==> (#[trigger] self.enemies[i]).id
                != (#[trigger] self.enemies[j]).id
    }

    /// The position of the player with the given id.
    pub open spec fn player_index(self, id: u32) -> Option<int> {
        first_index(self.players, player_has_id(id))
    }

    /// The position of the enemy with the given id.
    pub open spec fn enemy_index(self, id: u32) -> Option<int> {
        first_index(self.enemies, enemy_has_id(id))
    }
}

/// An id that no lookup finds is the id of no player.
pub proof fn lemma_free_player_id(w: WorldView, id: u32)
    requires
        w.player_index(id) is None,
    ensures
        forall|i: int| 0 <= i < w.players.len() ==> (#[trigger] w.players[i]).id != id,
{
    crate::table::lemma_first_index_is_first(w.players, player_has_id(id));
    assert forall|i: int| 0 <= i < w.players.len() implies (#[trigger] w.players[i]).id != id by {
        assert(!player_has_id(id)(w.players[i]));
    }
}

/// An id that no lookup finds is the id of no enemy.
pub proof fn lemma_free_enemy_id(w: WorldView, id: u32)
    requires
        w.enemy_index(id) is None,
    ensures
        forall|i: int| 0 <= i < w.enemies.len() ==> (#[trigger] w.enemies[i]).id != id,
{
    crate::table::lemma_first_index_is_first(w.enemies, enemy_has_id(id));
    assert forall|i: int| 0 <= i < w.enemies.len() implies (#[trigger] w.enemies[i]).id != id by {
        assert(!enemy_has_id(id)(w.enemies[i]));
    }
}

impl World {
    /// A world with empty tables.
    pub fn new() -> (world: World)
        ensures
            world@.players.len() == 0,
            world@.enemies.len() == 0,
            world@.projectiles.len() == 0,
            world@.combat_events.len() == 0,
            world@.map_templates.len() == 0,
            world@.map_instances.len() == 0,
            world@.map_transitions.len() == 0,
            world@.world_mutations.len() == 0,
            world@.inventory_items.len() == 0,
            world@.player_equipment.len() == 0,
            world@.interactable_objects.len() == 0,
            world@.resource_registry.len() == 0,
            world@.resource_id_mapping.len() == 0,
            world@.wf(),
    {
        World {
            players: Vec::new(),
            enemies: Vec::new(),
            projectiles: Vec::new(),
            combat_events: Vec::new(),
            map_templates: Vec::new(),
            map_instances: Vec::new(),
            map_transitions: Vec::new(),
            world_mutations: Vec::new(),
            inventory_items: Vec::new(),
            player_equipment: Vec::new(),
            interactable_objects: Vec::new(),
            resource_registry: Vec::new(),
            resource_id_mapping: Vec::new(),
        }
    }

    /// Whether every player satisfies the health invariant.
    pub fn is_wf(&self) -> (r: bool)
        ensures
            r == self@.wf(),
    {
        let mut i: usize = 0;
        while i < self.players.len()
            invariant
                i <= self.players.len(),
                forall|j: int| 0 <= j < i ==> player_wf(#[trigger] self@.players[j]),
            decreases self.players.len() - i,
        {
            let p = &self.players[i];
            let ok = p.health <= p.max_health && p.max_health >= SCALE as u32 && (p.is_downed
                == (p.health == 0));
            if !ok {
                assert(!player_wf(self@.players[i as int]));
                return false;
            }
            i += 1;
        }
        true
    }

    /// The position of the first player with the given id.
    pub fn find_player(&self, id: u32) -> (r: Option<usize>)
        ensures
            as_position(r) == self@.player_index(id),
            r matches Some(i) ==> i < self.players.len() && self.players[i as int].id == id,
    {
        let ghost p = player_has_id(id);
        let mut i: usize = 0;
        while i < self.players.len()
            invariant
                i <= self.players.len(),
                p == player_has_id(id),
                forall|j: int| 0 <= j < i ==> !p(#[trigger] self@.players[j]),
            decreases self.players.len() - i,
        {
            if self.players[i].id == id {
                proof {
                    assert(p(self@.players[i as int]));
                    lemma_first_index(self@.players, p, Some(i as int));
                }
                return Some(i);
            }
            i += 1;
        }
        proof {
            lemma_first_index(self@.players, p, None);
        }
        None
    }

    /// The position of the first enemy with the given id.
    pub fn find_enemy(&self, id: u32) -> (r: Option<usize>)
        ensures
            as_position(r) == self@.enemy_index(id),
            r matches Some(i) ==> i < self.enemies.len() && self.enemies[i as int].id == id,
    {
        let ghost p = enemy_has_id(id);
        let mut i: usize = 0;
        while i < self.enemies.len()
            invariant
                i <= self.enemies.len(),
                p == enemy_has_id(id),
                forall|j: int| 0 <= j < i ==> !p(#[trigger] self@.enemies[j]),
            decreases self.enemies.len() - i,
        {
            if self.enemies[i].id == id {
                proof {
                    assert(p(self@.enemies[i as int]));
                    lemma_first_index(self@.enemies, p, Some(i as int));
                }
                return Some(i);
            }
            i += 1;
        }
        proof {
            lemma_first_index(self@.enemies, p, None);
        }
        None
    }
}

} // verus!
