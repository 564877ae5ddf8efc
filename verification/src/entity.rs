//! The entities of the world and their mathematical values.
//!
//! Each entity is a plain record. Its view replaces every string by the
//! sequence of its characters, so that contracts can speak of whole records.

use spacetimedb::{Identity, Timestamp};
use vstd::prelude::*;

verus! {

/// The credential of a client, as the database host hands it out. The
/// simulation only stores it and compares it.
#[verifier::external_type_specification]
#[verifier::external_body]
pub struct ExIdentity(Identity);

/// A point in time as the database host measures it. The simulation only
/// stores it.
#[verifier::external_type_specification]
#[verifier::external_body]
pub struct ExTimestamp(Timestamp);

/// `Identity`'s `==`, which compares the 256-bit numbers that two identities
/// hold: it answers `true` exactly when both are the same identity.
#[verifier::external_body]
pub(crate) fn same_identity(a: &Identity, b: &Identity) -> (r: bool)
    ensures
        r == (*a == *b),
{
    a == b
}

/// Whether an id names a player or an enemy. Ids of the two kinds come from
/// separate id spaces, so an id alone does not tell what it names.
#[derive(Clone, Copy, Debug, PartialEq, Eq, Structural)]
pub enum EntityKind {
    /// A player character.
    Player,
    /// A hostile creature.
    Enemy,
}

impl EntityKind {
    /// The tag that stands for the kind where kinds are stored as text.
    pub open spec fn spec_tag(self) -> Seq<char> {
        match self {
            EntityKind::Player => "Player"@,
            EntityKind::Enemy => "Enemy"@,
        }
    }

    /// The kind that a tag stands for: `Player` for a player, anything else
    /// for an enemy.
    pub open spec fn spec_from_tag(tag: Seq<char>) -> EntityKind {
        if tag == "Player"@ {
            EntityKind::Player
        } else {
            EntityKind::Enemy
        }
    }

    /// The tag that stands for the kind where kinds are stored as text.
    pub fn tag(&self) -> (r: String)
        ensures
            r@ == self.spec_tag(),
    {
        match self {
            EntityKind::Player => "Player".to_string(),
            EntityKind::Enemy => "Enemy".to_string(),
        }
    }

    /// The kind that a tag stands for.
    pub fn from_tag(tag: &str) -> (r: EntityKind)
        ensures
            r == EntityKind::spec_from_tag(tag@),
    {
        if tag.eq("Player") {
            EntityKind::Player
        } else {
            EntityKind::Enemy
        }
    }
}

/// A recorded change of one tile of a live map.
#[derive(Clone, Copy, Debug, PartialEq, Eq, Structural)]
pub struct WorldMutation {
    /// Numeric id of the change.
    pub id: u64,
    /// Id of the map instance that was changed.
    pub instance_id: u32,
    /// Column of the tile.
    pub x: u32,
    /// Row of the tile.
    pub y: u32,
    /// The tile id that was written.
    pub new_tile_id: u32,
}

/// A player character. Players persist across sessions and are never removed.
pub struct Player {
    /// Unique numeric id.
    pub id: u32,
    /// Lower-case form of the user name, unique among players.
    pub username_canonical: String,
    /// The user name as the player typed it.
    pub username_display: String,
    /// Credential of the client that owns this player.
    pub identity: Identity,
    /// Horizontal position, in thousandths of a pixel.
    pub position_x: i32,
    /// Vertical position, in thousandths of a pixel.
    pub position_y: i32,
    /// Horizontal velocity, in thousandths of a pixel per second.
    pub velocity_x: i32,
    /// Vertical velocity, in thousandths of a pixel per second.
    pub velocity_y: i32,
    /// Identifier of the map the player stands on.
    pub current_map_id: String,
    /// Current health, in thousandths of a hit point.
    pub health: u32,
    /// Health capacity, in thousandths of a hit point.
    pub max_health: u32,
    /// Set while the player lies at zero health and waits for revival.
    pub is_downed: bool,
    /// Sequence number of the last movement update that was accepted.
    pub last_input_sequence: u32,
    /// Wall-clock time of the last map transition.
    pub last_transition_time: Timestamp,
}

/// The mathematical value of a [`Player`].
pub ghost struct PlayerView {
    pub id: u32,
    pub username_canonical: Seq<char>,
    pub username_display: Seq<char>,
    pub identity: Identity,
    pub position_x: i32,
    pub position_y: i32,
    pub velocity_x: i32,
    pub velocity_y: i32,
    pub current_map_id: Seq<char>,
    pub health: u32,
    pub max_health: u32,
    pub is_downed: bool,
    pub last_input_sequence: u32,
    pub last_transition_time: Timestamp,
}

impl View for Player {
    type V = PlayerView;

    open spec fn view(&self) -> PlayerView {
        PlayerView {
            id: self.id,
            username_canonical: self.username_canonical@,
            username_display: self.username_display@,
            identity: self.identity,
            position_x: self.position_x,
            position_y: self.position_y,
            velocity_x: self.velocity_x,
            velocity_y: self.velocity_y,
            current_map_id: self.current_map_id@,
            health: self.health,
            max_health: self.max_health,
            is_downed: self.is_downed,
            last_input_sequence: self.last_input_sequence,
            last_transition_time: self.last_transition_time,
        }
    }
}

impl Clone for Player {
    fn clone(&self) -> (r: Self)
        ensures
            r@ == self@,
    {
        Player {
            id: self.id,
            username_canonical: self.username_canonical.clone(),
            username_display: self.username_display.clone(),
            identity: self.identity,
            position_x: self.position_x,
            position_y: self.position_y,
            velocity_x: self.velocity_x,
            velocity_y: self.velocity_y,
            current_map_id: self.current_map_id.clone(),
            health: self.health,
            max_health: self.max_health,
            is_downed: self.is_downed,
            last_input_sequence: self.last_input_sequence,
            last_transition_time: self.last_transition_time,
        }
    }
}

/// A hostile creature with its behaviour state and attack statistics.
pub struct Enemy {
    /// Unique numeric id.
    pub id: u32,
    /// Horizontal position, in thousandths of a pixel.
    pub position_x: i32,
    /// Vertical position, in thousandths of a pixel.
    pub position_y: i32,
    /// Horizontal velocity, in thousandths of a pixel per second.
    pub velocity_x: i32,
    /// Vertical velocity, in thousandths of a pixel per second.
    pub velocity_y: i32,
    /// Current health, in thousandths of a hit point.
    pub health: u32,
    /// Health capacity, in thousandths of a hit point.
    pub max_health: u32,
    /// Tag that selected the statistics template.
    pub enemy_type: String,
    /// Identifier of the map the enemy lives on.
    pub map_id: String,
    /// Behaviour state: `Idle`, `Alert` or `Chasing`.
    pub state: String,
    /// Horizontal centre of the patrol area.
    pub patrol_center_x: i32,
    /// Vertical centre of the patrol area.
    pub patrol_center_y: i32,
    /// Radius of the patrol area.
    pub patrol_radius: u32,
    /// Distance at which the enemy notices a player.
    pub detection_range: u32,
    /// Distance from the patrol centre at which the enemy gives up a chase.
    pub leash_range: u32,
    /// The player being chased, if any.
    pub target_player_id: Option<u32>,
    /// Horizontal position at which the target was last seen.
    pub last_known_player_x: i32,
    /// Vertical position at which the target was last seen.
    pub last_known_player_y: i32,
    /// Milliseconds spent in the current state.
    pub state_timer: u32,
    /// Movement speed, in thousandths of a pixel per second.
    pub movement_speed: u32,
    /// Damage of one attack, in thousandths of a hit point.
    pub attack_damage: u32,
    /// Reach of an attack, in thousandths of a pixel.
    pub attack_range: u32,
    /// Least time between two attacks, in milliseconds.
    pub attack_cooldown: u32,
    /// Time of the last attack, in seconds since the Unix epoch.
    pub last_attack_time: u64,
    /// Cleared when the enemy is switched off.
    pub is_active: bool,
}

/// The mathematical value of a [`Enemy`].
pub ghost struct EnemyView {
    pub id: u32,
    pub position_x: i32,
    pub position_y: i32,
    pub velocity_x: i32,
    pub velocity_y: i32,
    pub health: u32,
    pub max_health: u32,
    pub enemy_type: Seq<char>,
    pub map_id: Seq<char>,
    pub state: Seq<char>,
    pub patrol_center_x: i32,
    pub patrol_center_y: i32,
    pub patrol_radius: u32,
    pub detection_range: u32,
    pub leash_range: u32,
    pub target_player_id: Option<u32>,
    pub last_known_player_x: i32,
    pub last_known_player_y: i32,
    pub state_timer: u32,
    pub movement_speed: u32,
    pub attack_damage: u32,
    pub attack_range: u32,
    pub attack_cooldown: u32,
    pub last_attack_time: u64,
    pub is_active: bool,
}

impl View for Enemy {
    type V = EnemyView;

    open spec fn view(&self) -> EnemyView {
        EnemyView {
            id: self.id,
            position_x: self.position_x,
            position_y: self.position_y,
            velocity_x: self.velocity_x,
            velocity_y: self.velocity_y,
            health: self.health,
            max_health: self.max_health,
            enemy_type: self.enemy_type@,
            map_id: self.map_id@,
            state: self.state@,
            patrol_center_x: self.patrol_center_x,
            patrol_center_y: self.patrol_center_y,
            patrol_radius: self.patrol_radius,
            detection_range: self.detection_range,
            leash_range: self.leash_range,
            target_player_id: self.target_player_id,
            last_known_player_x: self.last_known_player_x,
            last_known_player_y: self.last_known_player_y,
            state_timer: self.state_timer,
            movement_speed: self.movement_speed,
            attack_damage: self.attack_damage,
            attack_range: self.attack_range,
            attack_cooldown: self.attack_cooldown,
            last_attack_time: self.last_attack_time,
            is_active: self.is_active,
        }
    }
}

impl Clone for Enemy {
    fn clone(&self) -> (r: Self)
        ensures
            r@ == self@,
    {
        Enemy {
            id: self.id,
            position_x: self.position_x,
            position_y: self.position_y,
            velocity_x: self.velocity_x,
            velocity_y: self.velocity_y,
            health: self.health,
            max_health: self.max_health,
            enemy_type: self.enemy_type.clone(),
            map_id: self.map_id.clone(),
            state: self.state.clone(),
            patrol_center_x: self.patrol_center_x,
            patrol_center_y: self.patrol_center_y,
            patrol_radius: self.patrol_radius,
            detection_range: self.detection_range,
            leash_range: self.leash_range,
            target_player_id: self.target_player_id,
            last_known_player_x: self.last_known_player_x,
            last_known_player_y: self.last_known_player_y,
            state_timer: self.state_timer,
            movement_speed: self.movement_speed,
            attack_damage: self.attack_damage,
            attack_range: self.attack_range,
            attack_cooldown: self.attack_cooldown,
            last_attack_time: self.last_attack_time,
            is_active: self.is_active,
        }
    }
}

/// A projectile in flight.
pub struct Projectile {
    /// Unique numeric id.
    pub id: u32,
    /// Id of the player who fired it.
    pub owner_id: u32,
    /// Horizontal position, in thousandths of a pixel.
    pub position_x: i32,
    /// Vertical position, in thousandths of a pixel.
    pub position_y: i32,
    /// Horizontal velocity, in thousandths of a pixel per second.
    pub velocity_x: i32,
    /// Vertical velocity, in thousandths of a pixel per second.
    pub velocity_y: i32,
    /// Damage dealt on impact, in thousandths of a hit point.
    pub damage: u32,
    /// Remaining flight time, in milliseconds.
    pub time_to_live: i32,
    /// Kind of projectile, such as `Arrow`.
    pub projectile_type: String,
    /// Identifier of the map it flies over.
    pub map_id: String,
    /// Cleared when the projectile no longer takes part in the simulation.
    pub is_active: bool,
}

/// The mathematical value of a [`Projectile`].
pub ghost struct ProjectileView {
    pub id: u32,
    pub owner_id: u32,
    pub position_x: i32,
    pub position_y: i32,
    pub velocity_x: i32,
    pub velocity_y: i32,
    pub damage: u32,
    pub time_to_live: i32,
    pub projectile_type: Seq<char>,
    pub map_id: Seq<char>,
    pub is_active: bool,
}

impl View for Projectile {
    type V = ProjectileView;

    open spec fn view(&self) -> ProjectileView {
        ProjectileView {
            id: self.id,
            owner_id: self.owner_id,
            position_x: self.position_x,
            position_y: self.position_y,
            velocity_x: self.velocity_x,
            velocity_y: self.velocity_y,
            damage: self.damage,
            time_to_live: self.time_to_live,
            projectile_type: self.projectile_type@,
            map_id: self.map_id@,
            is_active: self.is_active,
        }
    }
}

impl Clone for Projectile {
    fn clone(&self) -> (r: Self)
        ensures
            r@ == self@,
    {
        Projectile {
            id: self.id,
            owner_id: self.owner_id,
            position_x: self.position_x,
            position_y: self.position_y,
            velocity_x: self.velocity_x,
            velocity_y: self.velocity_y,
            damage: self.damage,
            time_to_live: self.time_to_live,
            projectile_type: self.projectile_type.clone(),
            map_id: self.map_id.clone(),
            is_active: self.is_active,
        }
    }
}

/// One entry of the append-only combat log.
pub struct CombatEvent {
    /// Id of the entry.
    pub id: u32,
    /// Kind of the entity that dealt the damage.
    pub attacker_kind: EntityKind,
    /// Id of the entity that dealt the damage.
    pub attacker_id: u32,
    /// Kind of the entity that took the damage.
    pub target_kind: EntityKind,
    /// Id of the entity that took the damage.
    pub target_id: u32,
    /// Weapon tag of the attack.
    pub weapon_type: String,
    /// Damage of the attack, in thousandths of a hit point.
    pub damage: u32,
    /// Time of the hit, in seconds since the Unix epoch.
    pub timestamp: u64,
}

/// The mathematical value of a [`CombatEvent`].
pub ghost struct CombatEventView {
    pub id: u32,
    pub attacker_kind: EntityKind,
    pub attacker_id: u32,
    pub target_kind: EntityKind,
    pub target_id: u32,
    pub weapon_type: Seq<char>,
    pub damage: u32,
    pub timestamp: u64,
}

impl View for CombatEvent {
    type V = CombatEventView;

    open spec fn view(&self) -> CombatEventView {
        CombatEventView {
            id: self.id,
            attacker_kind: self.attacker_kind,
            attacker_id: self.attacker_id,
            target_kind: self.target_kind,
            target_id: self.target_id,
            weapon_type: self.weapon_type@,
            damage: self.damage,
            timestamp: self.timestamp,
        }
    }
}

impl Clone for CombatEvent {
    fn clone(&self) -> (r: Self)
        ensures
            r@ == self@,
    {
        CombatEvent {
            id: self.id,
            attacker_kind: self.attacker_kind,
            attacker_id: self.attacker_id,
            target_kind: self.target_kind,
            target_id: self.target_id,
            weapon_type: self.weapon_type.clone(),
            damage: self.damage,
            timestamp: self.timestamp,
        }
    }
}

/// The static description of a map: its tile grid and spawn point.
pub struct MapTemplate {
    /// Name of the template; map identifiers refer to it.
    pub name: String,
    /// Width of the grid, in tiles.
    pub width: u32,
    /// Height of the grid, in tiles.
    pub height: u32,
    /// Tile ids, row by row.
    pub tile_data: Vec<u32>,
    /// Horizontal spawn position, in thousandths of a pixel.
    pub spawn_x: i32,
    /// Vertical spawn position, in thousandths of a pixel.
    pub spawn_y: i32,
}

/// The mathematical value of a [`MapTemplate`].
pub ghost struct MapTemplateView {
    pub name: Seq<char>,
    pub width: u32,
    pub height: u32,
    pub tile_data: Seq<u32>,
    pub spawn_x: i32,
    pub spawn_y: i32,
}

impl View for MapTemplate {
    type V = MapTemplateView;

    open spec fn view(&self) -> MapTemplateView {
        MapTemplateView {
            name: self.name@,
            width: self.width,
            height: self.height,
            tile_data: self.tile_data@,
            spawn_x: self.spawn_x,
            spawn_y: self.spawn_y,
        }
    }
}

impl Clone for MapTemplate {
    fn clone(&self) -> (r: Self)
        ensures
            r@ == self@,
    {
        MapTemplate {
            name: self.name.clone(),
            width: self.width,
            height: self.height,
            tile_data: self.tile_data.clone(),
            spawn_x: self.spawn_x,
            spawn_y: self.spawn_y,
        }
    }
}

/// A live map with its population and activity state.
pub struct MapInstance {
    /// Numeric id, derived from the key.
    pub id: u32,
    /// Map identifier, unique among instances.
    pub key_id: String,
    /// `Hot` while players are present, `Cold` otherwise.
    pub state: String,
    /// Number of players on the map.
    pub player_count: u32,
    /// Name of the template the instance was made from.
    pub template_name: String,
}

/// The mathematical value of a [`MapInstance`].
pub ghost struct MapInstanceView {
    pub id: u32,
    pub key_id: Seq<char>,
    pub state: Seq<char>,
    pub player_count: u32,
    pub template_name: Seq<char>,
}

impl View for MapInstance {
    type V = MapInstanceView;

    open spec fn view(&self) -> MapInstanceView {
        MapInstanceView {
            id: self.id,
            key_id: self.key_id@,
            state: self.state@,
            player_count: self.player_count,
            template_name: self.template_name@,
        }
    }
}

impl Clone for MapInstance {
    fn clone(&self) -> (r: Self)
        ensures
            r@ == self@,
    {
        MapInstance {
            id: self.id,
            key_id: self.key_id.clone(),
            state: self.state.clone(),
            player_count: self.player_count,
            template_name: self.template_name.clone(),
        }
    }
}

/// A rectangular zone on one map that carries a player who enters it to a
/// fixed point on another map.
pub struct MapTransition {
    /// Numeric id.
    pub id: u32,
    /// Identifier of the map the zone lies on.
    pub map_id: String,
    /// Left edge of the zone.
    pub x: i32,
    /// Top edge of the zone.
    pub y: i32,
    /// Width of the zone.
    pub width: i32,
    /// Height of the zone.
    pub height: i32,
    /// Identifier of the destination map.
    pub dest_map_id: String,
    /// Horizontal arrival position on the destination map.
    pub dest_x: i32,
    /// Vertical arrival position on the destination map.
    pub dest_y: i32,
}

/// The mathematical value of a [`MapTransition`].
pub ghost struct MapTransitionView {
    pub id: u32,
    pub map_id: Seq<char>,
    pub x: i32,
    pub y: i32,
    pub width: i32,
    pub height: i32,
    pub dest_map_id: Seq<char>,
    pub dest_x: i32,
    pub dest_y: i32,
}

impl View for MapTransition {
    type V = MapTransitionView;

    open spec fn view(&self) -> MapTransitionView {
        MapTransitionView {
            id: self.id,
            map_id: self.map_id@,
            x: self.x,
            y: self.y,
            width: self.width,
            height: self.height,
            dest_map_id: self.dest_map_id@,
            dest_x: self.dest_x,
            dest_y: self.dest_y,
        }
    }
}

impl Clone for MapTransition {
    fn clone(&self) -> (r: Self)
        ensures
            r@ == self@,
    {
        MapTransition {
            id: self.id,
            map_id: self.map_id.clone(),
            x: self.x,
            y: self.y,
            width: self.width,
            height: self.height,
            dest_map_id: self.dest_map_id.clone(),
            dest_x: self.dest_x,
            dest_y: self.dest_y,
        }
    }
}

/// A stack of one kind of item in a player's inventory.
pub struct InventoryItem {
    /// Numeric id of the stack.
    pub id: u32,
    /// Id of the owning player.
    pub player_id: u32,
    /// Kind of item.
    pub item_id: String,
    /// Number of items in the stack.
    pub quantity: i32,
    /// Set while the item sits in an equipment slot.
    pub is_equipped: bool,
    /// Equipment slot class of the item.
    pub slot_type: String,
}

/// The mathematical value of a [`InventoryItem`].
pub ghost struct InventoryItemView {
    pub id: u32,
    pub player_id: u32,
    pub item_id: Seq<char>,
    pub quantity: i32,
    pub is_equipped: bool,
    pub slot_type: Seq<char>,
}

impl View for InventoryItem {
    type V = InventoryItemView;

    open spec fn view(&self) -> InventoryItemView {
        InventoryItemView {
            id: self.id,
            player_id: self.player_id,
            item_id: self.item_id@,
            quantity: self.quantity,
            is_equipped: self.is_equipped,
            slot_type: self.slot_type@,
        }
    }
}

impl Clone for InventoryItem {
    fn clone(&self) -> (r: Self)
        ensures
            r@ == self@,
    {
        InventoryItem {
            id: self.id,
            player_id: self.player_id,
            item_id: self.item_id.clone(),
            quantity: self.quantity,
            is_equipped: self.is_equipped,
            slot_type: self.slot_type.clone(),
        }
    }
}

/// The equipment slots of one player; an empty string marks an empty slot.
pub struct PlayerEquipment {
    /// Id of the player.
    pub player_id: u32,
    /// Item in the weapon slot.
    pub main_hand_weapon: String,
    /// Item in the tool slot.
    pub off_hand_tool: String,
    /// Item in the armor slot.
    pub armor: String,
    /// Item in the accessory slot.
    pub accessory: String,
}

/// The mathematical value of a [`PlayerEquipment`].
pub ghost struct PlayerEquipmentView {
    pub player_id: u32,
    pub main_hand_weapon: Seq<char>,
    pub off_hand_tool: Seq<char>,
    pub armor: Seq<char>,
    pub accessory: Seq<char>,
}

impl View for PlayerEquipment {
    type V = PlayerEquipmentView;

    open spec fn view(&self) -> PlayerEquipmentView {
        PlayerEquipmentView {
            player_id: self.player_id,
            main_hand_weapon: self.main_hand_weapon@,
            off_hand_tool: self.off_hand_tool@,
            armor: self.armor@,
            accessory: self.accessory@,
        }
    }
}

impl Clone for PlayerEquipment {
    fn clone(&self) -> (r: Self)
        ensures
            r@ == self@,
    {
        PlayerEquipment {
            player_id: self.player_id,
            main_hand_weapon: self.main_hand_weapon.clone(),
            off_hand_tool: self.off_hand_tool.clone(),
            armor: self.armor.clone(),
            accessory: self.accessory.clone(),
        }
    }
}

/// A world object that players can harvest.
pub struct InteractableObject {
    /// Numeric id.
    pub id: u32,
    /// Kind of object, such as `tree` or `rock`.
    pub object_type: String,
    /// Horizontal position, in thousandths of a pixel.
    pub position_x: i32,
    /// Vertical position, in thousandths of a pixel.
    pub position_y: i32,
    /// Identifier of the map the object stands on.
    pub map_id: String,
    /// Remaining durability.
    pub health: i32,
    /// Durability of an untouched object.
    pub max_health: i32,
    /// Resources left to collect, such as fruit on a tree.
    pub resource_count: i32,
    /// Set once the object is used up.
    pub is_destroyed: bool,
    /// Milliseconds until the object returns.
    pub respawn_timer: u32,
}

/// The mathematical value of a [`InteractableObject`].
pub ghost struct InteractableObjectView {
    pub id: u32,
    pub object_type: Seq<char>,
    pub position_x: i32,
    pub position_y: i32,
    pub map_id: Seq<char>,
    pub health: i32,
    pub max_health: i32,
    pub resource_count: i32,
    pub is_destroyed: bool,
    pub respawn_timer: u32,
}

impl View for InteractableObject {
    type V = InteractableObjectView;

    open spec fn view(&self) -> InteractableObjectView {
        InteractableObjectView {
            id: self.id,
            object_type: self.object_type@,
            position_x: self.position_x,
            position_y: self.position_y,
            map_id: self.map_id@,
            health: self.health,
            max_health: self.max_health,
            resource_count: self.resource_count,
            is_destroyed: self.is_destroyed,
            respawn_timer: self.respawn_timer,
        }
    }
}

impl Clone for InteractableObject {
    fn clone(&self) -> (r: Self)
        ensures
            r@ == self@,
    {
        InteractableObject {
            id: self.id,
            object_type: self.object_type.clone(),
            position_x: self.position_x,
            position_y: self.position_y,
            map_id: self.map_id.clone(),
            health: self.health,
            max_health: self.max_health,
            resource_count: self.resource_count,
            is_destroyed: self.is_destroyed,
            respawn_timer: self.respawn_timer,
        }
    }
}

/// A condition that a player must meet before acting on an object.
pub struct ActionRequirement {
    /// `equipped_weapon` or `inventory_item`.
    pub requirement_type: String,
    /// The item the requirement is about.
    pub item_id: String,
    /// Whether the item has to sit in an equipment slot.
    pub must_be_equipped: bool,
    /// Least number of items the player must hold.
    pub minimum_quantity: i32,
}

/// The mathematical value of a [`ActionRequirement`].
pub ghost struct ActionRequirementView {
    pub requirement_type: Seq<char>,
    pub item_id: Seq<char>,
    pub must_be_equipped: bool,
    pub minimum_quantity: i32,
}

impl View for ActionRequirement {
    type V = ActionRequirementView;

    open spec fn view(&self) -> ActionRequirementView {
        ActionRequirementView {
            requirement_type: self.requirement_type@,
            item_id: self.item_id@,
            must_be_equipped: self.must_be_equipped,
            minimum_quantity: self.minimum_quantity,
        }
    }
}

impl Clone for ActionRequirement {
    fn clone(&self) -> (r: Self)
        ensures
            r@ == self@,
    {
        ActionRequirement {
            requirement_type: self.requirement_type.clone(),
            item_id: self.item_id.clone(),
            must_be_equipped: self.must_be_equipped,
            minimum_quantity: self.minimum_quantity,
        }
    }
}

/// A registered game resource.
pub struct ResourceRegistry {
    /// Numeric id, derived from the key.
    pub id: u32,
    /// Key of the resource, such as `core:overworld/farm`.
    pub key_id: String,
    /// `map`, `item` or `npc`.
    pub resource_type: String,
    /// Serialized resource data.
    pub data: String,
    /// Offset that was added to the key's hash to find a free id.
    pub hash_disambiguation: u32,
}

/// The mathematical value of a [`ResourceRegistry`].
pub ghost struct ResourceRegistryView {
    pub id: u32,
    pub key_id: Seq<char>,
    pub resource_type: Seq<char>,
    pub data: Seq<char>,
    pub hash_disambiguation: u32,
}

impl View for ResourceRegistry {
    type V = ResourceRegistryView;

    open spec fn view(&self) -> ResourceRegistryView {
        ResourceRegistryView {
            id: self.id,
            key_id: self.key_id@,
            resource_type: self.resource_type@,
            data: self.data@,
            hash_disambiguation: self.hash_disambiguation,
        }
    }
}

impl Clone for ResourceRegistry {
    fn clone(&self) -> (r: Self)
        ensures
            r@ == self@,
    {
        ResourceRegistry {
            id: self.id,
            key_id: self.key_id.clone(),
            resource_type: self.resource_type.clone(),
            data: self.data.clone(),
            hash_disambiguation: self.hash_disambiguation,
        }
    }
}

/// The id that a resource key maps to.
pub struct ResourceIdMapping {
    /// Key of the resource.
    pub key_id: String,
    /// Id of the resource.
    pub resource_id: u32,
}

/// The mathematical value of a [`ResourceIdMapping`].
pub ghost struct ResourceIdMappingView {
    pub key_id: Seq<char>,
    pub resource_id: u32,
}

impl View for ResourceIdMapping {
    type V = ResourceIdMappingView;

    open spec fn view(&self) -> ResourceIdMappingView {
        ResourceIdMappingView {
            key_id: self.key_id@,
            resource_id: self.resource_id,
        }
    }
}

impl Clone for ResourceIdMapping {
    fn clone(&self) -> (r: Self)
        ensures
            r@ == self@,
    {
        ResourceIdMapping {
            key_id: self.key_id.clone(),
            resource_id: self.resource_id,
        }
    }
}

} // verus!
