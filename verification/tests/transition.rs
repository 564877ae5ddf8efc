use guildmaster_server::combat::{record_hits, trim_combat_log, Hit};
use guildmaster_server::entity::{EntityKind, MapTemplate, MapTransition, Player};
use guildmaster_server::error::GameError;
use guildmaster_server::map::request_transition;
use guildmaster_server::world::World;
use spacetimedb::{Identity, Timestamp};

fn owner() -> Identity {
    Identity::from_byte_array([21u8; 32])
}

fn stranger() -> Identity {
    Identity::from_byte_array([22u8; 32])
}

fn door_world(x: i32, y: i32) -> World {
    let mut world = World::new();
    for name in ["outside", "inside"] {
        world.map_templates.push(MapTemplate {
            name: name.to_string(),
            width: 100,
            height: 100,
            tile_data: vec![],
            spawn_x: 0,
            spawn_y: 0,
        });
    }
    world.map_transitions.push(MapTransition {
        id: 1,
        map_id: "outside".to_string(),
        x: 136_000,
        y: 168_000,
        width: 8_000,
        height: 8_000,
        dest_map_id: "inside".to_string(),
        dest_x: 176_000,
        dest_y: 88_000,
    });
    world.players.push(Player {
        id: 1,
        username_canonical: "hero".to_string(),
        username_display: "Hero".to_string(),
        identity: owner(),
        position_x: x,
        position_y: y,
        velocity_x: 9,
        velocity_y: 9,
        current_map_id: "outside".to_string(),
        health: 100_000,
        max_health: 100_000,
        is_downed: false,
        last_input_sequence: 0,
        last_transition_time: Timestamp::from_micros_since_unix_epoch(0),
    });
    world
}

fn place(world: &World) -> (String, i32, i32, i32, i32) {
    let p = &world.players[0];
    (p.current_map_id.clone(), p.position_x, p.position_y, p.velocity_x, p.velocity_y)
}

#[test]
fn requested_transition_is_granted_through_its_zone() {
    let mut world = door_world(140_000, 170_000);
    assert!(world.is_transition_ready(1));
    assert_eq!(request_transition(&mut world, &owner(), 1, "inside", 176_000, 88_000), Ok(()));
    assert_eq!(place(&world), ("inside".to_string(), 176_000, 88_000, 0, 0));
    assert_eq!(world.map_instances.len(), 2);
}

#[test]
fn requested_transition_is_denied_outside_the_zone() {
    let mut world = door_world(10_000, 10_000);
    assert_eq!(
        request_transition(&mut world, &owner(), 1, "inside", 176_000, 88_000),
        Err(GameError::TransitionDenied)
    );
    assert_eq!(place(&world), ("outside".to_string(), 10_000, 10_000, 9, 9));
    assert!(world.map_instances.is_empty());
    assert_eq!(GameError::TransitionDenied.message(), "No transition zone leads there");
}

#[test]
fn requested_transition_must_name_the_destination_of_the_zone() {
    let mut world = door_world(140_000, 170_000);
    assert_eq!(
        request_transition(&mut world, &owner(), 1, "cellar", 176_000, 88_000),
        Err(GameError::TransitionDenied)
    );
    assert_eq!(
        request_transition(&mut world, &owner(), 1, "inside", 176_001, 88_000),
        Err(GameError::TransitionDenied)
    );
    assert_eq!(
        request_transition(&mut world, &owner(), 1, "inside", 176_000, 87_999),
        Err(GameError::TransitionDenied)
    );
    assert_eq!(place(&world), ("outside".to_string(), 140_000, 170_000, 9, 9));
}

#[test]
fn requested_transition_needs_the_owner_and_the_player() {
    let mut world = door_world(140_000, 170_000);
    assert_eq!(
        request_transition(&mut world, &stranger(), 1, "inside", 176_000, 88_000),
        Err(GameError::Unauthorized)
    );
    assert_eq!(
        request_transition(&mut world, &owner(), 2, "inside", 176_000, 88_000),
        Err(GameError::PlayerNotFound)
    );
    assert_eq!(place(&world), ("outside".to_string(), 140_000, 170_000, 9, 9));
}

#[test]
fn readiness_checks_see_missing_maps() {
    let mut world = door_world(140_000, 170_000);
    assert!(world.is_map_available("inside"));
    assert!(!world.is_map_available("cellar"));
    assert!(world.is_transition_ready(1));
    assert!(world.is_transition_ready(7));
    world.map_templates.pop();
    assert!(!world.is_map_available("inside"));
    assert!(!world.is_transition_ready(1));
    world.players[0].position_x = 0;
    assert!(world.is_transition_ready(1));
    // Spawning needs the template of the map, or that of the starting map.
    assert!(world.is_spawn_ready("outside"));
    assert!(!world.is_spawn_ready("cellar"));
    world.map_templates[0].name = "tavern_outside".to_string();
    assert!(world.is_spawn_ready("cellar"));
    assert!(world.is_spawn_ready("tavern_outside"));
}

#[test]
fn combat_log_is_cut_to_its_newest_entries() {
    let mut world = World::new();
    let hits: Vec<Hit> = (1..=5u32)
        .map(|n| Hit {
            attacker_kind: EntityKind::Player,
            attacker_id: 1,
            target_kind: EntityKind::Enemy,
            target_id: n,
            weapon_type: "Sword".to_string(),
            damage: n,
        })
        .collect();
    record_hits(&mut world, &hits);
    trim_combat_log(&mut world, 9);
    assert_eq!(world.combat_events.len(), 5);
    trim_combat_log(&mut world, 5);
    assert_eq!(world.combat_events.len(), 5);
    trim_combat_log(&mut world, 2);
    let kept: Vec<u32> = world.combat_events.iter().map(|e| e.target_id).collect();
    assert_eq!(kept, vec![4, 5]);
    trim_combat_log(&mut world, 0);
    assert!(world.combat_events.is_empty());
}

#[test]
fn every_error_has_its_message() {
    let messages = [
        (GameError::PlayerNotFound, "Player not found"),
        (GameError::Unauthorized, "Unauthorized"),
        (GameError::UnauthorizedMovement, "Unauthorized movement update"),
        (GameError::UnauthorizedPositionCorrection, "Unauthorized position correction"),
        (GameError::UnauthorizedPlayerUpdate, "Unauthorized player update"),
        (GameError::PlayerNotAuthenticated, "Player not authenticated"),
        (GameError::UnknownConsumable, "Unknown consumable item"),
        (GameError::UsernameEmpty, "Username cannot be empty"),
        (GameError::UsernameLength, "Username must be between 3 and 16 characters"),
        (GameError::UsernameCharacters, "Username has invalid characters"),
        (GameError::TransitionDenied, "No transition zone leads there"),
        (GameError::NoFreePlayerId, "No free player id"),
        (GameError::DuplicateEnemy, "Enemy already exists"),
        (GameError::ItemNotEquippable, "Item cannot be equipped"),
        (GameError::ItemNotOwned, "Player does not have this item"),
        (GameError::ItemNotEquipped, "Item not equipped"),
        (GameError::ObjectNotFound, "Object not found"),
        (GameError::TooFar, "Player too far from object"),
        (GameError::RequirementsNotMet, "Action requirements not met"),
        (GameError::InvalidAction, "Invalid action for object type"),
        (GameError::NoFruit, "No fruit to shake"),
        (GameError::TreeAlreadyCut, "Tree already cut down"),
        (GameError::RockAlreadyPickedUp, "Rock already picked up"),
        (GameError::RockAlreadyBroken, "Rock already broken"),
        (GameError::ResourceAlreadyRegistered, "Resource already registered"),
        (
            GameError::InvalidResourceType,
            "Invalid resource type. Must be 'map', 'item', or 'npc'",
        ),
        (GameError::ResourceDataNotFound, "Resource data not found"),
        (GameError::ResourceNotFound, "Resource not found"),
    ];
    for (error, message) in messages.iter() {
        assert_eq!(error.message(), *message);
    }
}

#[test]
fn zone_lookup_is_by_map_and_position() {
    let world = door_world(0, 0);
    assert_eq!(world.find_zone_at("outside", 136_000, 168_000), Some(0));
    assert_eq!(world.find_zone_at("outside", 144_000, 176_000), Some(0));
    assert_eq!(world.find_zone_at("outside", 144_001, 176_000), None);
    assert_eq!(world.find_zone_at("inside", 140_000, 170_000), None);
    assert_eq!(world.find_entered_zone(0), None);
}

#[test]
fn movement_readiness_looks_at_the_committed_position() {
    let mut world = door_world(130_000, 170_000);
    world.map_templates.pop();
    // The destination of the door is gone. A step that stays outside the
    // zone is fine, a step into it is not.
    assert!(world.is_movement_ready(&owner(), 1, 131_000, 170_000, 0, 0, 1));
    assert!(!world.is_movement_ready(&owner(), 1, 137_000, 170_000, 0, 0, 1));
    // An update that is not accepted never runs the engine.
    assert!(world.is_movement_ready(&owner(), 1, 137_000, 170_000, 0, 0, 0));
    assert!(world.is_movement_ready(&stranger(), 1, 137_000, 170_000, 0, 0, 1));
    assert!(world.is_movement_ready(&owner(), 2, 137_000, 170_000, 0, 0, 1));
    // A claim far beyond the zone is cut to one step, which ends before it.
    assert!(world.is_movement_ready(&owner(), 1, 60_000, 170_000, 0, 0, 1));
    assert!(world.has_spawn_point("outside"));
    assert!(!world.has_spawn_point("inside"));
}
