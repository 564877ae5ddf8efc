use guildmaster_server::account::{
    generate_player_id, get_map_data, get_map_metadata, get_player_info, health_check, on_connect,
    on_disconnect, register_player, test_message, validate_username,
};
use guildmaster_server::entity::MapTemplate;
use guildmaster_server::error::GameError;
use guildmaster_server::world::World;
use spacetimedb::{Identity, Timestamp};

fn alice() -> Identity {
    Identity::from_byte_array([10u8; 32])
}

fn bob() -> Identity {
    Identity::from_byte_array([11u8; 32])
}

fn noon() -> Timestamp {
    Timestamp::from_micros_since_unix_epoch(1_700_000_000_000_000)
}

#[test]
fn registration_makes_a_player_at_the_start() {
    let mut world = World::new();
    assert_eq!(register_player(&mut world, &alice(), noon(), "  Alice_1 ".to_string()), Ok(()));
    assert_eq!(world.players.len(), 1);
    let p = &world.players[0];
    assert_eq!(p.username_display, "Alice_1");
    assert_eq!(p.username_canonical, "alice_1");
    assert!(p.identity == alice());
    assert_eq!((p.position_x, p.position_y), (100_000, 500_000));
    assert_eq!((p.velocity_x, p.velocity_y), (0, 0));
    assert_eq!(p.current_map_id, "starting_area");
    assert_eq!((p.health, p.max_health, p.is_downed), (100_000, 100_000, false));
    assert_eq!(p.last_input_sequence, 0);
    assert!(p.last_transition_time == noon());
    assert!(world.is_wf());
}

#[test]
fn registration_is_done_once_per_client() {
    let mut world = World::new();
    assert_eq!(register_player(&mut world, &alice(), noon(), "Alice".to_string()), Ok(()));
    assert_eq!(register_player(&mut world, &alice(), noon(), "Other".to_string()), Ok(()));
    assert_eq!(register_player(&mut world, &alice(), noon(), "".to_string()), Ok(()));
    assert_eq!(world.players.len(), 1);
    assert_eq!(world.players[0].username_display, "Alice");
}

#[test]
fn registered_players_get_different_ids() {
    let mut world = World::new();
    assert_eq!(register_player(&mut world, &alice(), noon(), "Alice".to_string()), Ok(()));
    assert_eq!(register_player(&mut world, &bob(), noon(), "Bob".to_string()), Ok(()));
    assert_eq!(world.players.len(), 2);
    assert_ne!(world.players[0].id, world.players[1].id);
    assert_eq!(world.find_player(world.players[1].id), Some(1));
}

#[test]
fn taken_user_name_is_reclaimed() {
    let mut world = World::new();
    assert_eq!(register_player(&mut world, &alice(), noon(), "Alice".to_string()), Ok(()));
    let id = world.players[0].id;
    world.players[0].health = 40_000;
    assert_eq!(register_player(&mut world, &bob(), noon(), " ALICE ".to_string()), Ok(()));
    assert_eq!(world.players.len(), 1);
    let p = &world.players[0];
    assert!(p.identity == bob());
    assert_eq!(p.id, id);
    assert_eq!(p.username_display, "Alice");
    assert_eq!(p.health, 40_000);
}

#[test]
fn user_name_rules() {
    assert_eq!(validate_username("   ").err(), Some(GameError::UsernameEmpty));
    assert_eq!(validate_username("").err(), Some(GameError::UsernameEmpty));
    assert_eq!(validate_username("ab").err(), Some(GameError::UsernameLength));
    assert_eq!(validate_username(" ab ").err(), Some(GameError::UsernameLength));
    assert_eq!(validate_username("abcdefghijklmnopq").err(), Some(GameError::UsernameLength));
    assert_eq!(validate_username("ab c").err(), Some(GameError::UsernameCharacters));
    assert_eq!(validate_username("abc!").err(), Some(GameError::UsernameCharacters));
    assert_eq!(validate_username("héllo").err(), Some(GameError::UsernameCharacters));
    assert_eq!(validate_username("ééééééééé").err(), Some(GameError::UsernameLength));
    assert_eq!(validate_username("abc"), Ok(("abc".to_string(), "abc".to_string())));
    assert_eq!(
        validate_username("\tA-b_C9abcdefghij\n"),
        Ok(("A-b_C9abcdefghij".to_string(), "a-b_c9abcdefghij".to_string()))
    );
}

#[test]
fn refused_user_name_registers_nothing() {
    let mut world = World::new();
    assert_eq!(
        register_player(&mut world, &alice(), noon(), " ".to_string()),
        Err(GameError::UsernameEmpty)
    );
    assert_eq!(
        register_player(&mut world, &alice(), noon(), "al".to_string()),
        Err(GameError::UsernameLength)
    );
    assert_eq!(
        register_player(&mut world, &alice(), noon(), "al ice".to_string()),
        Err(GameError::UsernameCharacters)
    );
    assert!(world.players.is_empty());
    assert_eq!(GameError::UsernameEmpty.message(), "Username cannot be empty");
    assert_eq!(
        GameError::UsernameLength.message(),
        "Username must be between 3 and 16 characters"
    );
    assert_eq!(GameError::UsernameCharacters.message(), "Username has invalid characters");
}

#[test]
fn new_id_is_free() {
    let mut world = World::new();
    assert_eq!(register_player(&mut world, &alice(), noon(), "Alice".to_string()), Ok(()));
    let taken = world.players[0].id;
    let fresh = generate_player_id(&world, &bob()).expect("ids are left");
    assert_ne!(fresh, taken);
    assert_eq!(world.find_player(fresh), None);
}

#[test]
fn connecting_readies_the_map_and_the_default_zones() {
    let mut world = World::new();
    world.map_templates.push(MapTemplate {
        name: "starting_area".to_string(),
        width: 4,
        height: 4,
        tile_data: vec![],
        spawn_x: 0,
        spawn_y: 0,
    });
    on_connect(&mut world, &alice());
    assert_eq!(world.map_instances.len(), 1);
    assert_eq!(world.map_instances[0].key_id, "starting_area");
    assert_eq!(world.map_transitions.len(), 2);
    on_connect(&mut world, &alice());
    assert_eq!(world.map_instances.len(), 1);
    assert_eq!(world.map_transitions.len(), 2);
}

#[test]
fn connecting_readies_the_map_of_the_player() {
    let mut world = World::new();
    world.map_templates.push(MapTemplate {
        name: "cave".to_string(),
        width: 4,
        height: 4,
        tile_data: vec![],
        spawn_x: 0,
        spawn_y: 0,
    });
    assert_eq!(register_player(&mut world, &alice(), noon(), "Alice".to_string()), Ok(()));
    world.players[0].current_map_id = "cave".to_string();
    on_connect(&mut world, &alice());
    assert_eq!(world.map_instances.len(), 1);
    assert_eq!(world.map_instances[0].key_id, "cave");
    on_connect(&mut world, &bob());
    assert_eq!(world.map_instances.len(), 1);
}

#[test]
fn registration_counts_the_new_player_on_the_starting_area() {
    let mut world = World::new();
    world.map_templates.push(MapTemplate {
        name: "starting_area".to_string(),
        width: 4,
        height: 4,
        tile_data: vec![],
        spawn_x: 0,
        spawn_y: 0,
    });
    on_connect(&mut world, &alice());
    assert_eq!(world.map_instances[0].state, "Cold");
    assert_eq!(register_player(&mut world, &alice(), noon(), "Alice".to_string()), Ok(()));
    assert_eq!(register_player(&mut world, &bob(), noon(), "Bob".to_string()), Ok(()));
    assert_eq!(world.map_instances.len(), 1);
    assert_eq!(world.map_instances[0].state, "Hot");
    assert_eq!(world.map_instances[0].player_count, 2);
    assert!(world.has_consistent_maps());
}

#[test]
fn disconnecting_keeps_the_player() {
    let mut world = World::new();
    assert_eq!(register_player(&mut world, &alice(), noon(), "Alice".to_string()), Ok(()));
    assert_eq!(on_disconnect(&world, &alice()), Some(world.players[0].id));
    assert_eq!(on_disconnect(&world, &bob()), None);
    assert_eq!(world.players.len(), 1);
}

#[test]
fn player_info_is_the_player_of_the_client() {
    let mut world = World::new();
    assert_eq!(register_player(&mut world, &alice(), noon(), "Alice".to_string()), Ok(()));
    let info = get_player_info(&world, &alice()).expect("registered");
    assert_eq!(info.username_display, "Alice");
    assert_eq!(info.id, world.players[0].id);
    assert!(get_player_info(&world, &bob()).is_none());
}

#[test]
fn known_maps_have_metadata() {
    let village = get_map_metadata("starting_area");
    assert_eq!(
        (village.id.as_str(), village.name.as_str(), village.width, village.height),
        ("starting_area", "Starting Village", 1000, 1000)
    );
    assert_eq!((village.spawn_x, village.spawn_y), (100_000, 500_000));
    let forest = get_map_metadata("forest_area");
    assert_eq!(
        (forest.id.as_str(), forest.name.as_str(), forest.width, forest.height),
        ("forest_area", "Dark Forest", 1200, 1200)
    );
    assert_eq!((forest.spawn_x, forest.spawn_y), (100_000, 400_000));
    let other = get_map_metadata("moon");
    assert_eq!(
        (other.id.as_str(), other.name.as_str(), other.width, other.height),
        ("unknown", "Unknown Area", 800, 600)
    );
    assert_eq!((other.spawn_x, other.spawn_y), (0, 0));
}

#[test]
fn map_data_needs_a_registered_client() {
    let mut world = World::new();
    assert_eq!(
        get_map_data(&world, &alice(), "starting_area".to_string()).err(),
        Some(GameError::PlayerNotAuthenticated)
    );
    assert_eq!(register_player(&mut world, &alice(), noon(), "Alice".to_string()), Ok(()));
    assert_eq!(register_player(&mut world, &bob(), noon(), "Bob".to_string()), Ok(()));
    world.players[1].current_map_id = "forest_area".to_string();
    let (info, players) = get_map_data(&world, &alice(), "forest_area".to_string()).expect("registered");
    assert_eq!(info.name, "Dark Forest");
    let names: Vec<String> = players.iter().map(|p| p.username_display.clone()).collect();
    assert_eq!(names, vec!["Bob".to_string()]);
    assert_eq!(GameError::PlayerNotAuthenticated.message(), "Player not authenticated");
}

#[test]
fn server_answers_health_checks_and_test_messages() {
    assert_eq!(health_check(), "Guildmaster server health check - OK");
    assert_eq!(test_message("ping".to_string()), "Test message: ping");
    assert_eq!(test_message(String::new()), "Test message: ");
}
