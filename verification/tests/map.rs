use guildmaster_server::entity::{MapInstance, MapTemplate, MapTransition, Player};
use guildmaster_server::error::GameError;
use guildmaster_server::map::{
    check_map_transition, count_players_in_map, get_map_bounds_from_db,
    get_or_create_map_instance, get_spawn_point, init_map_transitions, replace_all_templates,
    spawn_player_at_map, update_map_state, SPAWN_TILE, STARTING_MAP, TILE_SIZE,
    TILE_SIZE_PX,
};
use guildmaster_server::stamp::generate_map_instance_id;
use guildmaster_server::text::same_text;
use guildmaster_server::world::World;
use spacetimedb::{Identity, Timestamp};

fn owner() -> Identity {
    Identity::from_byte_array([8u8; 32])
}

fn stranger() -> Identity {
    Identity::from_byte_array([9u8; 32])
}

fn template(name: &str, width: u32, height: u32, spawn: (i32, i32)) -> MapTemplate {
    MapTemplate {
        name: name.to_string(),
        width,
        height,
        tile_data: vec![],
        spawn_x: spawn.0,
        spawn_y: spawn.1,
    }
}

fn player(id: u32, x: i32, y: i32, map: &str) -> Player {
    Player {
        id,
        username_canonical: format!("p{}", id),
        username_display: format!("P{}", id),
        identity: owner(),
        position_x: x,
        position_y: y,
        velocity_x: 3,
        velocity_y: 4,
        current_map_id: map.to_string(),
        health: 100_000,
        max_health: 100_000,
        is_downed: false,
        last_input_sequence: 0,
        last_transition_time: Timestamp::from_micros_since_unix_epoch(0),
    }
}

fn zone(id: u32, map: &str, x: i32, y: i32, dest: &str) -> MapTransition {
    MapTransition {
        id,
        map_id: map.to_string(),
        x,
        y,
        width: 8_000,
        height: 8_000,
        dest_map_id: dest.to_string(),
        dest_x: 11_000,
        dest_y: 22_000,
    }
}

fn instances(world: &World) -> Vec<(String, String, u32)> {
    world
        .map_instances
        .iter()
        .map(|m: &MapInstance| (m.key_id.clone(), m.state.clone(), m.player_count))
        .collect()
}

#[test]
fn map_constants() {
    assert_eq!(STARTING_MAP, "tavern_outside");
    assert_eq!(TILE_SIZE_PX, 8);
    assert_eq!(TILE_SIZE, 8_000);
    assert_eq!(SPAWN_TILE, 1);
}

#[test]
fn texts_compare_by_their_characters() {
    assert!(same_text("abc", "abc"));
    assert!(same_text("", ""));
    assert!(!same_text("abc", "abd"));
    assert!(!same_text("abc", "ab"));
    assert!(!same_text("Abc", "abc"));
}

#[test]
fn bounds_are_the_tile_grid_in_thousandths_of_a_pixel() {
    let mut world = World::new();
    world.map_templates.push(template("field", 100, 50, (0, 0)));
    assert_eq!(get_map_bounds_from_db(&world, "field"), (0, 800_000, 0, 400_000));
    assert_eq!(get_map_bounds_from_db(&world, "cave"), (0, 0, 0, 0));
    world.map_templates.push(template("huge", u32::MAX, 1, (0, 0)));
    assert_eq!(get_map_bounds_from_db(&world, "huge"), (0, 0xFFFF_FFFFi64 * 8_000, 0, 8_000));
}

#[test]
fn instance_is_made_from_its_template_once() {
    let mut world = World::new();
    world.map_templates.push(template("field", 10, 10, (0, 0)));
    let made = get_or_create_map_instance(&mut world, "field").expect("template exists");
    assert_eq!(made.id, generate_map_instance_id("field"));
    assert_eq!(made.key_id, "field");
    assert_eq!(made.state, "Cold");
    assert_eq!(made.player_count, 0);
    assert_eq!(made.template_name, "field");
    assert_eq!(world.map_instances.len(), 1);
    world.map_instances[0].player_count = 5;
    let again = get_or_create_map_instance(&mut world, "field").expect("instance exists");
    assert_eq!(again.player_count, 5);
    assert_eq!(world.map_instances.len(), 1);
}

#[test]
fn new_instance_counts_the_players_who_are_there_already() {
    let mut world = World::new();
    world.map_templates.push(template("field", 10, 10, (0, 0)));
    world.players.push(player(1, 0, 0, "field"));
    world.players.push(player(2, 0, 0, "cave"));
    world.players.push(player(3, 0, 0, "field"));
    let made = get_or_create_map_instance(&mut world, "field").expect("template exists");
    assert_eq!(made.state, "Hot");
    assert_eq!(made.player_count, 2);
    assert!(world.has_consistent_maps());
}

#[test]
fn consistency_check_sees_stale_and_doubled_instances() {
    let mut world = World::new();
    world.map_templates.push(template("field", 10, 10, (0, 0)));
    world.players.push(player(1, 0, 0, "field"));
    assert!(world.has_consistent_maps());
    assert!(get_or_create_map_instance(&mut world, "field").is_some());
    assert!(world.has_consistent_maps());
    world.map_instances[0].player_count = 2;
    assert!(!world.has_consistent_maps());
    world.map_instances[0].player_count = 1;
    world.map_instances[0].state = "Cold".to_string();
    assert!(!world.has_consistent_maps());
    world.map_instances[0].state = "Hot".to_string();
    assert!(world.has_consistent_maps());
    world.players[0].current_map_id = "cave".to_string();
    assert!(!world.has_consistent_maps());
    assert_eq!(update_map_state(&mut world, "field"), Ok(()));
    assert!(world.has_consistent_maps());
    let copy = MapInstance {
        id: 9,
        key_id: "field".to_string(),
        state: "Cold".to_string(),
        player_count: 0,
        template_name: "field".to_string(),
    };
    world.map_instances.push(copy);
    assert!(!world.has_consistent_maps());
}

#[test]
fn operations_keep_the_maps_consistent() {
    let mut world = World::new();
    world.map_templates.push(template("tavern_outside", 100, 100, (12_000, 20_000)));
    world.map_templates.push(template("inside", 10, 10, (0, 0)));
    world.map_templates.push(template("field", 10, 10, (4_000, 36_000)));
    world.map_transitions.push(zone(1, "field", 0, 0, "inside"));
    world.players.push(player(1, 50_000, 50_000, "field"));
    world.players.push(player(2, 1, 1, "field"));
    assert_eq!(update_map_state(&mut world, "field"), Ok(()));
    assert!(world.has_consistent_maps());
    assert_eq!(check_map_transition(&mut world, 1), Ok(()));
    assert!(world.has_consistent_maps());
    assert_eq!(check_map_transition(&mut world, 2), Ok(()));
    assert!(world.has_consistent_maps());
    assert_eq!(
        instances(&world),
        vec![
            ("field".to_string(), "Hot".to_string(), 1),
            ("inside".to_string(), "Hot".to_string(), 1),
        ]
    );
    assert_eq!(spawn_player_at_map(&mut world, &owner(), 1, "cellar".to_string()), Ok(()));
    assert!(world.has_consistent_maps());
    assert_eq!(
        instances(&world),
        vec![
            ("field".to_string(), "Cold".to_string(), 0),
            ("inside".to_string(), "Hot".to_string(), 1),
            ("tavern_outside".to_string(), "Hot".to_string(), 1),
        ]
    );
}

#[test]
fn map_without_template_gets_no_instance() {
    let mut world = World::new();
    world.map_templates.push(template("field", 10, 10, (0, 0)));
    assert!(get_or_create_map_instance(&mut world, "cave").is_none());
    assert!(world.map_instances.is_empty());
}

#[test]
fn players_are_counted_by_map() {
    let mut world = World::new();
    world.players.push(player(1, 0, 0, "field"));
    world.players.push(player(2, 0, 0, "cave"));
    world.players.push(player(3, 0, 0, "field"));
    assert_eq!(count_players_in_map(&world, "field"), 2);
    assert_eq!(count_players_in_map(&world, "cave"), 1);
    assert_eq!(count_players_in_map(&world, "sea"), 0);
}

#[test]
fn map_is_hot_exactly_while_players_are_on_it() {
    let mut world = World::new();
    world.map_templates.push(template("field", 10, 10, (0, 0)));
    assert_eq!(update_map_state(&mut world, "field"), Ok(()));
    assert_eq!(instances(&world), vec![("field".to_string(), "Cold".to_string(), 0)]);
    world.players.push(player(1, 0, 0, "field"));
    world.players.push(player(2, 0, 0, "field"));
    assert_eq!(update_map_state(&mut world, "field"), Ok(()));
    assert_eq!(instances(&world), vec![("field".to_string(), "Hot".to_string(), 2)]);
    world.players[0].current_map_id = "cave".to_string();
    world.players[1].current_map_id = "cave".to_string();
    assert_eq!(update_map_state(&mut world, "field"), Ok(()));
    assert_eq!(instances(&world), vec![("field".to_string(), "Cold".to_string(), 0)]);
    assert_eq!(update_map_state(&mut world, "cave"), Ok(()));
    assert_eq!(instances(&world), vec![("field".to_string(), "Cold".to_string(), 0)]);
}

#[test]
fn zone_edges_belong_to_the_zone() {
    for &(x, y, inside) in [
        (136_000, 168_000, true),
        (144_000, 176_000, true),
        (136_000, 176_000, true),
        (140_000, 170_000, true),
        (135_999, 170_000, false),
        (144_001, 170_000, false),
        (140_000, 167_999, false),
        (140_000, 176_001, false),
    ]
    .iter()
    {
        let mut world = World::new();
        world.map_templates.push(template("inside", 10, 10, (0, 0)));
        world.map_transitions.push(zone(1, "outside", 136_000, 168_000, "inside"));
        world.players.push(player(1, x, y, "outside"));
        assert_eq!(check_map_transition(&mut world, 1), Ok(()));
        let moved = world.players[0].current_map_id == "inside";
        assert_eq!(moved, inside, "at ({}, {})", x, y);
    }
}

#[test]
fn transition_moves_the_player_to_the_arrival_point_at_rest() {
    let mut world = World::new();
    world.map_templates.push(template("inside", 10, 10, (0, 0)));
    world.map_templates.push(template("outside", 10, 10, (0, 0)));
    world.map_transitions.push(zone(1, "outside", 0, 0, "inside"));
    world.players.push(player(1, 4_000, 4_000, "outside"));
    world.players.push(player(2, 400_000, 4_000, "outside"));
    assert_eq!(check_map_transition(&mut world, 1), Ok(()));
    let p = &world.players[0];
    assert_eq!(p.current_map_id, "inside");
    assert_eq!((p.position_x, p.position_y), (11_000, 22_000));
    assert_eq!((p.velocity_x, p.velocity_y), (0, 0));
    assert_eq!(world.players[1].current_map_id, "outside");
    assert_eq!((world.players[1].velocity_x, world.players[1].velocity_y), (3, 4));
    assert_eq!(
        instances(&world),
        vec![
            ("inside".to_string(), "Hot".to_string(), 1),
            ("outside".to_string(), "Hot".to_string(), 1),
        ]
    );
}

#[test]
fn first_zone_in_table_order_wins() {
    let mut world = World::new();
    world.map_templates.push(template("a", 10, 10, (0, 0)));
    world.map_templates.push(template("b", 10, 10, (0, 0)));
    world.map_transitions.push(zone(1, "elsewhere", 0, 0, "a"));
    world.map_transitions.push(zone(2, "outside", 0, 0, "b"));
    world.map_transitions.push(zone(3, "outside", 0, 0, "a"));
    world.players.push(player(1, 1, 1, "outside"));
    assert_eq!(check_map_transition(&mut world, 1), Ok(()));
    assert_eq!(world.players[0].current_map_id, "b");
}

#[test]
fn transition_of_an_unknown_player_fails() {
    let mut world = World::new();
    assert_eq!(check_map_transition(&mut world, 1), Err(GameError::PlayerNotFound));
}

#[test]
fn zone_check_finds_broken_destinations() {
    let mut world = World::new();
    world.map_transitions.push(zone(1, "outside", 0, 0, "inside"));
    assert!(!world.has_destinations_available());
    world.map_templates.push(template("inside", 10, 10, (0, 0)));
    assert!(world.has_destinations_available());
    world.map_transitions.push(zone(2, "outside", 0, 0, "cellar"));
    assert!(!world.has_destinations_available());
    world.map_instances.push(MapInstance {
        id: 1,
        key_id: "cellar".to_string(),
        state: "Cold".to_string(),
        player_count: 0,
        template_name: "cellar".to_string(),
    });
    assert!(world.has_destinations_available());
}

#[test]
fn spawn_point_falls_back_to_the_starting_map() {
    let mut world = World::new();
    world.map_templates.push(template("tavern_outside", 10, 10, (12_000, 20_000)));
    world.map_templates.push(template("field", 10, 10, (4_000, 36_000)));
    assert_eq!(get_spawn_point(&world, "field"), (4_000, 36_000));
    assert_eq!(get_spawn_point(&world, "cave"), (12_000, 20_000));
    assert_eq!(get_spawn_point(&world, "tavern_outside"), (12_000, 20_000));
}

#[test]
fn spawning_sets_the_player_down_on_the_map() {
    let mut world = World::new();
    world.map_templates.push(template("tavern_outside", 10, 10, (12_000, 20_000)));
    world.map_templates.push(template("field", 10, 10, (4_000, 36_000)));
    world.players.push(player(1, 7, 7, "limbo"));
    assert_eq!(spawn_player_at_map(&mut world, &owner(), 1, "field".to_string()), Ok(()));
    let p = &world.players[0];
    assert_eq!(p.current_map_id, "field");
    assert_eq!((p.position_x, p.position_y), (4_000, 36_000));
    assert_eq!((p.velocity_x, p.velocity_y), (0, 0));
    assert_eq!(instances(&world), vec![("field".to_string(), "Hot".to_string(), 1)]);
}

#[test]
fn spawning_on_a_missing_map_falls_back_to_the_starting_map() {
    let mut world = World::new();
    world.map_templates.push(template("tavern_outside", 10, 10, (12_000, 20_000)));
    world.players.push(player(1, 7, 7, "limbo"));
    assert_eq!(spawn_player_at_map(&mut world, &owner(), 1, "cave".to_string()), Ok(()));
    let p = &world.players[0];
    assert_eq!(p.current_map_id, "tavern_outside");
    assert_eq!((p.position_x, p.position_y), (12_000, 20_000));
    assert_eq!(instances(&world), vec![("tavern_outside".to_string(), "Hot".to_string(), 1)]);
}

#[test]
fn spawning_needs_the_owner_and_the_player() {
    let mut world = World::new();
    world.map_templates.push(template("tavern_outside", 10, 10, (12_000, 20_000)));
    world.players.push(player(1, 7, 7, "limbo"));
    assert_eq!(
        spawn_player_at_map(&mut world, &stranger(), 1, "tavern_outside".to_string()),
        Err(GameError::Unauthorized)
    );
    assert_eq!(
        spawn_player_at_map(&mut world, &owner(), 2, "tavern_outside".to_string()),
        Err(GameError::PlayerNotFound)
    );
    assert_eq!(world.players[0].current_map_id, "limbo");
    assert!(world.map_instances.is_empty());
    assert_eq!(GameError::Unauthorized.message(), "Unauthorized");
}

#[test]
fn default_transitions_are_the_tavern_door() {
    let mut world = World::new();
    init_map_transitions(&mut world);
    let zones: Vec<(u32, String, i32, i32, i32, i32, String, i32, i32)> = world
        .map_transitions
        .iter()
        .map(|t| {
            (
                t.id,
                t.map_id.clone(),
                t.x,
                t.y,
                t.width,
                t.height,
                t.dest_map_id.clone(),
                t.dest_x,
                t.dest_y,
            )
        })
        .collect();
    assert_eq!(
        zones,
        vec![
            (
                1,
                "tavern_outside".to_string(),
                136_000,
                168_000,
                8_000,
                8_000,
                "tavern_inside".to_string(),
                176_000,
                88_000
            ),
            (
                2,
                "tavern_inside".to_string(),
                176_000,
                96_000,
                8_000,
                8_000,
                "tavern_outside".to_string(),
                116_000,
                188_000
            ),
        ]
    );
}

#[test]
fn templates_are_replaced_as_a_whole() {
    let mut world = World::new();
    world.map_templates.push(template("old", 1, 1, (0, 0)));
    let r = replace_all_templates(
        &mut world,
        vec![template("new_a", 2, 2, (0, 0)), template("new_b", 3, 3, (0, 0))],
    );
    assert_eq!(r, Ok(()));
    let names: Vec<String> = world.map_templates.iter().map(|t| t.name.clone()).collect();
    assert_eq!(names, vec!["new_a".to_string(), "new_b".to_string()]);
}
