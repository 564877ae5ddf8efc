use guildmaster_server::entity::{MapInstance, MapTemplate, MapTransition, Player};
use guildmaster_server::error::GameError;
use guildmaster_server::movement::{
    check_player_collision, check_static_collision, force_player_position, get_player_position,
    update_player_position, validate_movement_bounds, validate_movement_speed,
    validate_position_delta, MAX_MOVEMENT_SPEED, MAX_POSITION_DELTA,
};
use guildmaster_server::world::World;
use spacetimedb::{Identity, Timestamp};

fn owner() -> Identity {
    Identity::from_byte_array([7u8; 32])
}

fn stranger() -> Identity {
    Identity::from_byte_array([9u8; 32])
}

fn player_at(id: u32, x: i32, y: i32, map: &str) -> Player {
    Player {
        id,
        username_canonical: format!("player{}", id),
        username_display: format!("Player{}", id),
        identity: owner(),
        position_x: x,
        position_y: y,
        velocity_x: 0,
        velocity_y: 0,
        current_map_id: map.to_string(),
        health: 100_000,
        max_health: 100_000,
        is_downed: false,
        last_input_sequence: 0,
        last_transition_time: Timestamp::from_micros_since_unix_epoch(0),
    }
}

fn template(name: &str, width: u32, height: u32) -> MapTemplate {
    MapTemplate {
        name: name.to_string(),
        width,
        height,
        tile_data: vec![0; (width * height) as usize],
        spawn_x: 4_000,
        spawn_y: 4_000,
    }
}

fn world_with_player(x: i32, y: i32) -> World {
    let mut world = World::new();
    world.map_templates.push(template("field", 100, 100));
    world.players.push(player_at(1, x, y, "field"));
    world
}

fn snapshot(world: &World) -> Vec<(u32, i32, i32, i32, i32, String, u32)> {
    world
        .players
        .iter()
        .map(|p| {
            (
                p.id,
                p.position_x,
                p.position_y,
                p.velocity_x,
                p.velocity_y,
                p.current_map_id.clone(),
                p.last_input_sequence,
            )
        })
        .collect()
}

#[test]
fn limits_are_250_per_second_and_50_per_update() {
    assert_eq!(MAX_MOVEMENT_SPEED, 250_000);
    assert_eq!(MAX_POSITION_DELTA, 50_000);
}

#[test]
fn claim_far_outside_clamps_to_the_corner_of_the_map() {
    assert_eq!(
        validate_movement_bounds(1_000_000, 1_000_000, 100_000, 100_000),
        (100_000, 100_000)
    );
}

#[test]
fn claim_below_the_origin_clamps_to_the_origin() {
    assert_eq!(validate_movement_bounds(-5, -70_000, 100_000, 100_000), (0, 0));
    assert_eq!(validate_movement_bounds(i32::MIN, i32::MAX, 100_000, 100_000), (0, 100_000));
}

#[test]
fn claim_inside_the_map_is_kept() {
    assert_eq!(validate_movement_bounds(0, 100_000, 100_000, 100_000), (0, 100_000));
    assert_eq!(validate_movement_bounds(12_345, 67_890, 100_000, 100_000), (12_345, 67_890));
}

#[test]
fn map_wider_than_any_position_does_not_clamp() {
    assert_eq!(
        validate_movement_bounds(i32::MAX, 5, 0xFFFF_FFFFi64 * 8000, 10),
        (i32::MAX, 5)
    );
}

#[test]
fn speed_within_the_limit_is_kept() {
    assert_eq!(validate_movement_speed(150_000, 200_000), (150_000, 200_000));
    assert_eq!(validate_movement_speed(0, -250_000), (0, -250_000));
    assert_eq!(validate_movement_speed(0, 0), (0, 0));
}

#[test]
fn speed_over_the_limit_is_scaled_down_in_direction() {
    assert_eq!(validate_movement_speed(300_000, 400_000), (150_000, 200_000));
    assert_eq!(validate_movement_speed(-600_000, 0), (-250_000, 0));
    assert_eq!(validate_movement_speed(0, 250_001), (0, 250_000));
    assert_eq!(validate_movement_speed(250_000, 1), (249_999, 0));
}

#[test]
fn extreme_speed_is_scaled_down() {
    let (vx, vy) = validate_movement_speed(i32::MIN, i32::MAX);
    let (vx, vy) = (vx as i64, vy as i64);
    assert!(vx < 0 && vy > 0);
    assert!(vx * vx + vy * vy <= 250_000i64 * 250_000i64);
    assert!(vx * vx + vy * vy >= 249_990i64 * 249_990i64);
}

#[test]
fn step_within_the_limit_is_kept() {
    assert_eq!(validate_position_delta(0, 0, 30_000, 40_000), (30_000, 40_000));
    assert_eq!(validate_position_delta(10_000, 10_000, 10_000, 10_000), (10_000, 10_000));
}

#[test]
fn step_over_the_limit_is_cut_along_its_direction() {
    assert_eq!(validate_position_delta(0, 0, 60_000, 80_000), (30_000, 40_000));
    assert_eq!(validate_position_delta(100_000, 100_000, 100_000, 0), (100_000, 50_000));
    assert_eq!(validate_position_delta(0, 0, 100_000, 100_000), (35_355, 35_355));
}

#[test]
fn step_across_the_whole_coordinate_range_is_cut() {
    let (x, y) = validate_position_delta(i32::MIN, i32::MIN, i32::MAX, i32::MAX);
    let dx = x as i64 - i32::MIN as i64;
    let dy = y as i64 - i32::MIN as i64;
    assert!(dx > 0 && dy > 0);
    assert!(dx * dx + dy * dy <= 50_000i64 * 50_000i64);
}

#[test]
fn accepted_update_commits_position_velocity_and_sequence() {
    let mut world = world_with_player(0, 0);
    let r = update_player_position(&mut world, &owner(), 1, 30_000, 40_000, 300_000, 400_000, 1);
    assert_eq!(r, Ok(()));
    let p = &world.players[0];
    assert_eq!((p.position_x, p.position_y), (30_000, 40_000));
    assert_eq!((p.velocity_x, p.velocity_y), (150_000, 200_000));
    assert_eq!(p.last_input_sequence, 1);
    assert_eq!(p.current_map_id, "field");
}

#[test]
fn update_far_outside_the_map_is_clamped_then_limited_to_one_step() {
    let mut world = World::new();
    world.map_templates.push(MapTemplate {
        name: "small".to_string(),
        width: 12,
        height: 12,
        tile_data: vec![],
        spawn_x: 0,
        spawn_y: 0,
    });
    world.players.push(player_at(1, 0, 0, "small"));
    let r = update_player_position(&mut world, &owner(), 1, 1_000_000, 1_000_000, 0, 0, 1);
    assert_eq!(r, Ok(()));
    let p = &world.players[0];
    // The claim clamps to the corner (96, 96) of the map; the step toward
    // it is cut to 50.
    assert_eq!((p.position_x, p.position_y), (35_355, 35_355));
}

#[test]
fn repeated_claims_far_outside_walk_the_player_to_the_corner() {
    let mut world = World::new();
    world.map_templates.push(MapTemplate {
        name: "small".to_string(),
        width: 12,
        height: 12,
        tile_data: vec![],
        spawn_x: 0,
        spawn_y: 0,
    });
    world.players.push(player_at(1, 0, 0, "small"));
    let mut steps = Vec::new();
    for sequence in 1..=4 {
        let r = update_player_position(&mut world, &owner(), 1, 1_000_000, 1_000_000, 0, 0, sequence);
        assert_eq!(r, Ok(()));
        steps.push((world.players[0].position_x, world.players[0].position_y));
    }
    assert_eq!(
        steps,
        vec![(35_355, 35_355), (70_710, 70_710), (96_000, 96_000), (96_000, 96_000)]
    );
}

#[test]
fn accepted_update_stays_within_all_limits() {
    let claims = [
        (1_000_000, 1_000_000, 1_000_000, -1_000_000),
        (-40_000, 900_000, 3, 250_001),
        (799_999, 1, -250_000, -1),
        (i32::MAX, i32::MIN, i32::MIN, i32::MAX),
    ];
    let mut world = world_with_player(400_000, 400_000);
    let mut sequence = 0;
    for &(x, y, vx, vy) in claims.iter() {
        sequence += 1;
        let before = (world.players[0].position_x as i64, world.players[0].position_y as i64);
        assert_eq!(update_player_position(&mut world, &owner(), 1, x, y, vx, vy, sequence), Ok(()));
        let p = &world.players[0];
        let (px, py) = (p.position_x as i64, p.position_y as i64);
        let (vx, vy) = (p.velocity_x as i64, p.velocity_y as i64);
        assert!(0 <= px && px <= 800_000 && 0 <= py && py <= 800_000);
        assert!(vx * vx + vy * vy <= 250_000i64 * 250_000);
        let (dx, dy) = (px - before.0, py - before.1);
        assert!(dx * dx + dy * dy <= 50_000i64 * 50_000);
        assert_eq!(p.last_input_sequence, sequence);
    }
}

#[test]
fn stale_sequence_number_is_ignored() {
    let mut world = world_with_player(10_000, 10_000);
    assert_eq!(update_player_position(&mut world, &owner(), 1, 20_000, 10_000, 5, 5, 7), Ok(()));
    let committed = snapshot(&world);
    assert_eq!(update_player_position(&mut world, &owner(), 1, 30_000, 30_000, 9, 9, 7), Ok(()));
    assert_eq!(snapshot(&world), committed);
    assert_eq!(update_player_position(&mut world, &owner(), 1, 30_000, 30_000, 9, 9, 3), Ok(()));
    assert_eq!(snapshot(&world), committed);
    assert_eq!(update_player_position(&mut world, &owner(), 1, 30_000, 30_000, 9, 9, 0), Ok(()));
    assert_eq!(snapshot(&world), committed);
}

#[test]
fn sequence_numbers_only_grow() {
    let mut world = world_with_player(10_000, 10_000);
    let mut last = 0;
    for &sequence in [5u32, 2, 5, 9, 1, 10, 10, u32::MAX, 0].iter() {
        assert_eq!(update_player_position(&mut world, &owner(), 1, 10_000, 10_000, 0, 0, sequence), Ok(()));
        let now = world.players[0].last_input_sequence;
        assert!(now >= last);
        if sequence > last {
            assert_eq!(now, sequence);
        } else {
            assert_eq!(now, last);
        }
        last = now;
    }
    assert_eq!(last, u32::MAX);
}

#[test]
fn accepted_update_leaves_every_other_player_alone() {
    let mut world = world_with_player(10_000, 10_000);
    world.players.push(player_at(2, 20_000, 20_000, "field"));
    world.players.push(player_at(3, 30_000, 30_000, "field"));
    world.players[0].last_input_sequence = 4;
    world.players[2].last_input_sequence = 9;
    let others = snapshot(&world)[..2].to_vec();
    assert_eq!(update_player_position(&mut world, &owner(), 3, 31_000, 30_000, 1, 1, 10), Ok(()));
    assert_eq!(snapshot(&world)[..2].to_vec(), others);
    assert_eq!(world.players[2].last_input_sequence, 10);
    assert_eq!(world.players[2].id, 3);
    assert_eq!(world.players.len(), 3);
}

#[test]
fn update_of_an_unknown_player_fails() {
    let mut world = world_with_player(0, 0);
    let before = snapshot(&world);
    let r = update_player_position(&mut world, &owner(), 2, 1, 1, 1, 1, 1);
    assert_eq!(r, Err(GameError::PlayerNotFound));
    assert_eq!(snapshot(&world), before);
}

#[test]
fn update_by_someone_else_fails_and_changes_nothing() {
    let mut world = world_with_player(0, 0);
    let before = snapshot(&world);
    let r = update_player_position(&mut world, &stranger(), 1, 1_000, 1_000, 1, 1, 1);
    assert_eq!(r, Err(GameError::UnauthorizedMovement));
    assert_eq!(snapshot(&world), before);
    assert_eq!(GameError::UnauthorizedMovement.message(), "Unauthorized movement update");
}

#[test]
fn map_without_template_has_only_the_origin() {
    let mut world = World::new();
    world.players.push(player_at(1, 30_000, 40_000, "nowhere"));
    let r = update_player_position(&mut world, &owner(), 1, 70_000, 70_000, 0, 0, 1);
    assert_eq!(r, Ok(()));
    // The claim clamps to (0, 0), which lies exactly one step away.
    assert_eq!((world.players[0].position_x, world.players[0].position_y), (0, 0));
}

#[test]
fn movement_into_a_transition_zone_carries_the_player_away() {
    let mut world = World::new();
    world.map_templates.push(template("tavern_outside", 100, 100));
    world.map_templates.push(template("tavern_inside", 50, 50));
    world.map_transitions.push(MapTransition {
        id: 1,
        map_id: "tavern_outside".to_string(),
        x: 136_000,
        y: 168_000,
        width: 8_000,
        height: 8_000,
        dest_map_id: "tavern_inside".to_string(),
        dest_x: 176_000,
        dest_y: 88_000,
    });
    world.players.push(player_at(1, 137_000, 169_000, "tavern_outside"));
    let r = update_player_position(&mut world, &owner(), 1, 140_000, 170_000, 100_000, 0, 1);
    assert_eq!(r, Ok(()));
    let p = &world.players[0];
    assert_eq!(p.current_map_id, "tavern_inside");
    assert_eq!((p.position_x, p.position_y), (176_000, 88_000));
    assert_eq!((p.velocity_x, p.velocity_y), (0, 0));
    assert_eq!(p.last_input_sequence, 1);
    let states: Vec<(String, String, u32)> = world
        .map_instances
        .iter()
        .map(|m: &MapInstance| (m.key_id.clone(), m.state.clone(), m.player_count))
        .collect();
    assert_eq!(
        states,
        vec![
            ("tavern_inside".to_string(), "Hot".to_string(), 1),
            ("tavern_outside".to_string(), "Cold".to_string(), 0),
        ]
    );
}

#[test]
fn movement_outside_every_zone_keeps_the_map() {
    let mut world = World::new();
    world.map_templates.push(template("tavern_outside", 100, 100));
    world.map_templates.push(template("tavern_inside", 50, 50));
    world.map_transitions.push(MapTransition {
        id: 1,
        map_id: "tavern_outside".to_string(),
        x: 136_000,
        y: 168_000,
        width: 8_000,
        height: 8_000,
        dest_map_id: "tavern_inside".to_string(),
        dest_x: 176_000,
        dest_y: 88_000,
    });
    world.players.push(player_at(1, 100_000, 100_000, "tavern_outside"));
    let r = update_player_position(&mut world, &owner(), 1, 110_000, 110_000, 0, 0, 1);
    assert_eq!(r, Ok(()));
    assert_eq!(world.players[0].current_map_id, "tavern_outside");
    assert_eq!((world.players[0].position_x, world.players[0].position_y), (110_000, 110_000));
    assert!(world.map_instances.is_empty());
}

#[test]
fn forced_position_is_clamped_and_stops_the_player() {
    let mut world = world_with_player(10_000, 10_000);
    world.players[0].velocity_x = 5;
    world.players[0].last_input_sequence = 4;
    assert_eq!(force_player_position(&mut world, &owner(), 1, 900_000, -3), Ok(()));
    let p = &world.players[0];
    assert_eq!((p.position_x, p.position_y), (800_000, 0));
    assert_eq!((p.velocity_x, p.velocity_y), (0, 0));
    assert_eq!(p.last_input_sequence, 4);
}

#[test]
fn forced_position_needs_the_owner() {
    let mut world = world_with_player(10_000, 10_000);
    let before = snapshot(&world);
    assert_eq!(
        force_player_position(&mut world, &stranger(), 1, 5, 5),
        Err(GameError::UnauthorizedPositionCorrection)
    );
    assert_eq!(snapshot(&world), before);
    assert_eq!(force_player_position(&mut world, &owner(), 99, 5, 5), Ok(()));
    assert_eq!(snapshot(&world), before);
}

#[test]
fn position_query_reports_position_and_velocity() {
    let mut world = world_with_player(10_000, 20_000);
    world.players[0].velocity_x = -3;
    world.players[0].velocity_y = 4;
    assert_eq!(get_player_position(&world, 1), Some((10_000, 20_000, -3, 4)));
    assert_eq!(get_player_position(&world, 2), None);
}

#[test]
fn static_collision_is_leaving_the_map() {
    assert!(!check_static_collision(0, 0, 100, 100));
    assert!(!check_static_collision(100, 100, 100, 100));
    assert!(check_static_collision(101, 50, 100, 100));
    assert!(check_static_collision(50, -1, 100, 100));
}

#[test]
fn players_never_block_each_other() {
    assert!(!check_player_collision(1, 0, 0));
    assert!(!check_player_collision(2, i32::MAX, i32::MIN));
}
