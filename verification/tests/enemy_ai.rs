use guildmaster_server::enemy_ai::{derive_all_enemy_ai, derive_enemy_ai, AiState};
use guildmaster_server::entity::{Enemy, Player};
use guildmaster_server::world::World;
use spacetimedb::{Identity, Timestamp};

fn player(id: u32, x: i32, y: i32, map: &str) -> Player {
    Player {
        id,
        username_canonical: format!("p{}", id),
        username_display: format!("P{}", id),
        identity: Identity::from_byte_array([id as u8; 32]),
        position_x: x,
        position_y: y,
        velocity_x: 0,
        velocity_y: 0,
        current_map_id: map.to_string(),
        health: 100_000,
        max_health: 100_000,
        is_downed: false,
        last_input_sequence: 0,
        last_transition_time: Timestamp::from_micros_since_unix_epoch(0),
    }
}

fn guard(id: u32, x: i32, y: i32, state: &str) -> Enemy {
    Enemy {
        id,
        position_x: x,
        position_y: y,
        velocity_x: 0,
        velocity_y: 0,
        health: 50_000,
        max_health: 50_000,
        enemy_type: "TestEnemy".to_string(),
        map_id: "field".to_string(),
        state: state.to_string(),
        patrol_center_x: 0,
        patrol_center_y: 0,
        patrol_radius: 100_000,
        detection_range: 100_000,
        leash_range: 200_000,
        target_player_id: None,
        last_known_player_x: -1,
        last_known_player_y: -1,
        state_timer: 0,
        movement_speed: 75_000,
        attack_damage: 15_000,
        attack_range: 30_000,
        attack_cooldown: 2_000,
        last_attack_time: 0,
        is_active: true,
    }
}

fn mind(world: &World, j: usize) -> (String, Option<u32>, i32, i32) {
    let e = &world.enemies[j];
    (e.state.clone(), e.target_player_id, e.last_known_player_x, e.last_known_player_y)
}

fn thinks(state: &str, target: Option<u32>, x: i32, y: i32) -> (String, Option<u32>, i32, i32) {
    (state.to_string(), target, x, y)
}

#[test]
fn states_have_their_tags() {
    assert_eq!(AiState::Idle.tag(), "Idle");
    assert_eq!(AiState::Alert.tag(), "Alert");
    assert_eq!(AiState::Chasing.tag(), "Chasing");
    assert_eq!(AiState::from_tag("Idle"), AiState::Idle);
    assert_eq!(AiState::from_tag("Alert"), AiState::Alert);
    assert_eq!(AiState::from_tag("Chasing"), AiState::Chasing);
    assert_eq!(AiState::from_tag("Sleeping"), AiState::Idle);
    assert_eq!(AiState::from_tag(""), AiState::Idle);
}

#[test]
fn states_move_one_step_at_a_time() {
    assert_eq!(AiState::Idle.next(true, true), AiState::Alert);
    assert_eq!(AiState::Alert.next(true, true), AiState::Chasing);
    assert_eq!(AiState::Chasing.next(true, false), AiState::Chasing);
    assert_eq!(AiState::Chasing.next(false, true), AiState::Alert);
    assert_eq!(AiState::Alert.next(false, false), AiState::Alert);
    assert_eq!(AiState::Alert.next(false, true), AiState::Idle);
    assert_eq!(AiState::Idle.next(false, false), AiState::Idle);
}

#[test]
fn enemy_notices_then_chases_a_player_in_range() {
    let mut world = World::new();
    world.players.push(player(1, 60_000, 80_000, "field"));
    world.enemies.push(guard(11, 0, 0, "Idle"));
    assert_eq!(derive_enemy_ai(&mut world, 11), Ok(()));
    assert_eq!(mind(&world, 0), thinks("Alert", Some(1), 60_000, 80_000));
    world.players[0].position_x = 50_000;
    assert_eq!(derive_enemy_ai(&mut world, 11), Ok(()));
    assert_eq!(mind(&world, 0), thinks("Chasing", Some(1), 50_000, 80_000));
    assert_eq!(derive_enemy_ai(&mut world, 11), Ok(()));
    assert_eq!(mind(&world, 0), thinks("Chasing", Some(1), 50_000, 80_000));
}

#[test]
fn enemy_loses_a_player_who_leaves_its_range() {
    let mut world = World::new();
    world.players.push(player(1, 60_000, 80_001, "field"));
    world.enemies.push(guard(11, 0, 0, "Chasing"));
    world.enemies[0].target_player_id = Some(1);
    world.enemies[0].last_known_player_x = 60_000;
    world.enemies[0].last_known_player_y = 80_000;
    assert_eq!(derive_enemy_ai(&mut world, 11), Ok(()));
    assert_eq!(mind(&world, 0), thinks("Alert", None, 60_000, 80_000));
    assert_eq!(derive_enemy_ai(&mut world, 11), Ok(()));
    assert_eq!(mind(&world, 0), thinks("Idle", None, 60_000, 80_000));
    assert_eq!(derive_enemy_ai(&mut world, 11), Ok(()));
    assert_eq!(mind(&world, 0), thinks("Idle", None, 60_000, 80_000));
}

#[test]
fn enemy_ignores_downed_players_and_other_maps() {
    let mut world = World::new();
    world.players.push(player(1, 10_000, 0, "field"));
    world.players.push(player(2, 10_000, 0, "cave"));
    world.players.push(player(3, 20_000, 0, "field"));
    world.players[0].health = 0;
    world.players[0].is_downed = true;
    world.enemies.push(guard(11, 0, 0, "Idle"));
    assert_eq!(derive_enemy_ai(&mut world, 11), Ok(()));
    assert_eq!(mind(&world, 0), thinks("Alert", Some(3), 20_000, 0));
    world.players[2].health = 0;
    world.players[2].is_downed = true;
    assert_eq!(derive_enemy_ai(&mut world, 11), Ok(()));
    assert_eq!(mind(&world, 0), thinks("Idle", None, 20_000, 0));
}

#[test]
fn enemy_off_its_leash_gives_up_and_walks_home() {
    let mut world = World::new();
    world.players.push(player(1, 210_000, 0, "field"));
    world.enemies.push(guard(11, 200_001, 0, "Chasing"));
    world.enemies[0].target_player_id = Some(1);
    assert_eq!(derive_enemy_ai(&mut world, 11), Ok(()));
    assert_eq!(mind(&world, 0), thinks("Alert", None, -1, -1));
    // Away from home it stays alert, though the player is close.
    world.enemies[0].position_x = 200_001;
    assert_eq!(derive_enemy_ai(&mut world, 11), Ok(()));
    assert_eq!(mind(&world, 0), thinks("Alert", None, -1, -1));
    // Back on the leash it sees the player again.
    world.enemies[0].position_x = 200_000;
    assert_eq!(derive_enemy_ai(&mut world, 11), Ok(()));
    assert_eq!(mind(&world, 0), thinks("Chasing", Some(1), 210_000, 0));
    // At home, with nobody around, it calms down.
    world.players[0].current_map_id = "cave".to_string();
    world.enemies[0].position_x = 100_000;
    assert_eq!(derive_enemy_ai(&mut world, 11), Ok(()));
    assert_eq!(mind(&world, 0), thinks("Alert", None, 210_000, 0));
    assert_eq!(derive_enemy_ai(&mut world, 11), Ok(()));
    assert_eq!(mind(&world, 0), thinks("Idle", None, 210_000, 0));
}

#[test]
fn unknown_state_counts_as_idle() {
    let mut world = World::new();
    world.players.push(player(1, 10_000, 0, "field"));
    world.enemies.push(guard(11, 0, 0, "Berserk"));
    assert_eq!(derive_enemy_ai(&mut world, 11), Ok(()));
    assert_eq!(mind(&world, 0), thinks("Alert", Some(1), 10_000, 0));
}

#[test]
fn missing_enemy_changes_nothing() {
    let mut world = World::new();
    world.players.push(player(1, 10_000, 0, "field"));
    world.enemies.push(guard(11, 0, 0, "Idle"));
    assert_eq!(derive_enemy_ai(&mut world, 12), Ok(()));
    assert_eq!(mind(&world, 0), thinks("Idle", None, -1, -1));
}

#[test]
fn every_enemy_is_derived_from_what_it_perceives() {
    let mut world = World::new();
    world.players.push(player(1, 10_000, 0, "field"));
    world.enemies.push(guard(11, 0, 0, "Idle"));
    world.enemies.push(guard(12, 150_000, 0, "Alert"));
    world.enemies.push(guard(13, 0, 50_000, "Alert"));
    world.enemies.push(guard(14, 0, 0, "Chasing"));
    world.enemies[3].map_id = "cave".to_string();
    assert_eq!(derive_all_enemy_ai(&mut world), Ok(()));
    assert_eq!(mind(&world, 0), thinks("Alert", Some(1), 10_000, 0));
    assert_eq!(mind(&world, 1), thinks("Alert", None, -1, -1));
    assert_eq!(mind(&world, 2), thinks("Chasing", Some(1), 10_000, 0));
    assert_eq!(mind(&world, 3), thinks("Alert", None, -1, -1));
    assert_eq!(world.players[0].health, 100_000);
}
