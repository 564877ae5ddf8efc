use guildmaster_server::combat::execute_attack;
use guildmaster_server::entity::{Enemy, InventoryItem, Player, Projectile};
use guildmaster_server::projectile::{
    advance_projectiles, check_projectile_enemy_collision, create_projectile, execute_bow_attack,
    get_projectiles_in_map, update_projectiles, ARROW_MAX_RANGE, ARROW_SPEED, ARROW_TIME_TO_LIVE,
    BOW_DAMAGE, PROJECTILE_COLLISION_RADIUS,
};
use guildmaster_server::world::World;
use spacetimedb::{Identity, Timestamp};

fn owner() -> Identity {
    Identity::from_byte_array([5u8; 32])
}

fn stranger() -> Identity {
    Identity::from_byte_array([6u8; 32])
}

fn archer(id: u32, x: i32, y: i32) -> Player {
    Player {
        id,
        username_canonical: format!("p{}", id),
        username_display: format!("P{}", id),
        identity: owner(),
        position_x: x,
        position_y: y,
        velocity_x: 0,
        velocity_y: 0,
        current_map_id: "field".to_string(),
        health: 100_000,
        max_health: 100_000,
        is_downed: false,
        last_input_sequence: 0,
        last_transition_time: Timestamp::from_micros_since_unix_epoch(0),
    }
}

fn arrows(id: u32, player_id: u32, quantity: i32) -> InventoryItem {
    InventoryItem {
        id,
        player_id,
        item_id: "arrow".to_string(),
        quantity,
        is_equipped: false,
        slot_type: "ammunition".to_string(),
    }
}

fn arrow(id: u32, x: i32, y: i32, vx: i32, vy: i32, ttl: i32) -> Projectile {
    Projectile {
        id,
        owner_id: 1,
        position_x: x,
        position_y: y,
        velocity_x: vx,
        velocity_y: vy,
        damage: 20_000,
        time_to_live: ttl,
        projectile_type: "Arrow".to_string(),
        map_id: "field".to_string(),
        is_active: true,
    }
}

fn target(id: u32, x: i32, y: i32, map: &str, health: u32) -> Enemy {
    Enemy {
        id,
        position_x: x,
        position_y: y,
        velocity_x: 0,
        velocity_y: 0,
        health,
        max_health: 50_000,
        enemy_type: "TestEnemy".to_string(),
        map_id: map.to_string(),
        state: "Idle".to_string(),
        patrol_center_x: x,
        patrol_center_y: y,
        patrol_radius: 100_000,
        detection_range: 100_000,
        leash_range: 200_000,
        target_player_id: None,
        last_known_player_x: 0,
        last_known_player_y: 0,
        state_timer: 0,
        movement_speed: 75_000,
        attack_damage: 15_000,
        attack_range: 30_000,
        attack_cooldown: 2_000,
        last_attack_time: 0,
        is_active: true,
    }
}

fn flights(world: &World) -> Vec<(u32, i32, i32, i32)> {
    world.projectiles.iter().map(|p| (p.id, p.position_x, p.position_y, p.time_to_live)).collect()
}

#[test]
fn projectile_constants() {
    assert_eq!(BOW_DAMAGE, 20_000);
    assert_eq!(ARROW_SPEED, 400_000);
    assert_eq!(ARROW_MAX_RANGE, 300_000);
    assert_eq!(ARROW_TIME_TO_LIVE, 5_000);
    assert_eq!(PROJECTILE_COLLISION_RADIUS, 5_000);
}

#[test]
fn arrow_expires_after_exactly_five_ticks_of_one_second() {
    let mut world = World::new();
    world.projectiles.push(arrow(2_000_001, 0, 0, 400_000, 0, ARROW_TIME_TO_LIVE));
    for tick in 1..=4 {
        assert_eq!(update_projectiles(&mut world, 1_000), Ok(()));
        assert_eq!(
            flights(&world),
            vec![(2_000_001, 400_000 * tick, 0, 5_000 - 1_000 * tick)]
        );
    }
    assert_eq!(update_projectiles(&mut world, 1_000), Ok(()));
    assert!(world.projectiles.is_empty());
    assert!(world.combat_events.is_empty());
}

#[test]
fn arrow_outlives_a_tick_that_leaves_it_time() {
    let mut world = World::new();
    world.projectiles.push(arrow(1, 0, 0, 0, 0, 1_000));
    assert_eq!(update_projectiles(&mut world, 999), Ok(()));
    assert_eq!(flights(&world), vec![(1, 0, 0, 1)]);
    assert_eq!(update_projectiles(&mut world, 1), Ok(()));
    assert!(world.projectiles.is_empty());
}

#[test]
fn tick_of_no_length_changes_nothing() {
    let mut world = World::new();
    world.projectiles.push(arrow(1, 10, 20, 400_000, -400_000, 1_000));
    assert_eq!(update_projectiles(&mut world, 0), Ok(()));
    assert_eq!(update_projectiles(&mut world, 0), Ok(()));
    assert_eq!(flights(&world), vec![(1, 10, 20, 1_000)]);
}

#[test]
fn position_moves_by_velocity_times_time() {
    let mut world = World::new();
    world.projectiles.push(arrow(1, 100, -100, 400_000, -282_842, 5_000));
    assert_eq!(update_projectiles(&mut world, 16), Ok(()));
    // 400 * 0.016 = 6.4 and 282.842 * 0.016 = 4.525472, rounded toward zero.
    assert_eq!(flights(&world), vec![(1, 100 + 6_400, -100 - 4_525, 4_984)]);
}

#[test]
fn position_stops_at_the_end_of_the_coordinate_range() {
    let mut world = World::new();
    world.projectiles.push(arrow(1, i32::MAX - 5, i32::MIN + 5, i32::MAX, i32::MIN, i32::MAX));
    assert_eq!(update_projectiles(&mut world, 1_000), Ok(()));
    assert_eq!(flights(&world), vec![(1, i32::MAX, i32::MIN, i32::MAX - 1_000)]);
}

#[test]
fn expired_arrow_deals_no_damage() {
    let mut world = World::new();
    world.enemies.push(target(11, 0, 0, "field", 50_000));
    world.projectiles.push(arrow(1, 0, 0, 0, 0, 1_000));
    assert_eq!(update_projectiles(&mut world, 1_000), Ok(()));
    assert!(world.projectiles.is_empty());
    assert_eq!(world.enemies[0].health, 50_000);
    assert!(world.combat_events.is_empty());
}

#[test]
fn arrow_hits_the_enemy_it_touches_and_is_removed() {
    let mut world = World::new();
    world.players.push(archer(1, 0, 0));
    world.enemies.push(target(11, 403_000, 4_000, "field", 50_000));
    world.projectiles.push(arrow(2_000_001, 0, 0, 400_000, 0, 5_000));
    assert_eq!(update_projectiles(&mut world, 1_000), Ok(()));
    assert!(world.projectiles.is_empty());
    assert_eq!(world.enemies[0].health, 30_000);
    assert_eq!(world.combat_events.len(), 1);
    let event = &world.combat_events[0];
    assert_eq!(event.weapon_type, "Bow");
    assert_eq!(event.damage, 20_000);
    assert_eq!(event.attacker_id, 1);
    assert_eq!(event.target_id, 11);
    assert_eq!(world.players[0].health, 100_000);
}

#[test]
fn collision_radius_is_five() {
    let projectile = arrow(1, 0, 0, 0, 0, 1);
    assert!(check_projectile_enemy_collision(&projectile, &target(1, 5_000, 0, "field", 1)));
    assert!(check_projectile_enemy_collision(&projectile, &target(1, 3_000, -4_000, "field", 1)));
    assert!(!check_projectile_enemy_collision(&projectile, &target(1, 5_001, 0, "field", 1)));
    assert!(!check_projectile_enemy_collision(&projectile, &target(1, 3_000, 4_001, "field", 1)));
    assert!(!check_projectile_enemy_collision(
        &arrow(1, i32::MIN, i32::MIN, 0, 0, 1),
        &target(1, i32::MAX, i32::MAX, "field", 1)
    ));
}

#[test]
fn first_enemy_in_table_order_takes_the_hit() {
    let mut world = World::new();
    world.enemies.push(target(11, 1_000, 0, "cave", 50_000));
    world.enemies.push(target(12, 9_000, 0, "field", 50_000));
    world.enemies.push(target(13, 2_000, 0, "field", 50_000));
    world.enemies.push(target(14, 0, 0, "field", 50_000));
    world.projectiles.push(arrow(1, 0, 0, 0, 0, 5_000));
    assert_eq!(update_projectiles(&mut world, 10), Ok(()));
    let healths: Vec<(u32, u32)> = world.enemies.iter().map(|e| (e.id, e.health)).collect();
    assert_eq!(healths, vec![(11, 50_000), (12, 50_000), (13, 30_000), (14, 50_000)]);
    assert_eq!(world.combat_events.len(), 1);
    assert_eq!(world.combat_events[0].target_id, 13);
}

#[test]
fn killed_enemy_is_gone_for_the_next_arrow() {
    let mut world = World::new();
    world.enemies.push(target(11, 0, 0, "field", 20_000));
    world.enemies.push(target(12, 1_000, 0, "field", 50_000));
    world.projectiles.push(arrow(1, 0, 0, 0, 0, 5_000));
    world.projectiles.push(arrow(2, 0, 0, 0, 0, 5_000));
    world.projectiles.push(arrow(3, 500_000, 0, 0, 0, 5_000));
    let hits = advance_projectiles(&mut world, 10);
    let landed: Vec<(u32, u32)> = hits.iter().map(|h| (h.target_id, h.damage)).collect();
    assert_eq!(landed, vec![(11, 20_000), (12, 20_000)]);
    let healths: Vec<(u32, u32)> = world.enemies.iter().map(|e| (e.id, e.health)).collect();
    assert_eq!(healths, vec![(12, 30_000)]);
    assert_eq!(flights(&world), vec![(3, 500_000, 0, 4_990)]);
    assert!(world.combat_events.is_empty());
}

#[test]
fn inactive_projectile_is_left_alone() {
    let mut world = World::new();
    world.enemies.push(target(11, 0, 0, "field", 50_000));
    let mut parked = arrow(1, 0, 0, 400_000, 0, 1);
    parked.is_active = false;
    world.projectiles.push(parked);
    assert_eq!(update_projectiles(&mut world, 1_000), Ok(()));
    assert_eq!(flights(&world), vec![(1, 0, 0, 1)]);
    assert_eq!(world.enemies[0].health, 50_000);
}

#[test]
fn bow_shot_uses_an_arrow_and_launches_one() {
    let mut world = World::new();
    world.players.push(archer(1, 7_000, 9_000));
    world.inventory_items.push(arrows(50, 1, 2));
    assert_eq!(execute_attack(&mut world, &owner(), 1, "Bow".to_string(), 3, 4), Ok(()));
    assert_eq!(world.inventory_items[0].quantity, 1);
    assert_eq!(world.projectiles.len(), 1);
    let p = &world.projectiles[0];
    assert_eq!(p.owner_id, 1);
    assert_eq!((p.position_x, p.position_y), (7_000, 9_000));
    assert_eq!((p.velocity_x, p.velocity_y), (240_000, 320_000));
    assert_eq!(p.damage, 20_000);
    assert_eq!(p.time_to_live, 5_000);
    assert_eq!(p.projectile_type, "Arrow");
    assert_eq!(p.map_id, "field");
    assert!(p.is_active);
    assert!(p.id >= 2_000_000);
    assert!(world.combat_events.is_empty());
}

#[test]
fn last_arrow_empties_the_stack() {
    let mut world = World::new();
    world.players.push(archer(1, 0, 0));
    world.inventory_items.push(arrows(50, 1, 0));
    world.inventory_items.push(arrows(51, 2, 9));
    world.inventory_items.push(arrows(52, 1, 1));
    assert_eq!(execute_attack(&mut world, &owner(), 1, "Bow".to_string(), -1, 1), Ok(()));
    let stacks: Vec<(u32, i32)> = world.inventory_items.iter().map(|i| (i.id, i.quantity)).collect();
    assert_eq!(stacks, vec![(50, 0), (51, 9)]);
    assert_eq!(world.projectiles.len(), 1);
    assert_eq!(
        (world.projectiles[0].velocity_x, world.projectiles[0].velocity_y),
        (-282_842, 282_842)
    );
    assert_eq!(execute_attack(&mut world, &owner(), 1, "Bow".to_string(), -1, 1), Ok(()));
    assert_eq!(world.projectiles.len(), 1);
    assert_eq!(world.inventory_items.len(), 2);
}

#[test]
fn shot_without_arrows_is_dropped() {
    let mut world = World::new();
    world.players.push(archer(1, 0, 0));
    world.inventory_items.push(arrows(51, 2, 9));
    assert_eq!(execute_attack(&mut world, &owner(), 1, "Bow".to_string(), 1, 0), Ok(()));
    assert!(world.projectiles.is_empty());
    assert_eq!(world.inventory_items[0].quantity, 9);
}

#[test]
fn shot_without_aim_wastes_the_arrow() {
    let mut world = World::new();
    world.inventory_items.push(arrows(50, 1, 3));
    assert_eq!(execute_bow_attack(&mut world, &archer(1, 0, 0), 0, 0), Ok(()));
    assert!(world.projectiles.is_empty());
    assert_eq!(world.inventory_items[0].quantity, 2);
}

#[test]
fn projectile_is_made_at_the_given_origin() {
    let mut world = World::new();
    world.players.push(archer(1, 7_000, 9_000));
    assert_eq!(create_projectile(&mut world, &owner(), 1, -5, 6, 0, -2), Ok(()));
    assert_eq!(world.projectiles.len(), 1);
    let p = &world.projectiles[0];
    assert_eq!((p.position_x, p.position_y), (-5, 6));
    assert_eq!((p.velocity_x, p.velocity_y), (0, -400_000));
    assert_eq!(p.owner_id, 1);
    assert_eq!(p.map_id, "field");
    assert!(p.id >= 2_000_000);
}

#[test]
fn projectile_needs_a_standing_player_of_the_sender_and_an_aim() {
    let mut world = World::new();
    world.players.push(archer(1, 0, 0));
    assert_eq!(create_projectile(&mut world, &stranger(), 1, 0, 0, 1, 0), Ok(()));
    assert_eq!(create_projectile(&mut world, &owner(), 2, 0, 0, 1, 0), Ok(()));
    assert_eq!(create_projectile(&mut world, &owner(), 1, 0, 0, 0, 0), Ok(()));
    world.players[0].health = 0;
    world.players[0].is_downed = true;
    assert_eq!(create_projectile(&mut world, &owner(), 1, 0, 0, 1, 0), Ok(()));
    assert!(world.projectiles.is_empty());
}

#[test]
fn projectiles_of_a_map_are_the_active_ones_on_it() {
    let mut world = World::new();
    world.projectiles.push(arrow(1, 0, 0, 0, 0, 1));
    let mut parked = arrow(2, 0, 0, 0, 0, 1);
    parked.is_active = false;
    world.projectiles.push(parked);
    let mut elsewhere = arrow(3, 0, 0, 0, 0, 1);
    elsewhere.map_id = "cave".to_string();
    world.projectiles.push(elsewhere);
    world.projectiles.push(arrow(4, 0, 0, 0, 0, 1));
    let ids: Vec<u32> = get_projectiles_in_map(&world, "field").iter().map(|p| p.id).collect();
    assert_eq!(ids, vec![1, 4]);
    let ids: Vec<u32> = get_projectiles_in_map(&world, "cave").iter().map(|p| p.id).collect();
    assert_eq!(ids, vec![3]);
    assert!(get_projectiles_in_map(&world, "sea").is_empty());
}

#[test]
fn arrows_never_hurt_players() {
    let mut world = World::new();
    world.players.push(archer(1, 0, 0));
    world.players.push(archer(2, 400_000, 0));
    world.enemies.push(target(11, 400_000, 0, "field", 50_000));
    world.projectiles.push(arrow(2_000_001, 0, 0, 400_000, 0, 5_000));
    assert_eq!(update_projectiles(&mut world, 1_000), Ok(()));
    assert_eq!(world.players[0].health, 100_000);
    assert_eq!(world.players[1].health, 100_000);
    assert_eq!(world.enemies[0].health, 30_000);
}
