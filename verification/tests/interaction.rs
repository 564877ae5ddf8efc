use guildmaster_server::entity::{ActionRequirement, InteractableObject, InventoryItem, Player, PlayerEquipment};
use guildmaster_server::error::GameError;
use guildmaster_server::interaction::{
    create_interactable_object, execute_contextual_action, execute_rock_break,
    execute_rock_pickup, execute_tree_cut, execute_tree_shake, get_action_requirements,
    get_interaction_range, validate_action_requirements,
};
use guildmaster_server::world::World;
use spacetimedb::{Identity, Timestamp};

fn player(id: u32, x: i32, y: i32) -> Player {
    Player {
        id,
        username_canonical: format!("p{}", id),
        username_display: format!("P{}", id),
        identity: Identity::from_byte_array([1u8; 32]),
        position_x: x,
        position_y: y,
        velocity_x: 0,
        velocity_y: 0,
        current_map_id: "field".to_string(),
        health: 100_000,
        max_health: 100_000,
        is_downed: false,
        last_input_sequence: 0,
        last_transition_time: Timestamp::from_micros_since_unix_epoch(0),
    }
}

fn object(id: u32, kind: &str, health: i32, resources: i32) -> InteractableObject {
    InteractableObject {
        id,
        object_type: kind.to_string(),
        position_x: 0,
        position_y: 0,
        map_id: "field".to_string(),
        health,
        max_health: health,
        resource_count: resources,
        is_destroyed: false,
        respawn_timer: 0,
    }
}

fn wearing(player: u32, weapon: &str, tool: &str) -> PlayerEquipment {
    PlayerEquipment {
        player_id: player,
        main_hand_weapon: weapon.to_string(),
        off_hand_tool: tool.to_string(),
        armor: String::new(),
        accessory: String::new(),
    }
}

fn holdings(world: &World) -> Vec<(String, i32)> {
    world.inventory_items.iter().map(|i: &InventoryItem| (i.item_id.clone(), i.quantity)).collect()
}

fn held(item: &str, quantity: i32) -> (String, i32) {
    (item.to_string(), quantity)
}

fn requirement(kind: &str, item: &str, equipped: bool, minimum: i32) -> ActionRequirement {
    ActionRequirement {
        requirement_type: kind.to_string(),
        item_id: item.to_string(),
        must_be_equipped: equipped,
        minimum_quantity: minimum,
    }
}

#[test]
fn interaction_ranges_by_kind() {
    assert_eq!(get_interaction_range("tree"), 2_000);
    assert_eq!(get_interaction_range("rock"), 1_500);
    assert_eq!(get_interaction_range("bush"), 1_000);
}

#[test]
fn cutting_needs_an_axe_and_breaking_a_pickaxe() {
    let cut = get_action_requirements("tree", "cut");
    assert_eq!(cut.len(), 1);
    assert_eq!(cut[0].requirement_type, "equipped_weapon");
    assert_eq!(cut[0].item_id, "axe");
    assert!(cut[0].must_be_equipped);
    assert_eq!(cut[0].minimum_quantity, 1);
    let smash = get_action_requirements("rock", "break");
    assert_eq!(smash.len(), 1);
    assert_eq!(smash[0].item_id, "pickaxe");
    assert!(get_action_requirements("tree", "shake").is_empty());
    assert!(get_action_requirements("rock", "pick_up").is_empty());
    assert!(get_action_requirements("rock", "cut").is_empty());
    assert!(get_action_requirements("tree", "break").is_empty());
}

#[test]
fn worn_item_counts_in_weapon_or_tool_slot() {
    let mut world = World::new();
    let needs_axe = vec![requirement("equipped_weapon", "axe", true, 1)];
    assert_eq!(validate_action_requirements(&world, 1, &needs_axe), Ok(false));
    world.player_equipment.push(wearing(1, "sword", ""));
    assert_eq!(validate_action_requirements(&world, 1, &needs_axe), Ok(false));
    world.player_equipment[0] = wearing(1, "axe", "");
    assert_eq!(validate_action_requirements(&world, 1, &needs_axe), Ok(true));
    world.player_equipment[0] = wearing(1, "", "axe");
    assert_eq!(validate_action_requirements(&world, 1, &needs_axe), Ok(true));
    assert_eq!(validate_action_requirements(&world, 2, &needs_axe), Ok(false));
    let optional = vec![requirement("equipped_weapon", "axe", false, 1)];
    assert_eq!(validate_action_requirements(&world, 2, &optional), Ok(true));
}

#[test]
fn held_items_are_counted_over_all_stacks() {
    let mut world = World::new();
    for &(player, item, quantity) in [(1u32, "wood", 2), (2, "wood", 50), (1, "stone", 9), (1, "wood", 3)].iter() {
        world.inventory_items.push(InventoryItem {
            id: 0,
            player_id: player,
            item_id: item.to_string(),
            quantity,
            is_equipped: false,
            slot_type: "material".to_string(),
        });
    }
    assert_eq!(world.count_items(1, "wood"), 5);
    assert_eq!(world.count_items(2, "wood"), 50);
    assert_eq!(world.count_items(1, "iron"), 0);
    let five = vec![requirement("inventory_item", "wood", false, 5)];
    let six = vec![requirement("inventory_item", "wood", false, 6)];
    assert_eq!(validate_action_requirements(&world, 1, &five), Ok(true));
    assert_eq!(validate_action_requirements(&world, 1, &six), Ok(false));
}

#[test]
fn every_requirement_must_be_met() {
    let mut world = World::new();
    world.player_equipment.push(wearing(1, "axe", ""));
    let axe = requirement("equipped_weapon", "axe", true, 1);
    let none = requirement("inventory_item", "wood", false, 0);
    let some = requirement("inventory_item", "wood", false, 1);
    let odd = requirement("reputation", "axe", false, 0);
    assert_eq!(validate_action_requirements(&world, 1, &vec![]), Ok(true));
    assert_eq!(validate_action_requirements(&world, 1, &vec![axe.clone(), none.clone()]), Ok(true));
    assert_eq!(validate_action_requirements(&world, 1, &vec![axe.clone(), some]), Ok(false));
    assert_eq!(validate_action_requirements(&world, 1, &vec![odd, axe]), Ok(false));
}

#[test]
fn shaking_a_tree_drops_one_fruit() {
    let mut world = World::new();
    world.interactable_objects.push(object(7, "tree", 3, 2));
    assert_eq!(execute_tree_shake(&mut world, 1, 7), Ok(()));
    assert_eq!(world.interactable_objects[0].resource_count, 1);
    assert_eq!(holdings(&world), vec![held("fruit", 1)]);
    assert_eq!(execute_tree_shake(&mut world, 1, 7), Ok(()));
    assert_eq!(holdings(&world), vec![held("fruit", 2)]);
    assert_eq!(execute_tree_shake(&mut world, 1, 7), Err(GameError::NoFruit));
    assert_eq!(world.interactable_objects[0].resource_count, 0);
    assert_eq!(holdings(&world), vec![held("fruit", 2)]);
    assert_eq!(execute_tree_shake(&mut world, 1, 8), Err(GameError::ObjectNotFound));
    assert_eq!(GameError::NoFruit.message(), "No fruit to shake");
}

#[test]
fn cutting_a_tree_yields_wood_and_more_when_it_falls() {
    let mut world = World::new();
    world.interactable_objects.push(object(7, "tree", 3, 2));
    assert_eq!(execute_tree_cut(&mut world, 1, 7), Ok(()));
    assert_eq!(holdings(&world), vec![held("wood", 1)]);
    assert_eq!(execute_tree_cut(&mut world, 1, 7), Ok(()));
    assert_eq!(holdings(&world), vec![held("wood", 2)]);
    assert!(!world.interactable_objects[0].is_destroyed);
    assert_eq!(execute_tree_cut(&mut world, 1, 7), Ok(()));
    assert_eq!(holdings(&world), vec![held("wood", 5)]);
    assert_eq!(world.interactable_objects[0].health, 0);
    assert!(world.interactable_objects[0].is_destroyed);
    assert_eq!(execute_tree_cut(&mut world, 1, 7), Err(GameError::TreeAlreadyCut));
    assert_eq!(execute_tree_cut(&mut world, 1, 9), Err(GameError::ObjectNotFound));
    assert_eq!(holdings(&world), vec![held("wood", 5)]);
    assert_eq!(GameError::TreeAlreadyCut.message(), "Tree already cut down");
}

#[test]
fn picking_up_a_rock_takes_it_away() {
    let mut world = World::new();
    world.interactable_objects.push(object(7, "rock", 2, 0));
    assert_eq!(execute_rock_pickup(&mut world, 1, 7), Ok(()));
    assert!(world.interactable_objects[0].is_destroyed);
    assert_eq!(world.interactable_objects[0].health, 2);
    assert_eq!(holdings(&world), vec![held("stone", 1)]);
    assert_eq!(execute_rock_pickup(&mut world, 1, 7), Err(GameError::RockAlreadyPickedUp));
    assert_eq!(execute_rock_pickup(&mut world, 1, 6), Err(GameError::ObjectNotFound));
    assert_eq!(holdings(&world), vec![held("stone", 1)]);
    assert_eq!(GameError::RockAlreadyPickedUp.message(), "Rock already picked up");
}

#[test]
fn breaking_a_rock_yields_fragments_and_a_stone_at_the_end() {
    let mut world = World::new();
    world.interactable_objects.push(object(7, "rock", 2, 0));
    assert_eq!(execute_rock_break(&mut world, 1, 7), Ok(()));
    assert_eq!(holdings(&world), vec![held("stone_fragment", 1)]);
    assert!(!world.interactable_objects[0].is_destroyed);
    assert_eq!(execute_rock_break(&mut world, 1, 7), Ok(()));
    assert_eq!(holdings(&world), vec![held("stone_fragment", 2), held("stone", 1)]);
    assert!(world.interactable_objects[0].is_destroyed);
    assert_eq!(execute_rock_break(&mut world, 1, 7), Err(GameError::RockAlreadyBroken));
    assert_eq!(execute_rock_break(&mut world, 1, 5), Err(GameError::ObjectNotFound));
    assert_eq!(GameError::RockAlreadyBroken.message(), "Rock already broken");
}

#[test]
fn action_needs_the_object_then_the_player() {
    let mut world = World::new();
    assert_eq!(
        execute_contextual_action(&mut world, 1, 7, "shake".to_string()),
        Err(GameError::ObjectNotFound)
    );
    world.interactable_objects.push(object(7, "tree", 3, 2));
    assert_eq!(
        execute_contextual_action(&mut world, 1, 7, "shake".to_string()),
        Err(GameError::PlayerNotFound)
    );
    assert_eq!(GameError::ObjectNotFound.message(), "Object not found");
}

#[test]
fn action_needs_the_player_in_range() {
    let mut world = World::new();
    world.interactable_objects.push(object(7, "tree", 3, 2));
    world.interactable_objects.push(object(8, "rock", 2, 0));
    world.players.push(player(1, 2_000, 0));
    world.players.push(player(2, 2_001, 0));
    world.players.push(player(3, 900, -1_200));
    assert_eq!(execute_contextual_action(&mut world, 1, 7, "shake".to_string()), Ok(()));
    assert_eq!(
        execute_contextual_action(&mut world, 2, 7, "shake".to_string()),
        Err(GameError::TooFar)
    );
    assert_eq!(
        execute_contextual_action(&mut world, 1, 8, "pick_up".to_string()),
        Err(GameError::TooFar)
    );
    assert_eq!(execute_contextual_action(&mut world, 3, 8, "pick_up".to_string()), Ok(()));
    assert_eq!(GameError::TooFar.message(), "Player too far from object");
}

#[test]
fn action_needs_its_tool() {
    let mut world = World::new();
    world.interactable_objects.push(object(7, "tree", 3, 2));
    world.interactable_objects.push(object(8, "rock", 2, 0));
    world.players.push(player(1, 0, 0));
    assert_eq!(
        execute_contextual_action(&mut world, 1, 7, "cut".to_string()),
        Err(GameError::RequirementsNotMet)
    );
    assert_eq!(
        execute_contextual_action(&mut world, 1, 8, "break".to_string()),
        Err(GameError::RequirementsNotMet)
    );
    world.player_equipment.push(wearing(1, "axe", "pickaxe"));
    assert_eq!(execute_contextual_action(&mut world, 1, 7, "cut".to_string()), Ok(()));
    assert_eq!(execute_contextual_action(&mut world, 1, 8, "break".to_string()), Ok(()));
    assert_eq!(holdings(&world), vec![held("wood", 1), held("stone_fragment", 1)]);
    assert_eq!(GameError::RequirementsNotMet.message(), "Action requirements not met");
}

#[test]
fn action_must_suit_the_object() {
    let mut world = World::new();
    world.interactable_objects.push(object(7, "tree", 3, 2));
    world.interactable_objects.push(object(8, "bush", 1, 0));
    world.players.push(player(1, 0, 0));
    assert_eq!(
        execute_contextual_action(&mut world, 1, 7, "pick_up".to_string()),
        Err(GameError::InvalidAction)
    );
    assert_eq!(
        execute_contextual_action(&mut world, 1, 8, "shake".to_string()),
        Err(GameError::InvalidAction)
    );
    assert!(world.inventory_items.is_empty());
    assert_eq!(GameError::InvalidAction.message(), "Invalid action for object type");
}

#[test]
fn failing_action_reports_the_error_of_the_act() {
    let mut world = World::new();
    world.interactable_objects.push(object(7, "tree", 3, 0));
    world.players.push(player(1, 0, 0));
    assert_eq!(
        execute_contextual_action(&mut world, 1, 7, "shake".to_string()),
        Err(GameError::NoFruit)
    );
}

#[test]
fn new_objects_start_whole() {
    let mut world = World::new();
    assert_eq!(create_interactable_object(&mut world, "tree".to_string(), 1, 2, "field".to_string()), Ok(()));
    assert_eq!(create_interactable_object(&mut world, "rock".to_string(), 3, 4, "cave".to_string()), Ok(()));
    assert_eq!(create_interactable_object(&mut world, "bush".to_string(), 5, 6, "field".to_string()), Ok(()));
    let made: Vec<(String, i32, i32, i32, bool, i32, i32, String)> = world
        .interactable_objects
        .iter()
        .map(|o| {
            (
                o.object_type.clone(),
                o.health,
                o.max_health,
                o.resource_count,
                o.is_destroyed,
                o.position_x,
                o.position_y,
                o.map_id.clone(),
            )
        })
        .collect();
    assert_eq!(
        made,
        vec![
            ("tree".to_string(), 3, 3, 2, false, 1, 2, "field".to_string()),
            ("rock".to_string(), 2, 2, 0, false, 3, 4, "cave".to_string()),
            ("bush".to_string(), 1, 1, 0, false, 5, 6, "field".to_string()),
        ]
    );
    assert!(world.interactable_objects.iter().all(|o| o.id >= 1_000));
    assert_eq!(world.find_object(world.interactable_objects[0].id), Some(0));
}

#[test]
fn downed_player_cannot_act_on_objects() {
    let mut world = World::new();
    world.interactable_objects.push(object(7, "tree", 3, 2));
    world.players.push(player(1, 0, 0));
    world.players[0].health = 0;
    world.players[0].is_downed = true;
    assert_eq!(execute_contextual_action(&mut world, 1, 7, "shake".to_string()), Ok(()));
    assert_eq!(execute_contextual_action(&mut world, 1, 7, "dance".to_string()), Ok(()));
    assert_eq!(world.interactable_objects[0].resource_count, 2);
    assert!(world.inventory_items.is_empty());
}
