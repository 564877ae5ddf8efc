//! Harvesting: what players can do to the trees and rocks of the world, and
//! what they need for it.

use crate::entity::{
    ActionRequirement, ActionRequirementView, InteractableObject, InteractableObjectView,
    InventoryItemView,
};
use crate::error::GameError;
use crate::hit_area::{is_within_range, within_range};
use crate::inventory::{add_item_with_id, stack_of};
use crate::text::same_text;
use crate::stamp::{generate_inventory_id, generate_object_id, OBJECT_ID_OFFSET};
use crate::table::{as_position, first_index, lemma_first_index};
use crate::world::{rows, World, WorldView};
use vstd::prelude::*;

verus! {

/// The world objects with the given id.
pub open spec fn object_has_id(id: u32) -> spec_fn(InteractableObjectView) -> bool {
    |o: InteractableObjectView| o.id == id
}

/// The distance from which a player can act on an object of the given
/// kind, in thousandths of a pixel.
pub open spec fn spec_interaction_range(object_type: Seq<char>) -> int {
    if object_type == "tree"@ {
        2_000
    } else if object_type == "rock"@ {
        1_500
    } else {
        1_000
    }
}

/// The requirement to wear the given item.
pub open spec fn must_wear(item_id: Seq<char>) -> ActionRequirementView {
    ActionRequirementView {
        requirement_type: "equipped_weapon"@,
        item_id: item_id,
        must_be_equipped: true,
        minimum_quantity: 1,
    }
}

/// What an action on an object of the given kind requires: an axe to cut a
/// tree, a pickaxe to break a rock, and nothing for anything else.
pub open spec fn spec_action_requirements(object_type: Seq<char>, action_type: Seq<char>) -> Seq<
    ActionRequirementView,
> {
    if object_type == "tree"@ && action_type == "cut"@ {
        seq![must_wear("axe"@)]
    } else if object_type == "rock"@ && action_type == "break"@ {
        seq![must_wear("pickaxe"@)]
    } else {
        Seq::<ActionRequirementView>::empty()
    }
}

/// The number of items of a kind that a player holds over all their
/// stacks.
pub open spec fn total_quantity(
    items: Seq<InventoryItemView>,
    player_id: u32,
    item_id: Seq<char>,
) -> int
    decreases items.len(),
{
    if items.len() == 0 {
        0
    } else {
        total_quantity(items.drop_last(), player_id, item_id) + if stack_of(player_id, item_id)(
            items.last(),
        ) {
            items.last().quantity as int
        } else {
            0
        }
    }
}

/// An object as it enters the world: a tree with three durability and two
/// fruit, a rock with two durability, anything else with one durability.
pub open spec fn fresh_object(
    id: u32,
    object_type: Seq<char>,
    position_x: i32,
    position_y: i32,
    map_id: Seq<char>,
) -> InteractableObjectView {
    let durability: i32 = if object_type == "tree"@ {
        3
    } else if object_type == "rock"@ {
        2
    } else {
        1
    };
    InteractableObjectView {
        id: id,
        object_type: object_type,
        position_x: position_x,
        position_y: position_y,
        map_id: map_id,
        health: durability,
        max_health: durability,
        resource_count: if object_type == "tree"@ {
            2
        } else {
            0
        },
        is_destroyed: false,
        respawn_timer: 0,
    }
}

/// An object that lost one durability; without any left it is destroyed.
pub open spec fn chipped(o: InteractableObjectView) -> InteractableObjectView {
    InteractableObjectView {
        health: (o.health - 1) as i32,
        is_destroyed: o.is_destroyed || o.health <= 1,
        ..o
    }
}

impl WorldView {
    /// The position of the world object with the given id.
    pub open spec fn object_index(self, id: u32) -> Option<int> {
        first_index(self.interactable_objects, object_has_id(id))
    }

    /// The world with object `k` replaced.
    pub open spec fn with_object(self, k: int, o: InteractableObjectView) -> WorldView {
        WorldView { interactable_objects: self.interactable_objects.update(k, o), ..self }
    }

    /// Whether the player meets a requirement. Wearing an item means
    /// having it in the weapon or the tool slot; holding items counts all
    /// stacks; a requirement of an unknown type is never met.
    pub open spec fn requirement_met(
        self,
        player_id: u32,
        requirement: ActionRequirementView,
    ) -> bool {
        if requirement.requirement_type == "equipped_weapon"@ {
            !requirement.must_be_equipped || match self.equipment_index(player_id) {
                Some(e) => self.player_equipment[e].main_hand_weapon == requirement.item_id
                    || self.player_equipment[e].off_hand_tool == requirement.item_id,
                None => false,
            }
        } else if requirement.requirement_type == "inventory_item"@ {
            total_quantity(self.inventory_items, player_id, requirement.item_id)
                >= requirement.minimum_quantity
        } else {
            false
        }
    }

    /// Whether the player meets every requirement.
    pub open spec fn requirements_met(
        self,
        player_id: u32,
        requirements: Seq<ActionRequirementView>,
    ) -> bool {
        forall|k: int|
            0 <= k < requirements.len() ==> self.requirement_met(
                player_id,
                #[trigger] requirements[k],
            )
    }

    /// Shaking a tree: one fruit falls into the player's inventory. Fails
    /// where the object does not exist or has no fruit left.
    pub open spec fn shake_tree(self, player_id: u32, object_id: u32, fresh_id: u32) -> (
        Result<(), GameError>,
        WorldView,
    ) {
        match self.object_index(object_id) {
            None => (Err(GameError::ObjectNotFound), self),
            Some(k) => {
                let o = self.interactable_objects[k];
                if o.resource_count <= 0 {
                    (Err(GameError::NoFruit), self)
                } else {
                    (
                        Ok(()),
                        self.with_object(
                            k,
                            InteractableObjectView {
                                resource_count: (o.resource_count - 1) as i32,
                                ..o
                            },
                        ).add_item(player_id, "fruit"@, 1, fresh_id),
                    )
                }
            },
        }
    }

    /// Cutting a tree: it loses one durability and yields one wood, and two
    /// more when it falls. Fails where the object does not exist or has no
    /// durability left.
    pub open spec fn cut_tree(self, player_id: u32, object_id: u32, fresh_id: u32) -> (
        Result<(), GameError>,
        WorldView,
    ) {
        match self.object_index(object_id) {
            None => (Err(GameError::ObjectNotFound), self),
            Some(k) => {
                let o = self.interactable_objects[k];
                if o.health <= 0 {
                    (Err(GameError::TreeAlreadyCut), self)
                } else {
                    let first = self.add_item(player_id, "wood"@, 1, fresh_id);
                    let all = if o.health <= 1 {
                        first.add_item(player_id, "wood"@, 2, fresh_id)
                    } else {
                        first
                    };
                    (Ok(()), all.with_object(k, chipped(o)))
                }
            },
        }
    }

    /// Picking up a rock: the rock is gone and the player has one stone
    /// more. Fails where the object does not exist or is gone already.
    pub open spec fn pick_up_rock(self, player_id: u32, object_id: u32, fresh_id: u32) -> (
        Result<(), GameError>,
        WorldView,
    ) {
        match self.object_index(object_id) {
            None => (Err(GameError::ObjectNotFound), self),
            Some(k) => {
                let o = self.interactable_objects[k];
                if o.is_destroyed {
                    (Err(GameError::RockAlreadyPickedUp), self)
                } else {
                    (
                        Ok(()),
                        self.with_object(
                            k,
                            InteractableObjectView { is_destroyed: true, ..o },
                        ).add_item(player_id, "stone"@, 1, fresh_id),
                    )
                }
            },
        }
    }

    /// Breaking a rock: it loses one durability and yields one stone
    /// fragment, and a stone when it breaks apart. Fails where the object
    /// does not exist or has no durability left.
    pub open spec fn break_rock(
        self,
        player_id: u32,
        object_id: u32,
        fragment_id: u32,
        stone_id: u32,
    ) -> (Result<(), GameError>, WorldView) {
        match self.object_index(object_id) {
            None => (Err(GameError::ObjectNotFound), self),
            Some(k) => {
                let o = self.interactable_objects[k];
                if o.health <= 0 {
                    (Err(GameError::RockAlreadyBroken), self)
                } else {
                    let first = self.add_item(player_id, "stone_fragment"@, 1, fragment_id);
                    let all = if o.health <= 1 {
                        first.add_item(player_id, "stone"@, 1, stone_id)
                    } else {
                        first
                    };
                    (Ok(()), all.with_object(k, chipped(o)))
                }
            },
        }
    }

    /// An action of a player on a world object. It fails where the object
    /// or the player does not exist. A downed player cannot act: their
    /// action succeeds and changes nothing. Otherwise it fails where the
    /// player stands too far away or lacks what the action requires, or the
    /// kind of object does not support the action, and else it is the
    /// shaking or cutting of a tree, or the picking up or breaking of a
    /// rock.
    pub open spec fn contextual_action(
        self,
        player_id: u32,
        object_id: u32,
        action_type: Seq<char>,
        first_id: u32,
        second_id: u32,
    ) -> (Result<(), GameError>, WorldView) {
        match self.object_index(object_id) {
            None => (Err(GameError::ObjectNotFound), self),
            Some(k) => match self.player_index(player_id) {
                None => (Err(GameError::PlayerNotFound), self),
                Some(i) => {
                    let o = self.interactable_objects[k];
                    let p = self.players[i];
                    if p.is_downed {
                        (Ok(()), self)
                    } else if !within_range(
                        o.position_x - p.position_x,
                        o.position_y - p.position_y,
                        spec_interaction_range(o.object_type),
                    ) {
                        (Err(GameError::TooFar), self)
                    } else if !self.requirements_met(
                        player_id,
                        spec_action_requirements(o.object_type, action_type),
                    ) {
                        (Err(GameError::RequirementsNotMet), self)
                    } else if o.object_type == "tree"@ && action_type == "shake"@ {
                        self.shake_tree(player_id, object_id, first_id)
                    } else if o.object_type == "tree"@ && action_type == "cut"@ {
                        self.cut_tree(player_id, object_id, first_id)
                    } else if o.object_type == "rock"@ && action_type == "pick_up"@ {
                        self.pick_up_rock(player_id, object_id, first_id)
                    } else if o.object_type == "rock"@ && action_type == "break"@ {
                        self.break_rock(player_id, object_id, first_id, second_id)
                    } else {
                        (Err(GameError::InvalidAction), self)
                    }
                },
            },
        }
    }
}

impl World {
    /// The position of the first world object with the given id.
    pub fn find_object(&self, id: u32) -> (r: Option<usize>)
        ensures
            as_position(r) == self@.object_index(id),
            r matches Some(k) ==> k < self.interactable_objects.len(),
    {
        let ghost p = object_has_id(id);
        let mut k: usize = 0;
        while k < self.interactable_objects.len()
            invariant
                k <= self.interactable_objects.len(),
                p == object_has_id(id),
                forall|j: int| 0 <= j < k ==> !p(#[trigger] self@.interactable_objects[j]),
            decreases self.interactable_objects.len() - k,
        {
            if self.interactable_objects[k].id == id {
                proof {
                    assert(p(self@.interactable_objects[k as int]));
                    lemma_first_index(self@.interactable_objects, p, Some(k as int));
                }
                return Some(k);
            }
            k += 1;
        }
        proof {
            lemma_first_index(self@.interactable_objects, p, None);
        }
        None
    }

    /// The number of items of a kind that a player holds over all their
    /// stacks.
    pub fn count_items(&self, player_id: u32, item_id: &str) -> (total: i128)
        ensures
            total == total_quantity(self@.inventory_items, player_id, item_id@),
    {
        let mut total: i128 = 0;
        let mut k: usize = 0;
        proof {
            assert(self@.inventory_items.take(0) =~= Seq::<InventoryItemView>::empty());
        }
        while k < self.inventory_items.len()
            invariant
                k <= self.inventory_items.len(),
                total == total_quantity(self@.inventory_items.take(k as int), player_id, item_id@),
                -0x8000_0000 * k <= total <= 0x8000_0000 * k,
            decreases self.inventory_items.len() - k,
        {
            let item = &self.inventory_items[k];
            proof {
                let s = self@.inventory_items;
                assert(s.take(k + 1).drop_last() =~= s.take(k as int));
                assert(s.take(k + 1).last() == item@);
            }
            if item.player_id == player_id && same_text(item.item_id.as_str(), item_id) {
                total = total + item.quantity as i128;
            }
            k += 1;
        }
        proof {
            self@.inventory_items.lemma_take_len();
        }
        total
    }
}

/// The distance from which a player can act on an object of the given
/// kind, in thousandths of a pixel.
pub fn get_interaction_range(object_type: &str) -> (range: i64)
    ensures
        range == spec_interaction_range(object_type@),
{
    if same_text(object_type, "tree") {
        2_000
    } else if same_text(object_type, "rock") {
        1_500
    } else {
        1_000
    }
}

/// Builds the requirement to wear the given item.
fn wear_requirement(item_id: &str) -> (r: ActionRequirement)
    ensures
        r@ == must_wear(item_id@),
{
    ActionRequirement {
        requirement_type: "equipped_weapon".to_string(),
        item_id: item_id.to_string(),
        must_be_equipped: true,
        minimum_quantity: 1,
    }
}

/// What an action on an object of the given kind requires.
pub fn get_action_requirements(object_type: &str, action_type: &str) -> (requirements: Vec<
    ActionRequirement,
>)
    ensures
        rows(requirements@) == spec_action_requirements(object_type@, action_type@),
{
    let mut requirements: Vec<ActionRequirement> = Vec::new();
    if same_text(object_type, "tree") && same_text(action_type, "cut") {
        requirements.push(wear_requirement("axe"));
        assert(rows(requirements@) =~= seq![must_wear("axe"@)]);
    } else if same_text(object_type, "rock") && same_text(action_type, "break") {
        requirements.push(wear_requirement("pickaxe"));
        assert(rows(requirements@) =~= seq![must_wear("pickaxe"@)]);
    } else {
        assert(rows(requirements@) =~= Seq::<ActionRequirementView>::empty());
    }
    requirements
}

/// Whether the player meets one requirement.
fn meets_requirement(world: &World, player_id: u32, requirement: &ActionRequirement) -> (r: bool)
    ensures
        r == world@.requirement_met(player_id, requirement@),
{
    if same_text(requirement.requirement_type.as_str(), "equipped_weapon") {
        if !requirement.must_be_equipped {
            return true;
        }
        match world.find_equipment(player_id) {
            Some(e) => {
                assert(world@.player_equipment[e as int] == world.player_equipment[e as int]@);
                let row = &world.player_equipment[e];
                same_text(row.main_hand_weapon.as_str(), requirement.item_id.as_str())
                    || same_text(row.off_hand_tool.as_str(), requirement.item_id.as_str())
            },
            None => false,
        }
    } else if same_text(requirement.requirement_type.as_str(), "inventory_item") {
        world.count_items(player_id, requirement.item_id.as_str())
            >= requirement.minimum_quantity as i128
    } else {
        false
    }
}

/// Whether the player meets every one of the requirements.
pub fn validate_action_requirements(
    world: &World,
    player_id: u32,
    requirements: &Vec<ActionRequirement>,
) -> (r: Result<bool, GameError>)
    ensures
        r == Ok::<bool, GameError>(world@.requirements_met(player_id, rows(requirements@))),
{
    let mut k: usize = 0;
    while k < requirements.len()
        invariant
            k <= requirements.len(),
            forall|j: int|
                0 <= j < k ==> world@.requirement_met(player_id, #[trigger] rows(requirements@)[j]),
        decreases requirements.len() - k,
    {
        if !meets_requirement(world, player_id, &requirements[k]) {
            assert(!world@.requirement_met(player_id, rows(requirements@)[k as int]));
            return Ok(false);
        }
        k += 1;
    }
    Ok(true)
}

/// Shakes a tree: one fruit falls into the player's inventory.
pub fn execute_tree_shake(world: &mut World, player_id: u32, object_id: u32) -> (r: Result<
    (),
    GameError,
>)
    ensures
        old(world)@.wf() ==> final(world)@.wf(),
        exists|fresh_id: u32|
            (r, final(world)@) == old(world)@.shake_tree(player_id, object_id, fresh_id),
{
    let fresh_id = generate_inventory_id();
    let k = match world.find_object(object_id) {
        Some(k) => k,
        None => {
            assert((Err::<(), GameError>(GameError::ObjectNotFound), world@)
                == old(world)@.shake_tree(
                player_id,
                object_id,
                fresh_id,
            ));
            return Err(GameError::ObjectNotFound);
        },
    };
    assert(world@.interactable_objects[k as int] == world.interactable_objects[k as int]@);
    let count = world.interactable_objects[k].resource_count;
    if count <= 0 {
        assert((Err::<(), GameError>(GameError::NoFruit), world@)
                == old(world)@.shake_tree(
            player_id,
            object_id,
            fresh_id,
        ));
        return Err(GameError::NoFruit);
    }
    world.interactable_objects[k].resource_count = count - 1;
    assert(world@.interactable_objects =~= old(world)@.interactable_objects.update(
        k as int,
        InteractableObjectView {
            resource_count: (count - 1) as i32,
            ..old(world)@.interactable_objects[k as int]
        },
    ));
    add_item_with_id(world, player_id, "fruit".to_string(), 1, fresh_id);
    assert((Ok::<(), GameError>(()), world@) == old(world)@.shake_tree(
        player_id,
        object_id,
        fresh_id,
    ));
    Ok(())
}

/// Takes one durability from object `k`, which is destroyed without any
/// left.
fn chip_object(world: &mut World, k: usize)
    requires
        k < old(world).interactable_objects.len(),
        old(world)@.interactable_objects[k as int].health > 0,
    ensures
        final(world)@ == old(world)@.with_object(
            k as int,
            chipped(old(world)@.interactable_objects[k as int]),
        ),
{
    assert(world@.interactable_objects[k as int] == world.interactable_objects[k as int]@);
    let health = world.interactable_objects[k].health;
    world.interactable_objects[k].health = health - 1;
    if health <= 1 {
        world.interactable_objects[k].is_destroyed = true;
    }
    assert(world@.interactable_objects =~= old(world)@.interactable_objects.update(
        k as int,
        chipped(old(world)@.interactable_objects[k as int]),
    ));
}

/// Cuts a tree: it loses one durability and yields wood.
pub fn execute_tree_cut(world: &mut World, player_id: u32, object_id: u32) -> (r: Result<
    (),
    GameError,
>)
    ensures
        old(world)@.wf() ==> final(world)@.wf(),
        exists|fresh_id: u32|
            (r, final(world)@) == old(world)@.cut_tree(player_id, object_id, fresh_id),
{
    let fresh_id = generate_inventory_id();
    let k = match world.find_object(object_id) {
        Some(k) => k,
        None => {
            assert((Err::<(), GameError>(GameError::ObjectNotFound), world@)
                == old(world)@.cut_tree(
                player_id,
                object_id,
                fresh_id,
            ));
            return Err(GameError::ObjectNotFound);
        },
    };
    assert(world@.interactable_objects[k as int] == world.interactable_objects[k as int]@);
    let health = world.interactable_objects[k].health;
    if health <= 0 {
        assert((Err::<(), GameError>(GameError::TreeAlreadyCut), world@)
                == old(world)@.cut_tree(
            player_id,
            object_id,
            fresh_id,
        ));
        return Err(GameError::TreeAlreadyCut);
    }
    add_item_with_id(world, player_id, "wood".to_string(), 1, fresh_id);
    if health <= 1 {
        add_item_with_id(world, player_id, "wood".to_string(), 2, fresh_id);
    }
    assert(world.interactable_objects@.len() == world@.interactable_objects.len());
    chip_object(world, k);
    assert((Ok::<(), GameError>(()), world@) == old(world)@.cut_tree(
        player_id,
        object_id,
        fresh_id,
    ));
    Ok(())
}

/// Picks up a rock: the rock is gone and the player has one stone more.
pub fn execute_rock_pickup(world: &mut World, player_id: u32, object_id: u32) -> (r: Result<
    (),
    GameError,
>)
    ensures
        old(world)@.wf() ==> final(world)@.wf(),
        exists|fresh_id: u32|
            (r, final(world)@) == old(world)@.pick_up_rock(player_id, object_id, fresh_id),
{
    let fresh_id = generate_inventory_id();
    let k = match world.find_object(object_id) {
        Some(k) => k,
        None => {
            assert((Err::<(), GameError>(GameError::ObjectNotFound), world@)
                == old(world)@.pick_up_rock(
                player_id,
                object_id,
                fresh_id,
            ));
            return Err(GameError::ObjectNotFound);
        },
    };
    assert(world@.interactable_objects[k as int] == world.interactable_objects[k as int]@);
    if world.interactable_objects[k].is_destroyed {
        assert((Err::<(), GameError>(GameError::RockAlreadyPickedUp), world@)
                == old(world)@.pick_up_rock(
            player_id,
            object_id,
            fresh_id,
        ));
        return Err(GameError::RockAlreadyPickedUp);
    }
    world.interactable_objects[k].is_destroyed = true;
    assert(world@.interactable_objects =~= old(world)@.interactable_objects.update(
        k as int,
        InteractableObjectView { is_destroyed: true, ..old(world)@.interactable_objects[k as int] },
    ));
    add_item_with_id(world, player_id, "stone".to_string(), 1, fresh_id);
    assert((Ok::<(), GameError>(()), world@) == old(world)@.pick_up_rock(
        player_id,
        object_id,
        fresh_id,
    ));
    Ok(())
}

/// Breaks a rock: it loses one durability and yields a stone fragment, and
/// a stone when it breaks apart.
pub fn execute_rock_break(world: &mut World, player_id: u32, object_id: u32) -> (r: Result<
    (),
    GameError,
>)
    ensures
        old(world)@.wf() ==> final(world)@.wf(),
        exists|fragment_id: u32, stone_id: u32|
            (r, final(world)@) == old(world)@.break_rock(
                player_id,
                object_id,
                fragment_id,
                stone_id,
            ),
{
    let fragment_id = generate_inventory_id();
    let stone_id = generate_inventory_id();
    let k = match world.find_object(object_id) {
        Some(k) => k,
        None => {
            assert((Err::<(), GameError>(GameError::ObjectNotFound), world@)
                == old(world)@.break_rock(
                player_id,
                object_id,
                fragment_id,
                stone_id,
            ));
            return Err(GameError::ObjectNotFound);
        },
    };
    assert(world@.interactable_objects[k as int] == world.interactable_objects[k as int]@);
    let health = world.interactable_objects[k].health;
    if health <= 0 {
        assert((Err::<(), GameError>(GameError::RockAlreadyBroken), world@)
                == old(world)@.break_rock(
            player_id,
            object_id,
            fragment_id,
            stone_id,
        ));
        return Err(GameError::RockAlreadyBroken);
    }
    add_item_with_id(world, player_id, "stone_fragment".to_string(), 1, fragment_id);
    if health <= 1 {
        add_item_with_id(world, player_id, "stone".to_string(), 1, stone_id);
    }
    assert(world.interactable_objects@.len() == world@.interactable_objects.len());
    chip_object(world, k);
    assert((Ok::<(), GameError>(()), world@) == old(world)@.break_rock(
        player_id,
        object_id,
        fragment_id,
        stone_id,
    ));
    Ok(())
}

/// Lets a player act on a world object.
pub fn execute_contextual_action(
    world: &mut World,
    player_id: u32,
    object_id: u32,
    action_type: String,
) -> (r: Result<(), GameError>)
    ensures
        old(world)@.wf() ==> final(world)@.wf(),
        exists|first_id: u32, second_id: u32|
            (r, final(world)@) == old(world)@.contextual_action(
                player_id,
                object_id,
                action_type@,
                first_id,
                second_id,
            ),
{
    let ghost before = world@;
    let k = match world.find_object(object_id) {
        Some(k) => k,
        None => {
            assert((Err::<(), GameError>(GameError::ObjectNotFound), world@)
                == before.contextual_action(player_id, object_id, action_type@, 0, 0));
            return Err(GameError::ObjectNotFound);
        },
    };
    let i = match world.find_player(player_id) {
        Some(i) => i,
        None => {
            assert((Err::<(), GameError>(GameError::PlayerNotFound), world@)
                == before.contextual_action(player_id, object_id, action_type@, 0, 0));
            return Err(GameError::PlayerNotFound);
        },
    };
    assert(world@.interactable_objects[k as int] == world.interactable_objects[k as int]@);
    assert(world@.players[i as int] == world.players[i as int]@);
    if world.players[i].is_downed {
        assert((Ok::<(), GameError>(()), world@) == before.contextual_action(
            player_id,
            object_id,
            action_type@,
            0,
            0,
        ));
        return Ok(());
    }
    let object_type = world.interactable_objects[k].object_type.clone();
    let object = &world.interactable_objects[k];
    let player = &world.players[i];
    let dx: i64 = object.position_x as i64 - player.position_x as i64;
    let dy: i64 = object.position_y as i64 - player.position_y as i64;
    if !is_within_range(dx, dy, get_interaction_range(object_type.as_str())) {
        assert((Err::<(), GameError>(GameError::TooFar), world@) == before.contextual_action(
            player_id,
            object_id,
            action_type@,
            0,
            0,
        ));
        return Err(GameError::TooFar);
    }
    let requirements = get_action_requirements(object_type.as_str(), action_type.as_str());
    let met = match validate_action_requirements(world, player_id, &requirements) {
        Ok(met) => met,
        Err(e) => {
            return Err(e);
        },
    };
    if !met {
        assert((Err::<(), GameError>(GameError::RequirementsNotMet), world@)
            == before.contextual_action(player_id, object_id, action_type@, 0, 0));
        return Err(GameError::RequirementsNotMet);
    }
    let kind = object_type.as_str();
    let action = action_type.as_str();
    if same_text(kind, "tree") && same_text(action, "shake") {
        let r = execute_tree_shake(world, player_id, object_id);
        proof {
            let id = choose|id: u32| (r, world@) == before.shake_tree(player_id, object_id, id);
            assert((r, world@) == before.contextual_action(
                player_id,
                object_id,
                action_type@,
                id,
                0,
            ));
        }
        r
    } else if same_text(kind, "tree") && same_text(action, "cut") {
        let r = execute_tree_cut(world, player_id, object_id);
        proof {
            let id = choose|id: u32| (r, world@) == before.cut_tree(player_id, object_id, id);
            assert((r, world@) == before.contextual_action(
                player_id,
                object_id,
                action_type@,
                id,
                0,
            ));
        }
        r
    } else if same_text(kind, "rock") && same_text(action, "pick_up") {
        let r = execute_rock_pickup(world, player_id, object_id);
        proof {
            let id = choose|id: u32| (r, world@) == before.pick_up_rock(player_id, object_id, id);
            assert((r, world@) == before.contextual_action(
                player_id,
                object_id,
                action_type@,
                id,
                0,
            ));
        }
        r
    } else if same_text(kind, "rock") && same_text(action, "break") {
        let r = execute_rock_break(world, player_id, object_id);
        proof {
            let (a, b) = choose|a: u32, b: u32|
                (r, world@) == before.break_rock(player_id, object_id, a, b);
            assert((r, world@) == before.contextual_action(
                player_id,
                object_id,
                action_type@,
                a,
                b,
            ));
        }
        r
    } else {
        assert((Err::<(), GameError>(GameError::InvalidAction), world@)
            == before.contextual_action(player_id, object_id, action_type@, 0, 0));
        Err(GameError::InvalidAction)
    }
}

/// Puts a new object into the world, with an id drawn from the current
/// time.
pub fn create_interactable_object(
    world: &mut World,
    object_type: String,
    position_x: i32,
    position_y: i32,
    map_id: String,
) -> (r: Result<(), GameError>)
    ensures
        old(world)@.wf() ==> final(world)@.wf(),
        r is Ok,
        exists|id: u32|
            id >= OBJECT_ID_OFFSET && final(world)@ == (WorldView {
                interactable_objects: old(world)@.interactable_objects.push(
                    #[trigger] fresh_object(id, object_type@, position_x, position_y, map_id@),
                ),
                ..old(world)@
            }),
{
    let kind = object_type.as_str();
    let durability: i32 = if same_text(kind, "tree") {
        3
    } else if same_text(kind, "rock") {
        2
    } else {
        1
    };
    let resource_count: i32 = if same_text(kind, "tree") {
        2
    } else {
        0
    };
    let id = generate_object_id();
    let object = InteractableObject {
        id: id,
        object_type: object_type,
        position_x: position_x,
        position_y: position_y,
        map_id: map_id,
        health: durability,
        max_health: durability,
        resource_count: resource_count,
        is_destroyed: false,
        respawn_timer: 0,
    };
    world.interactable_objects.push(object);
    assert(world@.interactable_objects =~= old(world)@.interactable_objects.push(
        fresh_object(id, object_type@, position_x, position_y, map_id@),
    ));
    assert(world@.players == old(world)@.players);
    Ok(())
}

} // verus!
