//! Inventory and equipment: the stacks of items that players hold and the
//! slots in which they wear them.

use crate::entity::{
    InventoryItem, InventoryItemView, PlayerEquipment, PlayerEquipmentView,
};
use crate::error::GameError;
use crate::text::same_text;
use crate::stamp::generate_inventory_id;
use crate::table::{as_position, first_index, lemma_first_index};
use crate::world::{World, WorldView};
use vstd::prelude::*;

verus! {

/// The equipment slot class of an item.
pub open spec fn spec_item_slot_type(item_id: Seq<char>) -> Seq<char> {
    if item_id == "sword"@ || item_id == "axe"@ || item_id == "bow"@ {
        "weapon"@
    } else if item_id == "pickaxe"@ {
        "tool"@
    } else if item_id == "arrow"@ {
        "ammunition"@
    } else if item_id == "wood"@ || item_id == "stone"@ || item_id == "stone_fragment"@ {
        "material"@
    } else if item_id == "fruit"@ {
        "consumable"@
    } else {
        "misc"@
    }
}

/// The equipment slot class of an item.
pub fn get_item_slot_type(item_id: &str) -> (slot: String)
    ensures
        slot@ == spec_item_slot_type(item_id@),
{
    if same_text(item_id, "sword") || same_text(item_id, "axe") || same_text(item_id, "bow") {
        "weapon".to_string()
    } else if same_text(item_id, "pickaxe") {
        "tool".to_string()
    } else if same_text(item_id, "arrow") {
        "ammunition".to_string()
    } else if same_text(item_id, "wood") || same_text(item_id, "stone") || same_text(
        item_id,
        "stone_fragment",
    ) {
        "material".to_string()
    } else if same_text(item_id, "fruit") {
        "consumable".to_string()
    } else {
        "misc".to_string()
    }
}

/// The stacks of the given item that the given player holds.
pub open spec fn stack_of(
    player_id: u32,
    item_id: Seq<char>,
) -> spec_fn(InventoryItemView) -> bool {
    |item: InventoryItemView| item.player_id == player_id && item.item_id == item_id
}

/// The stacks of the given item that the given player holds and that are
/// not used up.
pub open spec fn stocked_stack_of(player_id: u32, item_id: Seq<char>) -> spec_fn(
    InventoryItemView,
) -> bool {
    |item: InventoryItemView|
        item.player_id == player_id && item.item_id == item_id && item.quantity > 0
}

/// The equipment rows of the given player.
pub open spec fn equipment_of(player_id: u32) -> spec_fn(PlayerEquipmentView) -> bool {
    |e: PlayerEquipmentView| e.player_id == player_id
}

/// A sum of quantities, kept within what a stack can hold.
pub open spec fn clip_quantity(q: int) -> i32 {
    if q > i32::MAX {
        i32::MAX
    } else if q < i32::MIN {
        i32::MIN
    } else {
        q as i32
    }
}

/// A new stack: unequipped, with the slot class of its item.
pub open spec fn fresh_stack(
    id: u32,
    player_id: u32,
    item_id: Seq<char>,
    quantity: i32,
) -> InventoryItemView {
    InventoryItemView {
        id: id,
        player_id: player_id,
        item_id: item_id,
        quantity: quantity,
        is_equipped: false,
        slot_type: spec_item_slot_type(item_id),
    }
}

/// Equipment with every slot empty.
pub open spec fn empty_equipment(player_id: u32) -> PlayerEquipmentView {
    PlayerEquipmentView {
        player_id: player_id,
        main_hand_weapon: Seq::<char>::empty(),
        off_hand_tool: Seq::<char>::empty(),
        armor: Seq::<char>::empty(),
        accessory: Seq::<char>::empty(),
    }
}

/// Whether one of the four slots holds the item.
pub open spec fn wears(e: PlayerEquipmentView, item_id: Seq<char>) -> bool {
    e.main_hand_weapon == item_id || e.off_hand_tool == item_id || e.armor == item_id
        || e.accessory == item_id
}

/// The equipment once the item was taken out of the first slot that holds
/// it, in the order weapon, tool, armor, accessory.
pub open spec fn without_item(e: PlayerEquipmentView, item_id: Seq<char>) -> PlayerEquipmentView {
    if e.main_hand_weapon == item_id {
        PlayerEquipmentView { main_hand_weapon: Seq::<char>::empty(), ..e }
    } else if e.off_hand_tool == item_id {
        PlayerEquipmentView { off_hand_tool: Seq::<char>::empty(), ..e }
    } else if e.armor == item_id {
        PlayerEquipmentView { armor: Seq::<char>::empty(), ..e }
    } else if e.accessory == item_id {
        PlayerEquipmentView { accessory: Seq::<char>::empty(), ..e }
    } else {
        e
    }
}

/// Whether items of the slot class can be worn.
pub open spec fn is_equippable(slot_type: Seq<char>) -> bool {
    slot_type == "weapon"@ || slot_type == "tool"@ || slot_type == "armor"@ || slot_type
        == "accessory"@
}

/// What the slot of the given class holds.
pub open spec fn slot_content(e: PlayerEquipmentView, slot_type: Seq<char>) -> Seq<char> {
    if slot_type == "weapon"@ {
        e.main_hand_weapon
    } else if slot_type == "tool"@ {
        e.off_hand_tool
    } else if slot_type == "armor"@ {
        e.armor
    } else {
        e.accessory
    }
}

/// The equipment once the item was put into the slot of the given class.
pub open spec fn with_slot(
    e: PlayerEquipmentView,
    slot_type: Seq<char>,
    item_id: Seq<char>,
) -> PlayerEquipmentView {
    if slot_type == "weapon"@ {
        PlayerEquipmentView { main_hand_weapon: item_id, ..e }
    } else if slot_type == "tool"@ {
        PlayerEquipmentView { off_hand_tool: item_id, ..e }
    } else if slot_type == "armor"@ {
        PlayerEquipmentView { armor: item_id, ..e }
    } else {
        PlayerEquipmentView { accessory: item_id, ..e }
    }
}

impl WorldView {
    /// The position of the player's first stack of the item.
    pub open spec fn stack_index(self, player_id: u32, item_id: Seq<char>) -> Option<int> {
        first_index(self.inventory_items, stack_of(player_id, item_id))
    }

    /// The position of the player's first stack of the item that is not
    /// used up.
    pub open spec fn stocked_stack_index(self, player_id: u32, item_id: Seq<char>) -> Option<int> {
        first_index(self.inventory_items, stocked_stack_of(player_id, item_id))
    }

    /// The position of the player's equipment row.
    pub open spec fn equipment_index(self, player_id: u32) -> Option<int> {
        first_index(self.player_equipment, equipment_of(player_id))
    }

    /// The world with stack `k` marked as worn or not worn.
    pub open spec fn mark_equipped(self, k: int, worn: bool) -> WorldView {
        WorldView {
            inventory_items: self.inventory_items.update(
                k,
                InventoryItemView { is_equipped: worn, ..self.inventory_items[k] },
            ),
            ..self
        }
    }

    /// The world with the player's first stack of the item, where there is
    /// one, marked as not worn.
    pub open spec fn mark_unequipped(self, player_id: u32, item_id: Seq<char>) -> WorldView {
        match self.stack_index(player_id, item_id) {
            Some(k) => self.mark_equipped(k, false),
            None => self,
        }
    }

    /// The world once the player was given items: their first stack of the
    /// item grows by the quantity, or, where they have none, a new stack
    /// with the given id is added.
    pub open spec fn add_item(
        self,
        player_id: u32,
        item_id: Seq<char>,
        quantity: i32,
        fresh_id: u32,
    ) -> WorldView {
        match self.stack_index(player_id, item_id) {
            Some(k) => WorldView {
                inventory_items: self.inventory_items.update(
                    k,
                    InventoryItemView {
                        quantity: clip_quantity(self.inventory_items[k].quantity + quantity),
                        ..self.inventory_items[k]
                    },
                ),
                ..self
            },
            None => WorldView {
                inventory_items: self.inventory_items.push(
                    fresh_stack(fresh_id, player_id, item_id, quantity),
                ),
                ..self
            },
        }
    }

    /// Whether the player holds ammunition of the given kind.
    pub open spec fn spec_has_ammo(self, player_id: u32, kind: Seq<char>) -> bool {
        self.stocked_stack_index(player_id, kind) is Some
    }

    /// The world once the player used one unit of ammunition: the first
    /// stack that is not used up shrinks by one and is removed when empty.
    pub open spec fn spec_consume_ammo(self, player_id: u32, kind: Seq<char>) -> WorldView {
        match self.stocked_stack_index(player_id, kind) {
            Some(k) => WorldView {
                inventory_items: if self.inventory_items[k].quantity <= 1 {
                    self.inventory_items.remove(k)
                } else {
                    self.inventory_items.update(
                        k,
                        InventoryItemView {
                            quantity: (self.inventory_items[k].quantity - 1) as i32,
                            ..self.inventory_items[k]
                        },
                    )
                },
                ..self
            },
            None => self,
        }
    }

    /// The world once the player took the item off: it leaves the first
    /// slot that holds it, and the player's first stack of it is marked as
    /// not worn. A player without an equipment row wears nothing.
    pub open spec fn unequip(self, player_id: u32, item_id: Seq<char>) -> WorldView {
        match self.equipment_index(player_id) {
            Some(e) => if wears(self.player_equipment[e], item_id) {
                (WorldView {
                    player_equipment: self.player_equipment.update(
                        e,
                        without_item(self.player_equipment[e], item_id),
                    ),
                    ..self
                }).mark_unequipped(player_id, item_id)
            } else {
                self
            },
            None => self,
        }
    }

    /// The world once the player put on the item of stack `k`: what the
    /// slot held before is marked as not worn, the slot holds the item, and
    /// the stack is marked as worn. A player without an equipment row gets
    /// one.
    pub open spec fn equip(self, player_id: u32, k: int) -> WorldView {
        let item = self.inventory_items[k];
        match self.equipment_index(player_id) {
            Some(e) => {
                let worn = slot_content(self.player_equipment[e], item.slot_type);
                let cleared = if worn.len() > 0 {
                    self.mark_unequipped(player_id, worn)
                } else {
                    self
                };
                (WorldView {
                    player_equipment: cleared.player_equipment.update(
                        e,
                        with_slot(self.player_equipment[e], item.slot_type, item.item_id),
                    ),
                    ..cleared
                }).mark_equipped(k, true)
            },
            None => (WorldView {
                player_equipment: self.player_equipment.push(
                    with_slot(empty_equipment(player_id), item.slot_type, item.item_id),
                ),
                ..self
            }).mark_equipped(k, true),
        }
    }
}

impl World {
    /// The position of the player's first stack of the item.
    pub fn find_stack(&self, player_id: u32, item_id: &str) -> (r: Option<usize>)
        ensures
            as_position(r) == self@.stack_index(player_id, item_id@),
            r matches Some(k) ==> k < self.inventory_items.len(),
    {
        let ghost p = stack_of(player_id, item_id@);
        let mut k: usize = 0;
        while k < self.inventory_items.len()
            invariant
                k <= self.inventory_items.len(),
                p == stack_of(player_id, item_id@),
                forall|j: int| 0 <= j < k ==> !p(#[trigger] self@.inventory_items[j]),
            decreases self.inventory_items.len() - k,
        {
            let item = &self.inventory_items[k];
            if item.player_id == player_id && same_text(item.item_id.as_str(), item_id) {
                proof {
                    assert(p(self@.inventory_items[k as int]));
                    lemma_first_index(self@.inventory_items, p, Some(k as int));
                }
                return Some(k);
            }
            k += 1;
        }
        proof {
            lemma_first_index(self@.inventory_items, p, None);
        }
        None
    }

    /// The position of the player's first stack of the item that is not
    /// used up.
    pub fn find_stocked_stack(&self, player_id: u32, item_id: &str) -> (r: Option<usize>)
        ensures
            as_position(r) == self@.stocked_stack_index(player_id, item_id@),
            r matches Some(k) ==> k < self.inventory_items.len(),
    {
        let ghost p = stocked_stack_of(player_id, item_id@);
        let mut k: usize = 0;
        while k < self.inventory_items.len()
            invariant
                k <= self.inventory_items.len(),
                p == stocked_stack_of(player_id, item_id@),
                forall|j: int| 0 <= j < k ==> !p(#[trigger] self@.inventory_items[j]),
            decreases self.inventory_items.len() - k,
        {
            let item = &self.inventory_items[k];
            if item.player_id == player_id && same_text(item.item_id.as_str(), item_id)
                && item.quantity > 0 {
                proof {
                    assert(p(self@.inventory_items[k as int]));
                    lemma_first_index(self@.inventory_items, p, Some(k as int));
                }
                return Some(k);
            }
            k += 1;
        }
        proof {
            lemma_first_index(self@.inventory_items, p, None);
        }
        None
    }

    /// The position of the player's equipment row.
    pub fn find_equipment(&self, player_id: u32) -> (r: Option<usize>)
        ensures
            as_position(r) == self@.equipment_index(player_id),
            r matches Some(e) ==> e < self.player_equipment.len(),
    {
        let ghost p = equipment_of(player_id);
        let mut e: usize = 0;
        while e < self.player_equipment.len()
            invariant
                e <= self.player_equipment.len(),
                p == equipment_of(player_id),
                forall|j: int| 0 <= j < e ==> !p(#[trigger] self@.player_equipment[j]),
            decreases self.player_equipment.len() - e,
        {
            if self.player_equipment[e].player_id == player_id {
                proof {
                    assert(p(self@.player_equipment[e as int]));
                    lemma_first_index(self@.player_equipment, p, Some(e as int));
                }
                return Some(e);
            }
            e += 1;
        }
        proof {
            lemma_first_index(self@.player_equipment, p, None);
        }
        None
    }
}

/// Whether the player holds ammunition of the given kind.
pub fn has_ammo(world: &World, player_id: u32, kind: &str) -> (r: bool)
    ensures
        r == world@.spec_has_ammo(player_id, kind@),
{
    world.find_stocked_stack(player_id, kind).is_some()
}

/// Uses one unit of the player's ammunition of the given kind. Answers
/// whether there was one to use; without one the world is unchanged.
pub fn consume_ammo(world: &mut World, player_id: u32, kind: &str) -> (r: bool)
    ensures
        old(world)@.wf() ==> final(world)@.wf(),
        r == old(world)@.spec_has_ammo(player_id, kind@),
        final(world)@ == old(world)@.spec_consume_ammo(player_id, kind@),
{
    match world.find_stocked_stack(player_id, kind) {
        Some(k) => {
            assert(world@.inventory_items[k as int] == world.inventory_items[k as int]@);
            let quantity = world.inventory_items[k].quantity;
            if quantity <= 1 {
                let _ = world.inventory_items.remove(k);
                assert(world@.inventory_items =~= old(world)@.inventory_items.remove(k as int));
            } else {
                world.inventory_items[k].quantity = quantity - 1;
                assert(world@.inventory_items =~= old(world)@.inventory_items.update(
                    k as int,
                    InventoryItemView {
                        quantity: (quantity - 1) as i32,
                        ..old(world)@.inventory_items[k as int]
                    },
                ));
            }
            assert(world@.players == old(world)@.players);
            true
        },
        None => false,
    }
}

/// Gives items to a player, with `fresh_id` as the id of the stack that is
/// added where the player has none of the item yet.
pub fn add_item_with_id(
    world: &mut World,
    player_id: u32,
    item_id: String,
    quantity: i32,
    fresh_id: u32,
)
    ensures
        old(world)@.wf() ==> final(world)@.wf(),
        final(world)@ == old(world)@.add_item(player_id, item_id@, quantity, fresh_id),
{
    match world.find_stack(player_id, item_id.as_str()) {
        Some(k) => {
            assert(world@.inventory_items[k as int] == world.inventory_items[k as int]@);
            let sum: i64 = world.inventory_items[k].quantity as i64 + quantity as i64;
            let clipped: i32 = if sum > i32::MAX as i64 {
                i32::MAX
            } else if sum < i32::MIN as i64 {
                i32::MIN
            } else {
                sum as i32
            };
            world.inventory_items[k].quantity = clipped;
            assert(world@.inventory_items =~= old(world)@.inventory_items.update(
                k as int,
                InventoryItemView { quantity: clipped, ..old(world)@.inventory_items[k as int] },
            ));
        },
        None => {
            let slot_type = get_item_slot_type(item_id.as_str());
            let stack = InventoryItem {
                id: fresh_id,
                player_id: player_id,
                item_id: item_id,
                quantity: quantity,
                is_equipped: false,
                slot_type: slot_type,
            };
            world.inventory_items.push(stack);
            assert(world@.inventory_items =~= old(world)@.inventory_items.push(stack@));
        },
    }
    assert(world@.players == old(world)@.players);
}

/// Gives items to a player: their first stack of the item grows, or a new
/// stack with an id drawn from the current time is added.
pub fn add_item_to_inventory_internal(
    world: &mut World,
    player_id: u32,
    item_id: String,
    quantity: i32,
) -> (r: Result<(), GameError>)
    ensures
        old(world)@.wf() ==> final(world)@.wf(),
        r is Ok,
        exists|fresh_id: u32|
            final(world)@ == old(world)@.add_item(player_id, item_id@, quantity, fresh_id),
{
    let fresh_id = generate_inventory_id();
    add_item_with_id(world, player_id, item_id, quantity, fresh_id);
    Ok(())
}

/// Gives items to a player.
pub fn add_item_to_inventory(
    world: &mut World,
    player_id: u32,
    item_id: String,
    quantity: i32,
) -> (r: Result<(), GameError>)
    ensures
        old(world)@.wf() ==> final(world)@.wf(),
        r is Ok,
        exists|fresh_id: u32|
            final(world)@ == old(world)@.add_item(player_id, item_id@, quantity, fresh_id),
{
    add_item_to_inventory_internal(world, player_id, item_id, quantity)
}

/// Lets a player pick up items that lie at a position of the world.
pub fn pickup_item(
    world: &mut World,
    player_id: u32,
    item_id: String,
    quantity: i32,
    position_x: i32,
    position_y: i32,
) -> (r: Result<(), GameError>)
    ensures
        old(world)@.wf() ==> final(world)@.wf(),
        r is Ok,
        exists|fresh_id: u32|
            final(world)@ == old(world)@.add_item(player_id, item_id@, quantity, fresh_id),
{
    add_item_to_inventory(world, player_id, item_id, quantity)
}

/// Gives arrows to a player.
pub fn give_arrows_to_player(world: &mut World, player_id: u32, quantity: i32) -> (r: Result<
    (),
    GameError,
>)
    ensures
        old(world)@.wf() ==> final(world)@.wf(),
        r is Ok,
        exists|fresh_id: u32|
            final(world)@ == old(world)@.add_item(player_id, "arrow"@, quantity, fresh_id),
{
    add_item_to_inventory_internal(world, player_id, "arrow".to_string(), quantity)
}

/// Marks the player's first stack of the item, where there is one, as not
/// worn.
fn mark_stack_unequipped(world: &mut World, player_id: u32, item_id: &str)
    ensures
        final(world)@ == old(world)@.mark_unequipped(player_id, item_id@),
{
    match world.find_stack(player_id, item_id) {
        Some(k) => {
            world.inventory_items[k].is_equipped = false;
            assert(world@.inventory_items =~= old(world)@.inventory_items.update(
                k as int,
                InventoryItemView { is_equipped: false, ..old(world)@.inventory_items[k as int] },
            ));
        },
        None => {},
    }
}

/// Takes an item off a player. Fails where the player has an equipment row
/// and none of its slots holds the item; a player without an equipment row
/// is left alone.
pub fn unequip_item_internal(world: &mut World, player_id: u32, item_id: &str) -> (r: Result<
    (),
    GameError,
>)
    ensures
        old(world)@.wf() ==> final(world)@.wf(),
        match old(world)@.equipment_index(player_id) {
            Some(e) => if wears(old(world)@.player_equipment[e], item_id@) {
                r is Ok
            } else {
                r == Err::<(), GameError>(GameError::ItemNotEquipped)
            },
            None => r is Ok,
        },
        final(world)@ == old(world)@.unequip(player_id, item_id@),
{
    let e = match world.find_equipment(player_id) {
        Some(e) => e,
        None => {
            return Ok(());
        },
    };
    assert(world@.player_equipment[e as int] == world.player_equipment[e as int]@);
    if same_text(world.player_equipment[e].main_hand_weapon.as_str(), item_id) {
        world.player_equipment[e].main_hand_weapon = String::new();
    } else if same_text(world.player_equipment[e].off_hand_tool.as_str(), item_id) {
        world.player_equipment[e].off_hand_tool = String::new();
    } else if same_text(world.player_equipment[e].armor.as_str(), item_id) {
        world.player_equipment[e].armor = String::new();
    } else if same_text(world.player_equipment[e].accessory.as_str(), item_id) {
        world.player_equipment[e].accessory = String::new();
    } else {
        return Err(GameError::ItemNotEquipped);
    }
    assert(world@.player_equipment =~= old(world)@.player_equipment.update(
        e as int,
        without_item(old(world)@.player_equipment[e as int], item_id@),
    ));
    mark_stack_unequipped(world, player_id, item_id);
    assert(world@.players == old(world)@.players);
    Ok(())
}

/// Takes an item off a player.
pub fn unequip_item(
    world: &mut World,
    player_id: u32,
    item_id: String,
) -> (r: Result<(), GameError>)
    ensures
        old(world)@.wf() ==> final(world)@.wf(),
        match old(world)@.equipment_index(player_id) {
            Some(e) => if wears(old(world)@.player_equipment[e], item_id@) {
                r is Ok
            } else {
                r == Err::<(), GameError>(GameError::ItemNotEquipped)
            },
            None => r is Ok,
        },
        final(world)@ == old(world)@.unequip(player_id, item_id@),
{
    unequip_item_internal(world, player_id, item_id.as_str())
}

/// Puts an item that a player holds into the slot of its class. Fails,
/// without changing anything, where the player holds no such item or the
/// item's class has no slot. What the slot held before is taken off.
pub fn equip_item(world: &mut World, player_id: u32, item_id: String) -> (r: Result<(), GameError>)
    ensures
        old(world)@.wf() ==> final(world)@.wf(),
        match old(world)@.stack_index(player_id, item_id@) {
            None => r == Err::<(), GameError>(GameError::ItemNotOwned)
                && final(world)@ == old(world)@,
            Some(k) => if is_equippable(old(world)@.inventory_items[k].slot_type) {
                r is Ok && final(world)@ == old(world)@.equip(player_id, k)
            } else {
                r == Err::<(), GameError>(GameError::ItemNotEquippable)
                    && final(world)@ == old(world)@
            },
        },
{
    let k = match world.find_stack(player_id, item_id.as_str()) {
        Some(k) => k,
        None => {
            return Err(GameError::ItemNotOwned);
        },
    };
    assert(world@.inventory_items[k as int] == world.inventory_items[k as int]@);
    let slot_type = world.inventory_items[k].slot_type.clone();
    let slot = slot_type.as_str();
    if !(same_text(slot, "weapon") || same_text(slot, "tool") || same_text(slot, "armor")
        || same_text(slot, "accessory")) {
        return Err(GameError::ItemNotEquippable);
    }
    match world.find_equipment(player_id) {
        Some(e) => {
            assert(world@.player_equipment[e as int] == world.player_equipment[e as int]@);
            let row = &world.player_equipment[e];
            let worn = if same_text(slot, "weapon") {
                row.main_hand_weapon.clone()
            } else if same_text(slot, "tool") {
                row.off_hand_tool.clone()
            } else if same_text(slot, "armor") {
                row.armor.clone()
            } else {
                row.accessory.clone()
            };
            if !worn.as_str().is_empty() {
                mark_stack_unequipped(world, player_id, worn.as_str());
            }
            let ghost cleared = world@;
            assert(world.player_equipment@.len() == cleared.player_equipment.len());
            if same_text(slot, "weapon") {
                world.player_equipment[e].main_hand_weapon = item_id;
            } else if same_text(slot, "tool") {
                world.player_equipment[e].off_hand_tool = item_id;
            } else if same_text(slot, "armor") {
                world.player_equipment[e].armor = item_id;
            } else {
                world.player_equipment[e].accessory = item_id;
            }
            assert(world@.player_equipment =~= cleared.player_equipment.update(
                e as int,
                with_slot(old(world)@.player_equipment[e as int], slot_type@, item_id@),
            ));
        },
        None => {
            let mut row = PlayerEquipment {
                player_id: player_id,
                main_hand_weapon: String::new(),
                off_hand_tool: String::new(),
                armor: String::new(),
                accessory: String::new(),
            };
            if same_text(slot, "weapon") {
                row.main_hand_weapon = item_id;
            } else if same_text(slot, "tool") {
                row.off_hand_tool = item_id;
            } else if same_text(slot, "armor") {
                row.armor = item_id;
            } else {
                row.accessory = item_id;
            }
            world.player_equipment.push(row);
            assert(world@.player_equipment =~= old(world)@.player_equipment.push(
                with_slot(empty_equipment(player_id), slot_type@, item_id@),
            ));
        },
    }
    let ghost slotted = world@;
    assert(world.inventory_items@.len() == slotted.inventory_items.len());
    world.inventory_items[k].is_equipped = true;
    assert(world@.inventory_items =~= slotted.inventory_items.update(
        k as int,
        InventoryItemView { is_equipped: true, ..slotted.inventory_items[k as int] },
    ));
    assert(world@.players == old(world)@.players);
    Ok(())
}

} // verus!
