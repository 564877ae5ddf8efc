//! Player health: damage, healing, the downed state and revival.
//!
//! A player whose health reaches zero is downed. A downed player takes no
//! damage and no healing until someone revives them.

use crate::entity::{same_identity, EntityKind, PlayerView};
use crate::error::GameError;
use crate::fixed::SCALE;
use crate::text::same_text;
use crate::world::{player_wf, World, WorldView};
use spacetimedb::Identity;
use vstd::prelude::*;

verus! {

/// Health restored by a fruit.
pub const FRUIT_HEAL: u32 = 25_000;

/// Health restored by a health potion.
pub const HEALTH_POTION_HEAL: u32 = 50_000;

/// Health restored by a mega health potion.
pub const MEGA_HEALTH_POTION_HEAL: u32 = 100_000;

/// The player once they took damage: health drops by the damage, not below
/// zero, and at zero the player is downed.
pub open spec fn damaged(p: PlayerView, damage: u32) -> PlayerView {
    if damage >= p.health {
        PlayerView { health: 0, is_downed: true, ..p }
    } else {
        PlayerView { health: (p.health - damage) as u32, ..p }
    }
}

/// The player once they were healed: health rises by the amount, not above
/// the capacity.
pub open spec fn healed(p: PlayerView, amount: u32) -> PlayerView {
    if p.health + amount >= p.max_health {
        PlayerView { health: p.max_health, ..p }
    } else {
        PlayerView { health: (p.health + amount) as u32, ..p }
    }
}

/// The player once they were revived: on their feet, with half of their
/// health capacity.
pub open spec fn revived(p: PlayerView) -> PlayerView {
    PlayerView { health: p.max_health / 2, is_downed: false, ..p }
}

/// The player once their health capacity was set: the capacity is at least
/// one hit point, and health keeps its share of the capacity, rounded up.
pub open spec fn with_max_health(p: PlayerView, max_health: u32) -> PlayerView {
    let capacity = if max_health < SCALE {
        SCALE as u32
    } else {
        max_health
    };
    PlayerView {
        max_health: capacity,
        health: ((p.health * capacity + p.max_health - 1) / (p.max_health as int)) as u32,
        ..p
    }
}

/// The health that a consumable restores, or `None` for an item that is no
/// health consumable.
pub open spec fn spec_consumable_heal(item_id: Seq<char>) -> Option<u32> {
    if item_id == "fruit"@ {
        Some(FRUIT_HEAL)
    } else if item_id == "health_potion"@ {
        Some(HEALTH_POTION_HEAL)
    } else if item_id == "mega_health_potion"@ {
        Some(MEGA_HEALTH_POTION_HEAL)
    } else {
        None
    }
}

impl WorldView {
    /// The world with player `i` replaced.
    pub open spec fn with_player(self, i: int, p: PlayerView) -> WorldView {
        WorldView { players: self.players.update(i, p), ..self }
    }
}

/// Damage keeps the health invariant and never raises health; a player is
/// downed by it exactly when it uses up their health.
pub proof fn lemma_damaged(p: PlayerView, damage: u32)
    requires
        player_wf(p),
    ensures
        player_wf(damaged(p, damage)),
        damaged(p, damage).health <= p.health,
        damaged(p, damage).is_downed <==> damage >= p.health,
{
}

/// Revival puts a downed player back on their feet with exactly half of
/// their capacity, rounded down to the fixed-point step: twice the new
/// health is the capacity, or one step less where the capacity is odd.
pub proof fn lemma_revived(p: PlayerView)
    requires
        player_wf(p),
    ensures
        player_wf(revived(p)),
        !revived(p).is_downed,
        2 * revived(p).health == p.max_health || 2 * revived(p).health + 1 == p.max_health,
        p.max_health % 2 == 0 ==> 2 * revived(p).health == p.max_health,
{
}

/// The health that a consumable restores.
pub fn consumable_heal(item_id: &str) -> (r: Option<u32>)
    ensures
        r == spec_consumable_heal(item_id@),
{
    if same_text(item_id, "fruit") {
        Some(FRUIT_HEAL)
    } else if same_text(item_id, "health_potion") {
        Some(HEALTH_POTION_HEAL)
    } else if same_text(item_id, "mega_health_potion") {
        Some(MEGA_HEALTH_POTION_HEAL)
    } else {
        None
    }
}

/// Applies damage to a player. Fails where the player does not exist. A
/// downed player takes no damage, and neither does any player where the
/// attacker is a player: players cannot hurt each other.
pub fn apply_damage_to_player(
    world: &mut World,
    player_id: u32,
    damage: u32,
    attacker_kind: EntityKind,
    attacker_id: u32,
) -> (r: Result<(), GameError>)
    requires
        old(world)@.wf(),
    ensures
        final(world)@.wf(),
        match old(world)@.player_index(player_id) {
            None => r == Err::<(), GameError>(GameError::PlayerNotFound)
                && final(world)@ == old(world)@,
            Some(i) => r is Ok && final(world)@ == if old(world)@.players[i].is_downed
                || attacker_kind == EntityKind::Player {
                old(world)@
            } else {
                old(world)@.with_player(i, damaged(old(world)@.players[i], damage))
            },
        },
{
    let i = match world.find_player(player_id) {
        Some(i) => i,
        None => {
            return Err(GameError::PlayerNotFound);
        },
    };
    assert(world@.players[i as int] == world.players[i as int]@);
    if world.players[i].is_downed {
        return Ok(());
    }
    match attacker_kind {
        EntityKind::Player => {
            return Ok(());
        },
        EntityKind::Enemy => {},
    }
    let health = world.players[i].health;
    if damage >= health {
        world.players[i].health = 0;
        world.players[i].is_downed = true;
    } else {
        world.players[i].health = health - damage;
    }
    proof {
        let before = old(world)@;
        assert(world@.players =~= before.players.update(
            i as int,
            damaged(before.players[i as int], damage),
        ));
        lemma_damaged(before.players[i as int], damage);
    }
    Ok(())
}

/// Heals a player. Fails where the player does not exist or the sender does
/// not own them. A downed player is not healed.
pub fn heal_player(world: &mut World, sender: &Identity, player_id: u32, heal_amount: u32) -> (r:
    Result<(), GameError>)
    requires
        old(world)@.wf(),
    ensures
        final(world)@.wf(),
        match old(world)@.player_index(player_id) {
            None => r == Err::<(), GameError>(GameError::PlayerNotFound)
                && final(world)@ == old(world)@,
            Some(i) => if old(world)@.players[i].identity != *sender {
                r == Err::<(), GameError>(GameError::UnauthorizedPlayerUpdate) && final(world)@
                    == old(world)@
            } else {
                r is Ok && final(world)@ == if old(world)@.players[i].is_downed {
                    old(world)@
                } else {
                    old(world)@.with_player(i, healed(old(world)@.players[i], heal_amount))
                }
            },
        },
{
    let i = match world.find_player(player_id) {
        Some(i) => i,
        None => {
            return Err(GameError::PlayerNotFound);
        },
    };
    assert(world@.players[i as int] == world.players[i as int]@);
    if !same_identity(&world.players[i].identity, sender) {
        return Err(GameError::UnauthorizedPlayerUpdate);
    }
    if world.players[i].is_downed {
        return Ok(());
    }
    restore_health(world, i, heal_amount);
    Ok(())
}

/// Raises the health of player `i` by the amount, not above the capacity.
fn restore_health(world: &mut World, i: usize, amount: u32)
    requires
        old(world)@.wf(),
        i < old(world).players.len(),
        !old(world)@.players[i as int].is_downed,
    ensures
        final(world)@.wf(),
        final(world)@ == old(world)@.with_player(
            i as int,
            healed(old(world)@.players[i as int], amount),
        ),
{
    assert(world@.players[i as int] == world.players[i as int]@);
    let health = world.players[i].health;
    let capacity = world.players[i].max_health;
    if amount >= capacity - health {
        world.players[i].health = capacity;
    } else {
        world.players[i].health = health + amount;
    }
    proof {
        let before = old(world)@;
        assert(world@.players =~= before.players.update(
            i as int,
            healed(before.players[i as int], amount),
        ));
    }
}

/// Revives a downed player with half of their health capacity. Fails where
/// the player does not exist; a player who is not downed is left alone.
pub fn revive_player(world: &mut World, player_id: u32, reviver_id: u32) -> (r: Result<
    (),
    GameError,
>)
    requires
        old(world)@.wf(),
    ensures
        final(world)@.wf(),
        match old(world)@.player_index(player_id) {
            None => r == Err::<(), GameError>(GameError::PlayerNotFound)
                && final(world)@ == old(world)@,
            Some(i) => r is Ok && final(world)@ == if old(world)@.players[i].is_downed {
                old(world)@.with_player(i, revived(old(world)@.players[i]))
            } else {
                old(world)@
            },
        },
{
    let i = match world.find_player(player_id) {
        Some(i) => i,
        None => {
            return Err(GameError::PlayerNotFound);
        },
    };
    assert(world@.players[i as int] == world.players[i as int]@);
    if !world.players[i].is_downed {
        return Ok(());
    }
    world.players[i].is_downed = false;
    world.players[i].health = world.players[i].max_health / 2;
    proof {
        let before = old(world)@;
        assert(world@.players =~= before.players.update(
            i as int,
            revived(before.players[i as int]),
        ));
        lemma_revived(before.players[i as int]);
    }
    Ok(())
}

/// Sets the health capacity of a player, to at least one hit point; health
/// keeps its share of the capacity. Fails where the player does not exist
/// or the sender does not own them.
pub fn set_player_max_health(
    world: &mut World,
    sender: &Identity,
    player_id: u32,
    max_health: u32,
) -> (r: Result<(), GameError>)
    requires
        old(world)@.wf(),
    ensures
        final(world)@.wf(),
        match old(world)@.player_index(player_id) {
            None => r == Err::<(), GameError>(GameError::PlayerNotFound)
                && final(world)@ == old(world)@,
            Some(i) => if old(world)@.players[i].identity != *sender {
                r == Err::<(), GameError>(GameError::UnauthorizedPlayerUpdate) && final(world)@
                    == old(world)@
            } else {
                r is Ok && final(world)@ == old(world)@.with_player(
                    i,
                    with_max_health(old(world)@.players[i], max_health),
                )
            },
        },
{
    let i = match world.find_player(player_id) {
        Some(i) => i,
        None => {
            return Err(GameError::PlayerNotFound);
        },
    };
    assert(world@.players[i as int] == world.players[i as int]@);
    if !same_identity(&world.players[i].identity, sender) {
        return Err(GameError::UnauthorizedPlayerUpdate);
    }
    let capacity: u32 = if max_health < SCALE as u32 {
        SCALE as u32
    } else {
        max_health
    };
    let health: u64 = world.players[i].health as u64;
    let previous: u64 = world.players[i].max_health as u64;
    assert(health * capacity <= previous * capacity) by (nonlinear_arith)
        requires
            0 <= health <= previous,
            0 <= capacity,
    ;
    assert(previous * capacity <= 0xFFFF_FFFF * 0xFFFF_FFFF) by (nonlinear_arith)
        requires
            0 <= previous <= 0xFFFF_FFFF,
            0 <= capacity <= 0xFFFF_FFFF,
    ;
    let share: u64 = (health * (capacity as u64) + previous - 1) / previous;
    proof {
        let h = health as int;
        let c = capacity as int;
        let o = previous as int;
        // The share does not exceed the capacity: h * c + o - 1 < (c + 1) * o.
        assert(h * c + o - 1 < (c + 1) * o) by (nonlinear_arith)
            requires
                h * c <= o * c,
                o >= 1,
        ;
        vstd::arithmetic::div_mod::lemma_div_by_multiple_is_strongly_ordered(
            h * c + o - 1,
            (c + 1) * o,
            c + 1,
            o,
        );
        vstd::arithmetic::div_mod::lemma_div_multiples_vanish(c + 1, o);
        assert(share <= c);
        // A positive health keeps a positive share.
        if h > 0 {
            assert(h * c >= 1) by (nonlinear_arith)
                requires
                    h >= 1,
                    c >= 1,
            ;
            vstd::arithmetic::div_mod::lemma_div_is_ordered(o, h * c + o - 1, o);
            vstd::arithmetic::div_mod::lemma_div_multiples_vanish(1, o);
            assert(share >= 1);
        } else {
            assert(h * c == 0) by (nonlinear_arith)
                requires
                    h == 0,
            ;
            vstd::arithmetic::div_mod::lemma_basic_div(o - 1, o);
            assert(share == 0);
        }
    }
    world.players[i].max_health = capacity;
    world.players[i].health = share as u32;
    proof {
        let before = old(world)@;
        assert(world@.players =~= before.players.update(
            i as int,
            with_max_health(before.players[i as int], max_health),
        ));
    }
    Ok(())
}

/// Uses a health consumable on a player. Fails where the player does not
/// exist, the sender does not own them, or the item is no health
/// consumable. A downed player cannot use consumables.
pub fn use_health_consumable(
    world: &mut World,
    sender: &Identity,
    player_id: u32,
    item_id: String,
) -> (r: Result<(), GameError>)
    requires
        old(world)@.wf(),
    ensures
        final(world)@.wf(),
        match old(world)@.player_index(player_id) {
            None => r == Err::<(), GameError>(GameError::PlayerNotFound)
                && final(world)@ == old(world)@,
            Some(i) => if old(world)@.players[i].identity != *sender {
                r == Err::<(), GameError>(GameError::UnauthorizedPlayerUpdate) && final(world)@
                    == old(world)@
            } else if old(world)@.players[i].is_downed {
                r is Ok && final(world)@ == old(world)@
            } else {
                match spec_consumable_heal(item_id@) {
                    None => r == Err::<(), GameError>(GameError::UnknownConsumable)
                        && final(world)@ == old(world)@,
                    Some(amount) => r is Ok && final(world)@ == old(world)@.with_player(
                        i,
                        healed(old(world)@.players[i], amount),
                    ),
                }
            },
        },
{
    let i = match world.find_player(player_id) {
        Some(i) => i,
        None => {
            return Err(GameError::PlayerNotFound);
        },
    };
    assert(world@.players[i as int] == world.players[i as int]@);
    if !same_identity(&world.players[i].identity, sender) {
        return Err(GameError::UnauthorizedPlayerUpdate);
    }
    if world.players[i].is_downed {
        return Ok(());
    }
    match consumable_heal(item_id.as_str()) {
        Some(amount) => {
            restore_health(world, i, amount);
            Ok(())
        },
        None => Err(GameError::UnknownConsumable),
    }
}

} // verus!
