//! The behaviour state of enemies, derived on the server.
//!
//! An enemy is idle, alert or chasing. What it does next follows from what
//! it can perceive: the standing players on its map within its detection
//! range, and how far it is from the centre of its patrol area. A client
//! has no say in it.
//!
//! * An enemy on its leash that perceives a player takes them as its
//!   target. It goes from idle to alert and from alert to chasing, one
//!   step at a time, and stays chasing while it perceives a player.
//! * An enemy that perceives no player, or that has left its leash, gives
//!   up its target. It goes from chasing to alert, and from alert to idle
//!   once it is back within its patrol radius.

use crate::entity::{EnemyView, PlayerView};
use crate::error::GameError;
use crate::hit_area::{is_within_range, within_range};
use crate::table::{as_position, first_index, lemma_first_index};
use crate::text::same_text;
use crate::world::{World, WorldView};
use vstd::prelude::*;

verus! {

/// The three behaviour states.
#[derive(Clone, Copy, Debug, PartialEq, Eq, Structural)]
pub enum AiState {
    /// At rest or on patrol.
    Idle,
    /// Aware of a player, or on the way back from a chase.
    Alert,
    /// Running after its target.
    Chasing,
}

impl AiState {
    /// The tag that an enemy stores for the state.
    pub open spec fn spec_tag(self) -> Seq<char> {
        match self {
            AiState::Idle => "Idle"@,
            AiState::Alert => "Alert"@,
            AiState::Chasing => "Chasing"@,
        }
    }

    /// The state that a tag stands for; a tag that is none of the three
    /// stands for idle.
    pub open spec fn spec_from_tag(tag: Seq<char>) -> AiState {
        if tag == "Chasing"@ {
            AiState::Chasing
        } else if tag == "Alert"@ {
            AiState::Alert
        } else {
            AiState::Idle
        }
    }

    /// The state after one step: with a player perceived, one step up
    /// toward chasing; without, one step down toward idle, where the last
    /// step is taken only at home.
    pub open spec fn spec_next(self, perceives: bool, at_home: bool) -> AiState {
        if perceives {
            match self {
                AiState::Idle => AiState::Alert,
                AiState::Alert => AiState::Chasing,
                AiState::Chasing => AiState::Chasing,
            }
        } else {
            match self {
                AiState::Chasing => AiState::Alert,
                AiState::Alert => if at_home {
                    AiState::Idle
                } else {
                    AiState::Alert
                },
                AiState::Idle => AiState::Idle,
            }
        }
    }

    /// The tag that an enemy stores for the state.
    pub fn tag(&self) -> (r: String)
        ensures
            r@ == self.spec_tag(),
    {
        match self {
            AiState::Idle => "Idle".to_string(),
            AiState::Alert => "Alert".to_string(),
            AiState::Chasing => "Chasing".to_string(),
        }
    }

    /// The state that a tag stands for.
    pub fn from_tag(tag: &str) -> (r: AiState)
        ensures
            r == AiState::spec_from_tag(tag@),
    {
        if same_text(tag, "Chasing") {
            AiState::Chasing
        } else if same_text(tag, "Alert") {
            AiState::Alert
        } else {
            AiState::Idle
        }
    }

    /// The state after one step.
    pub fn next(&self, perceives: bool, at_home: bool) -> (r: AiState)
        ensures
            r == self.spec_next(perceives, at_home),
    {
        if perceives {
            match self {
                AiState::Idle => AiState::Alert,
                AiState::Alert => AiState::Chasing,
                AiState::Chasing => AiState::Chasing,
            }
        } else {
            match self {
                AiState::Chasing => AiState::Alert,
                AiState::Alert => if at_home {
                    AiState::Idle
                } else {
                    AiState::Alert
                },
                AiState::Idle => AiState::Idle,
            }
        }
    }
}

/// Whether an enemy can perceive a player: the player is on their feet, on
/// the enemy's map, and no farther away than the enemy's detection range.
pub open spec fn perceives(e: EnemyView, p: PlayerView) -> bool {
    &&& !p.is_downed
    &&& p.current_map_id == e.map_id
    &&& within_range(
        p.position_x - e.position_x,
        p.position_y - e.position_y,
        e.detection_range as int,
    )
}

/// The players that an enemy can perceive.
pub open spec fn perceived_by(e: EnemyView) -> spec_fn(PlayerView) -> bool {
    |p: PlayerView| perceives(e, p)
}

/// Whether an enemy is on its leash: no farther from the centre of its
/// patrol area than its leash range.
pub open spec fn on_leash(e: EnemyView) -> bool {
    within_range(
        e.position_x - e.patrol_center_x,
        e.position_y - e.patrol_center_y,
        e.leash_range as int,
    )
}

/// Whether an enemy is at home: no farther from the centre of its patrol
/// area than its patrol radius.
pub open spec fn at_home(e: EnemyView) -> bool {
    within_range(
        e.position_x - e.patrol_center_x,
        e.position_y - e.patrol_center_y,
        e.patrol_radius as int,
    )
}

/// The enemy after one step of its behaviour, given the player it takes as
/// its target, if any. With a target it remembers who and where they are;
/// without, it forgets who, and keeps where it saw them last.
pub open spec fn stepped(e: EnemyView, target: Option<PlayerView>) -> EnemyView {
    let state = AiState::spec_from_tag(e.state).spec_next(target is Some, at_home(e));
    match target {
        Some(p) => EnemyView {
            state: state.spec_tag(),
            target_player_id: Some(p.id),
            last_known_player_x: p.position_x,
            last_known_player_y: p.position_y,
            ..e
        },
        None => EnemyView { state: state.spec_tag(), target_player_id: None, ..e },
    }
}

/// One step of the behaviour of an enemy in the given world.
pub open spec fn step_in(w: WorldView) -> spec_fn(EnemyView) -> EnemyView {
    |e: EnemyView| stepped(e, w.target_of(e))
}

impl WorldView {
    /// The player that an enemy takes as its target: the first player, in
    /// table order, that it perceives, provided it is on its leash.
    pub open spec fn target_of(self, e: EnemyView) -> Option<PlayerView> {
        if on_leash(e) {
            match first_index(self.players, perceived_by(e)) {
                Some(i) => Some(self.players[i]),
                None => None,
            }
        } else {
            None
        }
    }

    /// The world once the behaviour of an enemy was derived anew.
    pub open spec fn derive_ai(self, enemy_id: u32) -> WorldView {
        match self.enemy_index(enemy_id) {
            Some(j) => WorldView {
                enemies: self.enemies.update(
                    j,
                    stepped(self.enemies[j], self.target_of(self.enemies[j])),
                ),
                ..self
            },
            None => self,
        }
    }
}

/// A step of the behaviour never skips a state, and an enemy chases only
/// what it perceives: the derived state is one of the three; an idle enemy
/// is not chasing after one step; an enemy that is chasing afterwards has a
/// target; and an enemy off its leash has none.
pub proof fn lemma_stepped(w: WorldView, e: EnemyView)
    ensures
        ({
            let after = stepped(e, w.target_of(e));
            let state = AiState::spec_from_tag(after.state);
            &&& after.state == state.spec_tag()
            &&& (AiState::spec_from_tag(e.state) == AiState::Idle ==> state != AiState::Chasing)
            &&& (state == AiState::Chasing ==> after.target_player_id is Some)
            &&& (!on_leash(e) ==> after.target_player_id is None)
            &&& (w.target_of(e) matches Some(p) ==> perceives(e, p) && after.target_player_id
                == Some(p.id))
        }),
{
    reveal_strlit("Idle");
    reveal_strlit("Alert");
    reveal_strlit("Chasing");
    assert("Idle"@.len() == 4);
    assert("Alert"@.len() == 5);
    assert("Chasing"@.len() == 7);
    if on_leash(e) {
        crate::table::lemma_first_index_is_first(w.players, perceived_by(e));
    }
}

impl World {
    /// The first player, in table order, that enemy `j` perceives.
    pub fn find_perceived(&self, j: usize) -> (r: Option<usize>)
        requires
            j < self.enemies.len(),
        ensures
            as_position(r) == first_index(self@.players, perceived_by(self@.enemies[j as int])),
            r matches Some(i) ==> i < self.players.len(),
    {
        let enemy = &self.enemies[j];
        assert(self@.enemies[j as int] == enemy@);
        let ghost p = perceived_by(enemy@);
        let mut i: usize = 0;
        while i < self.players.len()
            invariant
                i <= self.players.len(),
                j < self.enemies.len(),
                enemy@ == self@.enemies[j as int],
                p == perceived_by(enemy@),
                forall|k: int| 0 <= k < i ==> !p(#[trigger] self@.players[k]),
            decreases self.players.len() - i,
        {
            let player = &self.players[i];
            assert(self@.players[i as int] == player@);
            let dx: i64 = player.position_x as i64 - enemy.position_x as i64;
            let dy: i64 = player.position_y as i64 - enemy.position_y as i64;
            if !player.is_downed && same_text(
                player.current_map_id.as_str(),
                enemy.map_id.as_str(),
            ) && is_within_range(dx, dy, enemy.detection_range as i64) {
                proof {
                    assert(p(self@.players[i as int]));
                    lemma_first_index(self@.players, p, Some(i as int));
                }
                return Some(i);
            }
            assert(!p(self@.players[i as int]));
            i += 1;
        }
        proof {
            lemma_first_index(self@.players, p, None);
        }
        None
    }
}

/// Derives the behaviour of an enemy anew from what it can perceive: its
/// state moves one step, and its target is the first standing player on
/// its map within its detection range, while it is on its leash. Without
/// such an enemy nothing happens. Players are not touched.
pub fn derive_enemy_ai(world: &mut World, enemy_id: u32) -> (r: Result<(), GameError>)
    ensures
        r is Ok,
        final(world)@ == old(world)@.derive_ai(enemy_id),
        final(world)@.players == old(world)@.players,
        old(world)@.wf() ==> final(world)@.wf(),
{
    match world.find_enemy(enemy_id) {
        Some(j) => {
            step_enemy(world, j);
            assert(world@.players == old(world)@.players);
        },
        None => {},
    }
    Ok(())
}

/// Enemy `j` after one step of its behaviour.
fn step_enemy(world: &mut World, j: usize)
    requires
        j < old(world).enemies.len(),
    ensures
        final(world)@ == (WorldView {
            enemies: old(world)@.enemies.update(
                j as int,
                stepped(
                    old(world)@.enemies[j as int],
                    old(world)@.target_of(old(world)@.enemies[j as int]),
                ),
            ),
            ..old(world)@
        }),
{
    assert(world@.enemies[j as int] == world.enemies[j as int]@);
    let enemy = &world.enemies[j];
    let from_centre_x: i64 = enemy.position_x as i64 - enemy.patrol_center_x as i64;
    let from_centre_y: i64 = enemy.position_y as i64 - enemy.patrol_center_y as i64;
    let leashed = is_within_range(from_centre_x, from_centre_y, enemy.leash_range as i64);
    let home = is_within_range(from_centre_x, from_centre_y, enemy.patrol_radius as i64);
    let seen = if leashed {
        world.find_perceived(j)
    } else {
        None
    };
    let state = AiState::from_tag(world.enemies[j].state.as_str()).next(seen.is_some(), home);
    let ghost before = world@;
    match seen {
        Some(i) => {
            assert(before.players[i as int] == world.players[i as int]@);
            let id = world.players[i].id;
            let x = world.players[i].position_x;
            let y = world.players[i].position_y;
            world.enemies[j].state = state.tag();
            world.enemies[j].target_player_id = Some(id);
            world.enemies[j].last_known_player_x = x;
            world.enemies[j].last_known_player_y = y;
        },
        None => {
            world.enemies[j].state = state.tag();
            world.enemies[j].target_player_id = None;
        },
    }
    proof {
        assert(world@.enemies =~= before.enemies.update(
            j as int,
            stepped(before.enemies[j as int], before.target_of(before.enemies[j as int])),
        ));
        assert(world@.players == before.players);
    }
}

/// Derives the behaviour of every enemy anew, each from what it perceives.
/// Players are not touched.
pub fn derive_all_enemy_ai(world: &mut World) -> (r: Result<(), GameError>)
    ensures
        r is Ok,
        final(world)@ == (WorldView {
            enemies: old(world)@.enemies.map_values(step_in(old(world)@)),
            ..old(world)@
        }),
        final(world)@.players == old(world)@.players,
        old(world)@.wf() ==> final(world)@.wf(),
{
    let ghost before = world@;
    let ghost step = step_in(before);
    let mut j: usize = 0;
    while j < world.enemies.len()
        invariant
            j <= world.enemies.len(),
            step == step_in(before),
            world@ == (WorldView { enemies: world@.enemies, ..before }),
            world@.enemies.len() == before.enemies.len(),
            forall|k: int| 0 <= k < j ==> #[trigger] world@.enemies[k] == step(before.enemies[k]),
            forall|k: int|
                j <= k < before.enemies.len() ==> #[trigger] world@.enemies[k]
                    == before.enemies[k],
        decreases world.enemies.len() - j,
    {
        let ghost now = world@;
        assert(now.enemies[j as int] == before.enemies[j as int]);
        assert(now.target_of(now.enemies[j as int]) == before.target_of(
            before.enemies[j as int],
        ));
        step_enemy(world, j);
        assert(world.enemies@.len() == world@.enemies.len());
        j += 1;
    }
    assert(world@.enemies =~= before.enemies.map_values(step));
    Ok(())
}

} // verus!
