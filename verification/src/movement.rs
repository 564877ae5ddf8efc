//! The movement validator: a player's claimed position and velocity are
//! corrected to what the rules allow and then committed. The server is the
//! source of truth for position, so a claim out of range is corrected, not
//! refused.

use crate::entity::{same_identity, PlayerView};
use crate::error::GameError;
use crate::fixed::{
    lemma_limit_length_bounded, length_squared, limit_length, spec_limit_length,
};
use crate::map::{
    check_map_transition, get_map_bounds_from_db, lemma_destinations_available_is_ready,
};
use crate::table::lemma_first_index_congruent;
use crate::world::{player_has_id, World, WorldView};
use spacetimedb::Identity;
use vstd::prelude::*;

verus! {

/// Greatest speed of a player, in thousandths of a pixel per second.
pub const MAX_MOVEMENT_SPEED: i32 = 250_000;

/// Greatest distance between two committed positions of a player, in
/// thousandths of a pixel.
pub const MAX_POSITION_DELTA: i32 = 50_000;

/// `v`, moved into the closed interval from `low` to `high`.
pub open spec fn clamp(v: int, low: int, high: int) -> int {
    if v < low {
        low
    } else if v > high {
        high
    } else {
        v
    }
}

/// A position, moved into the rectangle from the origin to
/// `(width, height)`.
pub open spec fn spec_validate_movement_bounds(x: int, y: int, width: int, height: int) -> (
    int,
    int,
) {
    (clamp(x, 0, width), clamp(y, 0, height))
}

/// A velocity, slowed down to the greatest speed where it is faster.
pub open spec fn spec_validate_movement_speed(vx: int, vy: int) -> (int, int) {
    spec_limit_length(vx, vy, MAX_MOVEMENT_SPEED as int)
}

/// A new position, pulled back toward the old one along the line between
/// them where it lies farther away than the greatest step.
pub open spec fn spec_validate_position_delta(old_x: int, old_y: int, new_x: int, new_y: int) -> (
    int,
    int,
) {
    let step = spec_limit_length(new_x - old_x, new_y - old_y, MAX_POSITION_DELTA as int);
    (old_x + step.0, old_y + step.1)
}

/// The position that is committed for a player at `(old_x, old_y)` who
/// claims `(x, y)` on a map of the given size: the claim is moved into the
/// map, then pulled back to the greatest step.
pub open spec fn validated_position(
    old_x: int,
    old_y: int,
    x: int,
    y: int,
    width: int,
    height: int,
) -> (int, int) {
    let inside = spec_validate_movement_bounds(x, y, width, height);
    spec_validate_position_delta(old_x, old_y, inside.0, inside.1)
}

/// The player once a movement update was committed.
pub open spec fn moved(
    p: PlayerView,
    width: int,
    height: int,
    x: int,
    y: int,
    vx: int,
    vy: int,
    sequence: u32,
) -> PlayerView {
    let position = validated_position(
        p.position_x as int,
        p.position_y as int,
        x,
        y,
        width,
        height,
    );
    let velocity = spec_validate_movement_speed(vx, vy);
    PlayerView {
        position_x: position.0 as i32,
        position_y: position.1 as i32,
        velocity_x: velocity.0 as i32,
        velocity_y: velocity.1 as i32,
        last_input_sequence: sequence,
        ..p
    }
}

/// The player once their position was corrected by force: at the given
/// position, moved into the map, and at rest.
pub open spec fn forced(p: PlayerView, width: int, height: int, x: int, y: int) -> PlayerView {
    let inside = spec_validate_movement_bounds(x, y, width, height);
    PlayerView {
        position_x: inside.0 as i32,
        position_y: inside.1 as i32,
        velocity_x: 0,
        velocity_y: 0,
        ..p
    }
}

/// Whether a step from `before` to `after` keeps within the limits of
/// movement: `after` is no faster than the greatest speed and lies no
/// farther from `before` than the greatest step.
pub open spec fn within_movement_limits(before: PlayerView, after: PlayerView) -> bool {
    &&& length_squared(after.velocity_x as int, after.velocity_y as int) <= MAX_MOVEMENT_SPEED
        * MAX_MOVEMENT_SPEED
    &&& length_squared(
        after.position_x - before.position_x,
        after.position_y - before.position_y,
    ) <= MAX_POSITION_DELTA * MAX_POSITION_DELTA
}

/// Whether the player stands within the given bounds
/// `(min_x, max_x, min_y, max_y)`.
pub open spec fn within_bounds(p: PlayerView, bounds: (int, int, int, int)) -> bool {
    bounds.0 <= p.position_x <= bounds.1 && bounds.2 <= p.position_y <= bounds.3
}

impl WorldView {
    /// Whether a movement update is accepted: the player exists, the sender
    /// owns them, and the sequence number is newer than the last accepted.
    pub open spec fn movement_accepted(
        self,
        sender: Identity,
        player_id: u32,
        sequence: u32,
    ) -> bool {
        match self.player_index(player_id) {
            Some(i) => self.players[i].identity == sender && sequence
                > self.players[i].last_input_sequence,
            None => false,
        }
    }

    /// The world once the corrected movement of an accepted update was
    /// written to the player, before the transition engine has run.
    pub open spec fn commit_movement(
        self,
        player_id: u32,
        x: int,
        y: int,
        vx: int,
        vy: int,
        sequence: u32,
    ) -> WorldView {
        let i = self.player_index(player_id).unwrap();
        let p = self.players[i];
        let bounds = self.map_bounds(p.current_map_id);
        WorldView {
            players: self.players.update(i, moved(p, bounds.1, bounds.3, x, y, vx, vy, sequence)),
            ..self
        }
    }

    /// The world once a movement update was handled: an accepted update is
    /// committed and the transition engine runs for the player; any other
    /// update changes nothing.
    pub open spec fn submit_movement(
        self,
        sender: Identity,
        player_id: u32,
        x: int,
        y: int,
        vx: int,
        vy: int,
        sequence: u32,
    ) -> WorldView {
        if self.movement_accepted(sender, player_id, sequence) {
            self.commit_movement(player_id, x, y, vx, vy, sequence).apply_transition(player_id)
        } else {
            self
        }
    }
}

/// Moves a position into the rectangle from the origin to
/// `(width, height)`.
pub fn validate_movement_bounds(x: i32, y: i32, width: i64, height: i64) -> (r: (i32, i32))
    requires
        0 <= width,
        0 <= height,
    ensures
        (r.0 as int, r.1 as int) == spec_validate_movement_bounds(
            x as int,
            y as int,
            width as int,
            height as int,
        ),
        0 <= r.0 <= width,
        0 <= r.1 <= height,
{
    let clamped_x: i32 = if x < 0 {
        0
    } else if x as i64 > width {
        width as i32
    } else {
        x
    };
    let clamped_y: i32 = if y < 0 {
        0
    } else if y as i64 > height {
        height as i32
    } else {
        y
    };
    (clamped_x, clamped_y)
}

/// Slows a velocity down to the greatest speed where it is faster, keeping
/// its direction.
pub fn validate_movement_speed(velocity_x: i32, velocity_y: i32) -> (r: (i32, i32))
    ensures
        (r.0 as int, r.1 as int) == spec_validate_movement_speed(
            velocity_x as int,
            velocity_y as int,
        ),
        length_squared(r.0 as int, r.1 as int) <= MAX_MOVEMENT_SPEED * MAX_MOVEMENT_SPEED,
{
    let limited = limit_length(velocity_x as i64, velocity_y as i64, MAX_MOVEMENT_SPEED as i64);
    proof {
        lemma_limit_length_bounded(velocity_x as int, velocity_y as int, MAX_MOVEMENT_SPEED as int);
    }
    (limited.0 as i32, limited.1 as i32)
}

/// Pulls a new position back toward the old one where it lies farther away
/// than the greatest step, keeping the direction of the move.
pub fn validate_position_delta(old_x: i32, old_y: i32, new_x: i32, new_y: i32) -> (r: (i32, i32))
    ensures
        (r.0 as int, r.1 as int) == spec_validate_position_delta(
            old_x as int,
            old_y as int,
            new_x as int,
            new_y as int,
        ),
        length_squared(r.0 - old_x, r.1 - old_y) <= MAX_POSITION_DELTA * MAX_POSITION_DELTA,
        old_x <= new_x ==> old_x <= r.0 <= new_x,
        new_x <= old_x ==> new_x <= r.0 <= old_x,
        old_y <= new_y ==> old_y <= r.1 <= new_y,
        new_y <= old_y ==> new_y <= r.1 <= old_y,
{
    let delta_x: i64 = new_x as i64 - old_x as i64;
    let delta_y: i64 = new_y as i64 - old_y as i64;
    let step = limit_length(delta_x, delta_y, MAX_POSITION_DELTA as i64);
    proof {
        lemma_limit_length_bounded(delta_x as int, delta_y as int, MAX_POSITION_DELTA as int);
    }
    ((old_x as i64 + step.0) as i32, (old_y as i64 + step.1) as i32)
}

/// An accepted movement update keeps the player within the limits: the
/// committed velocity is no faster than the greatest speed, the committed
/// position lies no farther from the previous one than the greatest step,
/// and it lies on the map wherever the previous position did.
pub proof fn lemma_moved_within_limits(
    p: PlayerView,
    width: int,
    height: int,
    x: int,
    y: int,
    vx: int,
    vy: int,
)
    requires
        0 <= width,
        0 <= height,
    ensures
        ({
            let position = validated_position(
                p.position_x as int,
                p.position_y as int,
                x,
                y,
                width,
                height,
            );
            let velocity = spec_validate_movement_speed(vx, vy);
            &&& length_squared(velocity.0, velocity.1) <= MAX_MOVEMENT_SPEED * MAX_MOVEMENT_SPEED
            &&& length_squared(position.0 - p.position_x, position.1 - p.position_y)
                <= MAX_POSITION_DELTA * MAX_POSITION_DELTA
            &&& (0 <= p.position_x <= width && 0 <= p.position_y <= height ==> 0 <= position.0
                <= width && 0 <= position.1 <= height)
        }),
{
    let inside = spec_validate_movement_bounds(x, y, width, height);
    lemma_limit_length_bounded(vx, vy, MAX_MOVEMENT_SPEED as int);
    lemma_limit_length_bounded(
        inside.0 - p.position_x,
        inside.1 - p.position_y,
        MAX_POSITION_DELTA as int,
    );
}

/// A world whose zones all lead to available maps stays so when a movement
/// is committed, so the transition engine can run after it.
pub proof fn lemma_commit_movement_ready(
    w: WorldView,
    player_id: u32,
    x: int,
    y: int,
    vx: int,
    vy: int,
    sequence: u32,
)
    requires
        w.destinations_available(),
        w.player_index(player_id) is Some,
    ensures
        w.commit_movement(player_id, x, y, vx, vy, sequence).transition_ready(player_id),
{
    let after = w.commit_movement(player_id, x, y, vx, vy, sequence);
    assert forall|z: int| 0 <= z < after.map_transitions.len() implies after.map_available(
        (#[trigger] after.map_transitions[z]).dest_map_id,
    ) by {
        assert(w.map_available(w.map_transitions[z].dest_map_id));
    }
    lemma_destinations_available_is_ready(after, player_id);
}

/// An update whose sequence number is not newer than the last accepted one
/// changes nothing, whatever else it claims.
pub proof fn lemma_stale_sequence_ignored(
    w: WorldView,
    sender: Identity,
    player_id: u32,
    x: int,
    y: int,
    vx: int,
    vy: int,
    sequence: u32,
)
    requires
        w.player_index(player_id) matches Some(i) && sequence <= w.players[i].last_input_sequence,
    ensures
        w.submit_movement(sender, player_id, x, y, vx, vy, sequence) == w,
{
}

/// An accepted update raises the player's sequence number to its own, and
/// the player keeps their place in the table.
pub proof fn lemma_accepted_sequence_recorded(
    w: WorldView,
    sender: Identity,
    player_id: u32,
    x: int,
    y: int,
    vx: int,
    vy: int,
    sequence: u32,
)
    requires
        w.movement_accepted(sender, player_id, sequence),
    ensures
        ({
            let after = w.submit_movement(sender, player_id, x, y, vx, vy, sequence);
            let i = w.player_index(player_id).unwrap();
            &&& after.player_index(player_id) == Some(i)
            &&& after.players.len() == w.players.len()
            &&& after.players[i].last_input_sequence == sequence
            &&& after.players[i].last_input_sequence > w.players[i].last_input_sequence
            &&& after.players[i].identity == w.players[i].identity
            &&& forall|k: int|
                0 <= k < w.players.len() && k != i ==> #[trigger] after.players[k] == w.players[k]
        }),
{
    let i = w.player_index(player_id).unwrap();
    let committed = w.commit_movement(player_id, x, y, vx, vy, sequence);
    let p = player_has_id(player_id);
    assert forall|k: int| 0 <= k < w.players.len() implies p(#[trigger] w.players[k]) == p(
        committed.players[k],
    ) by {}
    lemma_first_index_congruent(w.players, committed.players, p);
    let after = committed.apply_transition(player_id);
    match committed.entered_zone(committed.players[i]) {
        Some(z) => {
            assert(after.players =~= committed.players.update(
                i,
                crate::map::carried(committed.players[i], committed.map_transitions[z]),
            ));
            assert forall|k: int| 0 <= k < committed.players.len() implies p(
                #[trigger] committed.players[k],
            ) == p(after.players[k]) by {}
            lemma_first_index_congruent(committed.players, after.players, p);
        },
        None => {},
    }
}

/// Sequence numbers only grow, player by player. Whatever update is
/// submitted, every player keeps their place in the table and their id. An
/// update that is accepted raises the sequence number of its player to its
/// own, which is greater than the one before, and leaves every other player
/// as they are. An update that is not accepted changes nothing.
pub proof fn lemma_sequence_numbers_only_grow(
    w: WorldView,
    sender: Identity,
    player_id: u32,
    x: int,
    y: int,
    vx: int,
    vy: int,
    sequence: u32,
)
    ensures
        ({
            let after = w.submit_movement(sender, player_id, x, y, vx, vy, sequence);
            &&& after.players.len() == w.players.len()
            &&& forall|k: int|
                0 <= k < w.players.len() ==> (#[trigger] after.players[k]).id == w.players[k].id
                    && after.players[k].last_input_sequence >= w.players[k].last_input_sequence
            &&& (w.movement_accepted(sender, player_id, sequence) ==> {
                let i = w.player_index(player_id).unwrap();
                &&& after.player_index(player_id) == Some(i)
                &&& after.players[i].last_input_sequence == sequence
                &&& sequence > w.players[i].last_input_sequence
                &&& forall|k: int|
                    0 <= k < w.players.len() && k != i ==> #[trigger] after.players[k]
                        == w.players[k]
            })
            &&& (!w.movement_accepted(sender, player_id, sequence) ==> after == w)
        }),
{
    if w.movement_accepted(sender, player_id, sequence) {
        lemma_accepted_sequence_recorded(w, sender, player_id, x, y, vx, vy, sequence);
        let after = w.submit_movement(sender, player_id, x, y, vx, vy, sequence);
        let i = w.player_index(player_id).unwrap();
        let committed = w.commit_movement(player_id, x, y, vx, vy, sequence);
        assert(after.players[i].id == w.players[i].id) by {
            match committed.entered_zone(committed.players[i]) {
                Some(z) => {
                    assert(after.players =~= committed.players.update(
                        i,
                        crate::map::carried(committed.players[i], committed.map_transitions[z]),
                    ));
                },
                None => {},
            }
        }
        assert forall|k: int| 0 <= k < w.players.len() implies (#[trigger] after.players[k]).id
            == w.players[k].id && after.players[k].last_input_sequence
            >= w.players[k].last_input_sequence by {
            if k != i {
                assert(after.players[k] == w.players[k]);
            }
        }
    }
}

/// Replaying a sequence number never changes the world: once an update was
/// accepted, any update with the same or an older sequence number is
/// ignored.
pub proof fn lemma_replay_changes_nothing(
    w: WorldView,
    sender: Identity,
    player_id: u32,
    x: int,
    y: int,
    vx: int,
    vy: int,
    sequence: u32,
    replay_sender: Identity,
    replay_x: int,
    replay_y: int,
    replay_vx: int,
    replay_vy: int,
    replay_sequence: u32,
)
    requires
        w.movement_accepted(sender, player_id, sequence),
        replay_sequence <= sequence,
    ensures
        ({
            let after = w.submit_movement(sender, player_id, x, y, vx, vy, sequence);
            after.submit_movement(
                replay_sender,
                player_id,
                replay_x,
                replay_y,
                replay_vx,
                replay_vy,
                replay_sequence,
            ) == after
        }),
{
    lemma_accepted_sequence_recorded(w, sender, player_id, x, y, vx, vy, sequence);
}

impl World {
    /// Whether the transition engine can run once the given movement update
    /// was committed: the update is not accepted, or the first zone in
    /// which the player then stands leads to a map that is available.
    pub fn is_movement_ready(
        &self,
        sender: &Identity,
        player_id: u32,
        new_x: i32,
        new_y: i32,
        velocity_x: i32,
        velocity_y: i32,
        input_sequence: u32,
    ) -> (r: bool)
        ensures
            r == (self@.movement_accepted(*sender, player_id, input_sequence)
                ==> self@.commit_movement(
                player_id,
                new_x as int,
                new_y as int,
                velocity_x as int,
                velocity_y as int,
                input_sequence,
            ).transition_ready(player_id)),
    {
        let i = match self.find_player(player_id) {
            Some(i) => i,
            None => {
                return true;
            },
        };
        assert(self@.players[i as int] == self.players[i as int]@);
        let player = &self.players[i];
        if !same_identity(&player.identity, sender) || input_sequence
            <= player.last_input_sequence {
            return true;
        }
        let bounds = get_map_bounds_from_db(self, player.current_map_id.as_str());
        let inside = validate_movement_bounds(new_x, new_y, bounds.1, bounds.3);
        let position = validate_position_delta(
            player.position_x,
            player.position_y,
            inside.0,
            inside.1,
        );
        proof {
            let w = self@;
            let committed = w.commit_movement(
                player_id,
                new_x as int,
                new_y as int,
                velocity_x as int,
                velocity_y as int,
                input_sequence,
            );
            let p = player_has_id(player_id);
            assert forall|k: int| 0 <= k < w.players.len() implies p(#[trigger] w.players[k]) == p(
                committed.players[k],
            ) by {}
            lemma_first_index_congruent(w.players, committed.players, p);
            assert(committed.players[i as int].position_x == position.0);
            assert(committed.players[i as int].position_y == position.1);
        }
        match self.find_zone_at(player.current_map_id.as_str(), position.0, position.1) {
            Some(z) => {
                assert(self@.map_transitions[z as int] == self.map_transitions[z as int]@);
                self.is_map_available(self.map_transitions[z].dest_map_id.as_str())
            },
            None => true,
        }
    }
}

/// Handles a movement update of a player.
///
/// The update fails where the player does not exist or the sender does not
/// own them. An update whose sequence number is not newer than the last
/// accepted one is ignored. Any other update is accepted: the position is
/// moved into the player's map and pulled back to the greatest step from
/// the previous position, the velocity is slowed to the greatest speed, the
/// sequence number is recorded, and the transition engine runs for the
/// player.
pub fn update_player_position(
    world: &mut World,
    sender: &Identity,
    player_id: u32,
    new_x: i32,
    new_y: i32,
    velocity_x: i32,
    velocity_y: i32,
    input_sequence: u32,
) -> (r: Result<(), GameError>)
    requires
        old(world)@.movement_accepted(*sender, player_id, input_sequence)
            ==> old(world)@.commit_movement(
            player_id,
            new_x as int,
            new_y as int,
            velocity_x as int,
            velocity_y as int,
            input_sequence,
        ).transition_ready(player_id),
    ensures
        old(world)@.wf() ==> final(world)@.wf(),
        match old(world)@.player_index(player_id) {
            None => r == Err::<(), GameError>(GameError::PlayerNotFound),
            Some(i) => if old(world)@.players[i].identity != *sender {
                r == Err::<(), GameError>(GameError::UnauthorizedMovement)
            } else {
                r is Ok
            },
        },
        final(world)@ == old(world)@.submit_movement(
            *sender,
            player_id,
            new_x as int,
            new_y as int,
            velocity_x as int,
            velocity_y as int,
            input_sequence,
        ),
        !old(world)@.movement_accepted(*sender, player_id, input_sequence) ==> final(world)@
            == old(world)@,
        old(world)@.movement_accepted(*sender, player_id, input_sequence) ==> ({
            let i = old(world)@.player_index(player_id).unwrap();
            let before = old(world)@.players[i];
            let committed = old(world)@.commit_movement(
                player_id,
                new_x as int,
                new_y as int,
                velocity_x as int,
                velocity_y as int,
                input_sequence,
            );
            let bounds = old(world)@.map_bounds(before.current_map_id);
            &&& within_movement_limits(before, committed.players[i])
            &&& (within_bounds(before, bounds) ==> within_bounds(committed.players[i], bounds))
            &&& (committed.entered_zone(committed.players[i]) is None ==> final(world)@
                == committed)
            &&& final(world)@.player_index(player_id) == Some(i)
            &&& final(world)@.players[i].last_input_sequence == input_sequence
            &&& input_sequence > before.last_input_sequence
            &&& final(world)@.players.len() == old(world)@.players.len()
            &&& forall|k: int|
                0 <= k < old(world)@.players.len() && k != i ==> #[trigger] final(world)@.players[k] == old(world)@.players[k]
        }),
        old(world)@.maps_consistent() ==> final(world)@.maps_consistent(),
{
    let i = match world.find_player(player_id) {
        Some(i) => i,
        None => {
            return Err(GameError::PlayerNotFound);
        },
    };
    assert(world@.players[i as int] == world.players[i as int]@);
    if !same_identity(&world.players[i].identity, sender) {
        return Err(GameError::UnauthorizedMovement);
    }
    if input_sequence <= world.players[i].last_input_sequence {
        return Ok(());
    }
    proof {
        lemma_accepted_sequence_recorded(
            old(world)@,
            *sender,
            player_id,
            new_x as int,
            new_y as int,
            velocity_x as int,
            velocity_y as int,
            input_sequence,
        );
        if old(world)@.maps_consistent() {
            let committed = old(world)@.commit_movement(
                player_id,
                new_x as int,
                new_y as int,
                velocity_x as int,
                velocity_y as int,
                input_sequence,
            );
            crate::map::lemma_same_maps_consistent(old(world)@, committed);
        }
    }
    let bounds = get_map_bounds_from_db(world, world.players[i].current_map_id.as_str());
    let inside = validate_movement_bounds(new_x, new_y, bounds.1, bounds.3);
    let velocity = validate_movement_speed(velocity_x, velocity_y);
    let position = validate_position_delta(
        world.players[i].position_x,
        world.players[i].position_y,
        inside.0,
        inside.1,
    );
    world.players[i].position_x = position.0;
    world.players[i].position_y = position.1;
    world.players[i].velocity_x = velocity.0;
    world.players[i].velocity_y = velocity.1;
    world.players[i].last_input_sequence = input_sequence;
    proof {
        let before = old(world)@;
        assert(world@.players =~= before.commit_movement(
            player_id,
            new_x as int,
            new_y as int,
            velocity_x as int,
            velocity_y as int,
            input_sequence,
        ).players);
    }
    let _ = check_map_transition(world, player_id);
    Ok(())
}

/// Sets a player's position by force: the position is moved into the
/// player's map and the player comes to rest. Fails where the sender does
/// not own the player; an unknown player is ignored.
pub fn force_player_position(
    world: &mut World,
    sender: &Identity,
    player_id: u32,
    x: i32,
    y: i32,
) -> (r: Result<(), GameError>)
    ensures
        old(world)@.wf() ==> final(world)@.wf(),
        match old(world)@.player_index(player_id) {
            None => r is Ok && final(world)@ == old(world)@,
            Some(i) => if old(world)@.players[i].identity != *sender {
                r == Err::<(), GameError>(GameError::UnauthorizedPositionCorrection)
                    && final(world)@ == old(world)@
            } else {
                let bounds = old(world)@.map_bounds(old(world)@.players[i].current_map_id);
                r is Ok && final(world)@ == (WorldView {
                    players: old(world)@.players.update(
                        i,
                        forced(old(world)@.players[i], bounds.1, bounds.3, x as int, y as int),
                    ),
                    ..old(world)@
                })
            },
        },
        old(world)@.maps_consistent() ==> final(world)@.maps_consistent(),
{
    let i = match world.find_player(player_id) {
        Some(i) => i,
        None => {
            return Ok(());
        },
    };
    assert(world@.players[i as int] == world.players[i as int]@);
    if !same_identity(&world.players[i].identity, sender) {
        return Err(GameError::UnauthorizedPositionCorrection);
    }
    let bounds = get_map_bounds_from_db(world, world.players[i].current_map_id.as_str());
    let inside = validate_movement_bounds(x, y, bounds.1, bounds.3);
    world.players[i].position_x = inside.0;
    world.players[i].position_y = inside.1;
    world.players[i].velocity_x = 0;
    world.players[i].velocity_y = 0;
    proof {
        let before = old(world)@;
        let b = before.map_bounds(before.players[i as int].current_map_id);
        assert(world@.players =~= before.players.update(
            i as int,
            forced(before.players[i as int], b.1, b.3, x as int, y as int),
        ));
        if before.maps_consistent() {
            crate::map::lemma_same_maps_consistent(before, world@);
        }
    }
    Ok(())
}

/// The position and the velocity of a player, as
/// `(position_x, position_y, velocity_x, velocity_y)`, or `None` where the
/// player does not exist.
pub fn get_player_position(world: &World, player_id: u32) -> (r: Option<(i32, i32, i32, i32)>)
    ensures
        match world@.player_index(player_id) {
            None => r is None,
            Some(i) => r == Some(
                (
                    world@.players[i].position_x,
                    world@.players[i].position_y,
                    world@.players[i].velocity_x,
                    world@.players[i].velocity_y,
                ),
            ),
        },
{
    match world.find_player(player_id) {
        Some(i) => {
            assert(world@.players[i as int] == world.players[i as int]@);
            let p = &world.players[i];
            Some((p.position_x, p.position_y, p.velocity_x, p.velocity_y))
        },
        None => None,
    }
}

/// Whether a position collides with the static world. For now only the
/// edge of the map is an obstacle: a position collides exactly when it lies
/// outside the rectangle from the origin to `(width, height)`.
pub fn check_static_collision(x: i32, y: i32, width: i64, height: i64) -> (r: bool)
    ensures
        r == (x < 0 || x > width || y < 0 || y > height),
{
    x < 0 || x as i64 > width || y < 0 || y as i64 > height
}

/// Whether a position collides with another player. Players do not block
/// each other, so it never does.
pub fn check_player_collision(player_id: u32, x: i32, y: i32) -> (r: bool)
    ensures
        !r,
{
    false
}

} // verus!
