//! The projectile simulator: arrows are fired, fly one tick at a time, hit
//! the first enemy they touch, and expire when their time is up.

use crate::combat::{
    enemies_after_strike, hit_by, record_hits, strike_enemy_at, Hit, HitView,
};
use crate::entity::{
    same_identity, Enemy, EnemyView, EntityKind, Player, PlayerView, Projectile, ProjectileView,
};
use crate::error::GameError;
use crate::fixed::{spec_with_length, trunc_div, with_length};
use crate::hit_area::{is_within_range, within_range};
use crate::inventory::consume_ammo;
use crate::text::same_text;
use crate::stamp::{generate_projectile_id, PROJECTILE_ID_OFFSET};
use crate::table::{as_position, first_index, lemma_first_index};
use crate::world::{rows, World, WorldView};
use spacetimedb::Identity;
use vstd::prelude::*;

verus! {

/// Damage of an arrow, in thousandths of a hit point.
pub const BOW_DAMAGE: u32 = 20_000;

/// Speed of an arrow, in thousandths of a pixel per second.
pub const ARROW_SPEED: u32 = 400_000;

/// Greatest distance an arrow is meant to cover, in thousandths of a pixel.
pub const ARROW_MAX_RANGE: u32 = 300_000;

/// Flight time of an arrow, in milliseconds.
pub const ARROW_TIME_TO_LIVE: i32 = 5_000;

/// Distance at which a projectile touches an enemy, in thousandths of a
/// pixel.
pub const PROJECTILE_COLLISION_RADIUS: i32 = 5_000;

/// A coordinate, kept within what a position can hold.
pub open spec fn clip_coordinate(v: int) -> i32 {
    if v > i32::MAX {
        i32::MAX
    } else if v < i32::MIN {
        i32::MIN
    } else {
        v as i32
    }
}

/// An arrow as it leaves the bow: at the given origin, flying at arrow
/// speed in the direction of the aim.
pub open spec fn fresh_arrow(
    id: u32,
    owner_id: u32,
    origin_x: i32,
    origin_y: i32,
    direction_x: int,
    direction_y: int,
    map_id: Seq<char>,
) -> ProjectileView {
    let velocity = spec_with_length(direction_x, direction_y, ARROW_SPEED as int);
    ProjectileView {
        id: id,
        owner_id: owner_id,
        position_x: origin_x,
        position_y: origin_y,
        velocity_x: velocity.0 as i32,
        velocity_y: velocity.1 as i32,
        damage: BOW_DAMAGE,
        time_to_live: ARROW_TIME_TO_LIVE,
        projectile_type: "Arrow"@,
        map_id: map_id,
        is_active: true,
    }
}

/// Whether a tick of the given length, in milliseconds, uses up the flight
/// time of the projectile.
pub open spec fn expires(p: ProjectileView, delta_time: u32) -> bool {
    p.time_to_live - delta_time <= 0
}

/// The projectile after a tick of the given length, in milliseconds, that
/// it outlives: it has moved by its velocity times the length of the tick,
/// and its flight time is shorter by the length of the tick.
pub open spec fn advanced(p: ProjectileView, delta_time: u32) -> ProjectileView {
    ProjectileView {
        position_x: clip_coordinate(p.position_x + trunc_div(p.velocity_x * delta_time, 1000)),
        position_y: clip_coordinate(p.position_y + trunc_div(p.velocity_y * delta_time, 1000)),
        time_to_live: (p.time_to_live - delta_time) as i32,
        ..p
    }
}

/// Whether a projectile touches an enemy: the two are no farther apart
/// than the collision radius.
pub open spec fn spec_check_projectile_enemy_collision(p: ProjectileView, e: EnemyView) -> bool {
    within_range(
        p.position_x - e.position_x,
        p.position_y - e.position_y,
        PROJECTILE_COLLISION_RADIUS as int,
    )
}

/// The enemies that a projectile can hit: those on its map that it
/// touches.
pub open spec fn in_the_way_of(p: ProjectileView) -> spec_fn(EnemyView) -> bool {
    |e: EnemyView| e.map_id == p.map_id && spec_check_projectile_enemy_collision(p, e)
}

/// The projectiles that are active and fly over the given map.
pub open spec fn active_on_map(map_id: Seq<char>) -> spec_fn(ProjectileView) -> bool {
    |p: ProjectileView| p.map_id == map_id && p.is_active
}

/// The log tag of a projectile hit.
pub open spec fn bow_tag() -> Seq<char> {
    "Bow"@
}

/// What a tick has made of the world so far: the enemies that are left,
/// the projectiles that stay in flight, and the hits that were landed.
pub ghost struct Flight {
    pub enemies: Seq<EnemyView>,
    pub projectiles: Seq<ProjectileView>,
    pub hits: Seq<HitView>,
}

/// One projectile's share of a tick. An inactive projectile stays as it
/// is. An active one whose flight time the tick uses up is removed without
/// damage. Any other moves on; if it then touches an enemy on its map, the
/// first such enemy in table order takes its damage and the projectile is
/// removed, else it stays in flight.
pub open spec fn fly(state: Flight, p: ProjectileView, delta_time: u32) -> Flight {
    if !p.is_active {
        Flight { projectiles: state.projectiles.push(p), ..state }
    } else if expires(p, delta_time) {
        state
    } else {
        let moved = advanced(p, delta_time);
        match first_index(state.enemies, in_the_way_of(moved)) {
            Some(j) => Flight {
                enemies: enemies_after_strike(state.enemies, j, moved.damage),
                projectiles: state.projectiles,
                hits: state.hits.push(
                    hit_by(
                        EntityKind::Player,
                        moved.owner_id,
                        state.enemies[j].id,
                        bow_tag(),
                        moved.damage,
                    ),
                ),
            },
            None => Flight { projectiles: state.projectiles.push(moved), ..state },
        }
    }
}

/// [`fly`] for a tick of fixed length, as a function to fold with.
pub open spec fn fly_for(delta_time: u32) -> spec_fn(Flight, ProjectileView) -> Flight {
    |state: Flight, p: ProjectileView| fly(state, p, delta_time)
}

/// A whole tick: every projectile flies in table order, each against the
/// enemies that the ones before it have left.
pub open spec fn flight(
    enemies: Seq<EnemyView>,
    projectiles: Seq<ProjectileView>,
    delta_time: u32,
) -> Flight {
    projectiles.fold_left(
        Flight {
            enemies: enemies,
            projectiles: Seq::<ProjectileView>::empty(),
            hits: Seq::<HitView>::empty(),
        },
        fly_for(delta_time),
    )
}

/// A tick over a world without enemies: an active projectile stays in
/// flight exactly when the tick leaves it flight time, which is then
/// shorter by the length of the tick; otherwise it is removed, and nothing
/// is hit.
pub proof fn lemma_lone_flight(p: ProjectileView, delta_time: u32)
    requires
        p.is_active,
    ensures
        ({
            let f = flight(Seq::<EnemyView>::empty(), seq![p], delta_time);
            &&& f.hits.len() == 0
            &&& f.enemies.len() == 0
            &&& (p.time_to_live > delta_time ==> f.projectiles == seq![advanced(p, delta_time)]
                && f.projectiles[0].time_to_live == p.time_to_live - delta_time)
            &&& (p.time_to_live <= delta_time ==> f.projectiles.len() == 0)
        }),
{
    let start = Flight {
        enemies: Seq::<EnemyView>::empty(),
        projectiles: Seq::<ProjectileView>::empty(),
        hits: Seq::<HitView>::empty(),
    };
    let s = seq![p];
    assert(s.drop_last() =~= Seq::<ProjectileView>::empty());
    assert(s.last() == p);
    assert(s.drop_last().fold_left(start, fly_for(delta_time)) == start);
    assert(s.fold_left(start, fly_for(delta_time)) == fly(start, p, delta_time));
    if !expires(p, delta_time) {
        let moved = advanced(p, delta_time);
        crate::table::lemma_first_index(start.enemies, in_the_way_of(moved), None);
        assert(start.projectiles.push(moved) =~= seq![moved]);
    }
}

/// The projectile after `n` ticks of the given length through a world
/// without enemies, or `None` once it has expired.
pub open spec fn flown(p: ProjectileView, delta_time: u32, n: nat) -> Option<ProjectileView>
    decreases n,
{
    if n == 0 {
        Some(p)
    } else {
        match flown(p, delta_time, (n - 1) as nat) {
            Some(q) => if expires(q, delta_time) {
                None
            } else {
                Some(advanced(q, delta_time))
            },
            None => None,
        }
    }
}

/// A projectile that hits nothing is in flight exactly as long as the ticks
/// add up to less than its flight time: with a flight time of five seconds
/// and ticks of one second it is there after four ticks and gone after
/// five. While it flies, its flight time is shorter by the ticks so far.
pub proof fn lemma_flight_time(p: ProjectileView, delta_time: u32, n: nat)
    requires
        p.is_active,
        p.time_to_live > 0,
    ensures
        match flown(p, delta_time, n) {
            Some(q) => n * delta_time < p.time_to_live && q.time_to_live == p.time_to_live - n
                * delta_time && q.is_active,
            None => n * delta_time >= p.time_to_live,
        },
    decreases n,
{
    if n > 0 {
        lemma_flight_time(p, delta_time, (n - 1) as nat);
        assert((n - 1) * delta_time + delta_time == n * delta_time) by (nonlinear_arith);
        assert((n - 1) * delta_time >= 0) by (nonlinear_arith)
            requires
                n >= 1,
                delta_time >= 0,
        ;
    } else {
        assert(n * delta_time == 0) by (nonlinear_arith)
            requires
                n == 0,
        ;
    }
}

/// Ticks through a world without enemies in which one active projectile
/// flies: after `n` ticks the projectile is what [`flown`] says, nothing
/// was hit, and nothing else has changed.
pub proof fn lemma_lone_projectile_ticks(w: WorldView, p: ProjectileView, delta_time: u32, n: nat)
    requires
        w.enemies.len() == 0,
        w.projectiles == seq![p],
        p.is_active,
        p.time_to_live > 0,
    ensures
        w.ticks(delta_time, n) == (WorldView {
            projectiles: match flown(p, delta_time, n) {
                Some(q) => seq![q],
                None => Seq::<ProjectileView>::empty(),
            },
            ..w
        }),
    decreases n,
{
    if n > 0 {
        let m = (n - 1) as nat;
        lemma_lone_projectile_ticks(w, p, delta_time, m);
        lemma_flight_time(p, delta_time, m);
        let before = w.ticks(delta_time, m);
        assert(before.enemies =~= Seq::<EnemyView>::empty());
        match flown(p, delta_time, m) {
            Some(q) => {
                lemma_lone_flight(q, delta_time);
                let f = flight(before.enemies, before.projectiles, delta_time);
                assert(f.enemies =~= before.enemies);
                if expires(q, delta_time) {
                    assert(f.projectiles =~= Seq::<ProjectileView>::empty());
                }
            },
            None => {
                let start = Flight {
                    enemies: before.enemies,
                    projectiles: Seq::<ProjectileView>::empty(),
                    hits: Seq::<HitView>::empty(),
                };
                assert(before.projectiles.fold_left(start, fly_for(delta_time)) == start);
            },
        }
    } else {
        assert(w.projectiles =~= seq![p]);
    }
}

impl WorldView {
    /// The world after `n` ticks of the given length, before any hit is
    /// logged.
    pub open spec fn ticks(self, delta_time: u32, n: nat) -> WorldView
        decreases n,
    {
        if n == 0 {
            self
        } else {
            self.ticks(delta_time, (n - 1) as nat).tick(delta_time)
        }
    }

    /// The world after a tick of the given length, in milliseconds, before
    /// the hits are logged.
    pub open spec fn tick(self, delta_time: u32) -> WorldView {
        let f = flight(self.enemies, self.projectiles, delta_time);
        WorldView { enemies: f.enemies, projectiles: f.projectiles, ..self }
    }

    /// The hits that a tick of the given length lands.
    pub open spec fn tick_hits(self, delta_time: u32) -> Seq<HitView> {
        flight(self.enemies, self.projectiles, delta_time).hits
    }

    /// The world once a player shot an arrow with the given id: where the
    /// player has an arrow, one is used up, and unless the aim has length
    /// zero the arrow takes off from where the player stands. Without an
    /// arrow nothing happens.
    pub open spec fn bow_attack(
        self,
        attacker: PlayerView,
        direction_x: int,
        direction_y: int,
        arrow_id: u32,
    ) -> WorldView {
        if !self.spec_has_ammo(attacker.id, "arrow"@) {
            self
        } else {
            let w = self.spec_consume_ammo(attacker.id, "arrow"@);
            if direction_x == 0 && direction_y == 0 {
                w
            } else {
                WorldView {
                    projectiles: w.projectiles.push(
                        fresh_arrow(
                            arrow_id,
                            attacker.id,
                            attacker.position_x,
                            attacker.position_y,
                            direction_x,
                            direction_y,
                            attacker.current_map_id,
                        ),
                    ),
                    ..w
                }
            }
        }
    }

    /// The world once a projectile with the given id was made for a player:
    /// where the player exists, the sender owns them, they are on their
    /// feet and the aim is not of length zero, an arrow takes off from the
    /// origin. Otherwise nothing happens.
    pub open spec fn launch(
        self,
        sender: Identity,
        player_id: u32,
        origin_x: i32,
        origin_y: i32,
        direction_x: int,
        direction_y: int,
        arrow_id: u32,
    ) -> WorldView {
        match self.player_index(player_id) {
            Some(i) => {
                let p = self.players[i];
                if p.identity != sender || p.is_downed || (direction_x == 0 && direction_y == 0) {
                    self
                } else {
                    WorldView {
                        projectiles: self.projectiles.push(
                            fresh_arrow(
                                arrow_id,
                                player_id,
                                origin_x,
                                origin_y,
                                direction_x,
                                direction_y,
                                p.current_map_id,
                            ),
                        ),
                        ..self
                    }
                }
            },
            None => self,
        }
    }
}

/// Builds an arrow as it leaves the bow.
fn new_arrow(
    id: u32,
    owner_id: u32,
    origin_x: i32,
    origin_y: i32,
    direction_x: i32,
    direction_y: i32,
    map_id: String,
) -> (arrow: Projectile)
    requires
        direction_x != 0 || direction_y != 0,
    ensures
        arrow@ == fresh_arrow(
            id,
            owner_id,
            origin_x,
            origin_y,
            direction_x as int,
            direction_y as int,
            map_id@,
        ),
{
    let velocity = with_length(direction_x, direction_y, ARROW_SPEED);
    Projectile {
        id: id,
        owner_id: owner_id,
        position_x: origin_x,
        position_y: origin_y,
        velocity_x: velocity.0,
        velocity_y: velocity.1,
        damage: BOW_DAMAGE,
        time_to_live: ARROW_TIME_TO_LIVE,
        projectile_type: "Arrow".to_string(),
        map_id: map_id,
        is_active: true,
    }
}

/// A bow shot of a player: one arrow of the player's inventory is used up
/// and flies off in the direction of the aim. Without an arrow the shot is
/// dropped; with an aim of length zero the arrow is used up and nothing
/// flies.
pub fn execute_bow_attack(
    world: &mut World,
    player: &Player,
    direction_x: i32,
    direction_y: i32,
) -> (r: Result<(), GameError>)
    ensures
        old(world)@.wf() ==> final(world)@.wf(),
        r is Ok,
        final(world)@.players == old(world)@.players,
        final(world)@.enemies == old(world)@.enemies,
        exists|arrow_id: u32|
            arrow_id >= PROJECTILE_ID_OFFSET && final(world)@ == #[trigger] old(world)@.bow_attack(
                player@,
                direction_x as int,
                direction_y as int,
                arrow_id,
            ),
{
    let arrow_id = generate_projectile_id();
    if !consume_ammo(world, player.id, "arrow") {
        assert(world@ == old(world)@.bow_attack(
            player@,
            direction_x as int,
            direction_y as int,
            arrow_id,
        ));
        return Ok(());
    }
    if direction_x == 0 && direction_y == 0 {
        assert(world@ == old(world)@.bow_attack(
            player@,
            direction_x as int,
            direction_y as int,
            arrow_id,
        ));
        return Ok(());
    }
    let ghost w = world@;
    let arrow = new_arrow(
        arrow_id,
        player.id,
        player.position_x,
        player.position_y,
        direction_x,
        direction_y,
        player.current_map_id.clone(),
    );
    world.projectiles.push(arrow);
    assert(world@.projectiles =~= w.projectiles.push(arrow@));
    assert(world@ == old(world)@.bow_attack(
        player@,
        direction_x as int,
        direction_y as int,
        arrow_id,
    ));
    Ok(())
}

/// Makes a projectile for a player at the given origin. A missing player, a
/// sender who does not own them, a downed player or an aim of length zero
/// makes nothing.
pub fn create_projectile(
    world: &mut World,
    sender: &Identity,
    player_id: u32,
    origin_x: i32,
    origin_y: i32,
    direction_x: i32,
    direction_y: i32,
) -> (r: Result<(), GameError>)
    ensures
        old(world)@.wf() ==> final(world)@.wf(),
        r is Ok,
        final(world)@.players == old(world)@.players,
        exists|arrow_id: u32|
            arrow_id >= PROJECTILE_ID_OFFSET && final(world)@ == #[trigger] old(world)@.launch(
                *sender,
                player_id,
                origin_x,
                origin_y,
                direction_x as int,
                direction_y as int,
                arrow_id,
            ),
{
    let arrow_id = generate_projectile_id();
    let ghost expected = old(world)@.launch(
        *sender,
        player_id,
        origin_x,
        origin_y,
        direction_x as int,
        direction_y as int,
        arrow_id,
    );
    let i = match world.find_player(player_id) {
        Some(i) => i,
        None => {
            assert(world@ == expected);
            return Ok(());
        },
    };
    assert(world@.players[i as int] == world.players[i as int]@);
    if !same_identity(&world.players[i].identity, sender) || world.players[i].is_downed || (
    direction_x == 0 && direction_y == 0) {
        assert(world@ == expected);
        return Ok(());
    }
    let arrow = new_arrow(
        arrow_id,
        player_id,
        origin_x,
        origin_y,
        direction_x,
        direction_y,
        world.players[i].current_map_id.clone(),
    );
    world.projectiles.push(arrow);
    assert(world@.projectiles =~= old(world)@.projectiles.push(arrow@));
    assert(world@ == expected);
    Ok(())
}

/// Whether a projectile touches an enemy.
pub fn check_projectile_enemy_collision(projectile: &Projectile, enemy: &Enemy) -> (r: bool)
    ensures
        r == spec_check_projectile_enemy_collision(projectile@, enemy@),
{
    let dx: i64 = projectile.position_x as i64 - enemy.position_x as i64;
    let dy: i64 = projectile.position_y as i64 - enemy.position_y as i64;
    is_within_range(dx, dy, PROJECTILE_COLLISION_RADIUS as i64)
}

/// A position after it moved at the given velocity for the given time, in
/// milliseconds.
fn advance_coordinate(position: i32, velocity: i32, delta_time: u32) -> (r: i32)
    ensures
        r == clip_coordinate(position + trunc_div(velocity * delta_time, 1000)),
{
    let magnitude: u64 = if velocity >= 0 {
        velocity as u64
    } else {
        (-(velocity as i64)) as u64
    };
    assert(magnitude * delta_time <= 0x8000_0000 * 0xFFFF_FFFF) by (nonlinear_arith)
        requires
            0 <= magnitude <= 0x8000_0000,
            0 <= delta_time <= 0xFFFF_FFFF,
    ;
    let travelled: u64 = (magnitude * (delta_time as u64)) / 1000;
    proof {
        if velocity < 0 {
            assert((-velocity) * delta_time == -(velocity * delta_time)) by (nonlinear_arith);
            assert(velocity * delta_time <= 0) by (nonlinear_arith)
                requires
                    velocity < 0,
                    delta_time >= 0,
            ;
        } else {
            assert(velocity * delta_time >= 0) by (nonlinear_arith)
                requires
                    velocity >= 0,
                    delta_time >= 0,
            ;
        }
    }
    let moved: i128 = if velocity >= 0 {
        position as i128 + travelled as i128
    } else {
        position as i128 - travelled as i128
    };
    if moved > i32::MAX as i128 {
        i32::MAX
    } else if moved < i32::MIN as i128 {
        i32::MIN
    } else {
        moved as i32
    }
}

impl World {
    /// The first enemy, in table order, that the projectile can hit.
    pub fn find_collision(&self, projectile: &Projectile) -> (r: Option<usize>)
        ensures
            as_position(r) == first_index(self@.enemies, in_the_way_of(projectile@)),
            r matches Some(j) ==> j < self.enemies.len(),
    {
        let ghost p = in_the_way_of(projectile@);
        let mut j: usize = 0;
        while j < self.enemies.len()
            invariant
                j <= self.enemies.len(),
                p == in_the_way_of(projectile@),
                forall|k: int| 0 <= k < j ==> !p(#[trigger] self@.enemies[k]),
            decreases self.enemies.len() - j,
        {
            let enemy = &self.enemies[j];
            assert(enemy@ == self@.enemies[j as int]);
            if same_text(enemy.map_id.as_str(), projectile.map_id.as_str())
                && check_projectile_enemy_collision(projectile, enemy) {
                proof {
                    assert(p(self@.enemies[j as int]));
                    lemma_first_index(self@.enemies, p, Some(j as int));
                }
                return Some(j);
            }
            j += 1;
        }
        proof {
            lemma_first_index(self@.enemies, p, None);
        }
        None
    }
}

/// Advances every active projectile by one tick of the given length, in
/// milliseconds, and answers the hits that were landed. Players are not
/// touched.
pub fn advance_projectiles(world: &mut World, delta_time: u32) -> (hits: Vec<Hit>)
    ensures
        old(world)@.wf() ==> final(world)@.wf(),
        final(world)@ == old(world)@.tick(delta_time),
        rows(hits@) == old(world)@.tick_hits(delta_time),
        final(world)@.players == old(world)@.players,
{
    let ghost before = world@;
    let ghost step = fly_for(delta_time);
    let ghost start = Flight {
        enemies: before.enemies,
        projectiles: Seq::<ProjectileView>::empty(),
        hits: Seq::<HitView>::empty(),
    };
    let mut kept: Vec<Projectile> = Vec::new();
    let mut hits: Vec<Hit> = Vec::new();
    let mut k: usize = 0;
    proof {
        assert(before.projectiles.take(0) =~= Seq::<ProjectileView>::empty());
        assert(rows(kept@) =~= Seq::<ProjectileView>::empty());
        assert(rows(hits@) =~= Seq::<HitView>::empty());
    }
    while k < world.projectiles.len()
        invariant
            k <= world.projectiles.len(),
            step == fly_for(delta_time),
            start == (Flight {
                enemies: before.enemies,
                projectiles: Seq::<ProjectileView>::empty(),
                hits: Seq::<HitView>::empty(),
            }),
            world@ == (WorldView { enemies: world@.enemies, ..before }),
            (Flight { enemies: world@.enemies, projectiles: rows(kept@), hits: rows(hits@) })
                == before.projectiles.take(k as int).fold_left(start, step),
        decreases world.projectiles.len() - k,
    {
        let ghost state = Flight {
            enemies: world@.enemies,
            projectiles: rows(kept@),
            hits: rows(hits@),
        };
        let ghost p = before.projectiles[k as int];
        proof {
            let s = before.projectiles;
            assert(s.take(k + 1).drop_last() =~= s.take(k as int));
            assert(s.take(k + 1).last() == p);
            assert(s.take(k + 1).fold_left(start, step) == fly(state, p, delta_time));
        }
        assert(world.projectiles[k as int]@ == p);
        if !world.projectiles[k].is_active {
            kept.push(world.projectiles[k].clone());
            assert(rows(kept@) =~= state.projectiles.push(p));
        } else if world.projectiles[k].time_to_live as i64 - delta_time as i64 <= 0 {
        } else {
            let mut moved = world.projectiles[k].clone();
            moved.position_x = advance_coordinate(moved.position_x, moved.velocity_x, delta_time);
            moved.position_y = advance_coordinate(moved.position_y, moved.velocity_y, delta_time);
            moved.time_to_live = (moved.time_to_live as i64 - delta_time as i64) as i32;
            assert(moved@ == advanced(p, delta_time));
            match world.find_collision(&moved) {
                Some(j) => {
                    assert(world@.enemies[j as int] == world.enemies[j as int]@);
                    hits.push(
                        Hit {
                            attacker_kind: EntityKind::Player,
                            attacker_id: moved.owner_id,
                            target_kind: EntityKind::Enemy,
                            target_id: world.enemies[j].id,
                            weapon_type: "Bow".to_string(),
                            damage: moved.damage,
                        },
                    );
                    assert(rows(hits@) =~= state.hits.push(
                        hit_by(
                            EntityKind::Player,
                            moved.owner_id,
                            state.enemies[j as int].id,
                            bow_tag(),
                            moved.damage,
                        ),
                    ));
                    strike_enemy_at(world, j, moved.damage);
                },
                None => {
                    kept.push(moved);
                    assert(rows(kept@) =~= state.projectiles.push(advanced(p, delta_time)));
                },
            }
        }
        assert(world.projectiles@.len() == before.projectiles.len());
        k += 1;
    }
    proof {
        before.projectiles.lemma_take_len();
    }
    world.projectiles = kept;
    hits
}

/// Advances every active projectile by one tick of the given length, in
/// milliseconds. A projectile whose flight time is used up is removed
/// without damage; one that touches an enemy on its map damages the first
/// such enemy and is removed; every hit is logged. Players are never hit.
pub fn update_projectiles(world: &mut World, delta_time: u32) -> (r: Result<(), GameError>)
    ensures
        old(world)@.wf() ==> final(world)@.wf(),
        r is Ok,
        final(world)@.players == old(world)@.players,
        final(world)@.logged(
            old(world)@,
            old(world)@.tick(delta_time),
            old(world)@.tick_hits(delta_time),
        ),
{
    let hits = advance_projectiles(world, delta_time);
    record_hits(world, &hits);
    Ok(())
}

/// The active projectiles that fly over the given map, in table order.
pub fn get_projectiles_in_map(world: &World, map_id: &str) -> (found: Vec<Projectile>)
    ensures
        rows(found@) == world@.projectiles.filter(active_on_map(map_id@)),
{
    let ghost p = active_on_map(map_id@);
    let mut found: Vec<Projectile> = Vec::new();
    let mut k: usize = 0;
    proof {
        assert(world@.projectiles.take(0) =~= Seq::<ProjectileView>::empty());
        reveal(Seq::filter);
        assert(rows(found@) =~= world@.projectiles.take(0).filter(p));
    }
    while k < world.projectiles.len()
        invariant
            k <= world.projectiles.len(),
            p == active_on_map(map_id@),
            rows(found@) == world@.projectiles.take(k as int).filter(p),
        decreases world.projectiles.len() - k,
    {
        let projectile = &world.projectiles[k];
        let ghost so_far = rows(found@);
        proof {
            world@.projectiles.lemma_take_succ_push(k as int);
            world@.projectiles.take(k as int).lemma_filter_push(world@.projectiles[k as int], p);
        }
        if same_text(projectile.map_id.as_str(), map_id) && projectile.is_active {
            found.push(projectile.clone());
            assert(rows(found@) =~= so_far.push(projectile@));
        }
        k += 1;
    }
    proof {
        world@.projectiles.lemma_take_len();
    }
    found
}

} // verus!
