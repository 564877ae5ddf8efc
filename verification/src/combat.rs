//! The combat resolver: melee attacks, damage to enemies and players, enemy
//! attacks, and the combat log.
//!
//! An operation first resolves its damage against the world, which yields
//! the hits it landed, and then writes one log entry per hit. Resolving is
//! a function of the world and the arguments alone; only the id and the
//! timestamp of a log entry come from the clock.

use crate::character::damaged;
use crate::entity::{
    same_identity, CombatEvent, CombatEventView, Enemy, EnemyView, EntityKind, Player, PlayerView,
};
use crate::error::GameError;
use crate::hit_area::{
    is_in_axe_frontal_area, is_in_sword_cleave_area, is_within_range, spec_in_axe_frontal_area,
    spec_in_sword_cleave_area, within_range, AXE_DAMAGE, SWORD_DAMAGE,
};
use crate::text::same_text;
use crate::projectile::execute_bow_attack;
use crate::stamp::{
    generate_combat_event_id, generate_enemy_id, get_current_timestamp, ENEMY_ID_OFFSET,
    ID_MODULUS, PROJECTILE_ID_OFFSET,
};
use crate::world::{rows, World, WorldView};
use spacetimedb::Identity;
use vstd::prelude::*;

verus! {

/// A hit that an attack landed: who dealt how much damage to whom, and with
/// what.
pub struct Hit {
    /// Kind of the entity that dealt the damage.
    pub attacker_kind: EntityKind,
    /// Id of the entity that dealt the damage.
    pub attacker_id: u32,
    /// Kind of the entity that took the damage.
    pub target_kind: EntityKind,
    /// Id of the entity that took the damage.
    pub target_id: u32,
    /// Weapon tag of the attack.
    pub weapon_type: String,
    /// Damage of the attack, in thousandths of a hit point.
    pub damage: u32,
}

/// The mathematical value of a [`Hit`].
pub ghost struct HitView {
    pub attacker_kind: EntityKind,
    pub attacker_id: u32,
    pub target_kind: EntityKind,
    pub target_id: u32,
    pub weapon_type: Seq<char>,
    pub damage: u32,
}

impl View for Hit {
    type V = HitView;

    open spec fn view(&self) -> HitView {
        HitView {
            attacker_kind: self.attacker_kind,
            attacker_id: self.attacker_id,
            target_kind: self.target_kind,
            target_id: self.target_id,
            weapon_type: self.weapon_type@,
            damage: self.damage,
        }
    }
}

/// Whether a log entry records the given hit. Its id lies in the id space
/// of the log; its timestamp is whatever the clock read.
pub open spec fn records(event: CombatEventView, hit: HitView) -> bool {
    &&& event.attacker_kind == hit.attacker_kind
    &&& event.attacker_id == hit.attacker_id
    &&& event.target_kind == hit.target_kind
    &&& event.target_id == hit.target_id
    &&& event.weapon_type == hit.weapon_type
    &&& event.damage == hit.damage
    &&& event.id < ID_MODULUS
}

/// Whether the log `after` is the log `before` with one new entry for each
/// hit, in order, at its end.
pub open spec fn log_extended(
    before: Seq<CombatEventView>,
    after: Seq<CombatEventView>,
    hits: Seq<HitView>,
) -> bool {
    &&& after.len() == before.len() + hits.len()
    &&& after.take(before.len() as int) == before
    &&& forall|k: int| 0 <= k < hits.len() ==> records(#[trigger] after[before.len() + k], hits[k])
}

impl WorldView {
    /// Whether this world is `resolved` with the given hits written to the
    /// log of `before`: every table but the log is that of `resolved`, and
    /// the log is that of `before` with one entry per hit.
    pub open spec fn logged(
        self,
        before: WorldView,
        resolved: WorldView,
        hits: Seq<HitView>,
    ) -> bool {
        &&& self == (WorldView { combat_events: self.combat_events, ..resolved })
        &&& log_extended(before.combat_events, self.combat_events, hits)
    }
}

/// Writes one log entry for each hit, in order, stamped with a fresh id and
/// the current time.
pub fn record_hits(world: &mut World, hits: &Vec<Hit>)
    ensures
        old(world)@.wf() ==> final(world)@.wf(),
        final(world)@.logged(old(world)@, old(world)@, rows(hits@)),
{
    let mut k: usize = 0;
    proof {
        let before = world@.combat_events;
        assert(before.take(before.len() as int) =~= before);
    }
    while k < hits.len()
        invariant
            k <= hits.len(),
            world@ == (WorldView { combat_events: world@.combat_events, ..old(world)@ }),
            log_extended(
                old(world)@.combat_events,
                world@.combat_events,
                rows(hits@).take(k as int),
            ),
        decreases hits.len() - k,
    {
        let hit = &hits[k];
        let ghost log = world@.combat_events;
        let event = CombatEvent {
            id: generate_combat_event_id(),
            attacker_kind: hit.attacker_kind,
            attacker_id: hit.attacker_id,
            target_kind: hit.target_kind,
            target_id: hit.target_id,
            weapon_type: hit.weapon_type.clone(),
            damage: hit.damage,
            timestamp: get_current_timestamp(),
        };
        world.combat_events.push(event);
        proof {
            let before = old(world)@.combat_events;
            let after = world@.combat_events;
            assert(after =~= log.push(event@));
            assert(after.take(before.len() as int) =~= log.take(before.len() as int));
            assert forall|j: int| 0 <= j < k + 1 implies records(
                #[trigger] after[before.len() + j],
                rows(hits@).take(k + 1)[j],
            ) by {
                if j < k {
                    assert(after[before.len() + j] == log[before.len() + j]);
                    assert(rows(hits@).take(k as int)[j] == rows(hits@).take(k + 1)[j]);
                }
            }
        }
        k += 1;
    }
    proof {
        assert(rows(hits@).take(hits.len() as int) =~= rows(hits@));
    }
}

/// Cuts the combat log down to its newest `keep` entries. The log itself
/// never drops an entry; how much of it is retained is for the host to
/// decide, by calling this.
pub fn trim_combat_log(world: &mut World, keep: usize)
    ensures
        old(world)@.wf() ==> final(world)@.wf(),
        final(world)@ == (WorldView {
            combat_events: if keep >= old(world)@.combat_events.len() {
                old(world)@.combat_events
            } else {
                old(world)@.combat_events.subrange(
                    old(world)@.combat_events.len() - keep,
                    old(world)@.combat_events.len() as int,
                )
            },
            ..old(world)@
        }),
{
    let len = world.combat_events.len();
    if keep < len {
        let newest = world.combat_events.split_off(len - keep);
        world.combat_events = newest;
        assert(world@.combat_events =~= old(world)@.combat_events.subrange(
            len - keep,
            len as int,
        ));
    }
    assert(world@.players == old(world)@.players);
}

/// The two melee weapons.
#[derive(Clone, Copy, Debug, PartialEq, Eq, Structural)]
pub enum MeleeWeapon {
    /// Wide arc, moderate damage.
    Sword,
    /// Narrow arc, high damage.
    Axe,
}

impl MeleeWeapon {
    /// Damage of one hit.
    pub open spec fn spec_damage(self) -> u32 {
        match self {
            MeleeWeapon::Sword => SWORD_DAMAGE,
            MeleeWeapon::Axe => AXE_DAMAGE,
        }
    }

    /// The weapon tag that the log shows.
    pub open spec fn spec_tag(self) -> Seq<char> {
        match self {
            MeleeWeapon::Sword => "Sword"@,
            MeleeWeapon::Axe => "Axe"@,
        }
    }

    /// Whether the weapon reaches a target from where the attacker stands
    /// and aims.
    pub open spec fn spec_reaches(
        self,
        attacker_x: int,
        attacker_y: int,
        target_x: int,
        target_y: int,
        direction_x: int,
        direction_y: int,
    ) -> bool {
        match self {
            MeleeWeapon::Sword => spec_in_sword_cleave_area(
                attacker_x,
                attacker_y,
                target_x,
                target_y,
                direction_x,
                direction_y,
            ),
            MeleeWeapon::Axe => spec_in_axe_frontal_area(
                attacker_x,
                attacker_y,
                target_x,
                target_y,
                direction_x,
                direction_y,
            ),
        }
    }

    /// Damage of one hit.
    pub fn damage(&self) -> (r: u32)
        ensures
            r == self.spec_damage(),
    {
        match self {
            MeleeWeapon::Sword => SWORD_DAMAGE,
            MeleeWeapon::Axe => AXE_DAMAGE,
        }
    }

    /// The weapon tag that the log shows.
    pub fn tag(&self) -> (r: String)
        ensures
            r@ == self.spec_tag(),
    {
        match self {
            MeleeWeapon::Sword => "Sword".to_string(),
            MeleeWeapon::Axe => "Axe".to_string(),
        }
    }

    /// Whether the weapon reaches a target from where the attacker stands
    /// and aims.
    pub fn reaches(
        &self,
        attacker_x: i32,
        attacker_y: i32,
        target_x: i32,
        target_y: i32,
        direction_x: i32,
        direction_y: i32,
    ) -> (r: bool)
        ensures
            r == self.spec_reaches(
                attacker_x as int,
                attacker_y as int,
                target_x as int,
                target_y as int,
                direction_x as int,
                direction_y as int,
            ),
    {
        match self {
            MeleeWeapon::Sword => is_in_sword_cleave_area(
                attacker_x,
                attacker_y,
                target_x,
                target_y,
                direction_x,
                direction_y,
            ),
            MeleeWeapon::Axe => is_in_axe_frontal_area(
                attacker_x,
                attacker_y,
                target_x,
                target_y,
                direction_x,
                direction_y,
            ),
        }
    }
}

/// The enemies that a melee attack strikes: those on the attacker's map
/// that the weapon reaches.
pub open spec fn struck_by(
    weapon: MeleeWeapon,
    attacker: PlayerView,
    direction_x: int,
    direction_y: int,
) -> spec_fn(EnemyView) -> bool {
    |e: EnemyView|
        e.map_id == attacker.current_map_id && weapon.spec_reaches(
            attacker.position_x as int,
            attacker.position_y as int,
            e.position_x as int,
            e.position_y as int,
            direction_x,
            direction_y,
        )
}

/// The enemies that stay in the world when those in `struck` take the
/// damage: all but the struck ones whose health the damage uses up.
pub open spec fn survives(struck: spec_fn(EnemyView) -> bool, damage: u32) -> spec_fn(
    EnemyView,
) -> bool {
    |e: EnemyView| !(struck(e) && damage >= e.health)
}

/// An enemy once it took damage that it survives.
pub open spec fn wounded(e: EnemyView, damage: u32) -> EnemyView {
    EnemyView { health: (e.health - damage) as u32, ..e }
}

/// The enemies once enemy `j` took damage: its health drops by the damage,
/// and it leaves where that uses up its health.
pub open spec fn enemies_after_strike(enemies: Seq<EnemyView>, j: int, damage: u32) -> Seq<
    EnemyView,
> {
    if damage >= enemies[j].health {
        enemies.remove(j)
    } else {
        enemies.update(j, wounded(enemies[j], damage))
    }
}

/// What becomes of a surviving enemy when those in `struck` take the
/// damage.
pub open spec fn after_blow(struck: spec_fn(EnemyView) -> bool, damage: u32) -> spec_fn(
    EnemyView,
) -> EnemyView {
    |e: EnemyView|
        if struck(e) {
            wounded(e, damage)
        } else {
            e
        }
}

/// The hit that a player lands on an enemy.
pub open spec fn hit_on_enemy(attacker_id: u32, weapon_type: Seq<char>, damage: u32) -> spec_fn(
    EnemyView,
) -> HitView {
    |e: EnemyView|
        HitView {
            attacker_kind: EntityKind::Player,
            attacker_id: attacker_id,
            target_kind: EntityKind::Enemy,
            target_id: e.id,
            weapon_type: weapon_type,
            damage: damage,
        }
}

/// The enemies that are left once a melee attack went through them.
pub open spec fn enemies_after_sweep(
    enemies: Seq<EnemyView>,
    weapon: MeleeWeapon,
    attacker: PlayerView,
    direction_x: int,
    direction_y: int,
) -> Seq<EnemyView> {
    let struck = struck_by(weapon, attacker, direction_x, direction_y);
    enemies.filter(survives(struck, weapon.spec_damage())).map_values(
        after_blow(struck, weapon.spec_damage()),
    )
}

/// The hits of a melee attack: one on every enemy it strikes, in table
/// order.
pub open spec fn hits_of_sweep(
    enemies: Seq<EnemyView>,
    weapon: MeleeWeapon,
    attacker: PlayerView,
    direction_x: int,
    direction_y: int,
) -> Seq<HitView> {
    enemies.filter(struck_by(weapon, attacker, direction_x, direction_y)).map_values(
        hit_on_enemy(attacker.id, weapon.spec_tag(), weapon.spec_damage()),
    )
}

impl WorldView {
    /// The world once a player swung a melee weapon: every enemy on the
    /// player's map that the weapon reaches takes its damage, and those
    /// whose health is used up leave the world. Players are never struck.
    pub open spec fn melee_sweep(
        self,
        attacker: PlayerView,
        weapon: MeleeWeapon,
        direction_x: int,
        direction_y: int,
    ) -> WorldView {
        WorldView {
            enemies: enemies_after_sweep(self.enemies, weapon, attacker, direction_x, direction_y),
            ..self
        }
    }
}

/// Resolves a melee attack of a player against the enemies and answers the
/// hits it landed.
pub fn sweep_enemies(
    world: &mut World,
    player: &Player,
    weapon: MeleeWeapon,
    direction_x: i32,
    direction_y: i32,
) -> (hits: Vec<Hit>)
    ensures
        old(world)@.wf() ==> final(world)@.wf(),
        final(world)@ == old(world)@.melee_sweep(
            player@,
            weapon,
            direction_x as int,
            direction_y as int,
        ),
        rows(hits@) == hits_of_sweep(
            old(world)@.enemies,
            weapon,
            player@,
            direction_x as int,
            direction_y as int,
        ),
{
    let ghost attacker = player@;
    let ghost enemies = world@.enemies;
    let ghost struck = struck_by(weapon, attacker, direction_x as int, direction_y as int);
    let damage = weapon.damage();
    let ghost survive = survives(struck, damage);
    let ghost blow = after_blow(struck, damage);
    let ghost hit_of = hit_on_enemy(attacker.id, weapon.spec_tag(), damage);
    let mut kept: Vec<Enemy> = Vec::new();
    let mut hits: Vec<Hit> = Vec::new();
    let mut k: usize = 0;
    proof {
        assert(enemies.take(0) =~= Seq::<EnemyView>::empty());
        reveal(Seq::filter);
        assert(rows(kept@) =~= enemies.take(0).filter(survive).map_values(blow));
        assert(rows(hits@) =~= enemies.take(0).filter(struck).map_values(hit_of));
    }
    while k < world.enemies.len()
        invariant
            k <= world.enemies.len(),
            world@ == old(world)@,
            attacker == player@,
            enemies == world@.enemies,
            struck == struck_by(weapon, attacker, direction_x as int, direction_y as int),
            damage == weapon.spec_damage(),
            survive == survives(struck, damage),
            blow == after_blow(struck, damage),
            hit_of == hit_on_enemy(attacker.id, weapon.spec_tag(), damage),
            rows(kept@) == enemies.take(k as int).filter(survive).map_values(blow),
            rows(hits@) == enemies.take(k as int).filter(struck).map_values(hit_of),
        decreases world.enemies.len() - k,
    {
        let enemy = &world.enemies[k];
        assert(enemy@ == enemies[k as int]);
        let is_struck = same_text(enemy.map_id.as_str(), player.current_map_id.as_str())
            && weapon.reaches(
            player.position_x,
            player.position_y,
            enemy.position_x,
            enemy.position_y,
            direction_x,
            direction_y,
        );
        assert(is_struck == struck(enemy@));
        let ghost before_kept = rows(kept@);
        let ghost before_hits = rows(hits@);
        if is_struck {
            hits.push(
                Hit {
                    attacker_kind: EntityKind::Player,
                    attacker_id: player.id,
                    target_kind: EntityKind::Enemy,
                    target_id: enemy.id,
                    weapon_type: weapon.tag(),
                    damage: damage,
                },
            );
            if damage < enemy.health {
                let mut survivor = enemy.clone();
                survivor.health = enemy.health - damage;
                kept.push(survivor);
            }
        } else {
            kept.push(enemy.clone());
        }
        proof {
            let prefix = enemies.take(k as int);
            let e = enemies[k as int];
            enemies.lemma_take_succ_push(k as int);
            prefix.lemma_filter_push(e, survive);
            prefix.lemma_filter_push(e, struck);
            if survive(e) {
                prefix.filter(survive).lemma_push_map_commute(blow, e);
                assert(rows(kept@) =~= before_kept.push(blow(e)));
            } else {
                assert(rows(kept@) =~= before_kept);
            }
            if struck(e) {
                prefix.filter(struck).lemma_push_map_commute(hit_of, e);
                assert(rows(hits@) =~= before_hits.push(hit_of(e)));
            } else {
                assert(rows(hits@) =~= before_hits);
            }
        }
        k += 1;
    }
    proof {
        enemies.lemma_take_len();
    }
    world.enemies = kept;
    assert(world@.players == old(world)@.players);
    hits
}

/// The log tag of an enemy's attack.
pub open spec fn enemy_attack_tag() -> Seq<char> {
    "Enemy Attack"@
}

/// The hit that an enemy lands on a player.
pub open spec fn hit_on_player(enemy_id: u32, player_id: u32, damage: u32) -> HitView {
    HitView {
        attacker_kind: EntityKind::Enemy,
        attacker_id: enemy_id,
        target_kind: EntityKind::Player,
        target_id: player_id,
        weapon_type: enemy_attack_tag(),
        damage: damage,
    }
}

/// The hit that anyone lands on an enemy.
pub open spec fn hit_by(
    attacker_kind: EntityKind,
    attacker_id: u32,
    enemy_id: u32,
    weapon_type: Seq<char>,
    damage: u32,
) -> HitView {
    HitView {
        attacker_kind: attacker_kind,
        attacker_id: attacker_id,
        target_kind: EntityKind::Enemy,
        target_id: enemy_id,
        weapon_type: weapon_type,
        damage: damage,
    }
}

/// The statistics that an enemy type starts with.
pub ghost struct EnemyStats {
    pub max_health: u32,
    pub movement_speed: u32,
    pub attack_damage: u32,
    pub attack_range: u32,
    pub detection_range: u32,
    pub leash_range: u32,
}

/// The statistics of an enemy type; an unknown type has those of the test
/// enemy.
pub open spec fn spec_enemy_stats(enemy_type: Seq<char>) -> EnemyStats {
    if enemy_type == "Goblin"@ {
        EnemyStats {
            max_health: 30_000,
            movement_speed: 120_000,
            attack_damage: 10_000,
            attack_range: 25_000,
            detection_range: 80_000,
            leash_range: 150_000,
        }
    } else if enemy_type == "Orc"@ {
        EnemyStats {
            max_health: 80_000,
            movement_speed: 60_000,
            attack_damage: 25_000,
            attack_range: 40_000,
            detection_range: 120_000,
            leash_range: 250_000,
        }
    } else if enemy_type == "Troll"@ {
        EnemyStats {
            max_health: 150_000,
            movement_speed: 40_000,
            attack_damage: 40_000,
            attack_range: 50_000,
            detection_range: 100_000,
            leash_range: 180_000,
        }
    } else {
        EnemyStats {
            max_health: 50_000,
            movement_speed: 75_000,
            attack_damage: 15_000,
            attack_range: 30_000,
            detection_range: 100_000,
            leash_range: 200_000,
        }
    }
}

/// The statistics of the enemy that is spawned for trials.
pub open spec fn test_enemy_stats() -> EnemyStats {
    EnemyStats {
        max_health: 50_000,
        movement_speed: 75_000,
        attack_damage: 15_000,
        attack_range: 30_000,
        detection_range: 120_000,
        leash_range: 200_000,
    }
}

/// An enemy as it enters the world: idle, at full health, at rest, with
/// its patrol area centred where it stands.
pub open spec fn fresh_enemy(
    id: u32,
    position_x: i32,
    position_y: i32,
    map_id: Seq<char>,
    enemy_type: Seq<char>,
    stats: EnemyStats,
) -> EnemyView {
    EnemyView {
        id: id,
        position_x: position_x,
        position_y: position_y,
        velocity_x: 0,
        velocity_y: 0,
        health: stats.max_health,
        max_health: stats.max_health,
        enemy_type: enemy_type,
        map_id: map_id,
        state: "Idle"@,
        patrol_center_x: position_x,
        patrol_center_y: position_y,
        patrol_radius: 100_000,
        detection_range: stats.detection_range,
        leash_range: stats.leash_range,
        target_player_id: None,
        last_known_player_x: 0,
        last_known_player_y: 0,
        state_timer: 0,
        movement_speed: stats.movement_speed,
        attack_damage: stats.attack_damage,
        attack_range: stats.attack_range,
        attack_cooldown: 2_000,
        last_attack_time: 0,
        is_active: true,
    }
}

impl WorldView {
    /// The world once enemy `j` took damage: its health drops by the
    /// damage, and it leaves the world where that uses up its health.
    pub open spec fn strike_enemy(self, j: int, damage: u32) -> WorldView {
        WorldView { enemies: enemies_after_strike(self.enemies, j, damage), ..self }
    }

    /// Whether enemy `j` may attack player `i` at the time `now`, given in
    /// seconds: the player is on their feet and within the enemy's reach,
    /// and the enemy's cooldown since its last attack has run out.
    pub open spec fn enemy_may_attack(self, j: int, i: int, now: u64) -> bool {
        let e = self.enemies[j];
        let p = self.players[i];
        &&& !p.is_downed
        &&& within_range(
            p.position_x - e.position_x,
            p.position_y - e.position_y,
            e.attack_range as int,
        )
        &&& (now - e.last_attack_time) * 1000 >= e.attack_cooldown
    }

    /// The world once enemy `j` attacked player `i` at the time `now`.
    pub open spec fn enemy_attack(self, j: int, i: int, damage: u32, now: u64) -> WorldView {
        WorldView {
            players: self.players.update(i, damaged(self.players[i], damage)),
            enemies: self.enemies.update(
                j,
                EnemyView { last_attack_time: now, ..self.enemies[j] },
            ),
            ..self
        }
    }

    /// Whether this world is what an attack of an enemy on a player at the
    /// time `now` makes of `before`. Without the enemy or the player, or
    /// where the enemy may not attack, nothing changes. Otherwise the
    /// player takes the damage, the enemy notes the time, and the hit is
    /// logged.
    pub open spec fn enemy_attack_outcome(
        self,
        before: WorldView,
        enemy_id: u32,
        player_id: u32,
        damage: u32,
        now: u64,
    ) -> bool {
        match (before.enemy_index(enemy_id), before.player_index(player_id)) {
            (Some(j), Some(i)) => if before.enemy_may_attack(j, i, now) {
                self.logged(
                    before,
                    before.enemy_attack(j, i, damage, now),
                    seq![hit_on_player(enemy_id, player_id, damage)],
                )
            } else {
                self == before
            },
            _ => self == before,
        }
    }

    /// Whether this world is what spawning a trial enemy with the given id
    /// makes of `before`, and `r` the answer: an id that is taken is
    /// refused, any other id gives a new enemy at the end of the table.
    pub open spec fn test_enemy_outcome(
        self,
        before: WorldView,
        r: Result<(), GameError>,
        id: u32,
        position_x: i32,
        position_y: i32,
        map_id: Seq<char>,
    ) -> bool {
        if before.enemy_index(id) is Some {
            r == Err::<(), GameError>(GameError::DuplicateEnemy) && self == before
        } else {
            r is Ok && self == (WorldView {
                enemies: before.enemies.push(
                    fresh_enemy(
                        id,
                        position_x,
                        position_y,
                        map_id,
                        "test_enemy"@,
                        test_enemy_stats(),
                    ),
                ),
                ..before
            })
        }
    }
}

/// Takes `damage` from the health of enemy `j` and removes the enemy where
/// that uses up its health.
pub fn strike_enemy_at(world: &mut World, j: usize, damage: u32)
    requires
        j < old(world).enemies.len(),
    ensures
        old(world)@.wf() ==> final(world)@.wf(),
        final(world)@ == old(world)@.strike_enemy(j as int, damage),
{
    assert(world@.enemies[j as int] == world.enemies[j as int]@);
    let health = world.enemies[j].health;
    if damage >= health {
        let _ = world.enemies.remove(j);
        assert(world@.enemies =~= old(world)@.enemies.remove(j as int));
    } else {
        world.enemies[j].health = health - damage;
        assert(world@.enemies =~= old(world)@.enemies.update(
            j as int,
            wounded(old(world)@.enemies[j as int], damage),
        ));
    }
    assert(world@.players == old(world)@.players);
}

/// Applies damage to an enemy and logs the hit. An enemy whose health the
/// damage uses up leaves the world. Without such an enemy nothing happens.
pub fn apply_damage_to_enemy(
    world: &mut World,
    enemy_id: u32,
    damage: u32,
    attacker_kind: EntityKind,
    attacker_id: u32,
    weapon_type: String,
) -> (r: Result<(), GameError>)
    ensures
        old(world)@.wf() ==> final(world)@.wf(),
        r is Ok,
        final(world)@.players == old(world)@.players,
        match old(world)@.enemy_index(enemy_id) {
            None => final(world)@ == old(world)@,
            Some(j) => final(world)@.logged(
                old(world)@,
                old(world)@.strike_enemy(j, damage),
                seq![hit_by(attacker_kind, attacker_id, enemy_id, weapon_type@, damage)],
            ),
        },
{
    match world.find_enemy(enemy_id) {
        Some(j) => {
            strike_enemy_at(world, j, damage);
            let ghost resolved = world@;
            let mut hits: Vec<Hit> = Vec::new();
            hits.push(
                Hit {
                    attacker_kind: attacker_kind,
                    attacker_id: attacker_id,
                    target_kind: EntityKind::Enemy,
                    target_id: enemy_id,
                    weapon_type: weapon_type,
                    damage: damage,
                },
            );
            assert(rows(hits@) =~= seq![
                hit_by(attacker_kind, attacker_id, enemy_id, weapon_type@, damage),
            ]);
            record_hits(world, &hits);
            Ok(())
        },
        None => Ok(()),
    }
}

/// Applies the damage of an enemy to a player and logs the hit. Fails where
/// the player does not exist. A downed player takes no damage.
pub fn apply_damage_to_player_from_enemy(
    world: &mut World,
    player_id: u32,
    damage: u32,
    attacker_id: u32,
) -> (r: Result<(), GameError>)
    requires
        old(world)@.wf(),
    ensures
        final(world)@.wf(),
        match old(world)@.player_index(player_id) {
            None => r == Err::<(), GameError>(GameError::PlayerNotFound)
                && final(world)@ == old(world)@,
            Some(i) => r is Ok && if old(world)@.players[i].is_downed {
                final(world)@ == old(world)@
            } else {
                final(world)@.logged(
                    old(world)@,
                    old(world)@.with_player(i, damaged(old(world)@.players[i], damage)),
                    seq![hit_on_player(attacker_id, player_id, damage)],
                )
            },
        },
{
    let i = match world.find_player(player_id) {
        Some(i) => i,
        None => {
            return Err(GameError::PlayerNotFound);
        },
    };
    assert(world@.players[i as int] == world.players[i as int]@);
    if world.players[i].is_downed {
        return Ok(());
    }
    hurt_player(world, i, damage);
    let mut hits: Vec<Hit> = Vec::new();
    hits.push(
        Hit {
            attacker_kind: EntityKind::Enemy,
            attacker_id: attacker_id,
            target_kind: EntityKind::Player,
            target_id: player_id,
            weapon_type: "Enemy Attack".to_string(),
            damage: damage,
        },
    );
    assert(rows(hits@) =~= seq![hit_on_player(attacker_id, player_id, damage)]);
    record_hits(world, &hits);
    Ok(())
}

/// Takes `damage` from the health of player `i`, who is downed where that
/// uses up their health.
fn hurt_player(world: &mut World, i: usize, damage: u32)
    requires
        old(world)@.wf(),
        i < old(world).players.len(),
    ensures
        final(world)@.wf(),
        final(world)@ == old(world)@.with_player(
            i as int,
            damaged(old(world)@.players[i as int], damage),
        ),
{
    assert(world@.players[i as int] == world.players[i as int]@);
    let health = world.players[i].health;
    if damage >= health {
        world.players[i].health = 0;
        world.players[i].is_downed = true;
    } else {
        world.players[i].health = health - damage;
    }
    proof {
        let before = old(world)@;
        assert(world@.players =~= before.players.update(
            i as int,
            damaged(before.players[i as int], damage),
        ));
        crate::character::lemma_damaged(before.players[i as int], damage);
    }
}

/// An attack of an enemy on a player at the time `now`, given in seconds
/// since the Unix epoch. The attack lands where both exist, the player is
/// on their feet and within the enemy's reach, and the enemy's cooldown has
/// run out; the player then takes the damage and the enemy notes the time.
/// Answers the hit where the attack landed.
pub fn enemy_attack_player_at(
    world: &mut World,
    enemy_id: u32,
    player_id: u32,
    damage: u32,
    now: u64,
) -> (hit: Option<Hit>)
    requires
        old(world)@.wf(),
    ensures
        final(world)@.wf(),
        match (old(world)@.enemy_index(enemy_id), old(world)@.player_index(player_id)) {
            (Some(j), Some(i)) => if old(world)@.enemy_may_attack(j, i, now) {
                &&& final(world)@ == old(world)@.enemy_attack(j, i, damage, now)
                &&& hit matches Some(h) && h@ == hit_on_player(enemy_id, player_id, damage)
            } else {
                final(world)@ == old(world)@ && hit is None
            },
            _ => final(world)@ == old(world)@ && hit is None,
        },
{
    let j = match world.find_enemy(enemy_id) {
        Some(j) => j,
        None => {
            return None;
        },
    };
    let i = match world.find_player(player_id) {
        Some(i) => i,
        None => {
            return None;
        },
    };
    assert(world@.players[i as int] == world.players[i as int]@);
    assert(world@.enemies[j as int] == world.enemies[j as int]@);
    let player = &world.players[i];
    let enemy = &world.enemies[j];
    if player.is_downed {
        return None;
    }
    let dx: i64 = player.position_x as i64 - enemy.position_x as i64;
    let dy: i64 = player.position_y as i64 - enemy.position_y as i64;
    if !is_within_range(dx, dy, enemy.attack_range as i64) {
        return None;
    }
    let elapsed: i128 = (now as i128 - enemy.last_attack_time as i128) * 1000;
    if elapsed < enemy.attack_cooldown as i128 {
        return None;
    }
    world.enemies[j].last_attack_time = now;
    let ghost noted = world@;
    hurt_player(world, i, damage);
    proof {
        let before = old(world)@;
        assert(noted.enemies =~= before.enemies.update(
            j as int,
            EnemyView { last_attack_time: now, ..before.enemies[j as int] },
        ));
        assert(world@.enemies == noted.enemies);
    }
    Some(
        Hit {
            attacker_kind: EntityKind::Enemy,
            attacker_id: enemy_id,
            target_kind: EntityKind::Player,
            target_id: player_id,
            weapon_type: "Enemy Attack".to_string(),
            damage: damage,
        },
    )
}

/// An attack of an enemy on a player, at the time the clock reads.
pub fn enemy_attack_player(world: &mut World, enemy_id: u32, player_id: u32, damage: u32) -> (r:
    Result<(), GameError>)
    requires
        old(world)@.wf(),
    ensures
        r is Ok,
        final(world)@.wf(),
        exists|now: u64|
            final(world)@.enemy_attack_outcome(old(world)@, enemy_id, player_id, damage, now),
{
    let now = get_current_timestamp();
    match enemy_attack_player_at(world, enemy_id, player_id, damage, now) {
        Some(hit) => {
            let mut hits: Vec<Hit> = Vec::new();
            hits.push(hit);
            assert(rows(hits@) =~= seq![hit_on_player(enemy_id, player_id, damage)]);
            let ghost resolved = world@;
            record_hits(world, &hits);
            proof {
                let before = old(world)@;
                assert(world@.combat_events.take(before.combat_events.len() as int)
                    == before.combat_events);
                assert(world@.enemy_attack_outcome(before, enemy_id, player_id, damage, now));
            }
        },
        None => {
            assert(world@.enemy_attack_outcome(old(world)@, enemy_id, player_id, damage, now));
        },
    }
    Ok(())
}

/// The statistics of an enemy type, as
/// `(max_health, movement_speed, attack_damage, attack_range,
/// detection_range, leash_range)`.
pub fn enemy_stats(enemy_type: &str) -> (r: (u32, u32, u32, u32, u32, u32))
    ensures
        (EnemyStats {
            max_health: r.0,
            movement_speed: r.1,
            attack_damage: r.2,
            attack_range: r.3,
            detection_range: r.4,
            leash_range: r.5,
        }) == spec_enemy_stats(enemy_type@),
{
    if same_text(enemy_type, "Goblin") {
        (30_000, 120_000, 10_000, 25_000, 80_000, 150_000)
    } else if same_text(enemy_type, "Orc") {
        (80_000, 60_000, 25_000, 40_000, 120_000, 250_000)
    } else if same_text(enemy_type, "Troll") {
        (150_000, 40_000, 40_000, 50_000, 100_000, 180_000)
    } else {
        (50_000, 75_000, 15_000, 30_000, 100_000, 200_000)
    }
}

/// Builds an enemy as it enters the world.
fn new_enemy(
    id: u32,
    position_x: i32,
    position_y: i32,
    map_id: String,
    enemy_type: String,
    stats: (u32, u32, u32, u32, u32, u32),
) -> (e: Enemy)
    ensures
        e@ == fresh_enemy(
            id,
            position_x,
            position_y,
            map_id@,
            enemy_type@,
            EnemyStats {
                max_health: stats.0,
                movement_speed: stats.1,
                attack_damage: stats.2,
                attack_range: stats.3,
                detection_range: stats.4,
                leash_range: stats.5,
            },
        ),
{
    Enemy {
        id: id,
        position_x: position_x,
        position_y: position_y,
        velocity_x: 0,
        velocity_y: 0,
        health: stats.0,
        max_health: stats.0,
        enemy_type: enemy_type,
        map_id: map_id,
        state: "Idle".to_string(),
        patrol_center_x: position_x,
        patrol_center_y: position_y,
        patrol_radius: 100_000,
        detection_range: stats.4,
        leash_range: stats.5,
        target_player_id: None,
        last_known_player_x: 0,
        last_known_player_y: 0,
        state_timer: 0,
        movement_speed: stats.1,
        attack_damage: stats.2,
        attack_range: stats.3,
        attack_cooldown: 2_000,
        last_attack_time: 0,
        is_active: true,
    }
}

/// Spawns an enemy of the given type with the given id. Fails, without
/// changing anything, where an enemy with that id is alive.
pub fn spawn_enemy(
    world: &mut World,
    enemy_id: u32,
    position_x: i32,
    position_y: i32,
    map_id: String,
    enemy_type: String,
) -> (r: Result<(), GameError>)
    ensures
        old(world)@.wf() ==> final(world)@.wf(),
        old(world)@.enemy_ids_distinct() ==> final(world)@.enemy_ids_distinct(),
        if old(world)@.enemy_index(enemy_id) is Some {
            r == Err::<(), GameError>(GameError::DuplicateEnemy) && final(world)@ == old(world)@
        } else {
            r is Ok && final(world)@ == (WorldView {
                enemies: old(world)@.enemies.push(
                    fresh_enemy(
                        enemy_id,
                        position_x,
                        position_y,
                        map_id@,
                        enemy_type@,
                        spec_enemy_stats(enemy_type@),
                    ),
                ),
                ..old(world)@
            })
        },
{
    if world.find_enemy(enemy_id).is_some() {
        return Err(GameError::DuplicateEnemy);
    }
    let stats = enemy_stats(enemy_type.as_str());
    let enemy = new_enemy(enemy_id, position_x, position_y, map_id, enemy_type, stats);
    world.enemies.push(enemy);
    assert(world@.enemies =~= old(world)@.enemies.push(enemy@));
    proof {
        crate::world::lemma_free_enemy_id(old(world)@, enemy_id);
    }
    Ok(())
}

/// Spawns an enemy for trials with the given id. Fails, without changing
/// anything, where an enemy with that id is alive.
pub fn spawn_test_enemy_with_id(
    world: &mut World,
    id: u32,
    position_x: i32,
    position_y: i32,
    map_id: String,
) -> (r: Result<(), GameError>)
    ensures
        old(world)@.wf() ==> final(world)@.wf(),
        old(world)@.enemy_ids_distinct() ==> final(world)@.enemy_ids_distinct(),
        final(world)@.test_enemy_outcome(old(world)@, r, id, position_x, position_y, map_id@),
{
    if world.find_enemy(id).is_some() {
        return Err(GameError::DuplicateEnemy);
    }
    let enemy = new_enemy(
        id,
        position_x,
        position_y,
        map_id,
        "test_enemy".to_string(),
        (50_000, 75_000, 15_000, 30_000, 120_000, 200_000),
    );
    world.enemies.push(enemy);
    assert(world@.enemies =~= old(world)@.enemies.push(enemy@));
    assert(world@.players == old(world)@.players);
    proof {
        crate::world::lemma_free_enemy_id(old(world)@, id);
    }
    Ok(())
}

/// Spawns an enemy for trials, with an id drawn from the current time out
/// of the id space of enemies.
pub fn spawn_test_enemy(world: &mut World, position_x: i32, position_y: i32, map_id: String) -> (r:
    Result<(), GameError>)
    ensures
        old(world)@.wf() ==> final(world)@.wf(),
        old(world)@.enemy_ids_distinct() ==> final(world)@.enemy_ids_distinct(),
        exists|id: u32|
            id >= ENEMY_ID_OFFSET && #[trigger] final(world)@.test_enemy_outcome(
                old(world)@,
                r,
                id,
                position_x,
                position_y,
                map_id@,
            ),
{
    let id = generate_enemy_id();
    spawn_test_enemy_with_id(world, id, position_x, position_y, map_id)
}

/// Removes an enemy from the world. Without such an enemy nothing happens.
pub fn remove_enemy(world: &mut World, enemy_id: u32) -> (r: Result<(), GameError>)
    ensures
        old(world)@.wf() ==> final(world)@.wf(),
        r is Ok,
        match old(world)@.enemy_index(enemy_id) {
            Some(j) => final(world)@ == (WorldView {
                enemies: old(world)@.enemies.remove(j),
                ..old(world)@
            }),
            None => final(world)@ == old(world)@,
        },
{
    match world.find_enemy(enemy_id) {
        Some(j) => {
            let _ = world.enemies.remove(j);
            assert(world@.enemies =~= old(world)@.enemies.remove(j as int));
        },
        None => {},
    }
    assert(world@.players == old(world)@.players);
    Ok(())
}

/// An enemy with its behaviour state replaced.
pub open spec fn with_ai_state(
    e: EnemyView,
    new_state: Seq<char>,
    position_x: i32,
    position_y: i32,
    velocity_x: i32,
    velocity_y: i32,
    target_player_id: Option<u32>,
    last_known_player_x: i32,
    last_known_player_y: i32,
) -> EnemyView {
    EnemyView {
        state: new_state,
        position_x: position_x,
        position_y: position_y,
        velocity_x: velocity_x,
        velocity_y: velocity_y,
        target_player_id: target_player_id,
        last_known_player_x: last_known_player_x,
        last_known_player_y: last_known_player_y,
        ..e
    }
}

/// Stores the behaviour state of an enemy as the caller perceived it: the
/// state tag, position, velocity, target and the target's last known
/// position. Without such an enemy nothing happens.
///
/// What is stored here is the caller's word. The state that the server
/// stands for is the one that [`crate::enemy_ai::derive_enemy_ai`] derives
/// from the positions of the players.
pub fn update_enemy_ai(
    world: &mut World,
    enemy_id: u32,
    new_state: String,
    position_x: i32,
    position_y: i32,
    velocity_x: i32,
    velocity_y: i32,
    target_player_id: Option<u32>,
    last_known_player_x: i32,
    last_known_player_y: i32,
) -> (r: Result<(), GameError>)
    ensures
        old(world)@.wf() ==> final(world)@.wf(),
        r is Ok,
        match old(world)@.enemy_index(enemy_id) {
            Some(j) => final(world)@ == (WorldView {
                enemies: old(world)@.enemies.update(
                    j,
                    with_ai_state(
                        old(world)@.enemies[j],
                        new_state@,
                        position_x,
                        position_y,
                        velocity_x,
                        velocity_y,
                        target_player_id,
                        last_known_player_x,
                        last_known_player_y,
                    ),
                ),
                ..old(world)@
            }),
            None => final(world)@ == old(world)@,
        },
{
    match world.find_enemy(enemy_id) {
        Some(j) => {
            world.enemies[j].state = new_state;
            world.enemies[j].position_x = position_x;
            world.enemies[j].position_y = position_y;
            world.enemies[j].velocity_x = velocity_x;
            world.enemies[j].velocity_y = velocity_y;
            world.enemies[j].target_player_id = target_player_id;
            world.enemies[j].last_known_player_x = last_known_player_x;
            world.enemies[j].last_known_player_y = last_known_player_y;
            assert(world@.enemies =~= old(world)@.enemies.update(
                j as int,
                with_ai_state(
                    old(world)@.enemies[j as int],
                    new_state@,
                    position_x,
                    position_y,
                    velocity_x,
                    velocity_y,
                    target_player_id,
                    last_known_player_x,
                    last_known_player_y,
                ),
            ));
        },
        None => {},
    }
    Ok(())
}

impl WorldView {
    /// Whether the player may act for the sender: the player exists, the
    /// sender owns them, and they are on their feet.
    pub open spec fn may_act(self, sender: Identity, player_id: u32) -> bool {
        match self.player_index(player_id) {
            Some(i) => self.players[i].identity == sender && !self.players[i].is_downed,
            None => false,
        }
    }

    /// Whether this world is what a melee attack of the given player makes
    /// of `before`: the enemies are swept, and every hit is logged.
    pub open spec fn melee_outcome(
        self,
        before: WorldView,
        attacker: PlayerView,
        weapon: MeleeWeapon,
        direction_x: int,
        direction_y: int,
    ) -> bool {
        self.logged(
            before,
            before.melee_sweep(attacker, weapon, direction_x, direction_y),
            hits_of_sweep(before.enemies, weapon, attacker, direction_x, direction_y),
        )
    }

    /// Whether this world is what an attack makes of `before`. A player who
    /// may not act for the sender, or a weapon that is neither `Sword`,
    /// `Axe` nor `Bow`, changes nothing. A sword or an axe sweeps the
    /// enemies on the player's map; a bow shoots an arrow with the given
    /// id.
    pub open spec fn attack_outcome(
        self,
        before: WorldView,
        sender: Identity,
        player_id: u32,
        weapon_type: Seq<char>,
        direction_x: int,
        direction_y: int,
        arrow_id: u32,
    ) -> bool {
        if !before.may_act(sender, player_id) {
            self == before
        } else {
            let attacker = before.players[before.player_index(player_id).unwrap()];
            if weapon_type == "Sword"@ {
                self.melee_outcome(before, attacker, MeleeWeapon::Sword, direction_x, direction_y)
            } else if weapon_type == "Axe"@ {
                self.melee_outcome(before, attacker, MeleeWeapon::Axe, direction_x, direction_y)
            } else if weapon_type == "Bow"@ {
                self == before.bow_attack(attacker, direction_x, direction_y, arrow_id)
            } else {
                self == before
            }
        }
    }

    /// Whether this world is what a reported hit makes of `before`. The
    /// attacker is a player, so a hit on a player changes nothing, and
    /// neither does a hit by a player who may not act for the sender or on
    /// an enemy that does not exist. Any other hit damages the enemy and is
    /// logged.
    pub open spec fn hit_outcome(
        self,
        before: WorldView,
        sender: Identity,
        attacker_id: u32,
        target_kind: EntityKind,
        target_id: u32,
        damage: u32,
    ) -> bool {
        if !before.may_act(sender, attacker_id) || target_kind == EntityKind::Player {
            self == before
        } else {
            match before.enemy_index(target_id) {
                None => self == before,
                Some(j) => self.logged(
                    before,
                    before.strike_enemy(j, damage),
                    seq![hit_by(EntityKind::Player, attacker_id, target_id, "Unknown"@, damage)],
                ),
            }
        }
    }
}

/// A melee attack of a player with the given weapon.
fn execute_melee_attack(
    world: &mut World,
    player: &Player,
    weapon: MeleeWeapon,
    direction_x: i32,
    direction_y: i32,
)
    ensures
        final(world)@.players == old(world)@.players,
        final(world)@.melee_outcome(
            old(world)@,
            player@,
            weapon,
            direction_x as int,
            direction_y as int,
        ),
{
    let hits = sweep_enemies(world, player, weapon, direction_x, direction_y);
    record_hits(world, &hits);
}

/// A sword cleave of a player: every enemy on the player's map within the
/// sword's wide arc takes the sword's damage, and every hit is logged.
/// Players are never hit.
pub fn execute_sword_attack(
    world: &mut World,
    player: Player,
    direction_x: i32,
    direction_y: i32,
) -> (r: Result<(), GameError>)
    ensures
        old(world)@.wf() ==> final(world)@.wf(),
        r is Ok,
        final(world)@.players == old(world)@.players,
        final(world)@.melee_outcome(
            old(world)@,
            player@,
            MeleeWeapon::Sword,
            direction_x as int,
            direction_y as int,
        ),
{
    execute_melee_attack(world, &player, MeleeWeapon::Sword, direction_x, direction_y);
    Ok(())
}

/// A frontal axe blow of a player: every enemy on the player's map within
/// the axe's narrow arc takes the axe's damage, and every hit is logged.
/// Players are never hit.
pub fn execute_axe_attack(
    world: &mut World,
    player: Player,
    direction_x: i32,
    direction_y: i32,
) -> (r: Result<(), GameError>)
    ensures
        old(world)@.wf() ==> final(world)@.wf(),
        r is Ok,
        final(world)@.players == old(world)@.players,
        final(world)@.melee_outcome(
            old(world)@,
            player@,
            MeleeWeapon::Axe,
            direction_x as int,
            direction_y as int,
        ),
{
    execute_melee_attack(world, &player, MeleeWeapon::Axe, direction_x, direction_y);
    Ok(())
}

/// An attack of a player with the given weapon in the given direction. A
/// player who does not exist, whom the sender does not own or who is
/// downed does nothing, and neither does an unknown weapon. No attack ever
/// changes a player.
pub fn execute_attack(
    world: &mut World,
    sender: &Identity,
    player_id: u32,
    weapon_type: String,
    direction_x: i32,
    direction_y: i32,
) -> (r: Result<(), GameError>)
    ensures
        old(world)@.wf() ==> final(world)@.wf(),
        r is Ok,
        final(world)@.players == old(world)@.players,
        exists|arrow_id: u32|
            arrow_id >= PROJECTILE_ID_OFFSET && #[trigger] final(world)@.attack_outcome(
                old(world)@,
                *sender,
                player_id,
                weapon_type@,
                direction_x as int,
                direction_y as int,
                arrow_id,
            ),
{
    let ghost before = world@;
    let i = match world.find_player(player_id) {
        Some(i) => i,
        None => {
            assert(world@.attack_outcome(
                before,
                *sender,
                player_id,
                weapon_type@,
                direction_x as int,
                direction_y as int,
                PROJECTILE_ID_OFFSET,
            ));
            return Ok(());
        },
    };
    assert(world@.players[i as int] == world.players[i as int]@);
    if !same_identity(&world.players[i].identity, sender) || world.players[i].is_downed {
        assert(world@.attack_outcome(
            before,
            *sender,
            player_id,
            weapon_type@,
            direction_x as int,
            direction_y as int,
            PROJECTILE_ID_OFFSET,
        ));
        return Ok(());
    }
    let player = world.players[i].clone();
    let weapon = weapon_type.as_str();
    if same_text(weapon, "Sword") {
        let r = execute_sword_attack(world, player, direction_x, direction_y);
        assert(world@.attack_outcome(
            before,
            *sender,
            player_id,
            weapon_type@,
            direction_x as int,
            direction_y as int,
            PROJECTILE_ID_OFFSET,
        ));
        r
    } else if same_text(weapon, "Axe") {
        let r = execute_axe_attack(world, player, direction_x, direction_y);
        assert(world@.attack_outcome(
            before,
            *sender,
            player_id,
            weapon_type@,
            direction_x as int,
            direction_y as int,
            PROJECTILE_ID_OFFSET,
        ));
        r
    } else if same_text(weapon, "Bow") {
        let r = execute_bow_attack(world, &player, direction_x, direction_y);
        proof {
            let arrow_id = choose|arrow_id: u32|
                arrow_id >= PROJECTILE_ID_OFFSET && world@ == #[trigger] before.bow_attack(
                    player@,
                    direction_x as int,
                    direction_y as int,
                    arrow_id,
                );
            assert(world@.attack_outcome(
                before,
                *sender,
                player_id,
                weapon_type@,
                direction_x as int,
                direction_y as int,
                arrow_id,
            ));
        }
        r
    } else {
        assert(world@.attack_outcome(
            before,
            *sender,
            player_id,
            weapon_type@,
            direction_x as int,
            direction_y as int,
            PROJECTILE_ID_OFFSET,
        ));
        Ok(())
    }
}

/// A hit that a client reports for its player. The attacker is a player,
/// so the hit counts only against an enemy: players cannot hurt each
/// other.
pub fn process_hit(
    world: &mut World,
    sender: &Identity,
    attacker_id: u32,
    target_kind: EntityKind,
    target_id: u32,
    damage: u32,
) -> (r: Result<(), GameError>)
    ensures
        old(world)@.wf() ==> final(world)@.wf(),
        r is Ok,
        final(world)@.players == old(world)@.players,
        final(world)@.hit_outcome(
            old(world)@,
            *sender,
            attacker_id,
            target_kind,
            target_id,
            damage,
        ),
{
    let i = match world.find_player(attacker_id) {
        Some(i) => i,
        None => {
            return Ok(());
        },
    };
    assert(world@.players[i as int] == world.players[i as int]@);
    if !same_identity(&world.players[i].identity, sender) || world.players[i].is_downed {
        return Ok(());
    }
    match target_kind {
        EntityKind::Player => Ok(()),
        EntityKind::Enemy => apply_damage_to_enemy(
            world,
            target_id,
            damage,
            EntityKind::Player,
            attacker_id,
            "Unknown".to_string(),
        ),
    }
}

} // verus!
