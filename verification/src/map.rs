//! Maps: templates, live instances with their population, spawn points and
//! the transition zones that carry players from one map to another.

use crate::entity::{
    same_identity, MapInstance, MapInstanceView, MapTemplate, MapTemplateView, MapTransition,
    MapTransitionView, PlayerView,
};
use crate::error::GameError;
use crate::stamp::{generate_map_instance_id, spec_map_instance_id};
use crate::table::{
    as_position, first_index, lemma_filter_len_congruent, lemma_filter_len_update,
    lemma_first_index, lemma_first_index_congruent, lemma_first_index_is_first,
};
use crate::text::same_text;
use crate::world::{rows, World, WorldView};
use spacetimedb::Identity;
use vstd::prelude::*;

verus! {

/// The map on which new players start, and the fallback for spawning.
pub const STARTING_MAP: &'static str = "tavern_outside";

/// Edge of a tile, in pixels.
pub const TILE_SIZE_PX: u32 = 8;

/// Edge of a tile, in thousandths of a pixel.
pub const TILE_SIZE: i32 = 8_000;

/// The tile id that marks the spawn point of a map.
pub const SPAWN_TILE: u32 = 1;

/// The templates with the given name.
pub open spec fn template_has_name(name: Seq<char>) -> spec_fn(MapTemplateView) -> bool {
    |t: MapTemplateView| t.name == name
}

/// The live maps with the given key.
pub open spec fn instance_has_key(key_id: Seq<char>) -> spec_fn(MapInstanceView) -> bool {
    |m: MapInstanceView| m.key_id == key_id
}

/// The players who stand on the given map.
pub open spec fn player_on_map(map_id: Seq<char>) -> spec_fn(PlayerView) -> bool {
    |p: PlayerView| p.current_map_id == map_id
}

/// A count, capped at the largest value a counter holds.
pub open spec fn capped_count(n: nat) -> u32 {
    if n > u32::MAX {
        u32::MAX
    } else {
        n as u32
    }
}

/// The activity state of a map with the given number of players: hot with
/// players on it, cold without.
pub open spec fn derived_state(population: nat) -> Seq<char> {
    if population > 0 {
        "Hot"@
    } else {
        "Cold"@
    }
}

/// The activity state of a map with the given number of players.
pub fn map_state_for(player_count: u32) -> (state: String)
    ensures
        state@ == derived_state(player_count as nat),
{
    if player_count > 0 {
        "Hot".to_string()
    } else {
        "Cold".to_string()
    }
}

impl WorldView {
    /// The position of the template with the given name.
    pub open spec fn template_index(self, name: Seq<char>) -> Option<int> {
        first_index(self.map_templates, template_has_name(name))
    }

    /// The position of the live map with the given key.
    pub open spec fn instance_index(self, key_id: Seq<char>) -> Option<int> {
        first_index(self.map_instances, instance_has_key(key_id))
    }

    /// The number of players who stand on the given map.
    pub open spec fn population(self, map_id: Seq<char>) -> nat {
        self.players.filter(player_on_map(map_id)).len()
    }

    /// The bounds `(min_x, max_x, min_y, max_y)` of a map: the rectangle
    /// that its tile grid covers, or the single point at the origin where
    /// the map has no template.
    pub open spec fn map_bounds(self, map_id: Seq<char>) -> (int, int, int, int) {
        match self.template_index(map_id) {
            Some(t) => (
                0,
                self.map_templates[t].width * TILE_SIZE,
                0,
                self.map_templates[t].height * TILE_SIZE,
            ),
            None => (0, 0, 0, 0),
        }
    }

    /// Whether the map has a live instance or a template to make one from.
    pub open spec fn map_available(self, key_id: Seq<char>) -> bool {
        self.instance_index(key_id) is Some || self.template_index(key_id) is Some
    }

    /// The instance that is made for a map that has none yet: it counts the
    /// players on the map and is hot exactly when there are any.
    pub open spec fn fresh_instance(self, key_id: Seq<char>, template: int) -> MapInstanceView {
        MapInstanceView {
            id: spec_map_instance_id(key_id),
            key_id: key_id,
            state: derived_state(self.population(key_id)),
            player_count: capped_count(self.population(key_id)),
            template_name: self.map_templates[template].name,
        }
    }

    /// The world once the map has a live instance, where it can have one:
    /// an existing instance is kept, a missing one is made from the
    /// template of the same name, and without a template nothing changes.
    pub open spec fn ensure_instance(self, key_id: Seq<char>) -> WorldView {
        if self.instance_index(key_id) is Some {
            self
        } else {
            match self.template_index(key_id) {
                Some(t) => WorldView {
                    map_instances: self.map_instances.push(self.fresh_instance(key_id, t)),
                    ..self
                },
                None => self,
            }
        }
    }

    /// The world once the population and the activity state of a map were
    /// recomputed: the instance, made first where it was missing, counts
    /// the players on the map and is hot exactly when there are any.
    pub open spec fn refresh_map_state(self, key_id: Seq<char>) -> WorldView {
        let w = self.ensure_instance(key_id);
        match w.instance_index(key_id) {
            Some(i) => WorldView {
                map_instances: w.map_instances.update(
                    i,
                    MapInstanceView {
                        player_count: capped_count(w.population(key_id)),
                        state: derived_state(w.population(key_id)),
                        ..w.map_instances[i]
                    },
                ),
                ..w
            },
            None => w,
        }
    }
}

impl World {
    /// The position of the first template with the given name.
    pub fn find_template(&self, name: &str) -> (r: Option<usize>)
        ensures
            as_position(r) == self@.template_index(name@),
            r matches Some(i) ==> i < self.map_templates.len(),
    {
        let ghost p = template_has_name(name@);
        let mut i: usize = 0;
        while i < self.map_templates.len()
            invariant
                i <= self.map_templates.len(),
                p == template_has_name(name@),
                forall|j: int| 0 <= j < i ==> !p(#[trigger] self@.map_templates[j]),
            decreases self.map_templates.len() - i,
        {
            if same_text(self.map_templates[i].name.as_str(), name) {
                proof {
                    assert(p(self@.map_templates[i as int]));
                    lemma_first_index(self@.map_templates, p, Some(i as int));
                }
                return Some(i);
            }
            i += 1;
        }
        proof {
            lemma_first_index(self@.map_templates, p, None);
        }
        None
    }

    /// The position of the first live map with the given key.
    pub fn find_instance(&self, key_id: &str) -> (r: Option<usize>)
        ensures
            as_position(r) == self@.instance_index(key_id@),
            r matches Some(i) ==> i < self.map_instances.len(),
    {
        let ghost p = instance_has_key(key_id@);
        let mut i: usize = 0;
        while i < self.map_instances.len()
            invariant
                i <= self.map_instances.len(),
                p == instance_has_key(key_id@),
                forall|j: int| 0 <= j < i ==> !p(#[trigger] self@.map_instances[j]),
            decreases self.map_instances.len() - i,
        {
            if same_text(self.map_instances[i].key_id.as_str(), key_id) {
                proof {
                    assert(p(self@.map_instances[i as int]));
                    lemma_first_index(self@.map_instances, p, Some(i as int));
                }
                return Some(i);
            }
            i += 1;
        }
        proof {
            lemma_first_index(self@.map_instances, p, None);
        }
        None
    }
}

/// The bounds `(min_x, max_x, min_y, max_y)` of a map, in thousandths of a
/// pixel.
pub fn get_map_bounds_from_db(world: &World, map_id: &str) -> (bounds: (i64, i64, i64, i64))
    ensures
        (bounds.0 as int, bounds.1 as int, bounds.2 as int, bounds.3 as int) == world@.map_bounds(
            map_id@,
        ),
        bounds.0 == 0 && bounds.2 == 0 && 0 <= bounds.1 && 0 <= bounds.3,
{
    match world.find_template(map_id) {
        Some(t) => {
            let template = &world.map_templates[t];
            assert(world@.map_templates[t as int] == template@);
            assert(template.width * TILE_SIZE <= 0xFFFF_FFFF * 8000) by (nonlinear_arith)
                requires
                    template.width <= 0xFFFF_FFFF,
                    TILE_SIZE == 8000,
            ;
            assert(template.height * TILE_SIZE <= 0xFFFF_FFFF * 8000) by (nonlinear_arith)
                requires
                    template.height <= 0xFFFF_FFFF,
                    TILE_SIZE == 8000,
            ;
            let w: i64 = template.width as i64 * TILE_SIZE as i64;
            let h: i64 = template.height as i64 * TILE_SIZE as i64;
            (0, w, 0, h)
        },
        None => (0, 0, 0, 0),
    }
}

/// The live instance of a map, made from its template where it did not
/// exist yet. Answers `None` exactly where the map has neither an instance
/// nor a template; the world is then unchanged.
pub fn get_or_create_map_instance(world: &mut World, key_id: &str) -> (r: Option<MapInstance>)
    ensures
        old(world)@.wf() ==> final(world)@.wf(),
        final(world)@ == old(world)@.ensure_instance(key_id@),
        old(world)@.maps_consistent() ==> final(world)@.maps_consistent(),
        r is Some <==> old(world)@.map_available(key_id@),
        r is Some <==> final(world)@.instance_index(key_id@) is Some,
        r matches Some(instance) ==> instance@ == final(world)@.map_instances[
            final(world)@.instance_index(key_id@).unwrap()
        ],
{
    proof {
        if world@.maps_consistent() {
            lemma_ensure_instance_derived(world@, key_id@, Set::<Seq<char>>::empty());
        }
    }
    if let Some(i) = world.find_instance(key_id) {
        return Some(world.map_instances[i].clone());
    }
    match world.find_template(key_id) {
        Some(t) => {
            let player_count = count_players_in_map(world, key_id);
            let instance = MapInstance {
                id: generate_map_instance_id(key_id),
                key_id: key_id.to_string(),
                state: map_state_for(player_count),
                player_count: player_count,
                template_name: world.map_templates[t].name.clone(),
            };
            let copy = instance.clone();
            world.map_instances.push(instance);
            proof {
                let before = old(world)@;
                let after = world@;
                assert(after.map_instances =~= before.map_instances.push(
                    before.fresh_instance(key_id@, t as int),
                ));
                let p = instance_has_key(key_id@);
                lemma_first_index_is_first(before.map_instances, p);
                assert forall|j: int| 0 <= j < before.map_instances.len() implies !p(
                    #[trigger] after.map_instances[j],
                ) by {
                    assert(after.map_instances[j] == before.map_instances[j]);
                }
                assert(p(after.map_instances[before.map_instances.len() as int]));
                lemma_first_index(
                    after.map_instances,
                    p,
                    Some(before.map_instances.len() as int),
                );
            }
            Some(copy)
        },
        None => None,
    }
}

/// The number of players who stand on the given map, capped at the largest
/// value a counter holds.
pub fn count_players_in_map(world: &World, key_id: &str) -> (count: u32)
    ensures
        count == capped_count(world@.population(key_id@)),
{
    let ghost p = player_on_map(key_id@);
    let mut count: u32 = 0;
    let mut i: usize = 0;
    proof {
        assert(world@.players.take(0) =~= Seq::<PlayerView>::empty());
        reveal(Seq::filter);
    }
    while i < world.players.len()
        invariant
            i <= world.players.len(),
            p == player_on_map(key_id@),
            count == capped_count(world@.players.take(i as int).filter(p).len()),
        decreases world.players.len() - i,
    {
        proof {
            world@.players.lemma_take_succ_push(i as int);
            world@.players.take(i as int).lemma_filter_len_push(p, world@.players[i as int]);
        }
        if same_text(world.players[i].current_map_id.as_str(), key_id) {
            if count < u32::MAX {
                count += 1;
            }
        }
        i += 1;
    }
    proof {
        world@.players.lemma_take_len();
    }
    count
}

/// Recomputes the population and the activity state of a map. A map with
/// neither instance nor template is left alone.
pub fn update_map_state(world: &mut World, key_id: &str) -> (r: Result<(), GameError>)
    ensures
        old(world)@.wf() ==> final(world)@.wf(),
        r is Ok,
        final(world)@ == old(world)@.refresh_map_state(key_id@),
        old(world)@.maps_consistent() ==> final(world)@.maps_consistent(),
{
    proof {
        if world@.maps_consistent() {
            let none = Set::<Seq<char>>::empty();
            lemma_refresh_map_state_derived(world@, key_id@, none);
            assert(none.remove(key_id@) =~= none);
        }
    }
    if get_or_create_map_instance(world, key_id).is_some() {
        let player_count = count_players_in_map(world, key_id);
        match world.find_instance(key_id) {
            Some(i) => {
                let ghost mid = world@;
                world.map_instances[i].player_count = player_count;
                world.map_instances[i].state = map_state_for(player_count);
                proof {
                    assert(world@.map_instances =~= mid.map_instances.update(
                        i as int,
                        MapInstanceView {
                            player_count: capped_count(mid.population(key_id@)),
                            state: derived_state(mid.population(key_id@)),
                            ..mid.map_instances[i as int]
                        },
                    ));
                    assert(world@.players == mid.players);
                }
            },
            None => {},
        }
    }
    Ok(())
}

/// Whether a position on a map lies inside the zone: on the zone's map,
/// within its rectangle, both edges included.
pub open spec fn zone_holds(zone: MapTransitionView, map_id: Seq<char>, x: int, y: int) -> bool {
    &&& zone.map_id == map_id
    &&& zone.x <= x <= zone.x + zone.width
    &&& zone.y <= y <= zone.y + zone.height
}

/// The zones inside which a position on a map lies.
pub open spec fn zone_at(map_id: Seq<char>, x: int, y: int) -> spec_fn(MapTransitionView) -> bool {
    |zone: MapTransitionView| zone_holds(zone, map_id, x, y)
}

/// The zones inside which the player stands.
pub open spec fn zone_holding(p: PlayerView) -> spec_fn(MapTransitionView) -> bool {
    zone_at(p.current_map_id, p.position_x as int, p.position_y as int)
}

/// The player once a zone has carried them away: on the destination map, at
/// the zone's arrival point, at rest.
pub open spec fn carried(p: PlayerView, zone: MapTransitionView) -> PlayerView {
    PlayerView {
        current_map_id: zone.dest_map_id,
        position_x: zone.dest_x,
        position_y: zone.dest_y,
        velocity_x: 0,
        velocity_y: 0,
        ..p
    }
}

/// The player once they were set down at a spawn point.
pub open spec fn spawned(p: PlayerView, map_id: Seq<char>, point: (int, int)) -> PlayerView {
    PlayerView {
        current_map_id: map_id,
        position_x: point.0 as i32,
        position_y: point.1 as i32,
        velocity_x: 0,
        velocity_y: 0,
        ..p
    }
}

/// The transition zones that every world starts with: the tavern door, in
/// both directions.
pub open spec fn default_transitions() -> Seq<MapTransitionView> {
    seq![
        MapTransitionView {
            id: 1,
            map_id: "tavern_outside"@,
            x: 136_000,
            y: 168_000,
            width: 8_000,
            height: 8_000,
            dest_map_id: "tavern_inside"@,
            dest_x: 176_000,
            dest_y: 88_000,
        },
        MapTransitionView {
            id: 2,
            map_id: "tavern_inside"@,
            x: 176_000,
            y: 96_000,
            width: 8_000,
            height: 8_000,
            dest_map_id: "tavern_outside"@,
            dest_x: 116_000,
            dest_y: 188_000,
        },
    ]
}

impl WorldView {
    /// The first zone, in table order, inside which the player stands.
    pub open spec fn entered_zone(self, p: PlayerView) -> Option<int> {
        first_index(self.map_transitions, zone_holding(p))
    }

    /// Whether the player can be carried by the zone they stand in: either
    /// they stand in none, or the destination of the first such zone has an
    /// instance or a template. A zone that leads to a map that cannot exist
    /// is a fault of the deployment.
    pub open spec fn transition_ready(self, player_id: u32) -> bool {
        match self.player_index(player_id) {
            Some(i) => match self.entered_zone(self.players[i]) {
                Some(z) => self.map_available(self.map_transitions[z].dest_map_id),
                None => true,
            },
            None => true,
        }
    }

    /// Whether every zone leads to a map that has an instance or a template.
    pub open spec fn destinations_available(self) -> bool {
        forall|z: int|
            0 <= z < self.map_transitions.len() ==> self.map_available(
                (#[trigger] self.map_transitions[z]).dest_map_id,
            )
    }

    /// The world once zone `z` has carried player `i` away: the destination
    /// has its instance, the player stands at the arrival point, and both
    /// maps have their population recomputed, the one left first.
    pub open spec fn relocate(self, i: int, z: int) -> WorldView {
        let zone = self.map_transitions[z];
        let left = self.players[i].current_map_id;
        let w = self.ensure_instance(zone.dest_map_id);
        let moved = WorldView { players: w.players.update(i, carried(w.players[i], zone)), ..w };
        moved.refresh_map_state(left).refresh_map_state(zone.dest_map_id)
    }

    /// The world once the transition engine has looked at a player: a player
    /// who stands in a zone is carried away by the first such zone, anyone
    /// else stays.
    pub open spec fn apply_transition(self, player_id: u32) -> WorldView {
        match self.player_index(player_id) {
            Some(i) => match self.entered_zone(self.players[i]) {
                Some(z) => self.relocate(i, z),
                None => self,
            },
            None => self,
        }
    }

    /// The spawn point of a map: that of its template, or that of the
    /// starting map where it has none.
    pub open spec fn spawn_point(self, map_id: Seq<char>) -> (int, int) {
        match self.template_index(map_id) {
            Some(t) => (self.map_templates[t].spawn_x as int, self.map_templates[t].spawn_y as int),
            None => match self.template_index(STARTING_MAP@) {
                Some(t) => (
                    self.map_templates[t].spawn_x as int,
                    self.map_templates[t].spawn_y as int,
                ),
                None => (0, 0),
            },
        }
    }

    /// Whether a spawn point can be found for the map: it has a template, or
    /// the starting map has one.
    pub open spec fn spawn_point_known(self, map_id: Seq<char>) -> bool {
        self.template_index(map_id) is Some || self.template_index(STARTING_MAP@) is Some
    }

    /// The map on which a player who asks for `map_id` is set down: that
    /// map where it is available, the starting map otherwise.
    pub open spec fn spawn_map(self, map_id: Seq<char>) -> Seq<char> {
        if self.map_available(map_id) {
            map_id
        } else {
            STARTING_MAP@
        }
    }

    /// The world once player `i` was set down on the map they asked for:
    /// the map has its instance, the player stands at its spawn point, and
    /// both maps have their population recomputed, the one left first.
    pub open spec fn spawn_at(self, i: int, map_id: Seq<char>) -> WorldView {
        let target = self.spawn_map(map_id);
        let left = self.players[i].current_map_id;
        let w = self.ensure_instance(target);
        let placed = WorldView {
            players: w.players.update(i, spawned(w.players[i], target, w.spawn_point(target))),
            ..w
        };
        placed.refresh_map_state(left).refresh_map_state(target)
    }
}

/// A zone carries the player to its arrival point, at rest, and leaves
/// everyone else where they are. The destination then has a live instance
/// that counts the player.
pub proof fn lemma_relocate(w: WorldView, i: int, z: int)
    requires
        0 <= i < w.players.len(),
        0 <= z < w.map_transitions.len(),
        w.map_available(w.map_transitions[z].dest_map_id),
    ensures
        ({
            let after = w.relocate(i, z);
            let zone = w.map_transitions[z];
            &&& after.players == w.players.update(i, carried(w.players[i], zone))
            &&& after.players[i].current_map_id == zone.dest_map_id
            &&& after.players[i].position_x == zone.dest_x
            &&& after.players[i].position_y == zone.dest_y
            &&& after.players[i].velocity_x == 0
            &&& after.players[i].velocity_y == 0
            &&& after.instance_index(zone.dest_map_id) matches Some(m)
                && after.map_instances[m].state == "Hot"@
                && after.map_instances[m].player_count >= 1
        }),
{
    let zone = w.map_transitions[z];
    let left = w.players[i].current_map_id;
    let made = w.ensure_instance(zone.dest_map_id);
    lemma_ensure_instance(w, zone.dest_map_id);
    let moved = WorldView {
        players: made.players.update(i, carried(made.players[i], zone)),
        ..made
    };
    lemma_refresh_map_state(moved, left);
    let once = moved.refresh_map_state(left);
    lemma_refresh_map_state(once, zone.dest_map_id);
    let after = once.refresh_map_state(zone.dest_map_id);
    // The player who arrived is counted.
    let on_dest = player_on_map(zone.dest_map_id);
    assert(on_dest(once.players[i]));
    once.players.lemma_filter_contains_rev(on_dest, once.players[i]);
    assert(once.players.contains(once.players[i]));
    assert(once.population(zone.dest_map_id) >= 1) by {
        let f = once.players.filter(on_dest);
        assert(f.contains(once.players[i]));
    }
}

/// Making sure that a map has its instance changes nothing but the
/// instances, keeps the instances there were, and gives the map an instance
/// exactly where it is available.
pub proof fn lemma_ensure_instance(w: WorldView, key_id: Seq<char>)
    ensures
        ({
            let after = w.ensure_instance(key_id);
            &&& after == (WorldView { map_instances: after.map_instances, ..w })
            &&& after.map_instances.len() >= w.map_instances.len()
            &&& after.map_instances.take(w.map_instances.len() as int) == w.map_instances
            &&& (after.instance_index(key_id) is Some <==> w.map_available(key_id))
            &&& forall|other: Seq<char>|
                w.map_available(other) ==> #[trigger] after.map_available(other)
        }),
{
    let after = w.ensure_instance(key_id);
    let p = instance_has_key(key_id);
    lemma_first_index_is_first(w.map_instances, p);
    if w.instance_index(key_id) is None && w.template_index(key_id) is Some {
        let n = w.map_instances.len() as int;
        assert(after.map_instances.take(n) =~= w.map_instances);
        assert forall|j: int| 0 <= j < n implies !p(#[trigger] after.map_instances[j]) by {
            assert(after.map_instances[j] == w.map_instances[j]);
        }
        lemma_first_index(after.map_instances, p, Some(n));
        assert forall|other: Seq<char>| w.map_available(other) implies
            #[trigger] after.map_available(other) by {
            let q = instance_has_key(other);
            lemma_first_index_is_first(w.map_instances, q);
            lemma_first_index_is_first(after.map_instances, q);
            match w.instance_index(other) {
                Some(j) => {
                    assert(after.map_instances[j] == w.map_instances[j]);
                    assert(q(after.map_instances[j]));
                },
                None => {},
            }
        }
    } else {
        assert(after.map_instances.take(w.map_instances.len() as int) =~= w.map_instances);
    }
}

/// Recomputing the state of a map changes nothing but the instances. The
/// instance of the map, where it has one afterwards, counts the players on
/// the map and is hot exactly when there are any; a map is available
/// afterwards exactly when it was before.
pub proof fn lemma_refresh_map_state(w: WorldView, key_id: Seq<char>)
    ensures
        ({
            let after = w.refresh_map_state(key_id);
            &&& after == (WorldView { map_instances: after.map_instances, ..w })
            &&& (after.instance_index(key_id) is Some <==> w.map_available(key_id))
            &&& (after.instance_index(key_id) matches Some(m) ==> {
                &&& after.map_instances[m].key_id == key_id
                &&& after.map_instances[m].player_count == capped_count(w.population(key_id))
                &&& (after.map_instances[m].state == "Hot"@ <==> w.population(key_id) > 0)
                &&& (after.map_instances[m].state == "Cold"@ <==> w.population(key_id) == 0)
            })
            &&& forall|other: Seq<char>|
                w.map_available(other) ==> #[trigger] after.map_available(other)
        }),
{
    let made = w.ensure_instance(key_id);
    lemma_ensure_instance(w, key_id);
    let after = w.refresh_map_state(key_id);
    let p = instance_has_key(key_id);
    reveal_strlit("Hot");
    reveal_strlit("Cold");
    assert("Hot"@.len() == 3);
    assert("Cold"@.len() == 4);
    match made.instance_index(key_id) {
        Some(m) => {
            lemma_first_index_is_first(made.map_instances, p);
            assert forall|k: int| 0 <= k < made.map_instances.len() implies p(
                #[trigger] made.map_instances[k],
            ) == p(after.map_instances[k]) by {}
            lemma_first_index_congruent(made.map_instances, after.map_instances, p);
            assert forall|other: Seq<char>| w.map_available(other) implies
                #[trigger] after.map_available(other) by {
                let q = instance_has_key(other);
                assert forall|k: int| 0 <= k < made.map_instances.len() implies q(
                    #[trigger] made.map_instances[k],
                ) == q(after.map_instances[k]) by {}
                lemma_first_index_congruent(made.map_instances, after.map_instances, q);
                assert(made.map_available(other));
            }
        },
        None => {},
    }
}

/// Whether a live map says of its population what the players say: it
/// counts the players on it and is hot exactly when there are any.
pub open spec fn instance_derived(w: WorldView, m: MapInstanceView) -> bool {
    &&& m.player_count == capped_count(w.population(m.key_id))
    &&& m.state == derived_state(w.population(m.key_id))
}

impl WorldView {
    /// No two live maps have the same key.
    pub open spec fn instance_keys_distinct(self) -> bool {
        forall|a: int, b: int|
            0 <= a < b < self.map_instances.len() ==> (#[trigger] self.map_instances[a]).key_id
                != (#[trigger] self.map_instances[b]).key_id
    }

    /// Every live map whose key is not among the stale ones says of its
    /// population what the players say.
    pub open spec fn derived_outside(self, stale: Set<Seq<char>>) -> bool {
        forall|m: int|
            0 <= m < self.map_instances.len() && !stale.contains(
                (#[trigger] self.map_instances[m]).key_id,
            ) ==> instance_derived(self, self.map_instances[m])
    }

    /// The population and the activity state of every live map are derived
    /// from the players: no two live maps have the same key, and each
    /// counts the players on it and is hot exactly when there are any.
    pub open spec fn maps_consistent(self) -> bool {
        self.instance_keys_distinct() && self.derived_outside(Set::<Seq<char>>::empty())
    }
}

/// Making sure that a map has its instance keeps the live maps derived: a
/// new instance is derived from the players as it is made.
pub proof fn lemma_ensure_instance_derived(w: WorldView, key_id: Seq<char>, stale: Set<Seq<char>>)
    requires
        w.instance_keys_distinct(),
        w.derived_outside(stale),
    ensures
        w.ensure_instance(key_id).instance_keys_distinct(),
        w.ensure_instance(key_id).derived_outside(stale),
{
    let after = w.ensure_instance(key_id);
    lemma_ensure_instance(w, key_id);
    let n = w.map_instances.len() as int;
    if w.instance_index(key_id) is None && w.template_index(key_id) is Some {
        lemma_first_index_is_first(w.map_instances, instance_has_key(key_id));
        assert forall|m: int| 0 <= m < n implies #[trigger] after.map_instances[m]
            == w.map_instances[m] by {
            assert(after.map_instances.take(n)[m] == after.map_instances[m]);
        }
        assert forall|a: int, b: int| 0 <= a < b < after.map_instances.len() implies (
        #[trigger] after.map_instances[a]).key_id != (#[trigger] after.map_instances[b]).key_id by {
            if b == n {
                assert(!instance_has_key(key_id)(w.map_instances[a]));
            } else {
                assert(w.map_instances[a].key_id != w.map_instances[b].key_id);
            }
        }
        assert forall|m: int|
            0 <= m < after.map_instances.len() && !stale.contains(
                (#[trigger] after.map_instances[m]).key_id,
            ) implies instance_derived(after, after.map_instances[m]) by {
            if m < n {
                assert(instance_derived(w, w.map_instances[m]));
            }
        }
    }
}

/// Recomputing the state of a map keeps the live maps derived and makes the
/// instance of the map derived, so the map is stale no longer.
pub proof fn lemma_refresh_map_state_derived(w: WorldView, key_id: Seq<char>, stale: Set<Seq<char>>)
    requires
        w.instance_keys_distinct(),
        w.derived_outside(stale),
    ensures
        w.refresh_map_state(key_id).instance_keys_distinct(),
        w.refresh_map_state(key_id).derived_outside(stale.remove(key_id)),
{
    let made = w.ensure_instance(key_id);
    lemma_ensure_instance_derived(w, key_id, stale);
    lemma_ensure_instance(w, key_id);
    let after = w.refresh_map_state(key_id);
    let p = instance_has_key(key_id);
    lemma_first_index_is_first(made.map_instances, p);
    match made.instance_index(key_id) {
        Some(i) => {
            assert forall|a: int, b: int| 0 <= a < b < after.map_instances.len() implies (
            #[trigger] after.map_instances[a]).key_id != (
            #[trigger] after.map_instances[b]).key_id by {
                assert(made.map_instances[a].key_id != made.map_instances[b].key_id);
            }
            assert forall|m: int|
                0 <= m < after.map_instances.len() && !stale.remove(key_id).contains(
                    (#[trigger] after.map_instances[m]).key_id,
                ) implies instance_derived(after, after.map_instances[m]) by {
                if m == i {
                } else {
                    // Another instance has another key, so it was not stale.
                    if m < i {
                        assert(made.map_instances[m].key_id != made.map_instances[i].key_id);
                    } else {
                        assert(made.map_instances[i].key_id != made.map_instances[m].key_id);
                    }
                    assert(instance_derived(made, made.map_instances[m]));
                }
            }
        },
        None => {
            assert forall|m: int|
                0 <= m < after.map_instances.len() && !stale.remove(key_id).contains(
                    (#[trigger] after.map_instances[m]).key_id,
                ) implies instance_derived(after, after.map_instances[m]) by {
                assert(!p(made.map_instances[m]));
                assert(instance_derived(made, made.map_instances[m]));
            }
        },
    }
}

/// Replacing a player makes stale at most the map they were on and the map
/// they are on now: the population of every other map is what it was.
pub proof fn lemma_player_replaced_derived(
    w: WorldView,
    i: int,
    p: PlayerView,
    stale: Set<Seq<char>>,
)
    requires
        0 <= i < w.players.len(),
        w.derived_outside(stale),
    ensures
        (WorldView { players: w.players.update(i, p), ..w }).derived_outside(
            stale.insert(w.players[i].current_map_id).insert(p.current_map_id),
        ),
        p.current_map_id == w.players[i].current_map_id ==> (WorldView {
            players: w.players.update(i, p),
            ..w
        }).derived_outside(stale),
{
    let after = WorldView { players: w.players.update(i, p), ..w };
    let wider = stale.insert(w.players[i].current_map_id).insert(p.current_map_id);
    assert forall|m: int|
        0 <= m < after.map_instances.len() && !wider.contains(
            (#[trigger] after.map_instances[m]).key_id,
        ) implies instance_derived(after, after.map_instances[m]) by {
        let key = after.map_instances[m].key_id;
        lemma_filter_len_update(w.players, i, p, player_on_map(key));
        assert(instance_derived(w, w.map_instances[m]));
    }
    if p.current_map_id == w.players[i].current_map_id {
        assert forall|m: int|
            0 <= m < after.map_instances.len() && !stale.contains(
                (#[trigger] after.map_instances[m]).key_id,
            ) implies instance_derived(after, after.map_instances[m]) by {
            let key = after.map_instances[m].key_id;
            lemma_filter_len_update(w.players, i, p, player_on_map(key));
            assert(instance_derived(w, w.map_instances[m]));
        }
    }
}

/// A new player makes stale at most the map they stand on.
pub proof fn lemma_player_added_derived(w: WorldView, p: PlayerView, stale: Set<Seq<char>>)
    requires
        w.derived_outside(stale),
    ensures
        (WorldView { players: w.players.push(p), ..w }).derived_outside(
            stale.insert(p.current_map_id),
        ),
{
    let after = WorldView { players: w.players.push(p), ..w };
    assert forall|m: int|
        0 <= m < after.map_instances.len() && !stale.insert(p.current_map_id).contains(
            (#[trigger] after.map_instances[m]).key_id,
        ) implies instance_derived(after, after.map_instances[m]) by {
        let key = after.map_instances[m].key_id;
        w.players.lemma_filter_len_push(player_on_map(key), p);
        assert(instance_derived(w, w.map_instances[m]));
    }
}

/// A change that leaves the live maps alone and every player on their map
/// keeps the live maps consistent.
pub proof fn lemma_same_maps_consistent(before: WorldView, after: WorldView)
    requires
        before.maps_consistent(),
        after.map_instances == before.map_instances,
        after.players.len() == before.players.len(),
        forall|k: int|
            0 <= k < before.players.len() ==> (#[trigger] after.players[k]).current_map_id
                == before.players[k].current_map_id,
    ensures
        after.maps_consistent(),
{
    assert forall|m: int| 0 <= m < after.map_instances.len() implies instance_derived(
        after,
        #[trigger] after.map_instances[m],
    ) by {
        let key = after.map_instances[m].key_id;
        let p = player_on_map(key);
        assert forall|k: int| 0 <= k < before.players.len() implies p(
            #[trigger] before.players[k],
        ) == p(after.players[k]) by {
            assert(after.players[k].current_map_id == before.players[k].current_map_id);
        }
        lemma_filter_len_congruent(before.players, after.players, p);
        assert(instance_derived(before, before.map_instances[m]));
    }
}

/// A transition keeps the live maps consistent: both maps it touches have
/// their population recomputed.
pub proof fn lemma_relocate_consistent(w: WorldView, i: int, z: int)
    requires
        0 <= i < w.players.len(),
        0 <= z < w.map_transitions.len(),
        w.maps_consistent(),
    ensures
        w.relocate(i, z).maps_consistent(),
{
    let none = Set::<Seq<char>>::empty();
    let zone = w.map_transitions[z];
    let left = w.players[i].current_map_id;
    let made = w.ensure_instance(zone.dest_map_id);
    lemma_ensure_instance_derived(w, zone.dest_map_id, none);
    lemma_ensure_instance(w, zone.dest_map_id);
    let p = carried(made.players[i], zone);
    let moved = WorldView { players: made.players.update(i, p), ..made };
    lemma_player_replaced_derived(made, i, p, none);
    let stale = none.insert(left).insert(zone.dest_map_id);
    lemma_refresh_map_state_derived(moved, left, stale);
    let once = moved.refresh_map_state(left);
    lemma_refresh_map_state_derived(once, zone.dest_map_id, stale.remove(left));
    assert(stale.remove(left).remove(zone.dest_map_id) =~= none);
}

/// The transition engine keeps the live maps consistent.
pub proof fn lemma_apply_transition_consistent(w: WorldView, player_id: u32)
    requires
        w.maps_consistent(),
    ensures
        w.apply_transition(player_id).maps_consistent(),
{
    match w.player_index(player_id) {
        Some(i) => {
            lemma_first_index_is_first(w.map_transitions, zone_holding(w.players[i]));
            match w.entered_zone(w.players[i]) {
                Some(z) => {
                    lemma_relocate_consistent(w, i, z);
                },
                None => {},
            }
        },
        None => {},
    }
}

/// Setting a player down on a map keeps the live maps consistent.
pub proof fn lemma_spawn_at_consistent(w: WorldView, i: int, map_id: Seq<char>)
    requires
        0 <= i < w.players.len(),
        w.maps_consistent(),
    ensures
        w.spawn_at(i, map_id).maps_consistent(),
{
    let none = Set::<Seq<char>>::empty();
    let target = w.spawn_map(map_id);
    let left = w.players[i].current_map_id;
    let made = w.ensure_instance(target);
    lemma_ensure_instance_derived(w, target, none);
    lemma_ensure_instance(w, target);
    let p = spawned(made.players[i], target, made.spawn_point(target));
    let placed = WorldView { players: made.players.update(i, p), ..made };
    lemma_player_replaced_derived(made, i, p, none);
    let stale = none.insert(left).insert(target);
    lemma_refresh_map_state_derived(placed, left, stale);
    let once = placed.refresh_map_state(left);
    lemma_refresh_map_state_derived(once, target, stale.remove(left));
    assert(stale.remove(left).remove(target) =~= none);
}

/// A world whose zones all lead to available maps lets every player pass.
pub proof fn lemma_destinations_available_is_ready(w: WorldView, player_id: u32)
    requires
        w.destinations_available(),
    ensures
        w.transition_ready(player_id),
{
    match w.player_index(player_id) {
        Some(i) => {
            lemma_first_index_is_first(w.map_transitions, zone_holding(w.players[i]));
        },
        None => {},
    }
}

impl World {
    /// The first zone, in table order, inside which a position on a map
    /// lies.
    pub fn find_zone_at(&self, map_id: &str, x: i32, y: i32) -> (r: Option<usize>)
        ensures
            as_position(r) == first_index(
                self@.map_transitions,
                zone_at(map_id@, x as int, y as int),
            ),
            r matches Some(z) ==> z < self.map_transitions.len(),
    {
        let ghost p = zone_at(map_id@, x as int, y as int);
        let mut z: usize = 0;
        while z < self.map_transitions.len()
            invariant
                z <= self.map_transitions.len(),
                p == zone_at(map_id@, x as int, y as int),
                forall|j: int| 0 <= j < z ==> !p(#[trigger] self@.map_transitions[j]),
            decreases self.map_transitions.len() - z,
        {
            let zone = &self.map_transitions[z];
            let px: i64 = x as i64;
            let py: i64 = y as i64;
            if same_text(zone.map_id.as_str(), map_id) && px >= zone.x as i64 && px
                <= zone.x as i64 + zone.width as i64 && py >= zone.y as i64 && py
                <= zone.y as i64 + zone.height as i64 {
                proof {
                    assert(p(self@.map_transitions[z as int]));
                    lemma_first_index(self@.map_transitions, p, Some(z as int));
                }
                return Some(z);
            }
            assert(!p(self@.map_transitions[z as int]));
            z += 1;
        }
        proof {
            lemma_first_index(self@.map_transitions, p, None);
        }
        None
    }

    /// The first zone, in table order, inside which player `i` stands.
    pub fn find_entered_zone(&self, i: usize) -> (r: Option<usize>)
        requires
            i < self.players.len(),
        ensures
            as_position(r) == self@.entered_zone(self@.players[i as int]),
            r matches Some(z) ==> z < self.map_transitions.len(),
    {
        let player = &self.players[i];
        assert(self@.players[i as int] == player@);
        self.find_zone_at(player.current_map_id.as_str(), player.position_x, player.position_y)
    }

    /// Whether the map has a live instance or a template to make one from.
    pub fn is_map_available(&self, key_id: &str) -> (r: bool)
        ensures
            r == self@.map_available(key_id@),
    {
        self.find_instance(key_id).is_some() || self.find_template(key_id).is_some()
    }

    /// Whether the player can be carried by the zone they stand in.
    pub fn is_transition_ready(&self, player_id: u32) -> (r: bool)
        ensures
            r == self@.transition_ready(player_id),
    {
        match self.find_player(player_id) {
            Some(i) => match self.find_entered_zone(i) {
                Some(z) => {
                    assert(self@.map_transitions[z as int] == self.map_transitions[z as int]@);
                    self.is_map_available(self.map_transitions[z].dest_map_id.as_str())
                },
                None => true,
            },
            None => true,
        }
    }

    /// Whether a spawn point can be found for the map: it has a template,
    /// or the starting map has one.
    pub fn has_spawn_point(&self, map_id: &str) -> (r: bool)
        ensures
            r == self@.spawn_point_known(map_id@),
    {
        self.find_template(map_id).is_some() || self.find_template(STARTING_MAP).is_some()
    }

    /// Whether a spawn point can be found for the map on which a player who
    /// asks for `map_id` is set down.
    pub fn is_spawn_ready(&self, map_id: &str) -> (r: bool)
        ensures
            r == self@.spawn_point_known(self@.spawn_map(map_id@)),
    {
        if self.is_map_available(map_id) {
            self.find_template(map_id).is_some() || self.find_template(STARTING_MAP).is_some()
        } else {
            self.find_template(STARTING_MAP).is_some()
        }
    }

    /// Whether the population and the activity state of every live map are
    /// derived from the players, and no two live maps have the same key.
    pub fn has_consistent_maps(&self) -> (r: bool)
        ensures
            r == self@.maps_consistent(),
    {
        let ghost none = Set::<Seq<char>>::empty();
        let mut m: usize = 0;
        while m < self.map_instances.len()
            invariant
                m <= self.map_instances.len(),
                none == Set::<Seq<char>>::empty(),
                forall|a: int, b: int|
                    0 <= a < b < m ==> (#[trigger] self@.map_instances[a]).key_id
                        != (#[trigger] self@.map_instances[b]).key_id,
                forall|k: int|
                    0 <= k < m ==> instance_derived(self@, #[trigger] self@.map_instances[k]),
            decreases self.map_instances.len() - m,
        {
            let instance = &self.map_instances[m];
            assert(self@.map_instances[m as int] == instance@);
            let count = count_players_in_map(self, instance.key_id.as_str());
            let state = map_state_for(count);
            if instance.player_count != count || !same_text(
                instance.state.as_str(),
                state.as_str(),
            ) {
                assert(!instance_derived(self@, self@.map_instances[m as int]));
                assert(!none.contains(self@.map_instances[m as int].key_id));
                return false;
            }
            let mut a: usize = 0;
            while a < m
                invariant
                    a <= m < self.map_instances.len(),
                    instance == &self.map_instances[m as int],
                    forall|j: int|
                        0 <= j < a ==> (#[trigger] self@.map_instances[j]).key_id
                            != self@.map_instances[m as int].key_id,
                decreases m - a,
            {
                assert(self@.map_instances[a as int] == self.map_instances[a as int]@);
                assert(self@.map_instances[m as int] == instance@);
                if same_text(self.map_instances[a].key_id.as_str(), instance.key_id.as_str()) {
                    return false;
                }
                a += 1;
            }
            m += 1;
        }
        true
    }

    /// Whether every zone leads to a map that has an instance or a template.
    pub fn has_destinations_available(&self) -> (r: bool)
        ensures
            r == self@.destinations_available(),
    {
        let mut z: usize = 0;
        while z < self.map_transitions.len()
            invariant
                z <= self.map_transitions.len(),
                forall|j: int|
                    0 <= j < z ==> self@.map_available(
                        (#[trigger] self@.map_transitions[j]).dest_map_id,
                    ),
            decreases self.map_transitions.len() - z,
        {
            assert(self@.map_transitions[z as int] == self.map_transitions[z as int]@);
            if !self.is_map_available(self.map_transitions[z].dest_map_id.as_str()) {
                assert(!self@.map_available(self@.map_transitions[z as int].dest_map_id));
                return false;
            }
            z += 1;
        }
        true
    }
}

/// The transition engine: a player who stands inside a zone of their map is
/// carried to the zone's destination by the first such zone; the
/// destination gets its live instance, and both maps have their population
/// recomputed. Fails, without changing anything, where the player does not
/// exist.
pub fn check_map_transition(world: &mut World, player_id: u32) -> (r: Result<(), GameError>)
    requires
        old(world)@.transition_ready(player_id),
    ensures
        old(world)@.wf() ==> final(world)@.wf(),
        r is Err <==> old(world)@.player_index(player_id) is None,
        r matches Err(e) ==> e == GameError::PlayerNotFound,
        final(world)@ == old(world)@.apply_transition(player_id),
        old(world)@.maps_consistent() ==> final(world)@.maps_consistent(),
{
    proof {
        if world@.maps_consistent() {
            lemma_apply_transition_consistent(world@, player_id);
        }
    }
    let i = match world.find_player(player_id) {
        Some(i) => i,
        None => {
            return Err(GameError::PlayerNotFound);
        },
    };
    match world.find_entered_zone(i) {
        Some(z) => {
            let zone = world.map_transitions[z].clone();
            let left = world.players[i].current_map_id.clone();
            let instance = get_or_create_map_instance(world, zone.dest_map_id.as_str());
            let ghost w = world@;
            assert(world.players@.len() == w.players.len());
            world.players[i].current_map_id = zone.dest_map_id.clone();
            world.players[i].position_x = zone.dest_x;
            world.players[i].position_y = zone.dest_y;
            world.players[i].velocity_x = 0;
            world.players[i].velocity_y = 0;
            proof {
                assert(world@.players =~= w.players.update(
                    i as int,
                    carried(w.players[i as int], zone@),
                ));
            }
            let _ = update_map_state(world, left.as_str());
            let _ = update_map_state(world, zone.dest_map_id.as_str());
            Ok(())
        },
        None => Ok(()),
    }
}

/// Whether a zone leads to the given place.
pub open spec fn leads_to(
    zone: MapTransitionView,
    dest_map: Seq<char>,
    entry_x: i32,
    entry_y: i32,
) -> bool {
    zone.dest_map_id == dest_map && zone.dest_x == entry_x && zone.dest_y == entry_y
}

/// A transition that a client asks for. It is granted only through a zone:
/// the first zone in which the player stands must lead to the requested map
/// and entry point, and the player is then carried there as by the
/// transition engine. Fails, without changing anything, where the player
/// does not exist, the sender does not own them, or no such zone is
/// entered.
pub fn request_transition(
    world: &mut World,
    sender: &Identity,
    player_id: u32,
    dest_map: &str,
    entry_x: i32,
    entry_y: i32,
) -> (r: Result<(), GameError>)
    requires
        old(world)@.transition_ready(player_id),
    ensures
        old(world)@.wf() ==> final(world)@.wf(),
        match old(world)@.player_index(player_id) {
            None => r == Err::<(), GameError>(GameError::PlayerNotFound)
                && final(world)@ == old(world)@,
            Some(i) => if old(world)@.players[i].identity != *sender {
                r == Err::<(), GameError>(GameError::Unauthorized) && final(world)@ == old(world)@
            } else {
                match old(world)@.entered_zone(old(world)@.players[i]) {
                    Some(z) => if leads_to(
                        old(world)@.map_transitions[z],
                        dest_map@,
                        entry_x,
                        entry_y,
                    ) {
                        r is Ok && final(world)@ == old(world)@.relocate(i, z)
                    } else {
                        r == Err::<(), GameError>(GameError::TransitionDenied) && final(world)@
                            == old(world)@
                    },
                    None => r == Err::<(), GameError>(GameError::TransitionDenied)
                        && final(world)@ == old(world)@,
                }
            },
        },
        old(world)@.maps_consistent() ==> final(world)@.maps_consistent(),
{
    let i = match world.find_player(player_id) {
        Some(i) => i,
        None => {
            return Err(GameError::PlayerNotFound);
        },
    };
    assert(world@.players[i as int] == world.players[i as int]@);
    if !same_identity(&world.players[i].identity, sender) {
        return Err(GameError::Unauthorized);
    }
    match world.find_entered_zone(i) {
        Some(z) => {
            assert(world@.map_transitions[z as int] == world.map_transitions[z as int]@);
            let zone = &world.map_transitions[z];
            if same_text(zone.dest_map_id.as_str(), dest_map) && zone.dest_x == entry_x
                && zone.dest_y == entry_y {
                check_map_transition(world, player_id)
            } else {
                Err(GameError::TransitionDenied)
            }
        },
        None => Err(GameError::TransitionDenied),
    }
}

/// The spawn point of a map: that of its template, or that of the starting
/// map where it has none.
pub fn get_spawn_point(world: &World, map_id: &str) -> (point: (i32, i32))
    requires
        world@.spawn_point_known(map_id@),
    ensures
        (point.0 as int, point.1 as int) == world@.spawn_point(map_id@),
{
    if let Some(t) = world.find_template(map_id) {
        assert(world@.map_templates[t as int] == world.map_templates[t as int]@);
        return (world.map_templates[t].spawn_x, world.map_templates[t].spawn_y);
    }
    match world.find_template(STARTING_MAP) {
        Some(t) => {
            assert(world@.map_templates[t as int] == world.map_templates[t as int]@);
            (world.map_templates[t].spawn_x, world.map_templates[t].spawn_y)
        },
        None => (0, 0),
    }
}

/// Sets a player down at the spawn point of a map: of the map asked for
/// where it is available, of the starting map otherwise. The player comes
/// to rest, and the map left and the map entered have their population
/// recomputed.
pub fn spawn_player_at_map(
    world: &mut World,
    sender: &Identity,
    player_id: u32,
    map_id: String,
) -> (r: Result<(), GameError>)
    requires
        old(world)@.spawn_point_known(old(world)@.spawn_map(map_id@)),
    ensures
        old(world)@.wf() ==> final(world)@.wf(),
        match old(world)@.player_index(player_id) {
            None => r == Err::<(), GameError>(GameError::PlayerNotFound)
                && final(world)@ == old(world)@,
            Some(i) => if old(world)@.players[i].identity != *sender {
                r == Err::<(), GameError>(GameError::Unauthorized) && final(world)@ == old(world)@
            } else {
                r is Ok && final(world)@ == old(world)@.spawn_at(i, map_id@)
            },
        },
        old(world)@.maps_consistent() ==> final(world)@.maps_consistent(),
{
    let i = match world.find_player(player_id) {
        Some(i) => i,
        None => {
            return Err(GameError::PlayerNotFound);
        },
    };
    assert(world@.players[i as int] == world.players[i as int]@);
    if !same_identity(&world.players[i].identity, sender) {
        return Err(GameError::Unauthorized);
    }
    proof {
        if world@.maps_consistent() {
            lemma_spawn_at_consistent(world@, i as int, map_id@);
        }
    }
    let target = if get_or_create_map_instance(world, map_id.as_str()).is_some() {
        map_id
    } else {
        let _ = get_or_create_map_instance(world, STARTING_MAP);
        STARTING_MAP.to_string()
    };
    let point = get_spawn_point(world, target.as_str());
    let left = world.players[i].current_map_id.clone();
    let ghost w = world@;
    assert(world.players@.len() == w.players.len());
    world.players[i].current_map_id = target.clone();
    world.players[i].position_x = point.0;
    world.players[i].position_y = point.1;
    world.players[i].velocity_x = 0;
    world.players[i].velocity_y = 0;
    proof {
        assert(world@.players =~= w.players.update(
            i as int,
            spawned(w.players[i as int], target@, w.spawn_point(target@)),
        ));
    }
    let _ = update_map_state(world, left.as_str());
    let _ = update_map_state(world, target.as_str());
    Ok(())
}

/// Adds the default transition zones to the world.
pub fn init_map_transitions(world: &mut World)
    ensures
        old(world)@.wf() ==> final(world)@.wf(),
        final(world)@ == (WorldView {
            map_transitions: old(world)@.map_transitions + default_transitions(),
            ..old(world)@
        }),
{
    world.map_transitions.push(
        MapTransition {
            id: 1,
            map_id: "tavern_outside".to_string(),
            x: 136_000,
            y: 168_000,
            width: 8_000,
            height: 8_000,
            dest_map_id: "tavern_inside".to_string(),
            dest_x: 176_000,
            dest_y: 88_000,
        },
    );
    world.map_transitions.push(
        MapTransition {
            id: 2,
            map_id: "tavern_inside".to_string(),
            x: 176_000,
            y: 96_000,
            width: 8_000,
            height: 8_000,
            dest_map_id: "tavern_outside".to_string(),
            dest_x: 116_000,
            dest_y: 188_000,
        },
    );
    proof {
        assert(world@.map_transitions =~= old(world)@.map_transitions + default_transitions());
    }
}

/// Replaces every map template by the given ones.
pub fn replace_all_templates(world: &mut World, new_templates: Vec<MapTemplate>) -> (r: Result<
    (),
    GameError,
>)
    ensures
        old(world)@.wf() ==> final(world)@.wf(),
        r is Ok,
        final(world)@ == (WorldView { map_templates: rows(new_templates@), ..old(world)@ }),
{
    world.map_templates = new_templates;
    Ok(())
}

} // verus!
