//! Player accounts: registration, reconnection and what a client may ask
//! about its player and its map.

use crate::entity::{same_identity, Player, PlayerView};
use crate::error::GameError;
use crate::map::{
    default_transitions, get_or_create_map_instance, init_map_transitions, player_on_map,
    update_map_state,
};
use crate::stamp::{hash_str, hash_usize, id_from_hash};
use crate::table::{as_position, first_index, lemma_first_index};
use crate::text::{same_text, spec_lowercase, spec_trim, to_lowercase, trim};
use crate::world::{rows, World, WorldView};
use spacetimedb::{Identity, Timestamp};
use std::collections::hash_map::DefaultHasher;
use std::hash::Hasher;
use vstd::prelude::*;
use vstd::string::StrSliceExecFns;

verus! {

/// The map on which a newly registered player stands.
pub const REGISTRATION_MAP: &'static str = "starting_area";

/// Horizontal position of a newly registered player.
pub const REGISTRATION_X: i32 = 100_000;

/// Vertical position of a newly registered player.
pub const REGISTRATION_Y: i32 = 500_000;

/// Health capacity of a newly registered player.
pub const REGISTRATION_HEALTH: u32 = 100_000;

/// Least length of a user name, in bytes.
pub const MIN_USERNAME_LENGTH: usize = 3;

/// Greatest length of a user name, in bytes.
pub const MAX_USERNAME_LENGTH: usize = 16;

/// `Identity::to_hex`: the identity as hexadecimal text.
#[verifier::external_body]
fn identity_hex(identity: &Identity) -> String {
    String::from(identity.to_hex())
}

/// What is known of a map by its name alone.
pub struct MapMetadata {
    /// Identifier of the map.
    pub id: String,
    /// Name of the map for display.
    pub name: String,
    /// Width of the map.
    pub width: u32,
    /// Height of the map.
    pub height: u32,
    /// Horizontal spawn position, in thousandths of a pixel.
    pub spawn_x: i32,
    /// Vertical spawn position, in thousandths of a pixel.
    pub spawn_y: i32,
}

/// The mathematical value of a [`MapMetadata`].
pub ghost struct MapMetadataView {
    pub id: Seq<char>,
    pub name: Seq<char>,
    pub width: u32,
    pub height: u32,
    pub spawn_x: i32,
    pub spawn_y: i32,
}

impl View for MapMetadata {
    type V = MapMetadataView;

    open spec fn view(&self) -> MapMetadataView {
        MapMetadataView {
            id: self.id@,
            name: self.name@,
            width: self.width,
            height: self.height,
            spawn_x: self.spawn_x,
            spawn_y: self.spawn_y,
        }
    }
}

/// What is known of a map by its name alone; a map that is not known is
/// described as an unknown area.
pub open spec fn spec_map_metadata(map_id: Seq<char>) -> MapMetadataView {
    if map_id == "starting_area"@ {
        MapMetadataView {
            id: "starting_area"@,
            name: "Starting Village"@,
            width: 1000,
            height: 1000,
            spawn_x: 100_000,
            spawn_y: 500_000,
        }
    } else if map_id == "forest_area"@ {
        MapMetadataView {
            id: "forest_area"@,
            name: "Dark Forest"@,
            width: 1200,
            height: 1200,
            spawn_x: 100_000,
            spawn_y: 400_000,
        }
    } else {
        MapMetadataView {
            id: "unknown"@,
            name: "Unknown Area"@,
            width: 800,
            height: 600,
            spawn_x: 0,
            spawn_y: 0,
        }
    }
}

/// Whether a character may stand in a user name: an ASCII letter or digit,
/// `_` or `-`.
pub open spec fn username_char_ok(c: char) -> bool {
    ('a' <= c && c <= 'z') || ('A' <= c && c <= 'Z') || ('0' <= c && c <= '9') || c == '_' || c
        == '-'
}

/// The display form of a user name: the name as typed, trimmed.
pub open spec fn display_name(raw: Seq<char>) -> Seq<char> {
    spec_trim(raw)
}

/// The canonical form of a user name: the display form in lower case.
pub open spec fn canonical_name(raw: Seq<char>) -> Seq<char> {
    spec_lowercase(spec_trim(raw))
}

/// The length of a text in bytes, in its UTF-8 encoding.
pub open spec fn byte_length(text: Seq<char>) -> usize {
    vstd::utf8::encode_utf8(text).len() as usize
}

/// Why a user name is refused, or `None` for a name that is accepted. The
/// name must not be empty once trimmed; its canonical form must take from 3
/// to 16 bytes and hold only ASCII letters, digits, `_` and `-`.
pub open spec fn username_error(raw: Seq<char>) -> Option<GameError> {
    let canonical = canonical_name(raw);
    let bytes = byte_length(canonical);
    if display_name(raw).len() == 0 {
        Some(GameError::UsernameEmpty)
    } else if bytes < MIN_USERNAME_LENGTH || bytes > MAX_USERNAME_LENGTH {
        Some(GameError::UsernameLength)
    } else if !(forall|k: int|
        0 <= k < canonical.len() ==> username_char_ok(#[trigger] canonical[k])) {
        Some(GameError::UsernameCharacters)
    } else {
        None
    }
}

/// The players that the given client owns.
pub open spec fn owned_by(sender: Identity) -> spec_fn(PlayerView) -> bool {
    |p: PlayerView| p.identity == sender
}

/// The players with the given canonical user name.
pub open spec fn named(canonical: Seq<char>) -> spec_fn(PlayerView) -> bool {
    |p: PlayerView| p.username_canonical == canonical
}

/// A player as registration makes them: on the registration map, at rest,
/// at full health.
pub open spec fn fresh_player(
    id: u32,
    sender: Identity,
    now: Timestamp,
    raw: Seq<char>,
) -> PlayerView {
    PlayerView {
        id: id,
        username_canonical: canonical_name(raw),
        username_display: display_name(raw),
        identity: sender,
        position_x: REGISTRATION_X,
        position_y: REGISTRATION_Y,
        velocity_x: 0,
        velocity_y: 0,
        current_map_id: REGISTRATION_MAP@,
        health: REGISTRATION_HEALTH,
        max_health: REGISTRATION_HEALTH,
        is_downed: false,
        last_input_sequence: 0,
        last_transition_time: now,
    }
}

impl WorldView {
    /// The position of the player that the client owns.
    pub open spec fn owner_index(self, sender: Identity) -> Option<int> {
        first_index(self.players, owned_by(sender))
    }

    /// The position of the player with the given canonical user name.
    pub open spec fn username_index(self, canonical: Seq<char>) -> Option<int> {
        first_index(self.players, named(canonical))
    }

    /// Whether every numeric id is taken by a player.
    pub open spec fn player_ids_exhausted(self) -> bool {
        forall|id: u32| (#[trigger] self.player_index(id)) is Some
    }

    /// Registration of a player for a client, with `fresh_id` as the id of
    /// a new player. A client that owns a player already changes nothing.
    /// A user name that is refused changes nothing. A user name that is
    /// taken is reclaimed: its player now belongs to the client. Any other
    /// name gives a new player, unless no id is free, and the registration
    /// map has its population recomputed.
    pub open spec fn register(
        self,
        sender: Identity,
        now: Timestamp,
        raw: Seq<char>,
        fresh_id: Option<u32>,
    ) -> (Result<(), GameError>, WorldView) {
        if self.owner_index(sender) is Some {
            (Ok(()), self)
        } else {
            match username_error(raw) {
                Some(e) => (Err(e), self),
                None => match self.username_index(canonical_name(raw)) {
                    Some(i) => (
                        Ok(()),
                        self.with_player(i, PlayerView { identity: sender, ..self.players[i] }),
                    ),
                    None => match fresh_id {
                        Some(id) => (
                            Ok(()),
                            (WorldView {
                                players: self.players.push(fresh_player(id, sender, now, raw)),
                                ..self
                            }).refresh_map_state(REGISTRATION_MAP@),
                        ),
                        None => (Err(GameError::NoFreePlayerId), self),
                    },
                },
            }
        }
    }

    /// Whether this world is what registration makes of `before`, and `r`
    /// the answer, with `fresh_id` as the id that was found for a new
    /// player: an id that no player has, or `None` exactly where every id
    /// is taken.
    pub open spec fn registered(
        self,
        before: WorldView,
        r: Result<(), GameError>,
        sender: Identity,
        now: Timestamp,
        raw: Seq<char>,
        fresh_id: Option<u32>,
    ) -> bool {
        &&& (fresh_id matches Some(id) ==> before.player_index(id) is None)
        &&& (fresh_id is None <==> before.player_ids_exhausted())
        &&& (r, self) == before.register(sender, now, raw, fresh_id)
    }

    /// The map that is made ready when the client connects: that of its
    /// player, or the registration map for a client without one.
    pub open spec fn connection_map(self, sender: Identity) -> Seq<char> {
        match self.owner_index(sender) {
            Some(i) => self.players[i].current_map_id,
            None => REGISTRATION_MAP@,
        }
    }

    /// The world once the client has connected: its map has a live
    /// instance where it can have one, and a world without transition
    /// zones has the default ones.
    pub open spec fn connect(self, sender: Identity) -> WorldView {
        let w = self.ensure_instance(self.connection_map(sender));
        if w.map_transitions.len() == 0 {
            WorldView { map_transitions: w.map_transitions + default_transitions(), ..w }
        } else {
            w
        }
    }
}

impl World {
    /// The position of the first player that the client owns.
    pub fn find_owner(&self, sender: &Identity) -> (r: Option<usize>)
        ensures
            as_position(r) == self@.owner_index(*sender),
            r matches Some(i) ==> i < self.players.len(),
    {
        let ghost p = owned_by(*sender);
        let mut i: usize = 0;
        while i < self.players.len()
            invariant
                i <= self.players.len(),
                p == owned_by(*sender),
                forall|j: int| 0 <= j < i ==> !p(#[trigger] self@.players[j]),
            decreases self.players.len() - i,
        {
            if same_identity(&self.players[i].identity, sender) {
                proof {
                    assert(p(self@.players[i as int]));
                    lemma_first_index(self@.players, p, Some(i as int));
                }
                return Some(i);
            }
            i += 1;
        }
        proof {
            lemma_first_index(self@.players, p, None);
        }
        None
    }

    /// The position of the first player with the given canonical user name.
    pub fn find_username(&self, canonical: &str) -> (r: Option<usize>)
        ensures
            as_position(r) == self@.username_index(canonical@),
            r matches Some(i) ==> i < self.players.len(),
    {
        let ghost p = named(canonical@);
        let mut i: usize = 0;
        while i < self.players.len()
            invariant
                i <= self.players.len(),
                p == named(canonical@),
                forall|j: int| 0 <= j < i ==> !p(#[trigger] self@.players[j]),
            decreases self.players.len() - i,
        {
            if same_text(self.players[i].username_canonical.as_str(), canonical) {
                proof {
                    assert(p(self@.players[i as int]));
                    lemma_first_index(self@.players, p, Some(i as int));
                }
                return Some(i);
            }
            i += 1;
        }
        proof {
            lemma_first_index(self@.players, p, None);
        }
        None
    }
}

/// Whether a character may stand in a user name.
fn is_username_char(c: char) -> (r: bool)
    ensures
        r == username_char_ok(c),
{
    ('a' <= c && c <= 'z') || ('A' <= c && c <= 'Z') || ('0' <= c && c <= '9') || c == '_' || c
        == '-'
}

/// Checks a user name: answers its display form and its canonical form, or
/// why it is refused.
pub fn validate_username(raw: &str) -> (r: Result<(String, String), GameError>)
    ensures
        match username_error(raw@) {
            Some(e) => r matches Err(f) && f == e,
            None => r matches Ok(names) && names.0@ == display_name(raw@) && names.1@
                == canonical_name(raw@),
        },
{
    let display = trim(raw);
    if display.is_empty() {
        return Err(GameError::UsernameEmpty);
    }
    let canonical = to_lowercase(display);
    let bytes = canonical.as_str().len();
    if bytes < MIN_USERNAME_LENGTH || bytes > MAX_USERNAME_LENGTH {
        return Err(GameError::UsernameLength);
    }
    let count = canonical.as_str().unicode_len();
    let mut k: usize = 0;
    while k < count
        invariant
            k <= count,
            count == canonical@.len(),
            display@ == display_name(raw@),
            display@.len() != 0,
            canonical@ == canonical_name(raw@),
            bytes == byte_length(canonical@),
            MIN_USERNAME_LENGTH <= bytes <= MAX_USERNAME_LENGTH,
            forall|j: int| 0 <= j < k ==> username_char_ok(#[trigger] canonical@[j]),
        decreases count - k,
    {
        if !is_username_char(canonical.as_str().get_char(k)) {
            assert(!username_char_ok(canonical@[k as int]));
            return Err(GameError::UsernameCharacters);
        }
        k += 1;
    }
    Ok((display.to_string(), canonical))
}

/// An id for a new player: the first free id at or after a hash of the
/// number of players and the client's credential. Answers `None` exactly
/// where every id is taken.
pub fn generate_player_id(world: &World, sender: &Identity) -> (r: Option<u32>)
    ensures
        r matches Some(id) ==> world@.player_index(id) is None,
        r is None <==> world@.player_ids_exhausted(),
{
    let mut hasher = DefaultHasher::new();
    hash_usize(world.players.len(), &mut hasher);
    let hex = identity_hex(sender);
    hash_str(hex.as_str(), &mut hasher);
    let base = id_from_hash(hasher.finish(), 0);
    let mut distance: u64 = 0;
    while distance < 0x1_0000_0000
        invariant
            distance <= 0x1_0000_0000,
            forall|d: int|
                0 <= d < distance ==> world@.player_index(
                    #[trigger] (((base + d) % 0x1_0000_0000) as u32),
                ) is Some,
        decreases 0x1_0000_0000 - distance,
    {
        let id = ((base as u64 + distance) % 0x1_0000_0000) as u32;
        if world.find_player(id).is_none() {
            return Some(id);
        }
        distance += 1;
    }
    proof {
        assert forall|id: u32| (#[trigger] world@.player_index(id)) is Some by {
            let d = (id as int - base as int) % 0x1_0000_0000;
            assert(((base + d) % 0x1_0000_0000) as u32 == id) by {
                if id >= base {
                    assert(d == id - base);
                } else {
                    assert(d == id - base + 0x1_0000_0000);
                }
            }
        }
    }
    None
}

/// Registers a player for a client.
///
/// A client that owns a player already is done. A user name that is empty
/// once trimmed, too short or too long, or that holds other characters than
/// ASCII letters, digits, `_` and `-`, is refused. A user name that a
/// player has already is reclaimed for the client. Any other name gives a
/// new player with a free id.
pub fn register_player(
    world: &mut World,
    sender: &Identity,
    now: Timestamp,
    username_display: String,
) -> (r: Result<(), GameError>)
    requires
        old(world)@.wf(),
    ensures
        final(world)@.wf(),
        old(world)@.player_ids_distinct() ==> final(world)@.player_ids_distinct(),
        old(world)@.maps_consistent() ==> final(world)@.maps_consistent(),
        exists|fresh_id: Option<u32>|
            final(world)@.registered(old(world)@, r, *sender, now, username_display@, fresh_id),
{
    let ghost before = world@;
    let fresh_id = generate_player_id(world, sender);
    if world.find_owner(sender).is_some() {
        assert(world@.registered(before, Ok(()), *sender, now, username_display@, fresh_id));
        return Ok(());
    }
    let (display, canonical) = match validate_username(username_display.as_str()) {
        Ok(names) => names,
        Err(e) => {
            assert(world@.registered(before, Err(e), *sender, now, username_display@, fresh_id));
            return Err(e);
        },
    };
    match world.find_username(canonical.as_str()) {
        Some(i) => {
            world.players[i].identity = *sender;
            assert(world@.players =~= before.players.update(
                i as int,
                PlayerView { identity: *sender, ..before.players[i as int] },
            ));
            proof {
                if before.maps_consistent() {
                    crate::map::lemma_same_maps_consistent(before, world@);
                }
            }
            assert(world@.registered(before, Ok(()), *sender, now, username_display@, fresh_id));
            Ok(())
        },
        None => {
            let id = match fresh_id {
                Some(id) => id,
                None => {
                    assert(world@.registered(
                        before,
                        Err(GameError::NoFreePlayerId),
                        *sender,
                        now,
                        username_display@,
                        fresh_id,
                    ));
                    return Err(GameError::NoFreePlayerId);
                },
            };
            let player = Player {
                id: id,
                username_canonical: canonical,
                username_display: display,
                identity: *sender,
                position_x: REGISTRATION_X,
                position_y: REGISTRATION_Y,
                velocity_x: 0,
                velocity_y: 0,
                current_map_id: REGISTRATION_MAP.to_string(),
                health: REGISTRATION_HEALTH,
                max_health: REGISTRATION_HEALTH,
                is_downed: false,
                last_input_sequence: 0,
                last_transition_time: now,
            };
            world.players.push(player);
            assert(world@.players =~= before.players.push(
                fresh_player(id, *sender, now, username_display@),
            ));
            proof {
                crate::world::lemma_free_player_id(before, id);
            }
            proof {
                if before.maps_consistent() {
                    let none = Set::<Seq<char>>::empty();
                    crate::map::lemma_player_added_derived(
                        before,
                        fresh_player(id, *sender, now, username_display@),
                        none,
                    );
                    crate::map::lemma_refresh_map_state_derived(
                        world@,
                        REGISTRATION_MAP@,
                        none.insert(REGISTRATION_MAP@),
                    );
                    assert(none.insert(REGISTRATION_MAP@).remove(REGISTRATION_MAP@) =~= none);
                }
            }
            let _ = update_map_state(world, REGISTRATION_MAP);
            proof {
                crate::map::lemma_refresh_map_state(
                    WorldView {
                        players: before.players.push(
                            fresh_player(id, *sender, now, username_display@),
                        ),
                        ..before
                    },
                    REGISTRATION_MAP@,
                );
            }
            assert(world@.registered(before, Ok(()), *sender, now, username_display@, fresh_id));
            Ok(())
        },
    }
}

/// Handles the connection of a client: the map of its player, or the
/// registration map for a client without one, gets its live instance, and a
/// world without transition zones gets the default ones.
pub fn on_connect(world: &mut World, sender: &Identity)
    ensures
        old(world)@.wf() ==> final(world)@.wf(),
        final(world)@ == old(world)@.connect(*sender),
        old(world)@.maps_consistent() ==> final(world)@.maps_consistent(),
{
    let map = match world.find_owner(sender) {
        Some(i) => {
            assert(world@.players[i as int] == world.players[i as int]@);
            world.players[i].current_map_id.clone()
        },
        None => REGISTRATION_MAP.to_string(),
    };
    let _ = get_or_create_map_instance(world, map.as_str());
    let ghost made = world@;
    if world.map_transitions.len() == 0 {
        init_map_transitions(world);
    }
    proof {
        if made.maps_consistent() {
            crate::map::lemma_same_maps_consistent(made, world@);
        }
    }
}

/// Handles the disconnection of a client. Players persist across sessions,
/// so nothing changes; the answer is the id of the client's player, if it
/// has one.
pub fn on_disconnect(world: &World, sender: &Identity) -> (r: Option<u32>)
    ensures
        match world@.owner_index(*sender) {
            Some(i) => r == Some(world@.players[i].id),
            None => r is None,
        },
{
    match world.find_owner(sender) {
        Some(i) => {
            assert(world@.players[i as int] == world.players[i as int]@);
            Some(world.players[i].id)
        },
        None => None,
    }
}

/// The player that the client owns, if it has one.
pub fn get_player_info(world: &World, sender: &Identity) -> (r: Option<Player>)
    ensures
        match world@.owner_index(*sender) {
            Some(i) => r matches Some(p) && p@ == world@.players[i],
            None => r is None,
        },
{
    match world.find_owner(sender) {
        Some(i) => {
            assert(world@.players[i as int] == world.players[i as int]@);
            Some(world.players[i].clone())
        },
        None => None,
    }
}

/// What is known of a map by its name alone.
pub fn get_map_metadata(map_id: &str) -> (info: MapMetadata)
    ensures
        info@ == spec_map_metadata(map_id@),
{
    if same_text(map_id, "starting_area") {
        MapMetadata {
            id: "starting_area".to_string(),
            name: "Starting Village".to_string(),
            width: 1000,
            height: 1000,
            spawn_x: 100_000,
            spawn_y: 500_000,
        }
    } else if same_text(map_id, "forest_area") {
        MapMetadata {
            id: "forest_area".to_string(),
            name: "Dark Forest".to_string(),
            width: 1200,
            height: 1200,
            spawn_x: 100_000,
            spawn_y: 400_000,
        }
    } else {
        MapMetadata {
            id: "unknown".to_string(),
            name: "Unknown Area".to_string(),
            width: 800,
            height: 600,
            spawn_x: 0,
            spawn_y: 0,
        }
    }
}

/// What a client sees of a map: what is known of the map by its name, and
/// the players on it in table order. Fails where the client owns no
/// player.
pub fn get_map_data(world: &World, sender: &Identity, map_id: String) -> (r: Result<
    (MapMetadata, Vec<Player>),
    GameError,
>)
    ensures
        match world@.owner_index(*sender) {
            None => r matches Err(e) && e == GameError::PlayerNotAuthenticated,
            Some(_i) => r matches Ok(data) && data.0@ == spec_map_metadata(map_id@) && rows(
                data.1@,
            ) == world@.players.filter(player_on_map(map_id@)),
        },
{
    if world.find_owner(sender).is_none() {
        return Err(GameError::PlayerNotAuthenticated);
    }
    let info = get_map_metadata(map_id.as_str());
    let ghost p = player_on_map(map_id@);
    let mut found: Vec<Player> = Vec::new();
    let mut k: usize = 0;
    proof {
        assert(world@.players.take(0) =~= Seq::<PlayerView>::empty());
        reveal(Seq::filter);
        assert(rows(found@) =~= world@.players.take(0).filter(p));
    }
    while k < world.players.len()
        invariant
            k <= world.players.len(),
            p == player_on_map(map_id@),
            rows(found@) == world@.players.take(k as int).filter(p),
        decreases world.players.len() - k,
    {
        let player = &world.players[k];
        let ghost so_far = rows(found@);
        proof {
            world@.players.lemma_take_succ_push(k as int);
            world@.players.take(k as int).lemma_filter_push(world@.players[k as int], p);
        }
        if same_text(player.current_map_id.as_str(), map_id.as_str()) {
            found.push(player.clone());
            assert(rows(found@) =~= so_far.push(player@));
        }
        k += 1;
    }
    proof {
        world@.players.lemma_take_len();
    }
    Ok((info, found))
}

/// The answer to a health check of the server.
pub fn health_check() -> (r: String)
    ensures
        r@ == "Guildmaster server health check - OK"@,
{
    "Guildmaster server health check - OK".to_string()
}

/// The line that a test message is answered with: the message behind a
/// fixed prefix.
pub fn test_message(message: String) -> (r: String)
    ensures
        r@ == "Test message: "@ + message@,
{
    let mut line = "Test message: ".to_string();
    line.append(message.as_str());
    line
}

} // verus!
