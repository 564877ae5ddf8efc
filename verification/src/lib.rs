//! Authoritative simulation core of a multiplayer action game.
//!
//! The library owns the truth about players, enemies, projectiles and maps.
//! Clients submit what they claim to have done; the library corrects or
//! drops what the rules do not allow and commits the rest. Every operation
//! works on a [`world::World`], a snapshot of all tables, which it takes by
//! exclusive reference: operations run one at a time, each to completion.
//!
//! All quantities are fixed-point integers, a thousand steps to the unit
//! (see [`fixed`]), so that every comparison is exact. The contracts of the
//! operations are stated over the mathematical value of the world (see
//! [`world::WorldView`]) and say, for every input, what the world is
//! afterwards and what the caller is told.
//!
//! * [`movement`]: the movement validator.
//! * [`combat`], [`hit_area`]: melee attacks, damage and the combat log.
//! * [`enemy_ai`]: the behaviour state of enemies.
//! * [`projectile`]: arrows in flight.
//! * [`map`], [`template`]: live maps, transition zones, map templates.
//! * [`character`]: health, the downed state and revival.
//! * [`account`], [`inventory`], [`interaction`], [`resource_registry`]:
//!   the stores around the simulation.
//! * [`entity`], [`world`], [`table`], [`error`], [`stamp`], [`text`],
//!   [`fixed`]: what the rest is built from.

pub mod account;
pub mod character;
pub mod combat;
pub mod enemy_ai;
pub mod entity;
pub mod error;
pub mod fixed;
pub mod hit_area;
pub mod interaction;
pub mod inventory;
pub mod map;
pub mod movement;
pub mod projectile;
pub mod resource_registry;
pub mod stamp;
pub mod table;
pub mod template;
pub mod text;
pub mod world;
