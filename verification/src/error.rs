//! The hard errors of the library. Soft rejections (a stale sequence number,
//! an action of a downed player, an empty quiver) are not errors: the
//! operation succeeds and changes nothing.

use vstd::prelude::*;

verus! {

/// Why an operation was refused. A refused operation changes nothing.
#[derive(Clone, Copy, Debug, PartialEq, Eq, Structural)]
pub enum GameError {
    /// No player has the given id.
    PlayerNotFound,
    /// The caller does not own the player.
    Unauthorized,
    /// The caller does not own the player whose movement was submitted.
    UnauthorizedMovement,
    /// The caller does not own the player whose position was to be corrected.
    UnauthorizedPositionCorrection,
    /// The caller does not own the player that was to be changed.
    UnauthorizedPlayerUpdate,
    /// The caller owns no player.
    PlayerNotAuthenticated,
    /// The item is not a health consumable.
    UnknownConsumable,
    /// The user name is empty once trimmed.
    UsernameEmpty,
    /// The user name is too short or too long.
    UsernameLength,
    /// The user name holds a character other than ASCII letters, digits, `_` and `-`.
    UsernameCharacters,
    /// The player stands in no zone that leads to the requested place.
    TransitionDenied,
    /// Every numeric id is taken by a player.
    NoFreePlayerId,
    /// An enemy with the given id is already alive.
    DuplicateEnemy,
    /// The item's slot class has no equipment slot.
    ItemNotEquippable,
    /// The player's inventory holds no such item.
    ItemNotOwned,
    /// None of the player's equipment slots holds the item.
    ItemNotEquipped,
    /// No world object has the given id.
    ObjectNotFound,
    /// The player stands outside the interaction range of the object.
    TooFar,
    /// The player lacks what the action requires.
    RequirementsNotMet,
    /// The kind of object does not support the action.
    InvalidAction,
    /// The tree has no fruit left.
    NoFruit,
    /// The tree has no durability left.
    TreeAlreadyCut,
    /// The rock is gone.
    RockAlreadyPickedUp,
    /// The rock has no durability left.
    RockAlreadyBroken,
    /// A resource with the given key exists.
    ResourceAlreadyRegistered,
    /// The resource type is none of the three known ones.
    InvalidResourceType,
    /// The key maps to an id that no resource has.
    ResourceDataNotFound,
    /// No resource has the given key or id.
    ResourceNotFound,
}

impl GameError {
    /// The message of the error, as a sequence of characters.
    pub open spec fn spec_message(self) -> Seq<char> {
        match self {
            GameError::PlayerNotFound => "Player not found"@,
            GameError::Unauthorized => "Unauthorized"@,
            GameError::UnauthorizedMovement => "Unauthorized movement update"@,
            GameError::UnauthorizedPositionCorrection => "Unauthorized position correction"@,
            GameError::UnauthorizedPlayerUpdate => "Unauthorized player update"@,
            GameError::PlayerNotAuthenticated => "Player not authenticated"@,
            GameError::UnknownConsumable => "Unknown consumable item"@,
            GameError::UsernameEmpty => "Username cannot be empty"@,
            GameError::UsernameLength => "Username must be between 3 and 16 characters"@,
            GameError::UsernameCharacters => "Username has invalid characters"@,
            GameError::TransitionDenied => "No transition zone leads there"@,
            GameError::NoFreePlayerId => "No free player id"@,
            GameError::DuplicateEnemy => "Enemy already exists"@,
            GameError::ItemNotEquippable => "Item cannot be equipped"@,
            GameError::ItemNotOwned => "Player does not have this item"@,
            GameError::ItemNotEquipped => "Item not equipped"@,
            GameError::ObjectNotFound => "Object not found"@,
            GameError::TooFar => "Player too far from object"@,
            GameError::RequirementsNotMet => "Action requirements not met"@,
            GameError::InvalidAction => "Invalid action for object type"@,
            GameError::NoFruit => "No fruit to shake"@,
            GameError::TreeAlreadyCut => "Tree already cut down"@,
            GameError::RockAlreadyPickedUp => "Rock already picked up"@,
            GameError::RockAlreadyBroken => "Rock already broken"@,
            GameError::ResourceAlreadyRegistered => "Resource already registered"@,
            GameError::InvalidResourceType => {
                "Invalid resource type. Must be 'map', 'item', or 'npc'"@
            },
            GameError::ResourceDataNotFound => "Resource data not found"@,
            GameError::ResourceNotFound => "Resource not found"@,
        }
    }

    /// The message of the error.
    pub fn message(&self) -> (text: String)
        ensures
            text@ == self.spec_message(),
    {
        match self {
            GameError::PlayerNotFound => "Player not found".to_string(),
            GameError::Unauthorized => "Unauthorized".to_string(),
            GameError::UnauthorizedMovement => "Unauthorized movement update".to_string(),
            GameError::UnauthorizedPositionCorrection => {
                "Unauthorized position correction".to_string()
            },
            GameError::UnauthorizedPlayerUpdate => "Unauthorized player update".to_string(),
            GameError::PlayerNotAuthenticated => "Player not authenticated".to_string(),
            GameError::UnknownConsumable => "Unknown consumable item".to_string(),
            GameError::UsernameEmpty => "Username cannot be empty".to_string(),
            GameError::UsernameLength => "Username must be between 3 and 16 characters".to_string(),
            GameError::UsernameCharacters => "Username has invalid characters".to_string(),
            GameError::TransitionDenied => "No transition zone leads there".to_string(),
            GameError::NoFreePlayerId => "No free player id".to_string(),
            GameError::DuplicateEnemy => "Enemy already exists".to_string(),
            GameError::ItemNotEquippable => "Item cannot be equipped".to_string(),
            GameError::ItemNotOwned => "Player does not have this item".to_string(),
            GameError::ItemNotEquipped => "Item not equipped".to_string(),
            GameError::ObjectNotFound => "Object not found".to_string(),
            GameError::TooFar => "Player too far from object".to_string(),
            GameError::RequirementsNotMet => "Action requirements not met".to_string(),
            GameError::InvalidAction => "Invalid action for object type".to_string(),
            GameError::NoFruit => "No fruit to shake".to_string(),
            GameError::TreeAlreadyCut => "Tree already cut down".to_string(),
            GameError::RockAlreadyPickedUp => "Rock already picked up".to_string(),
            GameError::RockAlreadyBroken => "Rock already broken".to_string(),
            GameError::ResourceAlreadyRegistered => "Resource already registered".to_string(),
            GameError::InvalidResourceType => {
                "Invalid resource type. Must be 'map', 'item', or 'npc'".to_string()
            },
            GameError::ResourceDataNotFound => "Resource data not found".to_string(),
            GameError::ResourceNotFound => "Resource not found".to_string(),
        }
    }
}

} // verus!
