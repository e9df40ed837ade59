//! The error kinds that a rejected command reports.

use vstd::prelude::*;

verus! {

/// Why a command was rejected. A rejected command leaves the registry as it was.
#[derive(Clone, Copy, Debug, PartialEq, Eq, Structural)]
pub enum ContractError {
    /// Reserved; no transition raises it.
    Unauthorized,
    /// No game in the registry has the given name.
    GameNotFound,
    /// A game with the given name already exists.
    DuplicateName,
    /// The action needs a started game.
    GameNotStarted,
    /// A player with a valid address tried to join a game that has already started.
    GameAlreadyStarted,
    /// A start was attempted with fewer than two players or with no funds.
    InsufficientParticipation,
    /// The voter is not among the game's players.
    PlayerNotInGame,
    /// The adventure number lies beyond the next adventure to open.
    AdventureNotOpen,
    /// The address validator rejected the player's address.
    InvalidAddress,
    /// A sum of stakes or a count of votes does not fit its integer type.
    Overflow,
    /// The tally found no ledger, no adventures to share among, or no winning vote.
    Internal,
}

impl ContractError {
    /// The text of each error kind.
    pub open spec fn text(self) -> Seq<char> {
        match self {
            ContractError::Unauthorized => "Unauthorized"@,
            ContractError::GameNotFound => "Game not found"@,
            ContractError::DuplicateName => "A game with this name already exists."@,
            ContractError::GameNotStarted => "Game has not been started yet."@,
            ContractError::GameAlreadyStarted => "Game has already been started."@,
            ContractError::InsufficientParticipation =>
                "Game cannot be started with less than 2 players or zero funds."@,
            ContractError::PlayerNotInGame => "This player is not part of the game."@,
            ContractError::AdventureNotOpen => "Voting has not started for this adventure."@,
            ContractError::InvalidAddress => "Invalid player address."@,
            ContractError::Overflow => "Arithmetic overflow."@,
            ContractError::Internal => "Error in counting votes"@,
        }
    }

    /// The human-readable message that the response to a rejected command carries.
    pub fn message(&self) -> (s: String)
        ensures
            s@ == self.text(),
    {
        match self {
            ContractError::Unauthorized => "Unauthorized".to_owned(),
            ContractError::GameNotFound => "Game not found".to_owned(),
            ContractError::DuplicateName => "A game with this name already exists.".to_owned(),
            ContractError::GameNotStarted => "Game has not been started yet.".to_owned(),
            ContractError::GameAlreadyStarted => "Game has already been started.".to_owned(),
            ContractError::InsufficientParticipation =>
                "Game cannot be started with less than 2 players or zero funds.".to_owned(),
            ContractError::PlayerNotInGame => "This player is not part of the game.".to_owned(),
            ContractError::AdventureNotOpen =>
                "Voting has not started for this adventure.".to_owned(),
            ContractError::InvalidAddress => "Invalid player address.".to_owned(),
            ContractError::Overflow => "Arithmetic overflow.".to_owned(),
            ContractError::Internal => "Error in counting votes".to_owned(),
        }
    }
}

} // verus!
