//! The messages that the dispatch layer decodes.

use vstd::prelude::*;
use crate::model::{MsgModel, VoteModel};

verus! {

/// The message that accompanies instantiation. It carries nothing that the
/// registry uses: the owner comes from the caller's identity.
#[derive(Clone, Debug, PartialEq, Eq)]
pub struct InstantiateMsg {
    pub count: i32,
}

/// A player and the vote that player cast: one entry of a ledger.
#[derive(Clone, Debug, PartialEq, Eq)]
pub struct GamePlayerVote {
    pub player: String,
    pub vote: u32,
}

impl View for GamePlayerVote {
    type V = VoteModel;

    open spec fn view(&self) -> VoteModel {
        VoteModel { player: self.player@, vote: self.vote as nat }
    }
}

/// A command to the registry.
#[derive(Clone, Debug, PartialEq, Eq)]
pub enum ExecuteMsg {
    InitGame { name: String, player: String, game_stake: u64, num_of_adventures: u32 },
    AddGamePlayer { name: String, player: String, game_stake: u64 },
    StartGame { name: String },
    VoteForAdventure { name: String, player: String, adventure_number: u32, vote: u32 },
    GameAdventureStop { name: String, adventure_number: u32 },
    EndGame { name: String },
}

impl View for ExecuteMsg {
    type V = MsgModel;

    open spec fn view(&self) -> MsgModel {
        match self {
            ExecuteMsg::InitGame { name, player, game_stake, num_of_adventures } => {
                MsgModel::InitGame {
                    name: name@,
                    player: player@,
                    game_stake: *game_stake as nat,
                    num_of_adventures: *num_of_adventures as nat,
                }
            },
            ExecuteMsg::AddGamePlayer { name, player, game_stake } => MsgModel::AddGamePlayer {
                name: name@,
                player: player@,
                game_stake: *game_stake as nat,
            },
            ExecuteMsg::StartGame { name } => MsgModel::StartGame { name: name@ },
            ExecuteMsg::VoteForAdventure { name, player, adventure_number, vote } => {
                MsgModel::VoteForAdventure {
                    name: name@,
                    player: player@,
                    adventure_number: *adventure_number as nat,
                    vote: *vote as nat,
                }
            },
            ExecuteMsg::GameAdventureStop { name, adventure_number } => {
                MsgModel::GameAdventureStop {
                    name: name@,
                    adventure_number: *adventure_number as nat,
                }
            },
            ExecuteMsg::EndGame { name } => MsgModel::EndGame { name: name@ },
        }
    }
}

impl ExecuteMsg {
    /// The address that the validator has to see before the command runs:
    /// the player of the two commands that add one, `None` for the others.
    pub fn address_to_validate(&self) -> (raw: Option<String>)
        ensures
            match self {
                ExecuteMsg::InitGame { player, .. } => raw == Some(*player),
                ExecuteMsg::AddGamePlayer { player, .. } => raw == Some(*player),
                _ => raw is None,
            },
    {
        match self {
            ExecuteMsg::InitGame { player, .. } => Some(player.clone()),
            ExecuteMsg::AddGamePlayer { player, .. } => Some(player.clone()),
            _ => None,
        }
    }
}

/// A query. The one query returns the whole registry.
#[derive(Clone, Debug, PartialEq, Eq)]
pub enum QueryMsg {
    GetCount {  },
}

/// The number of games in the registry.
#[derive(Clone, Debug, PartialEq, Eq)]
pub struct GetCountResponse {
    pub games_count: i32,
}

} // verus!
