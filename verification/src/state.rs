//! The registry and its games as they are held in memory and stored.

use vstd::prelude::*;
use crate::model::{GameModel, RegistryModel, VoteModel};
use crate::msg::GamePlayerVote;

verus! {

/// A counter with its owner.
#[derive(Clone, Debug, PartialEq, Eq)]
pub struct State {
    pub count: i32,
    pub owner: String,
}

/// The vote ledger of one adventure: one entry for each player who has
/// voted, in the order of their first votes.
#[derive(Clone, Debug, PartialEq, Eq)]
pub struct AdventureState {
    pub votes: Vec<GamePlayerVote>,
}

impl View for AdventureState {
    type V = Seq<VoteModel>;

    open spec fn view(&self) -> Seq<VoteModel> {
        self.votes@.map_values(|e: GamePlayerVote| e@)
    }
}

/// What a list of strings holds.
pub open spec fn strings_view(v: Seq<String>) -> Seq<Seq<char>> {
    v.map_values(|s: String| s@)
}

/// What the winner lists of the tallies hold.
pub open spec fn winners_view(w: Seq<Vec<String>>) -> Seq<Seq<Seq<char>>> {
    w.map_values(|v: Vec<String>| strings_view(v@))
}

/// What an optional string holds.
pub open spec fn option_view(s: Option<String>) -> Option<Seq<char>> {
    match s {
        Some(t) => Some(t@),
        None => None,
    }
}

/// One game.
#[derive(Clone, Debug, PartialEq, Eq)]
pub struct GameState {
    /// The name by which commands find the game.
    pub name: String,
    /// The players, in the order in which they joined.
    pub players: Vec<String>,
    /// The sum of all stakes.
    pub total_funds: u64,
    /// The part of the pool that is shared out adventure by adventure.
    pub adventure_funds: u64,
    pub initiated: bool,
    pub started: bool,
    pub ended: bool,
    /// The overall winner; empty until the game has ended.
    pub winner: String,
    /// What the overall winner receives.
    pub winning_reward: u64,
    /// One ledger for each adventure that a vote has opened.
    pub adventure_votes: Vec<AdventureState>,
    /// For each tally, the players who voted for the winning option.
    pub adventure_winners: Vec<Vec<String>>,
    /// For each tally, what each of its winners receives.
    pub adventure_rewards: Vec<u64>,
    /// For each tally, the number of votes for the winning option.
    pub adventure_winning_votes: Vec<u32>,
    pub num_of_adventures: u32,
}

impl View for GameState {
    type V = GameModel;

    open spec fn view(&self) -> GameModel {
        GameModel {
            name: self.name@,
            players: strings_view(self.players@),
            total_funds: self.total_funds as nat,
            adventure_funds: self.adventure_funds as nat,
            initiated: self.initiated,
            started: self.started,
            ended: self.ended,
            winner: self.winner@,
            winning_reward: self.winning_reward as nat,
            adventure_votes: self.adventure_votes@.map_values(|l: AdventureState| l@),
            adventure_winners: winners_view(self.adventure_winners@),
            adventure_rewards: self.adventure_rewards@.map_values(|r: u64| r as nat),
            adventure_winning_votes: self.adventure_winning_votes@.map_values(|c: u32| c as nat),
            num_of_adventures: self.num_of_adventures as nat,
        }
    }
}

/// The registry: the single value that is stored.
#[derive(Clone, Debug, PartialEq, Eq)]
pub struct MovieMagicContractState {
    /// The games, in the order of their creation.
    pub games: Vec<GameState>,
    /// The account that instantiated the registry.
    pub owner: String,
}

impl View for MovieMagicContractState {
    type V = RegistryModel;

    open spec fn view(&self) -> RegistryModel {
        RegistryModel { games: self.games@.map_values(|g: GameState| g@), owner: self.owner@ }
    }
}

/// A message in answer to a query.
#[derive(Clone, Debug, PartialEq, Eq)]
pub struct QueryResp {
    pub message: String,
}

} // verus!
