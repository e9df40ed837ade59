//! The transitions of one game.

use vstd::prelude::*;
use crate::error::ContractError;
use crate::model::{adventure_share, winner_share, GameModel};
use crate::names::contains_name;
use crate::rules::{game_end, game_join, game_new, game_start, game_stop, game_vote};
use crate::state::{option_view, strings_view, AdventureState, GameState};
use crate::tally::{find_overall_winner, tally_ledger};

verus! {

/// Four fifths of the pool, rounded down.
pub fn adventure_share_of(total_funds: u64) -> (share: u64)
    ensures
        share == adventure_share(total_funds as nat),
{
    let wide: u128 = (total_funds as u128) * 80 / 100;
    wide as u64
}

/// One fifth of the pool, rounded down.
pub fn winner_share_of(total_funds: u64) -> (share: u64)
    ensures
        share == winner_share(total_funds as nat),
{
    let wide: u128 = (total_funds as u128) * 20 / 100;
    wide as u64
}

impl GameState {
    /// A game as it is created: initiated, with its first player and that
    /// player's stake as the pool.
    pub fn new(name: String, player: String, num_of_adventures: u32, game_stake: u64) -> (g:
        GameState)
        ensures
            g@ == game_new(name@, player@, num_of_adventures as nat, game_stake as nat),
    {
        let g = GameState {
            name,
            players: vec![player],
            total_funds: game_stake,
            adventure_funds: 0,
            initiated: true,
            started: false,
            ended: false,
            winner: String::new(),
            winning_reward: 0,
            adventure_votes: Vec::new(),
            adventure_winners: Vec::new(),
            adventure_rewards: Vec::new(),
            adventure_winning_votes: Vec::new(),
            num_of_adventures,
        };
        assert(g@ =~~= game_new(name@, player@, num_of_adventures as nat, game_stake as nat));
        g
    }

    /// Whether `player` is one of the game's players.
    pub fn has_player(&self, player: &String) -> (found: bool)
        ensures
            found == self@.players.contains(player@),
    {
        contains_name(&self.players, player)
    }

    /// A player joins with a stake. `player` is the canonical form that the
    /// address validator gave, `None` where it rejected the address.
    pub fn join(&mut self, player: Option<String>, game_stake: u64) -> (res: Result<
        (),
        ContractError,
    >)
        ensures
            match res {
                Ok(()) => game_join(old(self)@, option_view(player), game_stake as nat) == Ok::<
                    GameModel,
                    ContractError,
                >(final(self)@),
                Err(e) => game_join(old(self)@, option_view(player), game_stake as nat) == Err::<
                    GameModel,
                    ContractError,
                >(e) && *final(self) == *old(self),
            },
    {
        let canonical = match player {
            Some(p) => p,
            None => {
                return Err(ContractError::InvalidAddress);
            },
        };
        if self.started {
            return Err(ContractError::GameAlreadyStarted);
        }
        if game_stake > u64::MAX - self.total_funds {
            return Err(ContractError::Overflow);
        }
        self.players.push(canonical);
        self.total_funds = self.total_funds + game_stake;
        assert(self@ =~~= game_join(
            old(self)@,
            option_view(player),
            game_stake as nat,
        )->Ok_0);
        Ok(())
    }

    /// Starts the game and sets the adventure funds aside.
    pub fn start(&mut self) -> (res: Result<(), ContractError>)
        ensures
            match res {
                Ok(()) => game_start(old(self)@) == Ok::<GameModel, ContractError>(final(self)@),
                Err(e) => game_start(old(self)@) == Err::<GameModel, ContractError>(e)
                    && *final(self) == *old(self),
            },
    {
        assert(strings_view(self.players@).len() == self.players@.len());
        if self.total_funds == 0 || self.players.len() < 2 {
            return Err(ContractError::InsufficientParticipation);
        }
        self.started = true;
        self.adventure_funds = adventure_share_of(self.total_funds);
        assert(self@ =~~= game_start(old(self)@)->Ok_0);
        Ok(())
    }

    /// Records a player's vote for an open adventure, or opens the next one with it.
    pub fn vote(&mut self, player: String, adventure_number: u32, vote: u32) -> (res: Result<
        (),
        ContractError,
    >)
        ensures
            match res {
                Ok(()) => game_vote(
                    old(self)@,
                    player@,
                    adventure_number as nat,
                    vote as nat,
                ) == Ok::<GameModel, ContractError>(final(self)@),
                Err(e) => game_vote(
                    old(self)@,
                    player@,
                    adventure_number as nat,
                    vote as nat,
                ) == Err::<GameModel, ContractError>(e) && *final(self) == *old(self),
            },
    {
        if !self.started {
            return Err(ContractError::GameNotStarted);
        }
        if !self.has_player(&player) {
            return Err(ContractError::PlayerNotInGame);
        }
        let open = self.adventure_votes.len();
        let at = adventure_number as usize;
        assert(self@.adventure_votes.len() == open);
        if at > open {
            return Err(ContractError::AdventureNotOpen);
        }
        if at < open {
            self.adventure_votes[at].cast(player, vote);
        } else {
            let mut ledger = AdventureState::new();
            ledger.cast(player, vote);
            self.adventure_votes.push(ledger);
        }
        assert(self@ =~~= game_vote(
            old(self)@,
            player@,
            adventure_number as nat,
            vote as nat,
        )->Ok_0);
        Ok(())
    }

    /// Tallies an adventure and appends the outcome to the results.
    pub fn stop_adventure(&mut self, adventure_number: u32) -> (res: Result<(), ContractError>)
        ensures
            match res {
                Ok(()) => game_stop(old(self)@, adventure_number as nat) == Ok::<
                    GameModel,
                    ContractError,
                >(final(self)@),
                Err(e) => game_stop(old(self)@, adventure_number as nat) == Err::<
                    GameModel,
                    ContractError,
                >(e) && *final(self) == *old(self),
            },
    {
        let at = adventure_number as usize;
        assert(self@.adventure_votes.len() == self.adventure_votes.len());
        if at >= self.adventure_votes.len() {
            return Err(ContractError::Internal);
        }
        assert(self@.adventure_votes[at as int] == self.adventure_votes[at as int]@);
        match tally_ledger(&self.adventure_votes[at], self.adventure_funds, self.num_of_adventures) {
            Err(e) => Err(e),
            Ok(t) => {
                self.adventure_winning_votes.push(t.winning_votes);
                self.adventure_winners.push(t.winners);
                self.adventure_rewards.push(t.reward);
                assert(self@ =~~= game_stop(old(self)@, adventure_number as nat)->Ok_0);
                Ok(())
            },
        }
    }

    /// Ends the game: names the overall winner, where there is one, and fixes
    /// the winning reward.
    pub fn end(&mut self) -> (res: Result<(), ContractError>)
        ensures
            match res {
                Ok(()) => game_end(old(self)@) == Ok::<GameModel, ContractError>(final(self)@),
                Err(e) => game_end(old(self)@) == Err::<GameModel, ContractError>(e)
                    && *final(self) == *old(self),
            },
    {
        if !self.started {
            return Err(ContractError::GameNotStarted);
        }
        match find_overall_winner(&self.adventure_winners) {
            Some(w) => {
                self.winner = w;
            },
            None => {},
        }
        self.winning_reward = winner_share_of(self.total_funds);
        self.ended = true;
        assert(self@ =~~= game_end(old(self)@)->Ok_0);
        Ok(())
    }
}

} // verus!
