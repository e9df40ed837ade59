//! Deciding whether a registry is well formed.

use vstd::prelude::*;
use crate::game::{adventure_share_of, winner_share_of};
use crate::invariants::{
    accounts_settled, funds_bounded, game_wf, ledgers_unique, names_unique, phases_ordered,
    registry_wf, result_sound, results_aligned, results_sound, voters_are_players,
    winner_is_player, winners_are_players,
};
use crate::model::{game_names, ledger_voters};
use crate::names::{all_distinct, all_members, contains_name};
use crate::state::{strings_view, AdventureState, GameState, MovieMagicContractState};

verus! {

impl AdventureState {
    /// The players who have voted, in ledger order.
    pub fn voters(&self) -> (voters: Vec<String>)
        ensures
            strings_view(voters@) == ledger_voters(self@),
    {
        let mut voters: Vec<String> = Vec::new();
        let mut i: usize = 0;
        while i < self.votes.len()
            invariant
                i <= self.votes.len(),
                strings_view(voters@) == ledger_voters(self@).take(i as int),
            decreases self.votes.len() - i,
        {
            let ghost before = strings_view(voters@);
            voters.push(self.votes[i].player.clone());
            assert(ledger_voters(self@)[i as int] == self.votes@[i as int].player@);
            assert(strings_view(voters@) =~= before.push(self.votes@[i as int].player@));
            assert(ledger_voters(self@).take(i + 1) =~= ledger_voters(self@).take(i as int).push(
                ledger_voters(self@)[i as int],
            ));
            i = i + 1;
        }
        assert(ledger_voters(self@).take(i as int) =~= ledger_voters(self@));
        voters
    }
}

impl GameState {
    /// Whether no player has two entries in a ledger and every voter is a player.
    pub fn ledgers_are_sound(&self) -> (ok: bool)
        ensures
            ok == (ledgers_unique(self@) && voters_are_players(self@)),
    {
        let mut i: usize = 0;
        while i < self.adventure_votes.len()
            invariant
                i <= self.adventure_votes.len(),
                forall|k: int|
                    0 <= k < i ==> #[trigger] ledger_voters(
                        self@.adventure_votes[k],
                    ).no_duplicates(),
                forall|k: int, j: int|
                    0 <= k < i && 0 <= j < self@.adventure_votes[k].len()
                        ==> self@.players.contains(#[trigger] self@.adventure_votes[k][j].player),
            decreases self.adventure_votes.len() - i,
        {
            let ghost ledger = self@.adventure_votes[i as int];
            assert(ledger == self.adventure_votes[i as int]@);
            let voters = self.adventure_votes[i].voters();
            if !all_distinct(&voters) {
                assert(!ledger_voters(self@.adventure_votes[i as int]).no_duplicates());
                return false;
            }
            if !all_members(&voters, &self.players) {
                let ghost j = choose|j: int|
                    0 <= j < voters.len() && !strings_view(self.players@).contains(
                        #[trigger] strings_view(voters@)[j],
                    );
                assert(ledger_voters(ledger)[j] == ledger[j].player);
                assert(!self@.players.contains(self@.adventure_votes[i as int][j].player));
                return false;
            }
            assert forall|j: int| 0 <= j < ledger.len() implies self@.players.contains(
                #[trigger] ledger[j].player,
            ) by {
                assert(strings_view(voters@)[j] == ledger[j].player);
            }
            i = i + 1;
        }
        true
    }

    /// Whether every winner of a tally is a player.
    pub fn winners_are_known(&self) -> (ok: bool)
        ensures
            ok == winners_are_players(self@),
    {
        let mut i: usize = 0;
        while i < self.adventure_winners.len()
            invariant
                i <= self.adventure_winners.len(),
                forall|k: int, j: int|
                    0 <= k < i && 0 <= j < self@.adventure_winners[k].len()
                        ==> self@.players.contains(#[trigger] self@.adventure_winners[k][j]),
            decreases self.adventure_winners.len() - i,
        {
            assert(self@.adventure_winners[i as int] == strings_view(
                self.adventure_winners[i as int]@,
            ));
            if !all_members(&self.adventure_winners[i], &self.players) {
                let ghost j = choose|j: int|
                    0 <= j < self.adventure_winners[i as int].len() && !strings_view(
                        self.players@,
                    ).contains(#[trigger] strings_view(self.adventure_winners[i as int]@)[j]);
                assert(!self@.players.contains(self@.adventure_winners[i as int][j]));
                return false;
            }
            i = i + 1;
        }
        true
    }

    /// Whether the three result sequences are aligned and every tally is sound.
    pub fn results_are_sound(&self) -> (ok: bool)
        ensures
            ok == (results_aligned(self@) && results_sound(self@)),
    {
        let tallies = self.adventure_winners.len();
        if self.adventure_rewards.len() != tallies || self.adventure_winning_votes.len()
            != tallies {
            return false;
        }
        if tallies == 0 {
            return true;
        }
        if self.num_of_adventures == 0 {
            assert(!result_sound(self@, 0));
            return false;
        }
        let part: u64 = self.adventure_funds / (self.num_of_adventures as u64);
        let mut i: usize = 0;
        while i < tallies
            invariant
                i <= tallies,
                tallies == self.adventure_winners.len(),
                tallies == self.adventure_rewards.len(),
                tallies == self.adventure_winning_votes.len(),
                self.num_of_adventures > 0,
                part == self.adventure_funds as nat / self.num_of_adventures as nat,
                forall|k: int| 0 <= k < i ==> #[trigger] result_sound(self@, k),
            decreases tallies - i,
        {
            let count: usize = self.adventure_winners[i].len();
            let reward: u64 = self.adventure_rewards[i];
            assert(self@.adventure_winners[i as int].len() == count);
            assert(self@.adventure_rewards[i as int] == reward);
            assert(self@.adventure_winning_votes[i as int] == self.adventure_winning_votes[i as int]);
            assert(reward * count <= u128::MAX) by (nonlinear_arith)
                requires
                    reward <= u64::MAX,
                    count <= u64::MAX,
            ;
            let together: u128 = (reward as u128) * (count as u128);
            if count == 0 || count != self.adventure_winning_votes[i] as usize || together
                > part as u128 {
                assert(!result_sound(self@, i as int));
                return false;
            }
            assert(result_sound(self@, i as int));
            i = i + 1;
        }
        true
    }

    /// Whether the amounts follow the phases.
    pub fn accounts_are_settled(&self) -> (ok: bool)
        ensures
            ok == accounts_settled(self@),
    {
        assert(self@.players.len() == self.players.len());
        assert(self@.adventure_votes.len() == self.adventure_votes.len());
        assert(self@.adventure_winners.len() == self.adventure_winners.len());
        let from_start = if self.started {
            self.adventure_funds == adventure_share_of(self.total_funds) && self.players.len() >= 2
                && self.total_funds > 0
        } else {
            self.adventure_funds == 0 && self.adventure_votes.len() == 0
                && self.adventure_winners.len() == 0
        };
        let from_end = if self.ended {
            self.winning_reward == winner_share_of(self.total_funds)
        } else {
            self.winning_reward == 0 && self.winner.as_str().is_empty()
        };
        from_start && from_end
    }

    /// Whether the game is well formed.
    pub fn is_well_formed(&self) -> (ok: bool)
        ensures
            ok == game_wf(self@),
    {
        let ordered = self.initiated && (!self.ended || self.started);
        let bounded = (self.adventure_funds as u128) + (self.winning_reward as u128)
            <= self.total_funds as u128;
        let named = !self.ended || self.winner.as_str().is_empty() || contains_name(
            &self.players,
            &self.winner,
        );
        assert(ordered == phases_ordered(self@));
        assert(bounded == funds_bounded(self@));
        assert(named == winner_is_player(self@));
        ordered && bounded && named && self.results_are_sound() && self.accounts_are_settled()
            && self.ledgers_are_sound() && self.winners_are_known()
    }
}

impl MovieMagicContractState {
    /// The names of the games, in registry order.
    pub fn names(&self) -> (names: Vec<String>)
        ensures
            strings_view(names@) == game_names(self@.games),
    {
        let mut names: Vec<String> = Vec::new();
        let mut i: usize = 0;
        while i < self.games.len()
            invariant
                i <= self.games.len(),
                strings_view(names@) == game_names(self@.games).take(i as int),
            decreases self.games.len() - i,
        {
            let ghost before = strings_view(names@);
            names.push(self.games[i].name.clone());
            assert(game_names(self@.games)[i as int] == self.games@[i as int].name@);
            assert(strings_view(names@) =~= before.push(self.games@[i as int].name@));
            assert(game_names(self@.games).take(i + 1) =~= game_names(self@.games).take(
                i as int,
            ).push(game_names(self@.games)[i as int]));
            i = i + 1;
        }
        assert(game_names(self@.games).take(i as int) =~= game_names(self@.games));
        names
    }

    /// Whether the registry is well formed: the names are unique and every
    /// game is well formed.
    pub fn is_well_formed(&self) -> (ok: bool)
        ensures
            ok == registry_wf(self@),
    {
        let names = self.names();
        if !all_distinct(&names) {
            assert(!names_unique(self@));
            return false;
        }
        let mut i: usize = 0;
        while i < self.games.len()
            invariant
                i <= self.games.len(),
                names_unique(self@),
                forall|k: int| 0 <= k < i ==> #[trigger] game_wf(self@.games[k]),
            decreases self.games.len() - i,
        {
            assert(self@.games[i as int] == self.games[i as int]@);
            if !self.games[i].is_well_formed() {
                return false;
            }
            i = i + 1;
        }
        true
    }
}

} // verus!
