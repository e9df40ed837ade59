//! The vote ledger of one adventure.

use vstd::prelude::*;
use crate::model::{
    is_first_index, is_vote_for, ledger_cast, ledger_voters, lemma_first_index_is, voters_for,
    VoteModel,
};
use crate::msg::GamePlayerVote;
use crate::state::AdventureState;

verus! {

impl AdventureState {
    /// A ledger without votes.
    pub fn new() -> (ledger: AdventureState)
        ensures
            ledger@ == Seq::<VoteModel>::empty(),
    {
        AdventureState { votes: Vec::new() }
    }

    /// Where the player's entry stands, if the player has voted.
    pub fn position(&self, player: &String) -> (at: Option<usize>)
        ensures
            match at {
                Some(i) => is_first_index(ledger_voters(self@), player@, i as int),
                None => !ledger_voters(self@).contains(player@),
            },
    {
        let mut i: usize = 0;
        while i < self.votes.len()
            invariant
                i <= self.votes.len(),
                forall|j: int| 0 <= j < i ==> ledger_voters(self@)[j] != player@,
            decreases self.votes.len() - i,
        {
            if self.votes[i].player == *player {
                return Some(i);
            }
            i = i + 1;
        }
        None
    }

    /// Records the player's vote, in place of an earlier vote of that player.
    pub fn cast(&mut self, player: String, vote: u32)
        ensures
            final(self)@ == ledger_cast(old(self)@, player@, vote as nat),
    {
        match self.position(&player) {
            Some(i) => {
                proof {
                    lemma_first_index_is(ledger_voters(self@), player@, i as int);
                }
                self.votes[i].vote = vote;
                assert(self@ =~= ledger_cast(old(self)@, player@, vote as nat));
            },
            None => {
                self.votes.push(GamePlayerVote { player, vote });
                assert(self@ =~= ledger_cast(old(self)@, player@, vote as nat));
            },
        }
    }
}

/// What one more entry adds to the voters for an option.
pub proof fn lemma_voters_for_push(ledger: Seq<VoteModel>, entry: VoteModel, option: nat)
    ensures
        voters_for(ledger.push(entry), option) == if entry.vote == option {
            voters_for(ledger, option).push(entry.player)
        } else {
            voters_for(ledger, option)
        },
{
    ledger.lemma_filter_push(entry, is_vote_for(option));
    if entry.vote == option {
        assert(voters_for(ledger.push(entry), option) =~= voters_for(ledger, option).push(
            entry.player,
        ));
    }
}

} // verus!
