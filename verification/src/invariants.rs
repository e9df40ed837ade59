//! What holds of every registry that the commands can reach.

use vstd::prelude::*;
use crate::model::{
    adventure_share, game_names, ledger_voters, winner_share, GameModel, RegistryModel,
};

verus! {

/// The phases come in order: a game in the registry is initiated, and a game
/// that has ended has started.
pub open spec fn phases_ordered(g: GameModel) -> bool {
    g.initiated && (g.ended ==> g.started)
}

/// The three result sequences have one entry for each tally.
pub open spec fn results_aligned(g: GameModel) -> bool {
    &&& g.adventure_winners.len() == g.adventure_rewards.len()
    &&& g.adventure_winners.len() == g.adventure_winning_votes.len()
}

/// What is set aside for adventures and for the overall winner comes out of the pool.
pub open spec fn funds_bounded(g: GameModel) -> bool {
    g.adventure_funds + g.winning_reward <= g.total_funds
}

/// No player has two entries in a ledger.
pub open spec fn ledgers_unique(g: GameModel) -> bool {
    forall|i: int|
        0 <= i < g.adventure_votes.len() ==> #[trigger] ledger_voters(
            g.adventure_votes[i],
        ).no_duplicates()
}

/// The tally at `i` has as many winners as winning votes, at least one, and
/// what they receive together is no more than one adventure's part of the
/// adventure funds.
pub open spec fn result_sound(g: GameModel, i: int) -> bool {
    &&& g.num_of_adventures > 0
    &&& g.adventure_winners[i].len() > 0
    &&& g.adventure_winners[i].len() == g.adventure_winning_votes[i]
    &&& g.adventure_rewards[i] * g.adventure_winners[i].len() <= g.adventure_funds
        / g.num_of_adventures
}

/// Every tally is sound.
pub open spec fn results_sound(g: GameModel) -> bool {
    forall|i: int| 0 <= i < g.adventure_winners.len() ==> #[trigger] result_sound(g, i)
}

/// The amounts follow the phases: nothing is set aside, voted or tallied
/// before the start; from the start on the adventure funds are four fifths of
/// the pool, which two players or more have filled; the winning reward is
/// nothing until the end and one fifth of the pool from then on; and no
/// winner is named before the end.
pub open spec fn accounts_settled(g: GameModel) -> bool {
    &&& g.started ==> {
        &&& g.adventure_funds == adventure_share(g.total_funds)
        &&& g.players.len() >= 2
        &&& g.total_funds > 0
    }
    &&& !g.started ==> {
        &&& g.adventure_funds == 0
        &&& g.adventure_votes.len() == 0
        &&& g.adventure_winners.len() == 0
    }
    &&& g.ended ==> g.winning_reward == winner_share(g.total_funds)
    &&& !g.ended ==> g.winning_reward == 0 && g.winner.len() == 0
}

/// Whoever has voted is a player.
pub open spec fn voters_are_players(g: GameModel) -> bool {
    forall|i: int, j: int|
        0 <= i < g.adventure_votes.len() && 0 <= j < g.adventure_votes[i].len()
            ==> g.players.contains(#[trigger] g.adventure_votes[i][j].player)
}

/// Whoever has won an adventure is a player.
pub open spec fn winners_are_players(g: GameModel) -> bool {
    forall|i: int, j: int|
        0 <= i < g.adventure_winners.len() && 0 <= j < g.adventure_winners[i].len()
            ==> g.players.contains(#[trigger] g.adventure_winners[i][j])
}

/// The overall winner of a game that has ended is a player, or is not named.
pub open spec fn winner_is_player(g: GameModel) -> bool {
    g.ended ==> g.winner.len() == 0 || g.players.contains(g.winner)
}

/// What holds of every game.
pub open spec fn game_wf(g: GameModel) -> bool {
    &&& phases_ordered(g)
    &&& results_aligned(g)
    &&& funds_bounded(g)
    &&& ledgers_unique(g)
    &&& results_sound(g)
    &&& accounts_settled(g)
    &&& voters_are_players(g)
    &&& winners_are_players(g)
    &&& winner_is_player(g)
}

/// No two games have the same name.
pub open spec fn names_unique(r: RegistryModel) -> bool {
    game_names(r.games).no_duplicates()
}

/// What holds of every registry: the names are unique and every game is well formed.
pub open spec fn registry_wf(r: RegistryModel) -> bool {
    &&& names_unique(r)
    &&& forall|i: int| 0 <= i < r.games.len() ==> #[trigger] game_wf(r.games[i])
}

} // verus!
